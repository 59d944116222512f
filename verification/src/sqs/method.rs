//! SQS API method names, as carried by the `X-Amz-Target` header
//! (`AmazonSQS.{MethodName}`).

use crate::error::Error;
use crate::text::{chars_of, str_eq, string_from_chars};
use vstd::prelude::*;

verus! {

/// Standard prefix for all SQS API method names; a dot separates it from the
/// method name.
pub const SQS_METHOD_PREFIX: &'static str = "AmazonSQS";

/// An SQS API method.
#[derive(Debug, Clone, Copy, PartialEq, Eq, Structural)]
pub enum Method {
    ChangeMessageVisibility,
    ChangeMessageVisibilityBatch,
    CreateQueue,
    DeleteMessage,
    DeleteMessageBatch,
    DeleteQueue,
    GetQueueAttributes,
    GetQueueUrl,
    ListQueues,
    ListQueueTags,
    PurgeQueue,
    ReceiveMessage,
    SendMessage,
    SendMessageBatch,
    SetQueueAttributes,
    TagQueue,
    UntagQueue,
}

/// The name of a method as it appears after the prefix.
pub open spec fn method_name(m: Method) -> Seq<char> {
    match m {
        Method::ChangeMessageVisibility => "ChangeMessageVisibility"@,
        Method::ChangeMessageVisibilityBatch => "ChangeMessageVisibilityBatch"@,
        Method::CreateQueue => "CreateQueue"@,
        Method::DeleteMessage => "DeleteMessage"@,
        Method::DeleteMessageBatch => "DeleteMessageBatch"@,
        Method::DeleteQueue => "DeleteQueue"@,
        Method::GetQueueAttributes => "GetQueueAttributes"@,
        Method::GetQueueUrl => "GetQueueUrl"@,
        Method::ListQueues => "ListQueues"@,
        Method::ListQueueTags => "ListQueueTags"@,
        Method::PurgeQueue => "PurgeQueue"@,
        Method::ReceiveMessage => "ReceiveMessage"@,
        Method::SendMessage => "SendMessage"@,
        Method::SendMessageBatch => "SendMessageBatch"@,
        Method::SetQueueAttributes => "SetQueueAttributes"@,
        Method::TagQueue => "TagQueue"@,
        Method::UntagQueue => "UntagQueue"@,
    }
}

/// The full `X-Amz-Target` value of a method: the prefix, a dot and the name.
pub open spec fn method_target(m: Method) -> Seq<char> {
    SQS_METHOD_PREFIX@ + seq!['.'] + method_name(m)
}

/// The message of the error reported for an unrecognised method.
pub open spec fn invalid_method_message(input: Seq<char>) -> Seq<char> {
    "invalid SQS method: "@ + input
}

impl Method {
    /// The method's name (`strum`'s rendering of the variant).
    pub fn name(&self) -> (r: &'static str)
        ensures
            r@ == method_name(*self),
    {
        match self {
            Method::ChangeMessageVisibility => "ChangeMessageVisibility",
            Method::ChangeMessageVisibilityBatch => "ChangeMessageVisibilityBatch",
            Method::CreateQueue => "CreateQueue",
            Method::DeleteMessage => "DeleteMessage",
            Method::DeleteMessageBatch => "DeleteMessageBatch",
            Method::DeleteQueue => "DeleteQueue",
            Method::GetQueueAttributes => "GetQueueAttributes",
            Method::GetQueueUrl => "GetQueueUrl",
            Method::ListQueues => "ListQueues",
            Method::ListQueueTags => "ListQueueTags",
            Method::PurgeQueue => "PurgeQueue",
            Method::ReceiveMessage => "ReceiveMessage",
            Method::SendMessage => "SendMessage",
            Method::SendMessageBatch => "SendMessageBatch",
            Method::SetQueueAttributes => "SetQueueAttributes",
            Method::TagQueue => "TagQueue",
            Method::UntagQueue => "UntagQueue",
        }
    }

    /// The method whose name is exactly `name`, if any.
    pub fn from_name(name: &str) -> (r: Option<Method>)
        ensures
            r matches Some(m) ==> method_name(m) == name@,
            r is None ==> forall|m: Method| method_name(m) != name@,
    {
        if str_eq(name, "ChangeMessageVisibility") {
            return Some(Method::ChangeMessageVisibility);
        }
        if str_eq(name, "ChangeMessageVisibilityBatch") {
            return Some(Method::ChangeMessageVisibilityBatch);
        }
        if str_eq(name, "CreateQueue") {
            return Some(Method::CreateQueue);
        }
        if str_eq(name, "DeleteMessage") {
            return Some(Method::DeleteMessage);
        }
        if str_eq(name, "DeleteMessageBatch") {
            return Some(Method::DeleteMessageBatch);
        }
        if str_eq(name, "DeleteQueue") {
            return Some(Method::DeleteQueue);
        }
        if str_eq(name, "GetQueueAttributes") {
            return Some(Method::GetQueueAttributes);
        }
        if str_eq(name, "GetQueueUrl") {
            return Some(Method::GetQueueUrl);
        }
        if str_eq(name, "ListQueues") {
            return Some(Method::ListQueues);
        }
        if str_eq(name, "ListQueueTags") {
            return Some(Method::ListQueueTags);
        }
        if str_eq(name, "PurgeQueue") {
            return Some(Method::PurgeQueue);
        }
        if str_eq(name, "ReceiveMessage") {
            return Some(Method::ReceiveMessage);
        }
        if str_eq(name, "SendMessage") {
            return Some(Method::SendMessage);
        }
        if str_eq(name, "SendMessageBatch") {
            return Some(Method::SendMessageBatch);
        }
        if str_eq(name, "SetQueueAttributes") {
            return Some(Method::SetQueueAttributes);
        }
        if str_eq(name, "TagQueue") {
            return Some(Method::TagQueue);
        }
        if str_eq(name, "UntagQueue") {
            return Some(Method::UntagQueue);
        }
        None
    }

    /// Parses an SQS API method from an `X-Amz-Target` value: the prefix
    /// `AmazonSQS`, a dot, and exactly one method name, with nothing after.
    pub fn parse(input: &str) -> (r: Result<Method, Error>)
        ensures
            r matches Ok(m) ==> method_target(m) == input@,
            r is Err ==> forall|m: Method| method_target(m) != input@,
            r matches Err(e) ==> e matches Error::InvalidMethod { message } && message@
                == invalid_method_message(input@),
    {
        let prefix = chars_of(SQS_METHOD_PREFIX);
        let cs = chars_of(input);
        let n = prefix.len();
        let mut matches_prefix = cs.len() > n;
        let mut i: usize = 0;
        while i < n && matches_prefix
            invariant
                0 <= i <= n,
                n == prefix.len(),
                prefix@ == SQS_METHOD_PREFIX@,
                cs@ == input@,
                matches_prefix <==> (cs.len() > n && forall|j: int| 0 <= j < i ==> cs@[j] == prefix@[j]),
            decreases n - i,
        {
            if cs[i] != prefix[i] {
                matches_prefix = false;
            }
            i += 1;
        }
        if matches_prefix && cs[n] == '.' {
            let mut rest: Vec<char> = Vec::new();
            let mut k: usize = n + 1;
            while k < cs.len()
                invariant
                    n + 1 <= k <= cs.len(),
                    rest@ == cs@.subrange(n + 1, k as int),
                decreases cs.len() - k,
            {
                rest.push(cs[k]);
                assert(cs@.subrange(n + 1, k + 1) =~= cs@.subrange(n + 1, k as int).push(cs@[k as int]));
                k += 1;
            }
            let name = string_from_chars(&rest);
            proof {
                assert(input@ =~= prefix@ + seq!['.'] + rest@);
                assert forall|m: Method| method_target(m) == input@ implies method_name(m) == rest@ by {
                    assert((prefix@ + seq!['.'] + method_name(m)).subrange(n + 1, input@.len() as int) =~= method_name(m));
                    assert((prefix@ + seq!['.'] + rest@).subrange(n + 1, input@.len() as int) =~= rest@);
                }
            }
            match Method::from_name(name.as_str()) {
                Some(m) => {
                    return Ok(m);
                },
                None => {},
            }
        } else {
            proof {
                assert forall|m: Method| method_target(m) != input@ by {
                    if method_target(m) == input@ {
                        let t = method_target(m);
                        assert(t.len() > n);
                        if !matches_prefix {
                            if cs.len() > n {
                                let j = choose|j: int| 0 <= j < i && cs@[j] != prefix@[j];
                                assert(t[j] == prefix@[j]);
                            }
                        } else {
                            assert(t[n as int] == '.');
                        }
                    }
                }
            }
        }
        let mut message = String::from_str("invalid SQS method: ");
        message.append(input);
        Err(Error::InvalidMethod { message })
    }
}

/// Distinct methods have distinct names, so a method's target parses back
/// to that method alone.
pub proof fn lemma_method_target_injective(a: Method, b: Method)
    ensures
        method_target(a) == method_target(b) ==> a == b,
{
    reveal_strlit("ChangeMessageVisibility");
    reveal_strlit("ChangeMessageVisibilityBatch");
    reveal_strlit("CreateQueue");
    reveal_strlit("DeleteMessage");
    reveal_strlit("DeleteMessageBatch");
    reveal_strlit("DeleteQueue");
    reveal_strlit("GetQueueAttributes");
    reveal_strlit("GetQueueUrl");
    reveal_strlit("ListQueues");
    reveal_strlit("ListQueueTags");
    reveal_strlit("PurgeQueue");
    reveal_strlit("ReceiveMessage");
    reveal_strlit("SendMessage");
    reveal_strlit("SendMessageBatch");
    reveal_strlit("SetQueueAttributes");
    reveal_strlit("TagQueue");
    reveal_strlit("UntagQueue");
    if method_target(a) == method_target(b) {
        let p = SQS_METHOD_PREFIX@ + seq!['.'];
        assert(method_target(a).subrange(p.len() as int, method_target(a).len() as int)
            =~= method_name(a));
        assert(method_target(b).subrange(p.len() as int, method_target(b).len() as int)
            =~= method_name(b));
        assert(method_name(a) == method_name(b));
        if a != b {
            let na = method_name(a);
            let nb = method_name(b);
            assert(na.len() == nb.len());
            assert(exists|i: int| 0 <= i < na.len() && na[i] != nb[i]) by {
                lemma_distinct_names(a, b);
            }
        }
    }
}

/// Two distinct methods whose names have the same length differ in their
/// first character.
proof fn lemma_distinct_names(a: Method, b: Method)
    requires
        a != b,
        method_name(a).len() == method_name(b).len(),
    ensures
        exists|i: int| 0 <= i < method_name(a).len() && method_name(a)[i] != method_name(b)[i],
{
    reveal_strlit("ChangeMessageVisibility");
    reveal_strlit("ChangeMessageVisibilityBatch");
    reveal_strlit("CreateQueue");
    reveal_strlit("DeleteMessage");
    reveal_strlit("DeleteMessageBatch");
    reveal_strlit("DeleteQueue");
    reveal_strlit("GetQueueAttributes");
    reveal_strlit("GetQueueUrl");
    reveal_strlit("ListQueues");
    reveal_strlit("ListQueueTags");
    reveal_strlit("PurgeQueue");
    reveal_strlit("ReceiveMessage");
    reveal_strlit("SendMessage");
    reveal_strlit("SendMessageBatch");
    reveal_strlit("SetQueueAttributes");
    reveal_strlit("TagQueue");
    reveal_strlit("UntagQueue");
    assert(method_name(a)[0] != method_name(b)[0]);
}

/// The `X-Amz-Target` of `ChangeMessageVisibility` is `AmazonSQS.ChangeMessageVisibility`.
proof fn lemma_target_changemessagevisibility()
    ensures
        method_target(Method::ChangeMessageVisibility) == "AmazonSQS.ChangeMessageVisibility"@,
{
    reveal_strlit("AmazonSQS");
    reveal_strlit("ChangeMessageVisibility");
    reveal_strlit("AmazonSQS.ChangeMessageVisibility");
    assert(method_target(Method::ChangeMessageVisibility) =~= "AmazonSQS.ChangeMessageVisibility"@);
}

/// The `X-Amz-Target` of `ChangeMessageVisibilityBatch` is `AmazonSQS.ChangeMessageVisibilityBatch`.
proof fn lemma_target_changemessagevisibilitybatch()
    ensures
        method_target(Method::ChangeMessageVisibilityBatch) == "AmazonSQS.ChangeMessageVisibilityBatch"@,
{
    reveal_strlit("AmazonSQS");
    reveal_strlit("ChangeMessageVisibilityBatch");
    reveal_strlit("AmazonSQS.ChangeMessageVisibilityBatch");
    assert(method_target(Method::ChangeMessageVisibilityBatch) =~= "AmazonSQS.ChangeMessageVisibilityBatch"@);
}

/// The `X-Amz-Target` of `CreateQueue` is `AmazonSQS.CreateQueue`.
proof fn lemma_target_createqueue()
    ensures
        method_target(Method::CreateQueue) == "AmazonSQS.CreateQueue"@,
{
    reveal_strlit("AmazonSQS");
    reveal_strlit("CreateQueue");
    reveal_strlit("AmazonSQS.CreateQueue");
    assert(method_target(Method::CreateQueue) =~= "AmazonSQS.CreateQueue"@);
}

/// The `X-Amz-Target` of `DeleteMessage` is `AmazonSQS.DeleteMessage`.
proof fn lemma_target_deletemessage()
    ensures
        method_target(Method::DeleteMessage) == "AmazonSQS.DeleteMessage"@,
{
    reveal_strlit("AmazonSQS");
    reveal_strlit("DeleteMessage");
    reveal_strlit("AmazonSQS.DeleteMessage");
    assert(method_target(Method::DeleteMessage) =~= "AmazonSQS.DeleteMessage"@);
}

/// The `X-Amz-Target` of `DeleteMessageBatch` is `AmazonSQS.DeleteMessageBatch`.
proof fn lemma_target_deletemessagebatch()
    ensures
        method_target(Method::DeleteMessageBatch) == "AmazonSQS.DeleteMessageBatch"@,
{
    reveal_strlit("AmazonSQS");
    reveal_strlit("DeleteMessageBatch");
    reveal_strlit("AmazonSQS.DeleteMessageBatch");
    assert(method_target(Method::DeleteMessageBatch) =~= "AmazonSQS.DeleteMessageBatch"@);
}

/// The `X-Amz-Target` of `DeleteQueue` is `AmazonSQS.DeleteQueue`.
proof fn lemma_target_deletequeue()
    ensures
        method_target(Method::DeleteQueue) == "AmazonSQS.DeleteQueue"@,
{
    reveal_strlit("AmazonSQS");
    reveal_strlit("DeleteQueue");
    reveal_strlit("AmazonSQS.DeleteQueue");
    assert(method_target(Method::DeleteQueue) =~= "AmazonSQS.DeleteQueue"@);
}

/// The `X-Amz-Target` of `GetQueueAttributes` is `AmazonSQS.GetQueueAttributes`.
proof fn lemma_target_getqueueattributes()
    ensures
        method_target(Method::GetQueueAttributes) == "AmazonSQS.GetQueueAttributes"@,
{
    reveal_strlit("AmazonSQS");
    reveal_strlit("GetQueueAttributes");
    reveal_strlit("AmazonSQS.GetQueueAttributes");
    assert(method_target(Method::GetQueueAttributes) =~= "AmazonSQS.GetQueueAttributes"@);
}

/// The `X-Amz-Target` of `GetQueueUrl` is `AmazonSQS.GetQueueUrl`.
proof fn lemma_target_getqueueurl()
    ensures
        method_target(Method::GetQueueUrl) == "AmazonSQS.GetQueueUrl"@,
{
    reveal_strlit("AmazonSQS");
    reveal_strlit("GetQueueUrl");
    reveal_strlit("AmazonSQS.GetQueueUrl");
    assert(method_target(Method::GetQueueUrl) =~= "AmazonSQS.GetQueueUrl"@);
}

/// The `X-Amz-Target` of `ListQueues` is `AmazonSQS.ListQueues`.
proof fn lemma_target_listqueues()
    ensures
        method_target(Method::ListQueues) == "AmazonSQS.ListQueues"@,
{
    reveal_strlit("AmazonSQS");
    reveal_strlit("ListQueues");
    reveal_strlit("AmazonSQS.ListQueues");
    assert(method_target(Method::ListQueues) =~= "AmazonSQS.ListQueues"@);
}

/// The `X-Amz-Target` of `ListQueueTags` is `AmazonSQS.ListQueueTags`.
proof fn lemma_target_listqueuetags()
    ensures
        method_target(Method::ListQueueTags) == "AmazonSQS.ListQueueTags"@,
{
    reveal_strlit("AmazonSQS");
    reveal_strlit("ListQueueTags");
    reveal_strlit("AmazonSQS.ListQueueTags");
    assert(method_target(Method::ListQueueTags) =~= "AmazonSQS.ListQueueTags"@);
}

/// The `X-Amz-Target` of `PurgeQueue` is `AmazonSQS.PurgeQueue`.
proof fn lemma_target_purgequeue()
    ensures
        method_target(Method::PurgeQueue) == "AmazonSQS.PurgeQueue"@,
{
    reveal_strlit("AmazonSQS");
    reveal_strlit("PurgeQueue");
    reveal_strlit("AmazonSQS.PurgeQueue");
    assert(method_target(Method::PurgeQueue) =~= "AmazonSQS.PurgeQueue"@);
}

/// The `X-Amz-Target` of `ReceiveMessage` is `AmazonSQS.ReceiveMessage`.
proof fn lemma_target_receivemessage()
    ensures
        method_target(Method::ReceiveMessage) == "AmazonSQS.ReceiveMessage"@,
{
    reveal_strlit("AmazonSQS");
    reveal_strlit("ReceiveMessage");
    reveal_strlit("AmazonSQS.ReceiveMessage");
    assert(method_target(Method::ReceiveMessage) =~= "AmazonSQS.ReceiveMessage"@);
}

/// The `X-Amz-Target` of `SendMessage` is `AmazonSQS.SendMessage`.
proof fn lemma_target_sendmessage()
    ensures
        method_target(Method::SendMessage) == "AmazonSQS.SendMessage"@,
{
    reveal_strlit("AmazonSQS");
    reveal_strlit("SendMessage");
    reveal_strlit("AmazonSQS.SendMessage");
    assert(method_target(Method::SendMessage) =~= "AmazonSQS.SendMessage"@);
}

/// The `X-Amz-Target` of `SendMessageBatch` is `AmazonSQS.SendMessageBatch`.
proof fn lemma_target_sendmessagebatch()
    ensures
        method_target(Method::SendMessageBatch) == "AmazonSQS.SendMessageBatch"@,
{
    reveal_strlit("AmazonSQS");
    reveal_strlit("SendMessageBatch");
    reveal_strlit("AmazonSQS.SendMessageBatch");
    assert(method_target(Method::SendMessageBatch) =~= "AmazonSQS.SendMessageBatch"@);
}

/// The `X-Amz-Target` of `SetQueueAttributes` is `AmazonSQS.SetQueueAttributes`.
proof fn lemma_target_setqueueattributes()
    ensures
        method_target(Method::SetQueueAttributes) == "AmazonSQS.SetQueueAttributes"@,
{
    reveal_strlit("AmazonSQS");
    reveal_strlit("SetQueueAttributes");
    reveal_strlit("AmazonSQS.SetQueueAttributes");
    assert(method_target(Method::SetQueueAttributes) =~= "AmazonSQS.SetQueueAttributes"@);
}

/// The `X-Amz-Target` of `TagQueue` is `AmazonSQS.TagQueue`.
proof fn lemma_target_tagqueue()
    ensures
        method_target(Method::TagQueue) == "AmazonSQS.TagQueue"@,
{
    reveal_strlit("AmazonSQS");
    reveal_strlit("TagQueue");
    reveal_strlit("AmazonSQS.TagQueue");
    assert(method_target(Method::TagQueue) =~= "AmazonSQS.TagQueue"@);
}

/// The `X-Amz-Target` of `UntagQueue` is `AmazonSQS.UntagQueue`.
proof fn lemma_target_untagqueue()
    ensures
        method_target(Method::UntagQueue) == "AmazonSQS.UntagQueue"@,
{
    reveal_strlit("AmazonSQS");
    reveal_strlit("UntagQueue");
    reveal_strlit("AmazonSQS.UntagQueue");
    assert(method_target(Method::UntagQueue) =~= "AmazonSQS.UntagQueue"@);
}

/// Each method's `X-Amz-Target` text is `AmazonSQS.` followed by the name
/// of that very method, so every SQS operation is routed to its own
/// handler (a `TagQueue` request to `TagQueue`, an `UntagQueue` request to
/// `UntagQueue`).
pub proof fn lemma_targets_name_their_methods()
    ensures
        method_target(Method::ChangeMessageVisibility) == "AmazonSQS.ChangeMessageVisibility"@,
        method_target(Method::ChangeMessageVisibilityBatch) == "AmazonSQS.ChangeMessageVisibilityBatch"@,
        method_target(Method::CreateQueue) == "AmazonSQS.CreateQueue"@,
        method_target(Method::DeleteMessage) == "AmazonSQS.DeleteMessage"@,
        method_target(Method::DeleteMessageBatch) == "AmazonSQS.DeleteMessageBatch"@,
        method_target(Method::DeleteQueue) == "AmazonSQS.DeleteQueue"@,
        method_target(Method::GetQueueAttributes) == "AmazonSQS.GetQueueAttributes"@,
        method_target(Method::GetQueueUrl) == "AmazonSQS.GetQueueUrl"@,
        method_target(Method::ListQueues) == "AmazonSQS.ListQueues"@,
        method_target(Method::ListQueueTags) == "AmazonSQS.ListQueueTags"@,
        method_target(Method::PurgeQueue) == "AmazonSQS.PurgeQueue"@,
        method_target(Method::ReceiveMessage) == "AmazonSQS.ReceiveMessage"@,
        method_target(Method::SendMessage) == "AmazonSQS.SendMessage"@,
        method_target(Method::SendMessageBatch) == "AmazonSQS.SendMessageBatch"@,
        method_target(Method::SetQueueAttributes) == "AmazonSQS.SetQueueAttributes"@,
        method_target(Method::TagQueue) == "AmazonSQS.TagQueue"@,
        method_target(Method::UntagQueue) == "AmazonSQS.UntagQueue"@,
{
    lemma_target_changemessagevisibility();
    lemma_target_changemessagevisibilitybatch();
    lemma_target_createqueue();
    lemma_target_deletemessage();
    lemma_target_deletemessagebatch();
    lemma_target_deletequeue();
    lemma_target_getqueueattributes();
    lemma_target_getqueueurl();
    lemma_target_listqueues();
    lemma_target_listqueuetags();
    lemma_target_purgequeue();
    lemma_target_receivemessage();
    lemma_target_sendmessage();
    lemma_target_sendmessagebatch();
    lemma_target_setqueueattributes();
    lemma_target_tagqueue();
    lemma_target_untagqueue();
}

/// A target parses to a method only when it is that method's own
/// `AmazonSQS.<name>` text: for instance `AmazonSQS.TagQueue` can only be
/// `TagQueue`.
pub proof fn lemma_tag_targets_are_not_swapped(m: Method)
    ensures
        method_target(m) == "AmazonSQS.TagQueue"@ ==> m == Method::TagQueue,
        method_target(m) == "AmazonSQS.UntagQueue"@ ==> m == Method::UntagQueue,
{
    lemma_targets_name_their_methods();
    lemma_method_target_injective(m, Method::TagQueue);
    lemma_method_target_injective(m, Method::UntagQueue);
}

} // verus!
