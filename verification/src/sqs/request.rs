//! The checks every SQS request goes through before it reaches a queue:
//! locating the queue from its URL, gating on the caller's namespace,
//! bounding the request body, and the long-poll schedule of receives.

use crate::api::auth::Permission;
use crate::auth::credential::AuthorizedNamespace;
use crate::error::Error;
use crate::text::{split_char, split_on, str_eq, strings_view};
use vstd::prelude::*;

verus! {

/// Maximum accepted size of an SQS request body, in bytes (8 MiB). A
/// message or a batch may carry up to 1 MiB of payload (see
/// [`crate::sqs::limits::MAX_MESSAGE_SIZE_BYTES`], checked after parsing
/// with a 400); the JSON envelope around it, with escapes that can take up
/// to six bytes per payload byte, must fit here. Anything bigger is refused
/// before parsing.
pub const MAX_REQUEST_BODY_SIZE: usize = 8388608;

/// Longest long-poll wait accepted, in seconds (as in AWS SQS).
pub const MAX_WAIT_TIME_SECONDS: u64 = 20;

/// How often an empty long poll re-checks the queue, in milliseconds.
pub const POLL_INTERVAL_MS: u64 = 200;

/// The segments of a URL path (`Url::path_segments`): the path after its
/// leading `/`, split on `/`; none when the path does not start with `/`.
pub open spec fn path_segments_of(path: Seq<char>) -> Option<Seq<Seq<char>>> {
    if path.len() > 0 && path[0] == '/' {
        Some(split_on(path.drop_first(), '/'))
    } else {
        None
    }
}

/// The segments of a URL path (see [`path_segments_of`]).
pub fn path_segments(path: &str) -> (r: Option<Vec<String>>)
    ensures
        match path_segments_of(path@) {
            Some(s) => r matches Some(v) && strings_view(v@) == s,
            None => r is None,
        },
{
    let chars = crate::text::chars_of(path);
    if chars.len() > 0 && chars[0] == '/' {
        let mut rest: Vec<char> = Vec::new();
        let mut i: usize = 1;
        while i < chars.len()
            invariant
                1 <= i <= chars.len(),
                chars@ == path@,
                rest@ == path@.subrange(1, i as int),
            decreases chars.len() - i,
        {
            rest.push(chars[i]);
            i += 1;
        }
        assert(rest@ =~= path@.drop_first());
        let rest_str = crate::text::string_from_chars(&rest);
        Some(split_char(rest_str.as_str(), '/'))
    } else {
        None
    }
}

/// The queue a request addresses, from the segments of its queue URL: the
/// last segment names the queue and the one before it the namespace.
pub open spec fn queue_target_of(segments: Option<Seq<Seq<char>>>) -> Option<(Seq<char>, Seq<char>)> {
    match segments {
        Some(s) => if s.len() >= 2 {
            Some((s[s.len() - 1], s[s.len() - 2]))
        } else {
            None
        },
        None => None,
    }
}

/// The queue name and namespace name a queue URL path addresses. A path
/// with no segments lacks the queue name; one with a single segment lacks
/// the namespace name.
pub fn queue_target(path: &str) -> (r: Result<(String, String), Error>)
    ensures
        match path_segments_of(path@) {
            None => r matches Err(Error::MissingParameter { message }) && message@
                == "queue name"@,
            Some(s) => if s.len() >= 2 {
                r matches Ok((q, n)) && q@ == s[s.len() - 1] && n@ == s[s.len() - 2]
            } else {
                r matches Err(Error::MissingParameter { message }) && message@
                    == "namespace name"@
            },
        },
{
    match path_segments(path) {
        None => Err(Error::missing_parameter("queue name")),
        Some(segments) => {
            let n = segments.len();
            if n >= 2 {
                Ok((segments[n - 1].clone(), segments[n - 2].clone()))
            } else {
                Err(Error::missing_parameter("namespace name"))
            }
        },
    }
}

/// Grants the caller's permission on a namespace: their user id and
/// whether they may delete the namespace. Without a permission the caller
/// is unauthorized.
pub fn check_user_access(permission: Option<Permission>) -> (r: Result<(u64, bool), Error>)
    ensures
        match permission {
            Some(p) => r == Ok::<(u64, bool), Error>((p.user, p.can_delete_ns)),
            None => r matches Err(Error::Unauthorized),
        },
{
    match permission {
        Some(p) => Ok((p.user, p.can_delete_ns)),
        None => Err(Error::Unauthorized),
    }
}

/// The checks a queue request passes before it reaches the queue: the
/// addressed namespace must exist (its id is `namespace_id`), the caller
/// must hold a permission on it, and, when `must_match` holds, it must be
/// the namespace the caller's credential is authorized for. Answers the
/// namespace id.
pub fn authorize_namespace(
    namespace_name: &str,
    namespace_id: Option<u64>,
    permission: Option<Permission>,
    authorized: &AuthorizedNamespace,
    must_match: bool,
) -> (r: Result<u64, Error>)
    ensures
        match namespace_id {
            None => r matches Err(Error::NamespaceNotFound { namespace }) && namespace@
                == namespace_name@,
            Some(id) => if permission is None {
                r matches Err(Error::Unauthorized)
            } else if must_match && namespace_name@ != authorized.0@ {
                r matches Err(Error::Unauthorized)
            } else {
                r == Ok::<u64, Error>(id)
            },
        },
{
    let id = match namespace_id {
        None => {
            return Err(Error::namespace_not_found(namespace_name));
        },
        Some(id) => id,
    };
    match check_user_access(permission) {
        Err(e) => {
            return Err(e);
        },
        Ok(_) => {},
    }
    if must_match && !str_eq(namespace_name, authorized.0.as_str()) {
        return Err(Error::Unauthorized);
    }
    Ok(id)
}

/// Appends a chunk of the request body, unless the body would then exceed
/// [`MAX_REQUEST_BODY_SIZE`]; the body is left as it was in that case.
pub fn append_body_chunk(body: &mut Vec<u8>, chunk: &[u8]) -> (r: Result<(), Error>)
    requires
        old(body)@.len() <= MAX_REQUEST_BODY_SIZE,
    ensures
        final(body)@.len() <= MAX_REQUEST_BODY_SIZE,
        old(body)@.len() + chunk@.len() <= MAX_REQUEST_BODY_SIZE ==> r is Ok && final(body)@
            == old(body)@ + chunk@,
        old(body)@.len() + chunk@.len() > MAX_REQUEST_BODY_SIZE ==> (r matches Err(
            Error::PayloadTooLarge,
        ) && final(body)@ == old(body)@),
{
    if chunk.len() > MAX_REQUEST_BODY_SIZE - body.len() {
        return Err(Error::PayloadTooLarge);
    }
    let ghost start = body@;
    let mut i: usize = 0;
    while i < chunk.len()
        invariant
            0 <= i <= chunk@.len(),
            start.len() + chunk@.len() <= MAX_REQUEST_BODY_SIZE,
            body@ == start + chunk@.take(i as int),
        decreases chunk.len() - i,
    {
        body.push(chunk[i]);
        assert(chunk@.take(i + 1) =~= chunk@.take(i as int).push(chunk@[i as int]));
        i += 1;
    }
    assert(chunk@.take(chunk@.len() as int) =~= chunk@);
    Ok(())
}

/// An empty request body is a missing parameter; any other body goes on to
/// be parsed.
pub fn require_body(body: &[u8]) -> (r: Result<(), Error>)
    ensures
        body@.len() == 0 ==> (r matches Err(Error::MissingParameter { message }) && message@
            == "missing request body"@),
        body@.len() > 0 ==> r is Ok,
{
    if body.len() == 0 {
        Err(Error::missing_parameter("missing request body"))
    } else {
        Ok(())
    }
}

/// How long a receive may wait for a message, in seconds: the request's
/// wait time, else the queue's `receive_message_wait_time_seconds`, else
/// none, capped at [`MAX_WAIT_TIME_SECONDS`].
pub open spec fn wait_time_of(requested: Option<u64>, queue_default: Option<u64>) -> u64 {
    let w = match requested {
        Some(w) => w,
        None => match queue_default {
            Some(w) => w,
            None => 0,
        },
    };
    if w < MAX_WAIT_TIME_SECONDS {
        w
    } else {
        MAX_WAIT_TIME_SECONDS
    }
}

/// How long a receive may wait for a message (see [`wait_time_of`]).
pub fn wait_time_seconds(requested: Option<u64>, queue_default: Option<u64>) -> (r: u64)
    ensures
        r == wait_time_of(requested, queue_default),
        r <= MAX_WAIT_TIME_SECONDS,
{
    let w = match requested {
        Some(w) => w,
        None => match queue_default {
            Some(w) => w,
            None => 0,
        },
    };
    if w < MAX_WAIT_TIME_SECONDS {
        w
    } else {
        MAX_WAIT_TIME_SECONDS
    }
}

/// How many messages a receive claims: the request's maximum, else one.
pub fn max_messages(requested: Option<u64>) -> (r: u64)
    ensures
        r == (match requested {
            Some(n) => n,
            None => 1,
        }),
{
    match requested {
        Some(n) => n,
        None => 1,
    }
}

/// What a long poll does after a receive attempt.
#[derive(Debug, Clone, Copy, PartialEq, Eq, Structural)]
pub enum PollStep {
    /// Answer with what was received.
    Answer,
    /// Sleep one poll interval and try again.
    Sleep,
}

/// The next step of a long poll that has run `elapsed_ms` milliseconds of
/// a `wait_secs`-second wait and has just received `received` messages: it
/// answers as soon as a message arrived, or when another interval would
/// overrun the wait; otherwise it sleeps.
pub open spec fn next_poll_step(received: nat, elapsed_ms: nat, wait_secs: nat) -> PollStep {
    if received > 0 || elapsed_ms + POLL_INTERVAL_MS > wait_secs * 1000 {
        PollStep::Answer
    } else {
        PollStep::Sleep
    }
}

/// The next step of a long poll (see [`next_poll_step`]).
pub fn poll_step(received: usize, elapsed_ms: u64, wait_secs: u64) -> (r: PollStep)
    requires
        wait_secs <= MAX_WAIT_TIME_SECONDS,
    ensures
        r == next_poll_step(received as nat, elapsed_ms as nat, wait_secs as nat),
{
    if received > 0 {
        PollStep::Answer
    } else if elapsed_ms > wait_secs * 1000 || wait_secs * 1000 - elapsed_ms < POLL_INTERVAL_MS {
        PollStep::Answer
    } else {
        PollStep::Sleep
    }
}

/// A long poll sleeps only while nothing has arrived and a whole interval
/// still fits in the wait, so it never sleeps past its deadline; and it
/// answers at once whenever a message has arrived.
pub proof fn lemma_poll_sleeps_within_the_wait(received: nat, elapsed_ms: nat, wait_secs: nat)
    ensures
        next_poll_step(received, elapsed_ms, wait_secs) == PollStep::Sleep ==> (received == 0
            && elapsed_ms + POLL_INTERVAL_MS <= wait_secs * 1000),
        received > 0 ==> next_poll_step(received, elapsed_ms, wait_secs) == PollStep::Answer,
{
}

/// The names that start with `prefix`, in order; all of them when there is
/// no prefix.
pub open spec fn with_prefix(names: Seq<Seq<char>>, prefix: Option<Seq<char>>) -> Seq<Seq<char>>
    decreases names.len(),
{
    if names.len() == 0 {
        seq![]
    } else {
        let rest = with_prefix(names.drop_last(), prefix);
        let keep = match prefix {
            Some(p) => p.is_prefix_of(names.last()),
            None => true,
        };
        if keep {
            rest.push(names.last())
        } else {
            rest
        }
    }
}

/// Whether `prefix` starts `s`.
pub fn starts_with(s: &str, prefix: &str) -> (r: bool)
    ensures
        r == prefix@.is_prefix_of(s@),
{
    let a = crate::text::chars_of(s);
    let b = crate::text::chars_of(prefix);
    if b.len() > a.len() {
        return false;
    }
    let mut i: usize = 0;
    while i < b.len()
        invariant
            0 <= i <= b.len() <= a.len(),
            a@ == s@,
            b@ == prefix@,
            forall|j: int| 0 <= j < i ==> a@[j] == b@[j],
        decreases b.len() - i,
    {
        if a[i] != b[i] {
            return false;
        }
        i += 1;
    }
    true
}

/// The queue names a listing returns: those starting with the requested
/// prefix, in the order given.
pub fn filter_by_prefix(names: Vec<String>, prefix: &Option<String>) -> (r: Vec<String>)
    ensures
        strings_view(r@) == with_prefix(
            strings_view(names@),
            match prefix {
                Some(p) => Some(p@),
                None => None,
            },
        ),
{
    let ghost pv = match prefix {
        Some(p) => Some(p@),
        None => None::<Seq<char>>,
    };
    let ghost nv = strings_view(names@);
    let mut out: Vec<String> = Vec::new();
    let mut i: usize = 0;
    while i < names.len()
        invariant
            0 <= i <= names.len(),
            nv == strings_view(names@),
            pv == (match prefix {
                Some(p) => Some(p@),
                None => None::<Seq<char>>,
            }),
            strings_view(out@) == with_prefix(nv.take(i as int), pv),
        decreases names.len() - i,
    {
        let keep = match prefix {
            Some(p) => starts_with(names[i].as_str(), p.as_str()),
            None => true,
        };
        let ghost before = strings_view(out@);
        proof {
            assert(nv.take(i + 1).drop_last() =~= nv.take(i as int));
            assert(nv.take(i + 1).last() == names@[i as int]@);
        }
        if keep {
            out.push(names[i].clone());
            assert(strings_view(out@) =~= before.push(names@[i as int]@));
        }
        i += 1;
    }
    assert(nv.take(names.len() as int) =~= nv);
    out
}

/// The URL `url::Url::parse` makes of a base URL after
/// `path_segments_mut().extend(..)` appends the given path segments (each
/// percent-encoded by the crate); none when the base URL does not parse or
/// cannot be a base.
pub uninterp spec fn url_with_segments(host: Seq<char>, segments: Seq<Seq<char>>) -> Option<
    Seq<char>,
>;

/// `url::Url::parse` of the base URL followed by
/// `path_segments_mut().extend(..)` with the given segments, rendered as a
/// string. A function of its arguments alone; none when the base URL does
/// not parse or cannot be a base.
#[verifier::external_body]
fn build_url(host: &str, segments: &Vec<String>) -> (r: Option<String>)
    ensures
        match r {
            Some(u) => url_with_segments(host@, strings_view(segments@)) == Some(u@),
            None => url_with_segments(host@, strings_view(segments@)) is None,
        },
{
    let mut url = match url::Url::parse(host) {
        Ok(u) => u,
        Err(_) => return None,
    };
    match url.path_segments_mut() {
        Ok(mut path) => {
            path.extend(segments.iter());
        },
        Err(_) => return None,
    }
    Some(url.to_string())
}

/// The URL of a queue under the server's base URL: the path segments
/// `api`, `sqs`, the namespace and the queue appended to it.
pub open spec fn queue_url_of(host: Seq<char>, queue: Seq<char>, namespace: Seq<char>) -> Option<
    Seq<char>,
> {
    url_with_segments(host, seq!["api"@, "sqs"@, namespace, queue])
}

/// The URL of a queue under the server's base URL (see [`queue_url_of`]),
/// or an internal error when the base URL cannot hold a path.
pub fn queue_url(host: &str, queue_name: &str, namespace_name: &str) -> (r: Result<String, Error>)
    ensures
        match queue_url_of(host@, queue_name@, namespace_name@) {
            Some(u) => r matches Ok(s) && s@ == u,
            None => r matches Err(Error::InternalServerError { .. }),
        },
{
    let mut segments: Vec<String> = Vec::new();
    segments.push(String::from_str("api"));
    segments.push(String::from_str("sqs"));
    segments.push(namespace_name.to_owned());
    segments.push(queue_name.to_owned());
    assert(strings_view(segments@) =~= seq!["api"@, "sqs"@, namespace_name@, queue_name@]);
    match build_url(host, &segments) {
        Some(u) => Ok(u),
        None => Err(Error::internal(String::from_str("base URL cannot hold a queue path"))),
    }
}

/// The names kept by a `ListQueues` prefix (see [`with_prefix`]).
pub open spec fn listed_names(names: Seq<Seq<char>>, prefix: Option<String>) -> Seq<Seq<char>> {
    with_prefix(
        names,
        match prefix {
            Some(p) => Some(p@),
            None => None,
        },
    )
}

/// The URLs of the namespace's queues whose names start with the requested
/// prefix, in the order given; an internal error exactly when the base URL
/// cannot hold the path of one of them.
pub fn list_queue_urls(host: &str, namespace: &str, names: Vec<String>, prefix: &Option<String>) -> (r:
    Result<Vec<String>, Error>)
    ensures
        r is Err <==> exists|i: int|
            0 <= i < listed_names(strings_view(names@), *prefix).len() && (queue_url_of(
                host@,
                #[trigger] listed_names(strings_view(names@), *prefix)[i],
                namespace@,
            ) is None),
        match r {
            Ok(urls) => {
                let kept = listed_names(strings_view(names@), *prefix);
                &&& urls@.len() == kept.len()
                &&& forall|i: int|
                    0 <= i < kept.len() ==> queue_url_of(host@, kept[i], namespace@) == Some(
                        (#[trigger] urls@[i])@,
                    )
            },
            Err(e) => e is InternalServerError,
        },
{
    let ghost nv = strings_view(names@);
    let kept = filter_by_prefix(names, prefix);
    let ghost kv = strings_view(kept@);
    assert(kv == listed_names(nv, *prefix));
    let mut urls: Vec<String> = Vec::new();
    let mut i: usize = 0;
    while i < kept.len()
        invariant
            0 <= i <= kept.len(),
            kv == strings_view(kept@),
            kv == listed_names(nv, *prefix),
            nv == strings_view(names@),
            urls@.len() == i,
            forall|j: int|
                0 <= j < i ==> queue_url_of(host@, kv[j], namespace@) == Some(
                    (#[trigger] urls@[j])@,
                ),
        decreases kept.len() - i,
    {
        match queue_url(host, kept[i].as_str(), namespace) {
            Ok(u) => urls.push(u),
            Err(e) => {
                assert(queue_url_of(host@, kv[i as int], namespace@) is None);
                assert(listed_names(nv, *prefix)[i as int] == kv[i as int]);
                assert(0 <= i < listed_names(nv, *prefix).len() && (queue_url_of(
                    host@,
                    listed_names(nv, *prefix)[i as int],
                    namespace@,
                ) is None));
                return Err(e);
            },
        }
        i += 1;
    }
    proof {
        assert forall|j: int| 0 <= j < kv.len() implies !(queue_url_of(
            host@,
            #[trigger] kv[j],
            namespace@,
        ) is None) by {
            assert(queue_url_of(host@, kv[j], namespace@) == Some(urls@[j]@));
        }
    }
    Ok(urls)
}

} // verus!
