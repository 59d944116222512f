//! The limits SQS places on what a request may ask: how long a message may
//! be delayed or hidden, how large a message and a batch may be, and the
//! queue a request addresses having to exist.

use crate::error::Error;
use crate::sqs::types::{data_type_name, SqsMessageAttribute};
use crate::text::keyed_view;
use vstd::prelude::*;

verus! {

/// Longest delay a message can be sent with, in seconds.
pub const MAX_DELAY_SECONDS: u64 = 900;

/// Longest visibility timeout a `ChangeMessageVisibility` can set, in
/// seconds.
pub const MAX_VISIBILITY_TIMEOUT: u64 = 43200;

/// Largest message (body plus attributes) a queue accepts unless its
/// `MaximumMessageSize` attribute says otherwise, and the largest combined
/// payload of a batch send, in bytes (1 MiB).
pub const MAX_MESSAGE_SIZE_BYTES: u64 = 1048576;

/// The delay a send uses: the request's, else the queue's `DelaySeconds`,
/// else none.
pub open spec fn chosen_delay(requested: Option<u64>, queue_default: Option<u64>) -> u64 {
    match requested {
        Some(d) => d,
        None => match queue_default {
            Some(d) => d,
            None => 0,
        },
    }
}

/// The delay of a send (see [`chosen_delay`]); an invalid parameter when it
/// exceeds [`MAX_DELAY_SECONDS`].
pub fn send_delay(requested: Option<u64>, queue_default: Option<u64>) -> (r: Result<u64, Error>)
    ensures
        match r {
            Ok(d) => d == chosen_delay(requested, queue_default) && d <= MAX_DELAY_SECONDS,
            Err(e) => chosen_delay(requested, queue_default) > MAX_DELAY_SECONDS
                && e is InvalidParameter,
        },
{
    let d = match requested {
        Some(d) => d,
        None => match queue_default {
            Some(d) => d,
            None => 0,
        },
    };
    if d > MAX_DELAY_SECONDS {
        Err(Error::invalid_parameter(String::from_str("DelaySeconds must not exceed 900 seconds")))
    } else {
        Ok(d)
    }
}

/// The visibility timeout a receive gives the messages it claims: the
/// request's, else the queue's `VisibilityTimeout`, else the default.
pub open spec fn chosen_visibility(requested: Option<u64>, queue_default: Option<u64>) -> u64 {
    match requested {
        Some(v) => v,
        None => match queue_default {
            Some(v) => v,
            None => crate::config::defaults::VISIBILITY_TIMEOUT,
        },
    }
}

/// The visibility timeout a receive gives the messages it claims (see
/// [`chosen_visibility`]). A receive takes it as it is, however long.
pub fn receive_visibility(requested: Option<u64>, queue_default: Option<u64>) -> (r: u64)
    ensures
        r == chosen_visibility(requested, queue_default),
{
    match requested {
        Some(v) => v,
        None => match queue_default {
            Some(v) => v,
            None => crate::config::defaults::VISIBILITY_TIMEOUT,
        },
    }
}

/// The timeout of a `ChangeMessageVisibility`: an invalid parameter when it
/// exceeds [`MAX_VISIBILITY_TIMEOUT`].
pub fn check_visibility_change(t: u64) -> (r: Result<u64, Error>)
    ensures
        r is Ok <==> t <= MAX_VISIBILITY_TIMEOUT,
        r matches Ok(v) ==> v == t,
        r matches Err(e) ==> e is InvalidParameter,
{
    if t > MAX_VISIBILITY_TIMEOUT {
        Err(
            Error::invalid_parameter(
                String::from_str("visibility timeout must not exceed 43200 seconds"),
            ),
        )
    } else {
        Ok(t)
    }
}

/// The size of an attribute as counted against the message size: the
/// UTF-8 bytes of its name, of its data type label and of its value.
pub open spec fn attribute_size(name: Seq<char>, a: SqsMessageAttribute) -> nat {
    vstd::utf8::encode_utf8(name).len() + vstd::utf8::encode_utf8(data_type_name(a)).len()
        + match a {
        SqsMessageAttribute::String { string_value } => vstd::utf8::encode_utf8(
            string_value@,
        ).len(),
        SqsMessageAttribute::Number { string_value } => vstd::utf8::encode_utf8(
            string_value@,
        ).len(),
        SqsMessageAttribute::Binary { binary_value } => binary_value@.len(),
    }
}

/// The total size of a list of attributes.
pub open spec fn attributes_size(attrs: Seq<(Seq<char>, SqsMessageAttribute)>) -> nat
    decreases attrs.len(),
{
    if attrs.len() == 0 {
        0
    } else {
        attributes_size(attrs.drop_last()) + attribute_size(attrs.last().0, attrs.last().1)
    }
}

/// Every attribute counts at least the bytes of its value, whatever its
/// type: a binary attribute every byte of its value, a string or number
/// attribute every UTF-8 byte of its text; and at least the bytes of its
/// name.
pub proof fn lemma_attribute_counts_its_value(name: Seq<char>, a: SqsMessageAttribute)
    ensures
        attribute_size(name, a) >= vstd::utf8::encode_utf8(name).len(),
        a matches SqsMessageAttribute::Binary { binary_value } ==> attribute_size(name, a)
            >= binary_value@.len(),
        a matches SqsMessageAttribute::String { string_value } ==> attribute_size(name, a)
            >= vstd::utf8::encode_utf8(string_value@).len(),
        a matches SqsMessageAttribute::Number { string_value } ==> attribute_size(name, a)
            >= vstd::utf8::encode_utf8(string_value@).len(),
{
}

/// Adding an attribute to a message adds its size to the message's: a
/// binary attribute of `n` value bytes makes the message at least `n`
/// bytes larger.
pub proof fn lemma_message_size_grows_with_attributes(
    body: Seq<char>,
    attrs: Seq<(Seq<char>, SqsMessageAttribute)>,
    name: Seq<char>,
    a: SqsMessageAttribute,
)
    ensures
        message_size(body, attrs.push((name, a))) == message_size(body, attrs) + attribute_size(
            name,
            a,
        ),
        a matches SqsMessageAttribute::Binary { binary_value } ==> message_size(
            body,
            attrs.push((name, a)),
        ) >= message_size(body, attrs) + binary_value@.len(),
{
    assert(attrs.push((name, a)).drop_last() =~= attrs);
    lemma_attribute_counts_its_value(name, a);
}

/// The size of a message: the UTF-8 bytes of its body plus its attributes.
pub open spec fn message_size(body: Seq<char>, attrs: Seq<(Seq<char>, SqsMessageAttribute)>) -> nat {
    vstd::utf8::encode_utf8(body).len() + attributes_size(attrs)
}

/// The largest message a queue accepts: its `MaximumMessageSize`, else
/// [`MAX_MESSAGE_SIZE_BYTES`].
pub open spec fn size_limit(max_message_size: Option<u64>) -> u64 {
    match max_message_size {
        Some(m) => m,
        None => MAX_MESSAGE_SIZE_BYTES,
    }
}

/// The size of a message, or `cap + 1` when it exceeds `cap`.
fn message_size_capped(body: &str, attrs: &Vec<(String, SqsMessageAttribute)>, cap: u64) -> (r: u128)
    ensures
        r == if message_size(body@, keyed_view(attrs@)) <= cap {
            message_size(body@, keyed_view(attrs@))
        } else {
            (cap + 1) as nat
        },
{
    let ghost av = keyed_view(attrs@);
    let mut total: u128 = body.as_bytes().len() as u128;
    if total > cap as u128 {
        proof {
            assert(attributes_size(av) >= 0);
        }
        return cap as u128 + 1;
    }
    let mut i: usize = 0;
    while i < attrs.len()
        invariant
            0 <= i <= attrs.len(),
            av == keyed_view(attrs@),
            total <= cap,
            total == vstd::utf8::encode_utf8(body@).len() + attributes_size(av.take(i as int)),
        decreases attrs.len() - i,
    {
        let (name, value) = (&attrs[i].0, &attrs[i].1);
        let label = value.data_type();
        let value_len: usize = match value {
            SqsMessageAttribute::String { string_value } => string_value.as_str().as_bytes().len(),
            SqsMessageAttribute::Number { string_value } => string_value.as_str().as_bytes().len(),
            SqsMessageAttribute::Binary { binary_value } => binary_value.len(),
        };
        proof {
            assert(av.take(i + 1).drop_last() =~= av.take(i as int));
            assert(av.take(i + 1).last() == av[i as int]);
        }
        total = total + name.as_str().as_bytes().len() as u128 + label.as_bytes().len() as u128
            + value_len as u128;
        proof {
            lemma_attributes_size_prefix(av, i as int + 1, av.len() as int);
        }
        if total > cap as u128 {
            proof {
                lemma_attributes_size_prefix(av, i as int + 1, av.len() as int);
                assert(av.take(av.len() as int) =~= av);
            }
            return cap as u128 + 1;
        }
        i += 1;
    }
    assert(av.take(attrs.len() as int) =~= av);
    total
}

/// The size of attributes grows with the prefix taken.
proof fn lemma_attributes_size_prefix(attrs: Seq<(Seq<char>, SqsMessageAttribute)>, a: int, b: int)
    requires
        0 <= a <= b <= attrs.len(),
    ensures
        attributes_size(attrs.take(a)) <= attributes_size(attrs.take(b)),
    decreases b - a,
{
    if a < b {
        lemma_attributes_size_prefix(attrs, a, b - 1);
        assert(attrs.take(b).drop_last() =~= attrs.take(b - 1));
    }
}

/// Checks a message against the queue's size limit (see [`size_limit`]):
/// an invalid parameter when its size (see [`message_size`]) exceeds it.
pub fn check_message_size(
    body: &str,
    attrs: &Vec<(String, SqsMessageAttribute)>,
    max_message_size: Option<u64>,
) -> (r: Result<(), Error>)
    ensures
        r is Ok <==> message_size(body@, keyed_view(attrs@)) <= size_limit(max_message_size),
        r matches Err(e) ==> e is InvalidParameter,
{
    let limit = match max_message_size {
        Some(m) => m,
        None => MAX_MESSAGE_SIZE_BYTES,
    };
    let size = message_size_capped(body, attrs, limit);
    if size <= limit as u128 {
        Ok(())
    } else {
        Err(Error::invalid_parameter(String::from_str("message exceeds the maximum size")))
    }
}

/// The combined size of the messages of a batch.
pub open spec fn batch_size(entries: Seq<(Seq<char>, Seq<(Seq<char>, SqsMessageAttribute)>)>) -> nat
    decreases entries.len(),
{
    if entries.len() == 0 {
        0
    } else {
        batch_size(entries.drop_last()) + message_size(entries.last().0, entries.last().1)
    }
}

/// The entries of a batch send viewed as bodies with their attributes.
pub open spec fn batch_view(entries: Seq<(String, Vec<(String, SqsMessageAttribute)>)>) -> Seq<
    (Seq<char>, Seq<(Seq<char>, SqsMessageAttribute)>),
> {
    entries.map_values(
        |e: (String, Vec<(String, SqsMessageAttribute)>)| (e.0@, keyed_view(e.1@)),
    )
}

/// Checks the combined payload of a batch send: an invalid parameter, for
/// the whole batch, when it exceeds [`MAX_MESSAGE_SIZE_BYTES`].
pub fn check_batch_size(entries: &Vec<(String, Vec<(String, SqsMessageAttribute)>)>) -> (r: Result<
    (),
    Error,
>)
    ensures
        r is Ok <==> batch_size(batch_view(entries@)) <= MAX_MESSAGE_SIZE_BYTES,
        r matches Err(e) ==> e is InvalidParameter,
{
    let ghost ev = batch_view(entries@);
    let mut total: u64 = 0;
    let mut i: usize = 0;
    while i < entries.len()
        invariant
            0 <= i <= entries.len(),
            ev == batch_view(entries@),
            total <= MAX_MESSAGE_SIZE_BYTES,
            total == batch_size(ev.take(i as int)),
        decreases entries.len() - i,
    {
        let size = message_size_capped(entries[i].0.as_str(), &entries[i].1, MAX_MESSAGE_SIZE_BYTES);
        proof {
            assert(ev.take(i + 1).drop_last() =~= ev.take(i as int));
            assert(ev.take(i + 1).last() == ev[i as int]);
            assert(ev[i as int] == (entries@[i as int].0@, keyed_view(entries@[i as int].1@)));
        }
        if size > (MAX_MESSAGE_SIZE_BYTES - total) as u128 {
            proof {
                lemma_batch_size_prefix(ev, i as int + 1, ev.len() as int);
                assert(ev.take(ev.len() as int) =~= ev);
            }
            return Err(
                Error::invalid_parameter(String::from_str("batch exceeds the maximum total size")),
            );
        }
        total = total + size as u64;
        i += 1;
    }
    assert(ev.take(entries.len() as int) =~= ev);
    Ok(())
}

/// The combined size of a batch grows with the prefix taken.
proof fn lemma_batch_size_prefix(
    entries: Seq<(Seq<char>, Seq<(Seq<char>, SqsMessageAttribute)>)>,
    a: int,
    b: int,
)
    requires
        0 <= a <= b <= entries.len(),
    ensures
        batch_size(entries.take(a)) <= batch_size(entries.take(b)),
    decreases b - a,
{
    if a < b {
        lemma_batch_size_prefix(entries, a, b - 1);
        assert(entries.take(b).drop_last() =~= entries.take(b - 1));
    }
}

/// The queue a request addresses: its id when it exists, else not found.
pub fn existing_queue(queue_id: Option<u64>, queue: &str, namespace: &str) -> (r: Result<u64, Error>)
    ensures
        match queue_id {
            Some(id) => r == Ok::<u64, Error>(id),
            None => r matches Err(Error::QueueNotFound { queue: q, namespace: n }) && q@ == queue@
                && n@ == namespace@,
        },
{
    match queue_id {
        Some(id) => Ok(id),
        None => Err(Error::queue_not_found(queue, namespace)),
    }
}

} // verus!
