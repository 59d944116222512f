//! Assembly of SQS messages and operation responses: which stored
//! attributes a receive returns, the MD5 digests of bodies and attributes,
//! and the per-entry results of batch operations.

use crate::digest::{hex_lower, md5_digest, md5_hex};
use crate::error::{error_message, status_line_spec, Error};
use crate::numeric::{decimal, u64_to_decimal};
use crate::sqs::types::{
    encode_attribute, ChangeMessageVisibilityBatchResponse, ChangeMessageVisibilityBatchResultError,
    ChangeMessageVisibilityBatchResultSuccess, DeleteMessageBatchResponse, DeleteMessageBatchResultError,
    DeleteMessageBatchResultSuccess, SendMessageBatchResponse, SendMessageBatchResultEntry,
    SendMessageBatchResultErrorEntry, SendMessageResponse, SqsMessage, SqsMessageAttribute,
};
use crate::text::{
    chars_eq, chars_of, keyed_view, seq_lt, sort_by_key, sort_pairs_by_key, sorted_by_key,
    strictly_ascending,
};
use vstd::prelude::*;

verus! {

/// Whether a request for the attribute names `names` asks for the key:
/// it names it, or it names `All`.
pub open spec fn requested(names: Seq<Seq<char>>, key: Seq<char>) -> bool {
    names.contains("All"@) || names.contains(key)
}

/// The items whose key is requested by `names` (see [`requested`]), in
/// order.
pub open spec fn named_only<V>(s: Seq<(Seq<char>, V)>, names: Seq<Seq<char>>) -> Seq<
    (Seq<char>, V),
>
    decreases s.len(),
{
    if s.len() == 0 {
        seq![]
    } else if requested(names, s.last().0) {
        named_only(s.drop_last(), names).push(s.last())
    } else {
        named_only(s.drop_last(), names)
    }
}

/// Collapses each run of adjacent items with equal keys into its last item.
pub open spec fn last_per_key<V>(s: Seq<(Seq<char>, V)>) -> Seq<(Seq<char>, V)>
    decreases s.len(),
{
    if s.len() == 0 {
        seq![]
    } else {
        let t = last_per_key(s.drop_last());
        if t.len() > 0 && t.last().0 == s.last().0 {
            t.update(t.len() - 1, s.last())
        } else {
            t.push(s.last())
        }
    }
}

/// The attributes a receive returns from a message's stored attributes: the
/// requested names only, one entry per name carrying the value stored last
/// for it, in ascending name order (the stored pairs are collected into an
/// ordered map). Asking for `All` returns every name.
pub open spec fn selected_attributes<V>(stored: Seq<(Seq<char>, V)>, names: Seq<Seq<char>>) -> Seq<
    (Seq<char>, V),
> {
    last_per_key(sort_by_key(named_only(stored, names)))
}

/// Every item kept by [`named_only`] is an item of the input whose key is
/// requested.
pub proof fn lemma_named_only_items<V>(s: Seq<(Seq<char>, V)>, names: Seq<Seq<char>>, x: (Seq<char>, V))
    ensures
        named_only(s, names).contains(x) ==> s.contains(x) && requested(names, x.0),
    decreases s.len(),
{
    if s.len() > 0 {
        lemma_named_only_items(s.drop_last(), names, x);
        let r = named_only(s.drop_last(), names);
        if named_only(s, names).contains(x) {
            let k = choose|k: int| 0 <= k < named_only(s, names).len() && named_only(s, names)[k] == x;
            if requested(names, s.last().0) && k == r.len() {
                assert(s[s.len() - 1] == x);
            } else {
                assert(r[k] == x);
                let m = choose|m: int| 0 <= m < s.drop_last().len() && s.drop_last()[m] == x;
                assert(s[m] == x);
            }
        }
    }
}

/// Collapsing runs of a key-sorted sequence leaves strictly ascending keys,
/// each item taken from the input.
pub proof fn lemma_last_per_key_ascending<V>(s: Seq<(Seq<char>, V)>)
    requires
        sorted_by_key(s),
    ensures
        strictly_ascending(last_per_key(s)),
        forall|k: int|
            0 <= k < last_per_key(s).len() ==> s.contains(#[trigger] last_per_key(s)[k]),
    decreases s.len(),
{
    if s.len() > 0 {
        let d = s.drop_last();
        let x = s.last();
        assert(sorted_by_key(d)) by {
            assert forall|i: int, j: int| 0 <= i < j < d.len() implies !seq_lt(
                #[trigger] d[j].0,
                #[trigger] d[i].0,
            ) by {
                assert(d[i] == s[i] && d[j] == s[j]);
            }
        }
        lemma_last_per_key_ascending(d);
        let t = last_per_key(d);
        // every key so far is at most x's key
        assert forall|k: int| 0 <= k < t.len() implies !seq_lt(x.0, #[trigger] t[k].0) by {
            let m = choose|m: int| 0 <= m < d.len() && d[m] == t[k];
            assert(s[m] == t[k]);
            assert(!seq_lt(s[s.len() - 1].0, s[m].0));
        }
        let r = last_per_key(s);
        if t.len() > 0 && t.last().0 == x.0 {
            assert(r == t.update(t.len() - 1, x));
            assert forall|i: int, j: int| 0 <= i < j < r.len() implies seq_lt(
                #[trigger] r[i].0,
                #[trigger] r[j].0,
            ) by {
                assert(r[i].0 == t[i].0);
                assert(r[j].0 == t[j].0);
            }
            assert forall|k: int| 0 <= k < r.len() implies s.contains(#[trigger] r[k]) by {
                if k == t.len() - 1 {
                    assert(s[s.len() - 1] == r[k]);
                } else {
                    assert(r[k] == t[k]);
                    let m = choose|m: int| 0 <= m < d.len() && d[m] == t[k];
                    assert(s[m] == r[k]);
                }
            }
        } else {
            assert(r == t.push(x));
            if t.len() > 0 {
                crate::text::lemma_seq_lt_total(t.last().0, x.0);
            }
            assert forall|i: int, j: int| 0 <= i < j < r.len() implies seq_lt(
                #[trigger] r[i].0,
                #[trigger] r[j].0,
            ) by {
                if j == t.len() {
                    assert(r[j] == x);
                    assert(r[i] == t[i]);
                    if i < t.len() - 1 {
                        crate::text::lemma_seq_lt_transitive(t[i].0, t[t.len() - 1].0, x.0);
                    }
                } else {
                    assert(r[i] == t[i] && r[j] == t[j]);
                }
            }
            assert forall|k: int| 0 <= k < r.len() implies s.contains(#[trigger] r[k]) by {
                if k == t.len() {
                    assert(s[s.len() - 1] == r[k]);
                } else {
                    assert(r[k] == t[k]);
                    let m = choose|m: int| 0 <= m < d.len() && d[m] == t[k];
                    assert(s[m] == r[k]);
                }
            }
        }
    }
}

/// The attributes a receive returns come in strictly ascending name order
/// (so each name at most once); each carries a requested name and is one
/// of the stored attribute pairs. Asking for `All` keeps every stored
/// name.
pub proof fn lemma_selected_attributes_ascending<V>(stored: Seq<(Seq<char>, V)>, names: Seq<Seq<char>>)
    ensures
        strictly_ascending(selected_attributes(stored, names)),
        forall|k: int|
            0 <= k < selected_attributes(stored, names).len() ==> {
                let a = #[trigger] selected_attributes(stored, names)[k];
                &&& requested(names, a.0)
                &&& stored.contains(a)
            },
{
    let kept = named_only(stored, names);
    let sorted = sort_by_key(kept);
    crate::text::lemma_sort_sorted(kept);
    lemma_last_per_key_ascending(sorted);
    assert forall|k: int| 0 <= k < selected_attributes(stored, names).len() implies {
        let a = #[trigger] selected_attributes(stored, names)[k];
        &&& requested(names, a.0)
        &&& stored.contains(a)
    } by {
        let a = selected_attributes(stored, names)[k];
        crate::text::lemma_sort_items(kept, a);
        lemma_named_only_items(stored, names, a);
    }
}

/// The bytes whose MD5 digest SQS reports for a list of attributes: their
/// encodings, concatenated in list order.
pub open spec fn encode_attributes(attrs: Seq<(Seq<char>, SqsMessageAttribute)>) -> Seq<u8>
    decreases attrs.len(),
{
    if attrs.len() == 0 {
        seq![]
    } else {
        encode_attributes(attrs.drop_last()) + encode_attribute(attrs.last().0, attrs.last().1)
    }
}

/// The bytes digested for one attribute are its SQS encoding.
pub proof fn lemma_encode_one_attribute(x: (Seq<char>, SqsMessageAttribute))
    ensures
        encode_attributes(seq![x]) == encode_attribute(x.0, x.1),
{
    assert(seq![x].drop_last() =~= Seq::<(Seq<char>, SqsMessageAttribute)>::empty());
    reveal_with_fuel(encode_attributes, 2);
    assert(Seq::<u8>::empty() + encode_attribute(x.0, x.1) =~= encode_attribute(x.0, x.1));
}

/// The bytes digested for a list of attributes are the encodings of its
/// parts one after another, in list order: those of `s`, then those of
/// `t`.
pub proof fn lemma_encode_attributes_in_order(
    s: Seq<(Seq<char>, SqsMessageAttribute)>,
    t: Seq<(Seq<char>, SqsMessageAttribute)>,
)
    ensures
        encode_attributes(s + t) == encode_attributes(s) + encode_attributes(t),
    decreases t.len(),
{
    if t.len() == 0 {
        assert(s + t =~= s);
        assert(encode_attributes(s) + Seq::<u8>::empty() =~= encode_attributes(s));
    } else {
        lemma_encode_attributes_in_order(s, t.drop_last());
        assert((s + t).drop_last() =~= s + t.drop_last());
        assert((s + t).last() == t.last());
        assert(encode_attributes(s) + encode_attributes(t.drop_last()) + encode_attribute(
            t.last().0,
            t.last().1,
        ) =~= encode_attributes(s) + (encode_attributes(t.drop_last()) + encode_attribute(
            t.last().0,
            t.last().1,
        )));
    }
}

/// Appending an attribute appends its encoding to the digested bytes; for
/// two attributes the bytes are the first's encoding, then the second's.
pub proof fn lemma_encode_attribute_appended(
    s: Seq<(Seq<char>, SqsMessageAttribute)>,
    x: (Seq<char>, SqsMessageAttribute),
    y: (Seq<char>, SqsMessageAttribute),
)
    ensures
        encode_attributes(s.push(x)) == encode_attributes(s) + encode_attribute(x.0, x.1),
        encode_attributes(seq![x, y]) == encode_attribute(x.0, x.1) + encode_attribute(y.0, y.1),
{
    assert(s.push(x).drop_last() =~= s);
    lemma_encode_one_attribute(x);
    assert(seq![x, y].drop_last() =~= seq![x]);
}

/// The reported MD5 digest of a list of attributes.
pub open spec fn attributes_md5(attrs: Seq<(Seq<char>, SqsMessageAttribute)>) -> Seq<char> {
    hex_lower(md5_digest(encode_attributes(attrs)))
}

/// The reported MD5 digest of a message body.
pub open spec fn body_md5(body: Seq<char>) -> Seq<char> {
    hex_lower(md5_digest(vstd::utf8::encode_utf8(body)))
}

/// Whether `names` contains `name`.
pub fn contains_name(names: &Vec<String>, name: &str) -> (r: bool)
    ensures
        r == crate::text::strings_view(names@).contains(name@),
{
    let target = chars_of(name);
    let mut i: usize = 0;
    while i < names.len()
        invariant
            0 <= i <= names.len(),
            target@ == name@,
            forall|j: int| 0 <= j < i ==> names@[j]@ != name@,
        decreases names.len() - i,
    {
        let c = chars_of(names[i].as_str());
        if chars_eq(&c, &target) {
            assert(crate::text::strings_view(names@)[i as int] == name@);
            return true;
        }
        i += 1;
    }
    proof {
        if crate::text::strings_view(names@).contains(name@) {
            let j = choose|j: int|
                0 <= j < names@.len() && #[trigger] crate::text::strings_view(names@)[j]
                    == name@;
            assert(names@[j]@ == name@);
        }
    }
    false
}

/// Selects the attributes a receive returns from a message's stored
/// attribute pairs (see [`selected_attributes`]).
pub fn select_attributes<V>(stored: Vec<(String, V)>, names: &Vec<String>) -> (r: Vec<(String, V)>)
    ensures
        keyed_view(r@) == selected_attributes(
            keyed_view(stored@),
            crate::text::strings_view(names@),
        ),
{
    let ghost input = keyed_view(stored@);
    let ghost nv = crate::text::strings_view(names@);
    let all = contains_name(names, "All");
    // keep the requested names only
    let mut rest = stored;
    let mut kept: Vec<(String, V)> = Vec::new();
    let ghost n = rest.len();
    let mut done: usize = 0;
    while rest.len() > 0
        invariant
            done + rest.len() == n,
            n == input.len(),
            nv == crate::text::strings_view(names@),
            all == nv.contains("All"@),
            forall|j: int|
                0 <= j < rest.len() ==> (#[trigger] rest@[j].0@, rest@[j].1) == input[done + j],
            keyed_view(kept@) == named_only(input.take(done as int), nv),
        decreases rest.len(),
    {
        let x = rest.remove(0);
        let ghost xv = (x.0@, x.1);
        proof {
            assert(input.take(done + 1).drop_last() =~= input.take(done as int));
            assert(input.take(done + 1).last() == xv);
        }
        if all || contains_name(names, x.0.as_str()) {
            let ghost before = keyed_view(kept@);
            kept.push(x);
            assert(keyed_view(kept@) =~= before.push(xv));
        }
        done += 1;
    }
    assert(input.take(n as int) =~= input);
    // order by name
    let sorted = sort_pairs_by_key(kept);
    let ghost sv = keyed_view(sorted@);
    // keep the last value of each name
    let mut rest2 = sorted;
    let mut out: Vec<(String, V)> = Vec::new();
    let ghost m = rest2.len();
    let mut done2: usize = 0;
    while rest2.len() > 0
        invariant
            done2 + rest2.len() == m,
            m == sv.len(),
            forall|j: int|
                0 <= j < rest2.len() ==> (#[trigger] rest2@[j].0@, rest2@[j].1) == sv[done2 + j],
            keyed_view(out@) == last_per_key(sv.take(done2 as int)),
        decreases rest2.len(),
    {
        let x = rest2.remove(0);
        let ghost xv = (x.0@, x.1);
        let ghost before = keyed_view(out@);
        proof {
            assert(sv.take(done2 + 1).drop_last() =~= sv.take(done2 as int));
            assert(sv.take(done2 + 1).last() == xv);
        }
        let same = if out.len() > 0 {
            let a = chars_of(out[out.len() - 1].0.as_str());
            let b = chars_of(x.0.as_str());
            chars_eq(&a, &b)
        } else {
            false
        };
        if same {
            let last = out.len() - 1;
            out.set(last, x);
            assert(keyed_view(out@) =~= before.update(before.len() - 1, xv));
        } else {
            out.push(x);
            assert(keyed_view(out@) =~= before.push(xv));
        }
        done2 += 1;
    }
    assert(sv.take(m as int) =~= sv);
    out
}

/// The MD5 digest (lowercase hexadecimal) of a list of attributes, as SQS
/// reports it.
pub fn attributes_digest(attrs: &Vec<(String, SqsMessageAttribute)>) -> (r: String)
    ensures
        r@ == attributes_md5(keyed_view(attrs@)),
{
    let ghost av = keyed_view(attrs@);
    let mut bytes: Vec<u8> = Vec::new();
    let mut i: usize = 0;
    while i < attrs.len()
        invariant
            0 <= i <= attrs.len(),
            av == keyed_view(attrs@),
            bytes@ == encode_attributes(av.take(i as int)),
        decreases attrs.len() - i,
    {
        attrs[i].1.serialize_into(attrs[i].0.as_str(), &mut bytes);
        assert(av.take(i + 1).drop_last() =~= av.take(i as int));
        i += 1;
    }
    assert(av.take(attrs.len() as int) =~= av);
    md5_hex(bytes.as_slice())
}

/// The MD5 digest (lowercase hexadecimal) of a message body's UTF-8 bytes.
pub fn body_digest(body: &str) -> (r: String)
    ensures
        r@ == body_md5(body@),
{
    md5_hex(body.as_bytes())
}

/// The response to a successful send: the new message's id and the digests
/// of its body and of its attributes taken in ascending name order, as a
/// receive returns them.
pub fn send_response(message_id: u64, body: &str, attrs: Vec<(String, SqsMessageAttribute)>) -> (r:
    SendMessageResponse)
    ensures
        r.message_id == message_id,
        r.md5_of_message_body@ == body_md5(body@),
        r.md5_of_message_attributes@ == attributes_md5(sort_by_key(keyed_view(attrs@))),
{
    let sorted = sort_pairs_by_key(attrs);
    SendMessageResponse {
        message_id,
        md5_of_message_body: body_digest(body),
        md5_of_message_attributes: attributes_digest(&sorted),
    }
}

/// Asking for `All` keeps every stored attribute.
pub proof fn lemma_all_keeps_everything<V>(stored: Seq<(Seq<char>, V)>, names: Seq<Seq<char>>)
    requires
        names.contains("All"@),
    ensures
        named_only(stored, names) == stored,
    decreases stored.len(),
{
    if stored.len() > 0 {
        lemma_all_keeps_everything(stored.drop_last(), names);
        assert(stored.drop_last().push(stored.last()) =~= stored);
    }
}

/// A received message as returned to the consumer: its id in decimal, its
/// receipt handle (empty when none was minted), its body with digest, the
/// selected attributes with their digest, and no system attributes.
pub fn received_message(
    id: u64,
    receipt_handle: Option<String>,
    body: String,
    message_attributes: Vec<(String, SqsMessageAttribute)>,
) -> (r: SqsMessage)
    ensures
        r.message_id@ == decimal(id as nat),
        r.receipt_handle@ == (match receipt_handle {
            Some(h) => h@,
            None => Seq::<char>::empty(),
        }),
        r.body@ == body@,
        r.md5_of_body@ == body_md5(body@),
        r.attributes@.len() == 0,
        r.message_attributes@ == message_attributes@,
        r.md5_of_message_attributes@ == attributes_md5(keyed_view(message_attributes@)),
{
    let handle = match receipt_handle {
        Some(h) => h,
        None => String::new(),
    };
    let md5_of_body = body_digest(body.as_str());
    let md5_of_message_attributes = attributes_digest(&message_attributes);
    SqsMessage {
        message_id: u64_to_decimal(id),
        receipt_handle: handle,
        md5_of_body,
        body,
        attributes: Vec::new(),
        md5_of_message_attributes,
        message_attributes,
    }
}

/// The result entry of one send of a batch: a success entry carrying the
/// message id in decimal and the body digest, or a failure entry carrying
/// the error's status line and message, not blamed on the sender.
pub open spec fn send_entry_ok(id: Seq<char>, res: SendMessageResponse, e: SendMessageBatchResultEntry) -> bool {
    &&& e.id@ == id
    &&& e.message_id@ == decimal(res.message_id as nat)
    &&& e.md5_of_message_body@ == res.md5_of_message_body@
}

/// See [`send_entry_ok`].
pub open spec fn send_entry_err(id: Seq<char>, err: Error, e: SendMessageBatchResultErrorEntry) -> bool {
    &&& e.id@ == id
    &&& !e.sender_fault
    &&& e.code@ == status_line_spec(err)
    &&& e.message matches Some(m) && m@ == error_message(err)
}

/// The outcomes of a batch send that succeeded, in entry order.
pub open spec fn succeeded_sends(s: Seq<(String, Result<SendMessageResponse, Error>)>) -> Seq<(String, Result<SendMessageResponse, Error>)> {
    s.filter(|p: (String, Result<SendMessageResponse, Error>)| p.1 is Ok)
}

/// The outcomes of a batch send that failed, in entry order.
pub open spec fn failed_sends(s: Seq<(String, Result<SendMessageResponse, Error>)>) -> Seq<(String, Result<SendMessageResponse, Error>)> {
    s.filter(|p: (String, Result<SendMessageResponse, Error>)| p.1 is Err)
}

/// The response of a batch send from the per-entry outcomes, in entry
/// order: successes in `successful`, failures in `failed`.
pub fn send_batch_response(results: Vec<(String, Result<SendMessageResponse, Error>)>) -> (r:
    SendMessageBatchResponse)
    ensures
        r.successful@.len() + r.failed@.len() == results@.len(),
        r.successful@.len() == succeeded_sends(results@).len(),
        forall|i: int|
            0 <= i < r.successful@.len() ==> {
                let p = succeeded_sends(results@)[i];
                send_entry_ok(p.0@, p.1->Ok_0, #[trigger] r.successful@[i])
            },
        forall|i: int|
            0 <= i < r.failed@.len() ==> {
                let p = failed_sends(results@)[i];
                send_entry_err(p.0@, p.1->Err_0, #[trigger] r.failed@[i])
            },
        r.failed@.len() == failed_sends(results@).len(),
{
    let ghost all = results@;
    let mut rest = results;
    let mut successful: Vec<SendMessageBatchResultEntry> = Vec::new();
    let mut failed: Vec<SendMessageBatchResultErrorEntry> = Vec::new();
    let ghost n = rest.len();
    let mut done: usize = 0;
    while rest.len() > 0
        invariant
            done + rest.len() == n,
            n == all.len(),
            forall|j: int| 0 <= j < rest.len() ==> #[trigger] rest@[j] == all[done + j],
            successful@.len() == succeeded_sends(all.take(done as int)).len(),
            successful@.len() + failed@.len() == done,
            failed@.len() == failed_sends(all.take(done as int)).len(),
            forall|i: int|
                0 <= i < successful@.len() ==> {
                    let p = succeeded_sends(all.take(done as int))[i];
                    send_entry_ok(p.0@, p.1->Ok_0, #[trigger] successful@[i])
                },
            forall|i: int|
                0 <= i < failed@.len() ==> {
                    let p = failed_sends(all.take(done as int))[i];
                    send_entry_err(p.0@, p.1->Err_0, #[trigger] failed@[i])
                },
        decreases rest.len(),
    {
        let (id, res) = rest.remove(0);
        let ghost pre = all.take(done as int);
        let ghost cur = all.take(done + 1);
        proof {
            assert(cur.drop_last() =~= pre);
            assert(cur.last() == all[done as int]);
            reveal_with_fuel(Seq::filter, 1);
        }
        match res {
            Ok(resp) => {
                let entry = SendMessageBatchResultEntry {
                    id,
                    message_id: u64_to_decimal(resp.message_id),
                    md5_of_message_body: resp.md5_of_message_body,
                };
                successful.push(entry);
                assert(succeeded_sends(cur) == succeeded_sends(pre).push(all[done as int]));
                assert(failed_sends(cur) == failed_sends(pre));
            },
            Err(e) => {
                let entry = SendMessageBatchResultErrorEntry {
                    id,
                    sender_fault: false,
                    code: e.status_line(),
                    message: Some(e.message()),
                };
                failed.push(entry);
                assert(failed_sends(cur) == failed_sends(pre).push(all[done as int]));
                assert(succeeded_sends(cur) == succeeded_sends(pre));
            },
        }
        done += 1;
    }
    assert(all.take(n as int) =~= all);
    SendMessageBatchResponse { successful, failed }
}

/// The error code reported for each failed entry of a batch delete.
pub open spec fn receipt_handle_invalid_code() -> Seq<char> {
    "ReceiptHandleIsInvalid"@
}

/// The response of a batch delete: a success entry per deleted entry id,
/// and per failed entry a `ReceiptHandleIsInvalid` error blamed on the
/// sender and carrying the error's message, each list in the given order.
pub fn delete_batch_response(successful: Vec<String>, failed: Vec<(String, Error)>) -> (r:
    DeleteMessageBatchResponse)
    ensures
        r.successful@.len() == successful@.len(),
        forall|i: int|
            0 <= i < successful@.len() ==> (#[trigger] r.successful@[i]).id@ == successful@[i]@,
        r.failed@.len() == failed@.len(),
        forall|i: int|
            0 <= i < failed@.len() ==> {
                let e = #[trigger] r.failed@[i];
                &&& e.id@ == failed@[i].0@
                &&& e.code@ == receipt_handle_invalid_code()
                &&& e.message@ == error_message(failed@[i].1)
                &&& e.sender_fault
            },
{
    let mut ok: Vec<DeleteMessageBatchResultSuccess> = Vec::new();
    let mut i: usize = 0;
    while i < successful.len()
        invariant
            0 <= i <= successful.len(),
            ok@.len() == i,
            forall|j: int| 0 <= j < i ==> (#[trigger] ok@[j]).id@ == successful@[j]@,
        decreases successful.len() - i,
    {
        ok.push(DeleteMessageBatchResultSuccess { id: successful[i].clone() });
        i += 1;
    }
    let mut bad: Vec<DeleteMessageBatchResultError> = Vec::new();
    let mut k: usize = 0;
    while k < failed.len()
        invariant
            0 <= k <= failed.len(),
            bad@.len() == k,
            forall|j: int|
                0 <= j < k ==> {
                    let e = #[trigger] bad@[j];
                    &&& e.id@ == failed@[j].0@
                    &&& e.code@ == receipt_handle_invalid_code()
                    &&& e.message@ == error_message(failed@[j].1)
                    &&& e.sender_fault
                },
        decreases failed.len() - k,
    {
        let entry = DeleteMessageBatchResultError {
            id: failed[k].0.clone(),
            code: String::from_str("ReceiptHandleIsInvalid"),
            message: failed[k].1.message(),
            sender_fault: true,
        };
        bad.push(entry);
        k += 1;
    }
    DeleteMessageBatchResponse { failed: bad, successful: ok }
}

/// The error code of a failed entry of a batch visibility change: an
/// out-of-range timeout is an invalid parameter value, anything else an
/// invalid receipt handle.
pub open spec fn visibility_batch_code(e: Error) -> Seq<char> {
    if e is InvalidParameter {
        "InvalidParameterValue"@
    } else {
        "ReceiptHandleIsInvalid"@
    }
}

/// The response of a batch visibility change: a success entry per changed
/// entry id, and per failed entry its code (see [`visibility_batch_code`]),
/// blamed on the sender and carrying the error's message, each list in the
/// given order.
pub fn change_visibility_batch_response(successful: Vec<String>, failed: Vec<(String, Error)>) -> (r:
    ChangeMessageVisibilityBatchResponse)
    ensures
        r.successful@.len() == successful@.len(),
        forall|i: int|
            0 <= i < successful@.len() ==> (#[trigger] r.successful@[i]).id@ == successful@[i]@,
        r.failed@.len() == failed@.len(),
        forall|i: int|
            0 <= i < failed@.len() ==> {
                let e = #[trigger] r.failed@[i];
                &&& e.id@ == failed@[i].0@
                &&& e.code@ == visibility_batch_code(failed@[i].1)
                &&& e.message@ == error_message(failed@[i].1)
                &&& e.sender_fault
            },
{
    let mut ok: Vec<ChangeMessageVisibilityBatchResultSuccess> = Vec::new();
    let mut i: usize = 0;
    while i < successful.len()
        invariant
            0 <= i <= successful.len(),
            ok@.len() == i,
            forall|j: int| 0 <= j < i ==> (#[trigger] ok@[j]).id@ == successful@[j]@,
        decreases successful.len() - i,
    {
        ok.push(ChangeMessageVisibilityBatchResultSuccess { id: successful[i].clone() });
        i += 1;
    }
    let mut bad: Vec<ChangeMessageVisibilityBatchResultError> = Vec::new();
    let mut k: usize = 0;
    while k < failed.len()
        invariant
            0 <= k <= failed.len(),
            bad@.len() == k,
            forall|j: int|
                0 <= j < k ==> {
                    let e = #[trigger] bad@[j];
                    &&& e.id@ == failed@[j].0@
                    &&& e.code@ == visibility_batch_code(failed@[j].1)
                    &&& e.message@ == error_message(failed@[j].1)
                    &&& e.sender_fault
                },
        decreases failed.len() - k,
    {
        let code = match &failed[k].1 {
            Error::InvalidParameter { .. } => String::from_str("InvalidParameterValue"),
            _ => String::from_str("ReceiptHandleIsInvalid"),
        };
        let entry = ChangeMessageVisibilityBatchResultError {
            id: failed[k].0.clone(),
            code,
            message: failed[k].1.message(),
            sender_fault: true,
        };
        bad.push(entry);
        k += 1;
    }
    ChangeMessageVisibilityBatchResponse { failed: bad, successful: ok }
}

} // verus!
