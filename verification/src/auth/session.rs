//! Session state bookkeeping.

use crate::text::{join, strings_view};
use vstd::prelude::*;

verus! {

/// The characters of a key with each `'` doubled, as an SQL string
/// literal writes them.
pub open spec fn escape_quotes(k: Seq<char>) -> Seq<char>
    decreases k.len(),
{
    if k.len() == 0 {
        seq![]
    } else if k.last() == '\'' {
        escape_quotes(k.drop_last()) + seq!['\'', '\'']
    } else {
        escape_quotes(k.drop_last()).push(k.last())
    }
}

/// A key of the session state, quoted as an SQL string literal.
pub open spec fn quoted(k: Seq<char>) -> Seq<char> {
    seq!['\''] + escape_quotes(k) + seq!['\'']
}

/// Appends a key quoted as an SQL string literal (see [`quoted`]).
fn push_quoted(out: &mut String, k: &str)
    ensures
        final(out)@ == old(out)@ + quoted(k@),
{
    let cs = crate::text::chars_of(k);
    let ghost start = out@;
    crate::text::push_char(out, '\'');
    let mut i: usize = 0;
    while i < cs.len()
        invariant
            0 <= i <= cs@.len(),
            cs@ == k@,
            out@ == start + seq!['\''] + escape_quotes(k@.take(i as int)),
        decreases cs.len() - i,
    {
        proof {
            assert(k@.take(i + 1).drop_last() =~= k@.take(i as int));
            assert(k@.take(i + 1).last() == cs@[i as int]);
        }
        let ghost before = out@;
        if cs[i] == '\'' {
            crate::text::push_char(out, '\'');
            crate::text::push_char(out, '\'');
            assert(out@ =~= before + seq!['\'', '\'']);
        } else {
            crate::text::push_char(out, cs[i]);
        }
        i += 1;
    }
    assert(k@.take(cs@.len() as int) =~= k@);
    crate::text::push_char(out, '\'');
    assert(out@ =~= start + quoted(k@));
}

/// The keys a session keeps after an update, each quoted and separated by
/// `, `: the list the stale state rows are deleted outside of.
pub open spec fn kept_keys_list(keys: Seq<Seq<char>>) -> Seq<char> {
    join(keys.map_values(|k: Seq<char>| quoted(k)), seq![',', ' '])
}

/// The list of the keys a session keeps after an update (see
/// [`kept_keys_list`]).
pub fn kept_keys(keys: &Vec<String>) -> (r: String)
    ensures
        r@ == kept_keys_list(strings_view(keys@)),
{
    let ghost kv = strings_view(keys@);
    let mut out = String::new();
    let mut i: usize = 0;
    while i < keys.len()
        invariant
            0 <= i <= keys.len(),
            kv == strings_view(keys@),
            out@ == kept_keys_list(kv.take(i as int)),
        decreases keys.len() - i,
    {
        let ghost prev = kv.take(i as int).map_values(|k: Seq<char>| quoted(k));
        assert(kv.take(i + 1).map_values(|k: Seq<char>| quoted(k)) =~= prev.push(
            quoted(keys@[i as int]@),
        ));
        let ghost before = out@;
        if i > 0 {
            out.append(", ");
            proof {
                reveal_strlit(", ");
                crate::text::lemma_join_push(prev, quoted(keys@[i as int]@), seq![',', ' ']);
                assert(", "@ =~= seq![',', ' ']);
            }
        } else {
            assert(kv.take(1).map_values(|k: Seq<char>| quoted(k)).len() == 1);
        }
        push_quoted(&mut out, keys[i].as_str());
        proof {
            if i > 0 {
                assert(out@ =~= before + seq![',', ' '] + quoted(keys@[i as int]@));
            } else {
                assert(out@ =~= quoted(keys@[i as int]@));
            }
        }
        i += 1;
    }
    assert(kv.take(keys.len() as int) =~= kv);
    out
}

} // verus!
