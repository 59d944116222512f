//! Character-level string operations with their specifications: splitting,
//! joining, whitespace handling, case folding and lexicographic ordering.

use vstd::prelude::*;

verus! {

// ---------------------------------------------------------------------------
// Specifications
// ---------------------------------------------------------------------------

/// Unicode `White_Space` property, as used by `char::is_whitespace`.
pub open spec fn is_whitespace_spec(c: char) -> bool {
    let u = c as u32;
    ||| 0x09 <= u <= 0x0d
    ||| u == 0x20
    ||| u == 0x85
    ||| u == 0xa0
    ||| u == 0x1680
    ||| 0x2000 <= u <= 0x200a
    ||| u == 0x2028
    ||| u == 0x2029
    ||| u == 0x202f
    ||| u == 0x205f
    ||| u == 0x3000
}

/// ASCII lowercase of one character.
pub open spec fn ascii_lower_char(c: char) -> char {
    if 'A' <= c && c <= 'Z' {
        ((c as u32) + 32) as char
    } else {
        c
    }
}

/// ASCII lowercase of a character sequence (`str::to_ascii_lowercase`).
pub open spec fn ascii_lower(s: Seq<char>) -> Seq<char> {
    s.map_values(|c: char| ascii_lower_char(c))
}

/// Joins the parts with `sep` between consecutive parts.
pub open spec fn join(parts: Seq<Seq<char>>, sep: Seq<char>) -> Seq<char>
    decreases parts.len(),
{
    if parts.len() == 0 {
        seq![]
    } else if parts.len() == 1 {
        parts[0]
    } else {
        join(parts.drop_last(), sep) + sep + parts.last()
    }
}

/// The pieces of `s` between occurrences of `d` (`str::split` with a `char`):
/// always at least one piece, possibly empty ones.
pub open spec fn split_on(s: Seq<char>, d: char) -> Seq<Seq<char>>
    decreases s.len(),
{
    if s.len() == 0 {
        seq![seq![]]
    } else {
        let p = split_on(s.drop_last(), d);
        if s.last() == d {
            p.push(seq![])
        } else {
            p.update(p.len() - 1, p.last().push(s.last()))
        }
    }
}

/// The maximal runs of non-whitespace characters of `s`, in order
/// (`str::split_whitespace`).
pub open spec fn words(s: Seq<char>) -> Seq<Seq<char>>
    decreases s.len(),
{
    if s.len() == 0 {
        seq![]
    } else {
        let w = words(s.drop_last());
        let c = s.last();
        if is_whitespace_spec(c) {
            w
        } else if s.len() >= 2 && !is_whitespace_spec(s[s.len() - 2]) {
            w.update(w.len() - 1, w.last().push(c))
        } else {
            w.push(seq![c])
        }
    }
}

/// Strict lexicographic order on character sequences by code point, which is
/// the order `str`'s `Ord` gives (UTF-8 preserves code point order).
pub open spec fn seq_lt(a: Seq<char>, b: Seq<char>) -> bool
    decreases a.len(),
{
    if a.len() == 0 {
        b.len() > 0
    } else if b.len() == 0 {
        false
    } else if a[0] != b[0] {
        a[0] < b[0]
    } else {
        seq_lt(a.drop_first(), b.drop_first())
    }
}

/// Position at which a stable insertion places an item with key `k`: before
/// the first item whose key is greater than `k`.
pub open spec fn insert_pos<V>(s: Seq<(Seq<char>, V)>, k: Seq<char>) -> int
    decreases s.len(),
{
    if s.len() == 0 {
        0
    } else if seq_lt(k, s[0].0) {
        0
    } else {
        1 + insert_pos(s.drop_first(), k)
    }
}

/// Stable sort of keyed items by key (items with equal keys keep their
/// relative order).
pub open spec fn sort_by_key<V>(s: Seq<(Seq<char>, V)>) -> Seq<(Seq<char>, V)>
    decreases s.len(),
{
    if s.len() == 0 {
        seq![]
    } else {
        let t = sort_by_key(s.drop_last());
        t.insert(insert_pos(t, s.last().0), s.last())
    }
}

/// Applies `f` to the value of every keyed item, keeping the keys.
pub open spec fn map_vals<V, W>(s: Seq<(Seq<char>, V)>, f: spec_fn(V) -> W) -> Seq<(Seq<char>, W)> {
    s.map_values(|p: (Seq<char>, V)| (p.0, f(p.1)))
}

/// Views a vector of strings as a sequence of character sequences.
pub open spec fn strings_view(v: Seq<String>) -> Seq<Seq<char>> {
    v.map_values(|s: String| s@)
}

/// Keyed items viewed with their keys as character sequences.
pub open spec fn keyed_view<V>(v: Seq<(String, V)>) -> Seq<(Seq<char>, V)> {
    v.map_values(|p: (String, V)| (p.0@, p.1))
}

/// Views keyed string pairs as pairs of character sequences.
pub open spec fn pairs_view(v: Seq<(String, String)>) -> Seq<(Seq<char>, Seq<char>)> {
    v.map_values(|p: (String, String)| (p.0@, p.1@))
}

// ---------------------------------------------------------------------------
// Lemmas
// ---------------------------------------------------------------------------

/// The insertion position lies within the sequence.
pub proof fn lemma_insert_pos_bounds<V>(s: Seq<(Seq<char>, V)>, k: Seq<char>)
    ensures
        0 <= insert_pos(s, k) <= s.len(),
    decreases s.len(),
{
    if s.len() > 0 && !seq_lt(k, s[0].0) {
        lemma_insert_pos_bounds(s.drop_first(), k);
    }
}

/// No sequence is before itself.
pub proof fn lemma_seq_lt_irreflexive(a: Seq<char>)
    ensures
        !seq_lt(a, a),
    decreases a.len(),
{
    if a.len() > 0 {
        lemma_seq_lt_irreflexive(a.drop_first());
    }
}

/// The order is transitive.
pub proof fn lemma_seq_lt_transitive(a: Seq<char>, b: Seq<char>, c: Seq<char>)
    requires
        seq_lt(a, b),
        seq_lt(b, c),
    ensures
        seq_lt(a, c),
    decreases a.len(),
{
    if a.len() > 0 && b.len() > 0 && c.len() > 0 && a[0] == b[0] && b[0] == c[0] {
        lemma_seq_lt_transitive(a.drop_first(), b.drop_first(), c.drop_first());
    }
}

/// Of two different sequences, one is before the other, and not both.
pub proof fn lemma_seq_lt_total(a: Seq<char>, b: Seq<char>)
    ensures
        a != b ==> (seq_lt(a, b) || seq_lt(b, a)),
        !(seq_lt(a, b) && seq_lt(b, a)),
    decreases a.len(),
{
    if a.len() > 0 && b.len() > 0 && a[0] == b[0] {
        lemma_seq_lt_total(a.drop_first(), b.drop_first());
        if a.drop_first() == b.drop_first() {
            assert forall|i: int| 0 <= i < a.len() implies a[i] == b[i] by {
                if i > 0 {
                    assert(a[i] == a.drop_first()[i - 1]);
                    assert(b[i] == b.drop_first()[i - 1]);
                }
            }
            assert(a =~= b);
        }
    } else if a.len() == 0 && b.len() == 0 {
        assert(a =~= b);
    }
}

/// Keys never decrease along the sequence.
pub open spec fn sorted_by_key<V>(s: Seq<(Seq<char>, V)>) -> bool {
    forall|i: int, j: int| 0 <= i < j < s.len() ==> !seq_lt(#[trigger] s[j].0, #[trigger] s[i].0)
}

/// Keys strictly increase along the sequence.
pub open spec fn strictly_ascending<V>(s: Seq<(Seq<char>, V)>) -> bool {
    forall|i: int, j: int| 0 <= i < j < s.len() ==> seq_lt(#[trigger] s[i].0, #[trigger] s[j].0)
}

/// Every item before the insertion position has a key not greater than
/// `k`, and the item at it, if any, has a greater key.
pub proof fn lemma_insert_pos_splits<V>(s: Seq<(Seq<char>, V)>, k: Seq<char>)
    ensures
        forall|i: int| 0 <= i < insert_pos(s, k) && i < s.len() ==> !seq_lt(k, #[trigger] s[i].0),
        insert_pos(s, k) < s.len() ==> seq_lt(k, s[insert_pos(s, k)].0),
    decreases s.len(),
{
    if s.len() > 0 && !seq_lt(k, s[0].0) {
        lemma_insert_pos_splits(s.drop_first(), k);
        assert forall|i: int| 0 <= i < insert_pos(s, k) && i < s.len() implies !seq_lt(
            k,
            #[trigger] s[i].0,
        ) by {
            if i > 0 {
                assert(s[i] == s.drop_first()[i - 1]);
            }
        }
        let q = insert_pos(s.drop_first(), k);
        lemma_insert_pos_bounds(s.drop_first(), k);
        if q < s.drop_first().len() {
            assert(s[q + 1] == s.drop_first()[q]);
        }
    }
}

/// A stable sort by key leaves the keys in non-decreasing order.
pub proof fn lemma_sort_sorted<V>(s: Seq<(Seq<char>, V)>)
    ensures
        sorted_by_key(sort_by_key(s)),
    decreases s.len(),
{
    if s.len() > 0 {
        let t = sort_by_key(s.drop_last());
        let x = s.last();
        lemma_sort_sorted(s.drop_last());
        lemma_insert_pos_bounds(t, x.0);
        lemma_insert_pos_splits(t, x.0);
        let p = insert_pos(t, x.0);
        let u = t.insert(p, x);
        assert(u == sort_by_key(s));
        assert forall|i: int, j: int| 0 <= i < j < u.len() implies !seq_lt(
            #[trigger] u[j].0,
            #[trigger] u[i].0,
        ) by {
            if i == p {
                // u[i] is x; u[j] is t[j - 1], at or after the position
                assert(u[j] == t[j - 1]);
                if j - 1 > p {
                    assert(!seq_lt(t[j - 1].0, t[p].0));
                    if seq_lt(t[j - 1].0, x.0) {
                        lemma_seq_lt_transitive(t[j - 1].0, x.0, t[p].0);
                    }
                } else {
                    lemma_seq_lt_total(x.0, t[p].0);
                }
            } else if j == p {
                assert(u[i] == t[i]);
                assert(!seq_lt(x.0, t[i].0));
            } else {
                let ti = if i < p { i } else { i - 1 };
                let tj = if j < p { j } else { j - 1 };
                assert(u[i] == t[ti]);
                assert(u[j] == t[tj]);
            }
        }
    }
}

/// Every item of the sorted sequence is an item of the input.
pub proof fn lemma_sort_items<V>(s: Seq<(Seq<char>, V)>, x: (Seq<char>, V))
    ensures
        sort_by_key(s).contains(x) ==> s.contains(x),
    decreases s.len(),
{
    if s.len() > 0 {
        let t = sort_by_key(s.drop_last());
        lemma_insert_pos_bounds(t, s.last().0);
        let p = insert_pos(t, s.last().0);
        if sort_by_key(s).contains(x) {
            let k = choose|k: int| 0 <= k < sort_by_key(s).len() && sort_by_key(s)[k] == x;
            if k == p {
                assert(s[s.len() - 1] == x);
            } else {
                let tk = if k < p { k } else { k - 1 };
                assert(t[tk] == x);
                lemma_sort_items(s.drop_last(), x);
                let m = choose|m: int| 0 <= m < s.drop_last().len() && s.drop_last()[m] == x;
                assert(s[m] == x);
            }
        }
    }
}

/// The insertion position depends on the keys only.
pub proof fn lemma_insert_pos_map_vals<V, W>(t: Seq<(Seq<char>, V)>, f: spec_fn(V) -> W, k: Seq<char>)
    ensures
        insert_pos(map_vals(t, f), k) == insert_pos(t, k),
    decreases t.len(),
{
    if t.len() > 0 {
        assert(map_vals(t, f).drop_first() =~= map_vals(t.drop_first(), f));
        lemma_insert_pos_map_vals(t.drop_first(), f, k);
    }
}

/// Sorting string pairs by key sorts their character views alike.
pub proof fn lemma_sort_pairs_view(v: Seq<(String, String)>, w: Seq<(String, String)>)
    requires
        keyed_view(w) == sort_by_key(keyed_view(v)),
    ensures
        pairs_view(w) == sort_by_key(pairs_view(v)),
{
    let f = |s: String| s@;
    assert(pairs_view(v) =~= map_vals(keyed_view(v), f));
    assert(pairs_view(w) =~= map_vals(keyed_view(w), f));
    lemma_sort_map_vals(keyed_view(v), f);
}

/// Sorting by key commutes with transforming the values.
pub proof fn lemma_sort_map_vals<V, W>(s: Seq<(Seq<char>, V)>, f: spec_fn(V) -> W)
    ensures
        sort_by_key(map_vals(s, f)) == map_vals(sort_by_key(s), f),
    decreases s.len(),
{
    if s.len() > 0 {
        let t = sort_by_key(s.drop_last());
        let k = s.last().0;
        assert(map_vals(s, f).drop_last() =~= map_vals(s.drop_last(), f));
        lemma_sort_map_vals(s.drop_last(), f);
        lemma_insert_pos_map_vals(t, f, k);
        lemma_insert_pos_bounds(t, k);
        let pos = insert_pos(t, k);
        assert(map_vals(t, f).insert(pos, (k, f(s.last().1))) =~= map_vals(t.insert(pos, s.last()), f));
    }
}

pub proof fn lemma_split_nonempty(s: Seq<char>, d: char)
    ensures
        split_on(s, d).len() >= 1,
    decreases s.len(),
{
    if s.len() > 0 {
        lemma_split_nonempty(s.drop_last(), d);
    }
}

pub proof fn lemma_words_nonempty(s: Seq<char>)
    ensures
        forall|i: int| 0 <= i < words(s).len() ==> #[trigger] words(s)[i].len() > 0,
        s.len() >= 1 && !is_whitespace_spec(s.last()) ==> words(s).len() >= 1,
    decreases s.len(),
{
    if s.len() > 0 {
        lemma_words_nonempty(s.drop_last());
        let w = words(s.drop_last());
        if s.len() >= 2 && !is_whitespace_spec(s[s.len() - 2]) {
            assert(s.drop_last().last() == s[s.len() - 2]);
        }
    }
}

pub proof fn lemma_join_push(parts: Seq<Seq<char>>, x: Seq<char>, sep: Seq<char>)
    requires
        parts.len() >= 1,
    ensures
        join(parts.push(x), sep) == join(parts, sep) + sep + x,
{
    assert(parts.push(x).drop_last() =~= parts);
}

pub proof fn lemma_join_extend_last(parts: Seq<Seq<char>>, c: char, sep: Seq<char>)
    requires
        parts.len() >= 1,
    ensures
        join(parts.update(parts.len() - 1, parts.last().push(c)), sep) == join(parts, sep).push(c),
{
    let q = parts.update(parts.len() - 1, parts.last().push(c));
    if parts.len() >= 2 {
        assert(q.drop_last() =~= parts.drop_last());
        assert(join(q, sep) =~= join(parts, sep).push(c));
    }
}

pub proof fn lemma_join_nonempty(parts: Seq<Seq<char>>, sep: Seq<char>)
    requires
        forall|i: int| 0 <= i < parts.len() ==> #[trigger] parts[i].len() > 0,
    ensures
        join(parts, sep).len() == 0 <==> parts.len() == 0,
    decreases parts.len(),
{
    if parts.len() > 1 {
        assert(parts.last() == parts[parts.len() - 1]);
    } else if parts.len() == 1 {
        assert(parts[0].len() > 0);
    }
}

/// UTF-8 encoding distributes over concatenation.
pub proof fn lemma_encode_utf8_concat(a: Seq<char>, b: Seq<char>)
    ensures
        vstd::utf8::encode_utf8(a + b) == vstd::utf8::encode_utf8(a) + vstd::utf8::encode_utf8(b),
    decreases a.len(),
{
    if a.len() > 0 {
        lemma_encode_utf8_concat(a.drop_first(), b);
        assert((a + b).drop_first() =~= a.drop_first() + b);
        assert((a + b)[0] == a[0]);
        assert(vstd::utf8::encode_utf8(a + b) =~= vstd::utf8::encode_scalar(a[0] as u32)
            + (vstd::utf8::encode_utf8(a.drop_first()) + vstd::utf8::encode_utf8(b)));
    } else {
        assert(a + b =~= b);
    }
}

// ---------------------------------------------------------------------------
// Executable operations
// ---------------------------------------------------------------------------

/// The lowercase of a string by Unicode's full case mapping, as
/// `str::to_lowercase` computes it.
pub uninterp spec fn unicode_lowercase(s: Seq<char>) -> Seq<char>;

/// `str::to_lowercase`: each character of `s` mapped to its lowercase by
/// Unicode's full case mapping (some to several characters, a final sigma
/// by its context), a function of `s` alone.
#[verifier::external_body]
pub(crate) fn to_lowercase(s: &str) -> (r: String)
    ensures
        r@ == unicode_lowercase(s@),
{
    s.to_lowercase()
}

/// Appends one character to a string (`String::push`).
#[verifier::external_body]
pub(crate) fn push_char(s: &mut String, c: char)
    ensures
        final(s)@ == old(s)@.push(c),
{
    s.push(c);
}

/// The characters of `s`, in order.
pub fn chars_of(s: &str) -> (r: Vec<char>)
    ensures
        r@ == s@,
{
    let mut r: Vec<char> = Vec::new();
    for c in it: s.chars()
        invariant
            r@ == it.seq().take(it.index() as int),
            it.seq() == s@,
    {
        r.push(c);
    }
    r
}

/// The string made of the given characters.
pub fn string_from_chars(cs: &Vec<char>) -> (r: String)
    ensures
        r@ == cs@,
{
    let mut r = String::new();
    let mut i: usize = 0;
    while i < cs.len()
        invariant
            0 <= i <= cs.len(),
            r@ == cs@.take(i as int),
        decreases cs.len() - i,
    {
        push_char(&mut r, cs[i]);
        assert(cs@.take(i + 1) =~= cs@.take(i as int).push(cs@[i as int]));
        i += 1;
    }
    assert(cs@.take(cs.len() as int) =~= cs@);
    r
}

/// Whether two character vectors are equal.
pub fn chars_eq(a: &Vec<char>, b: &Vec<char>) -> (r: bool)
    ensures
        r == (a@ == b@),
{
    if a.len() != b.len() {
        return false;
    }
    let mut i: usize = 0;
    while i < a.len()
        invariant
            0 <= i <= a.len(),
            a.len() == b.len(),
            forall|j: int| 0 <= j < i ==> a@[j] == b@[j],
        decreases a.len() - i,
    {
        if a[i] != b[i] {
            return false;
        }
        i += 1;
    }
    assert(a@ =~= b@);
    true
}

/// Whether two string slices hold the same characters.
pub fn str_eq(a: &str, b: &str) -> (r: bool)
    ensures
        r == (a@ == b@),
{
    let ca = chars_of(a);
    let cb = chars_of(b);
    chars_eq(&ca, &cb)
}

/// Whether `a` precedes `b` in lexicographic order.
pub fn str_lt(a: &str, b: &str) -> (r: bool)
    ensures
        r == seq_lt(a@, b@),
{
    let ca = chars_of(a);
    let cb = chars_of(b);
    let mut i: usize = 0;
    assert(a@.skip(0) =~= a@);
    assert(b@.skip(0) =~= b@);
    while i < ca.len() && i < cb.len()
        invariant
            0 <= i <= ca.len(),
            i <= cb.len(),
            ca@ == a@,
            cb@ == b@,
            forall|j: int| 0 <= j < i ==> ca@[j] == cb@[j],
            seq_lt(a@, b@) == seq_lt(a@.skip(i as int), b@.skip(i as int)),
        decreases ca.len() - i,
    {
        if ca[i] != cb[i] {
            proof {
                assert(a@.skip(i as int)[0] == ca@[i as int]);
                assert(b@.skip(i as int)[0] == cb@[i as int]);
            }
            return ca[i] < cb[i];
        }
        proof {
            assert(a@.skip(i as int).drop_first() =~= a@.skip(i + 1));
            assert(b@.skip(i as int).drop_first() =~= b@.skip(i + 1));
        }
        i += 1;
    }
    i < cb.len()
}

/// Whether `c` is whitespace (`char::is_whitespace`).
pub fn is_whitespace(c: char) -> (r: bool)
    ensures
        r == is_whitespace_spec(c),
{
    let u = c as u32;
    (0x09 <= u && u <= 0x0d) || u == 0x20 || u == 0x85 || u == 0xa0 || u == 0x1680 || (0x2000
        <= u && u <= 0x200a) || u == 0x2028 || u == 0x2029 || u == 0x202f || u == 0x205f || u
        == 0x3000
}

/// `str::to_ascii_lowercase`.
pub fn to_ascii_lowercase(s: &str) -> (r: String)
    ensures
        r@ == ascii_lower(s@),
{
    let cs = chars_of(s);
    let mut out: Vec<char> = Vec::new();
    let mut i: usize = 0;
    while i < cs.len()
        invariant
            0 <= i <= cs.len(),
            cs@ == s@,
            out@ == ascii_lower(s@.take(i as int)),
        decreases cs.len() - i,
    {
        let c = cs[i];
        let l = if 'A' <= c && c <= 'Z' {
            let b: u8 = c as u8;
            (b + 32) as char
        } else {
            c
        };
        out.push(l);
        assert(ascii_lower(s@.take(i + 1)) =~= ascii_lower(s@.take(i as int)).push(
            ascii_lower_char(c),
        ));
        i += 1;
    }
    assert(s@.take(cs.len() as int) =~= s@);
    string_from_chars(&out)
}

/// Concatenates the strings with `sep` between consecutive ones.
pub fn join_strings(parts: &Vec<String>, sep: &str) -> (r: String)
    ensures
        r@ == join(strings_view(parts@), sep@),
{
    let mut r = String::new();
    let mut i: usize = 0;
    while i < parts.len()
        invariant
            0 <= i <= parts.len(),
            r@ == join(strings_view(parts@.take(i as int)), sep@),
        decreases parts.len() - i,
    {
        let ghost prev = strings_view(parts@.take(i as int));
        assert(strings_view(parts@.take(i + 1)) =~= prev.push(parts@[i as int]@));
        if i > 0 {
            r.append(sep);
            proof {
                lemma_join_push(prev, parts@[i as int]@, sep@);
            }
        } else {
            assert(strings_view(parts@.take(1)).len() == 1);
        }
        r.append(parts[i].as_str());
        i += 1;
    }
    assert(parts@.take(parts.len() as int) =~= parts@);
    r
}

/// `s.split(d)` collected into owned strings.
pub fn split_char(s: &str, d: char) -> (r: Vec<String>)
    ensures
        strings_view(r@) == split_on(s@, d),
{
    let cs = chars_of(s);
    let mut pieces: Vec<String> = Vec::new();
    let mut cur: Vec<char> = Vec::new();
    let mut i: usize = 0;
    while i < cs.len()
        invariant
            0 <= i <= cs.len(),
            cs@ == s@,
            strings_view(pieces@).push(cur@) == split_on(s@.take(i as int), d),
        decreases cs.len() - i,
    {
        let c = cs[i];
        proof {
            assert(s@.take(i + 1).drop_last() =~= s@.take(i as int));
            lemma_split_nonempty(s@.take(i as int), d);
        }
        if c == d {
            let piece = string_from_chars(&cur);
            let ghost before = strings_view(pieces@);
            pieces.push(piece);
            assert(strings_view(pieces@) =~= before.push(cur@));
            cur = Vec::new();
            assert(strings_view(pieces@).push(cur@) =~= split_on(s@.take(i + 1), d));
        } else {
            let ghost old_cur = cur@;
            cur.push(c);
            assert(strings_view(pieces@).push(cur@) =~= split_on(s@.take(i + 1), d));
        }
        i += 1;
    }
    let last = string_from_chars(&cur);
    let ghost before = strings_view(pieces@);
    pieces.push(last);
    assert(strings_view(pieces@) =~= before.push(cur@));
    assert(s@.take(cs.len() as int) =~= s@);
    pieces
}

/// `s.split_whitespace()` joined with single spaces: trims the ends and
/// collapses every run of whitespace into one space.
pub fn collapse_whitespace(s: &str) -> (r: String)
    ensures
        r@ == join(words(s@), seq![' ']),
{
    let cs = chars_of(s);
    let mut out: Vec<char> = Vec::new();
    let mut i: usize = 0;
    while i < cs.len()
        invariant
            0 <= i <= cs.len(),
            cs@ == s@,
            out@ == join(words(s@.take(i as int)), seq![' ']),
        decreases cs.len() - i,
    {
        let c = cs[i];
        let ghost pre = s@.take(i as int);
        let ghost w = words(pre);
        proof {
            assert(s@.take(i + 1).drop_last() =~= pre);
            assert(s@.take(i + 1).last() == c);
            lemma_words_nonempty(pre);
            lemma_join_nonempty(w, seq![' ']);
        }
        if !is_whitespace(c) {
            if i > 0 && !is_whitespace(cs[i - 1]) {
                proof {
                    assert(s@.take(i + 1)[i - 1] == cs@[i - 1]);
                    assert(pre.last() == cs@[i - 1]);
                    lemma_join_extend_last(w, c, seq![' ']);
                }
                out.push(c);
            } else if out.len() > 0 {
                proof {
                    lemma_join_push(w, seq![c], seq![' ']);
                }
                out.push(' ');
                out.push(c);
                assert(out@ =~= join(w, seq![' ']) + seq![' '] + seq![c]);
            } else {
                assert(w.len() == 0);
                assert(w.push(seq![c]) =~= seq![seq![c]]);
                out.push(c);
                assert(out@ =~= seq![c]);
            }
        }
        i += 1;
    }
    assert(s@.take(cs.len() as int) =~= s@);
    string_from_chars(&out)
}

/// Stable sort of keyed items by their key.
pub fn sort_pairs_by_key<V>(items: Vec<(String, V)>) -> (r: Vec<(String, V)>)
    ensures
        keyed_view(r@) == sort_by_key(keyed_view(items@)),
{
    let ghost input = keyed_view(items@);
    let mut rest = items;
    let mut out: Vec<(String, V)> = Vec::new();
    let ghost n = rest.len();
    let mut done: usize = 0;
    while rest.len() > 0
        invariant
            done + rest.len() == n,
            n == input.len(),
            forall|j: int|
                0 <= j < rest.len() ==> (#[trigger] rest@[j].0@, rest@[j].1) == input[done + j],
            keyed_view(out@) == sort_by_key(input.take(done as int)),
        decreases rest.len(),
    {
        let x = rest.remove(0);
        let ghost xv = (x.0@, x.1);
        let ghost sorted = keyed_view(out@);
        // find the insertion position: before the first key greater than x's key
        let mut pos: usize = 0;
        assert(sorted.skip(0) =~= sorted);
        while pos < out.len() && !str_lt(x.0.as_str(), out[pos].0.as_str())
            invariant
                0 <= pos <= out.len(),
                sorted == keyed_view(out@),
                insert_pos(sorted, x.0@) == pos + insert_pos(sorted.skip(pos as int), x.0@),
            decreases out.len() - pos,
        {
            proof {
                assert(sorted.skip(pos as int)[0] == sorted[pos as int]);
                assert(sorted.skip(pos as int).drop_first() =~= sorted.skip(pos + 1));
            }
            pos += 1;
        }
        proof {
            if pos < out.len() {
                assert(sorted.skip(pos as int)[0] == sorted[pos as int]);
            } else {
                assert(sorted.skip(pos as int).len() == 0);
            }
            assert(input.take(done + 1).drop_last() =~= input.take(done as int));
            assert(input.take(done + 1).last() == xv);
        }
        out.insert(pos, x);
        assert(keyed_view(out@) =~= sorted.insert(pos as int, xv));
        done += 1;
    }
    assert(input.take(n as int) =~= input);
    out
}

} // verus!
