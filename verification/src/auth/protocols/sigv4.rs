//! AWS Signature Version 4 verification.
//!
//! A request signed with SigV4 carries the signature of a canonical form of
//! itself. The server rebuilds that canonical request from what it received,
//! derives the same string to sign, signs it with the key derived from the
//! caller's secret, and accepts the request only if both signatures agree.

use crate::api::auth::User;
use crate::auth::credential::AuthorizedNamespace;
use crate::digest::{
    generate_signing_key, hex_encode, hex_lower, hmac_sha256, hmac_sha256_tag, percent_encode,
    sha256_digest, sha256_hex, sigv4_signing_key, url_encode,
};
use crate::auth::protocols::scope_date::{parse_scope_date, scope_date_secs};
use crate::error::Error;
use crate::text::{
    collapse_whitespace, join, join_strings, keyed_view, pairs_view, sort_by_key,
    sort_pairs_by_key, split_char, split_on, str_eq, strings_view, to_lowercase,
    unicode_lowercase, words,
};
use vstd::prelude::*;

verus! {

/// The parsed components of a SigV4 `Authorization` header.
#[derive(Debug)]
pub struct SigV4Header<'a> {
    /// The signing algorithm (typically `AWS4-HMAC-SHA256`).
    pub algorithm: &'a str,
    /// The access key id the request was signed with.
    pub key_id: &'a str,
    /// The date of the credential scope (`YYYYMMDD`).
    pub date: &'a str,
    /// The names of the headers covered by the signature.
    pub signed_headers: Vec<&'a str>,
    /// The signature to verify.
    pub signature: &'a str,
    /// The region of the credential scope.
    pub region: &'a str,
    /// The service of the credential scope.
    pub service: &'a str,
}

/// A SigV4 header viewed as character sequences.
pub struct SigV4HeaderView {
    pub algorithm: Seq<char>,
    pub key_id: Seq<char>,
    pub date: Seq<char>,
    pub signed_headers: Seq<Seq<char>>,
    pub signature: Seq<char>,
    pub region: Seq<char>,
    pub service: Seq<char>,
}

impl<'a> View for SigV4Header<'a> {
    type V = SigV4HeaderView;

    open spec fn view(&self) -> SigV4HeaderView {
        SigV4HeaderView {
            algorithm: self.algorithm@,
            key_id: self.key_id@,
            date: self.date@,
            signed_headers: str_views(self.signed_headers@),
            signature: self.signature@,
            region: self.region@,
            service: self.service@,
        }
    }
}

/// What the signature covers of a received request. Header names are
/// lowercase, as the server stores them, in the order received; a value is
/// absent when it is not visible ASCII text.
pub struct SignedRequest {
    pub method: String,
    pub path: String,
    pub query: String,
    pub headers: Vec<(String, Option<String>)>,
    pub payload: Vec<u8>,
}

/// String slices viewed as character sequences.
pub open spec fn str_views(v: Seq<&str>) -> Seq<Seq<char>> {
    v.map_values(|h: &str| h@)
}

/// A received request viewed as character and byte sequences.
pub struct SignedRequestView {
    pub method: Seq<char>,
    pub path: Seq<char>,
    pub query: Seq<char>,
    pub headers: Seq<(Seq<char>, Option<Seq<char>>)>,
    pub payload: Seq<u8>,
}

/// An optional string viewed as an optional character sequence.
pub open spec fn opt_view(o: Option<String>) -> Option<Seq<char>> {
    match o {
        Some(s) => Some(s@),
        None => None,
    }
}

/// Request headers viewed as character sequences.
pub open spec fn headers_view(h: Seq<(String, Option<String>)>) -> Seq<(Seq<char>, Option<Seq<char>>)> {
    h.map_values(|p: (String, Option<String>)| (p.0@, opt_view(p.1)))
}

impl View for SignedRequest {
    type V = SignedRequestView;

    open spec fn view(&self) -> SignedRequestView {
        SignedRequestView {
            method: self.method@,
            path: self.path@,
            query: self.query@,
            headers: headers_view(self.headers@),
            payload: self.payload@,
        }
    }
}

/// The stored credential of an access key: the secret it signs with, the
/// namespace it grants and the user owning it.
#[derive(Debug, Clone)]
pub struct SigningCredential {
    pub secret: String,
    pub namespace: String,
    pub user: User,
}

// ---------------------------------------------------------------------------
// The canonical request
// ---------------------------------------------------------------------------

/// The value of the first header named `name`: `None` if there is none,
/// `Some(None)` if its value is unreadable.
pub open spec fn header_lookup(hs: Seq<(Seq<char>, Option<Seq<char>>)>, name: Seq<char>) -> Option<
    Option<Seq<char>>,
>
    decreases hs.len(),
{
    if hs.len() == 0 {
        None
    } else if hs[0].0 == name {
        Some(hs[0].1)
    } else {
        header_lookup(hs.drop_first(), name)
    }
}

/// The non-empty pieces, in order.
pub open spec fn nonempty_only(s: Seq<Seq<char>>) -> Seq<Seq<char>>
    decreases s.len(),
{
    if s.len() == 0 {
        seq![]
    } else if s.last().len() == 0 {
        nonempty_only(s.drop_last())
    } else {
        nonempty_only(s.drop_last()).push(s.last())
    }
}

/// A query parameter split into its url-encoded key and value: the text
/// before the first `=`, and the text between it and the next `=` (empty
/// when there is no `=`).
pub open spec fn query_pair(param: Seq<char>) -> (Seq<char>, Seq<char>) {
    let parts = split_on(param, '=');
    let value = if parts.len() > 1 {
        parts[1]
    } else {
        seq![]
    };
    (
        percent_encode(vstd::utf8::encode_utf8(parts[0])),
        percent_encode(vstd::utf8::encode_utf8(value)),
    )
}

/// The encoded pairs of the given parameters.
pub open spec fn encoded_pairs(params: Seq<Seq<char>>) -> Seq<(Seq<char>, Seq<char>)> {
    params.map_values(|p: Seq<char>| query_pair(p))
}

/// The encoded key/value pairs of a query string's non-empty parameters.
pub open spec fn query_pairs(query: Seq<char>) -> Seq<(Seq<char>, Seq<char>)> {
    encoded_pairs(nonempty_only(split_on(query, '&')))
}

/// Pairs written `key=value`.
pub open spec fn query_items(pairs: Seq<(Seq<char>, Seq<char>)>) -> Seq<Seq<char>> {
    pairs.map_values(|kv: (Seq<char>, Seq<char>)| kv.0 + seq!['='] + kv.1)
}

/// The canonical query string: the encoded pairs ordered by key (pairs with
/// equal keys keep their order), written `key=value` and joined with `&`.
pub open spec fn canonical_query(query: Seq<char>) -> Seq<char> {
    join(query_items(sort_by_key(query_pairs(query))), seq!['&'])
}

/// Names as keys of items without a value.
pub open spec fn with_unit(names: Seq<Seq<char>>) -> Seq<(Seq<char>, ())> {
    names.map_values(|n: Seq<char>| (n, ()))
}

/// The Unicode lowercase of each key.
pub open spec fn lowered_keys(items: Seq<(Seq<char>, ())>) -> Seq<Seq<char>> {
    items.map_values(|p: (Seq<char>, ())| unicode_lowercase(p.0))
}

/// The signed header names, sorted and then lowercased.
pub open spec fn signed_names(names: Seq<Seq<char>>) -> Seq<Seq<char>> {
    lowered_keys(sort_by_key(with_unit(names)))
}

/// Why the canonical headers could not be built: a signed header is absent,
/// or its value is unreadable.
pub enum HeaderFault {
    Missing(Seq<char>),
    Unreadable(Seq<char>),
}

/// One canonical header line: the name, a colon, the value with its
/// whitespace runs collapsed to single spaces and its ends trimmed, and a
/// newline.
pub open spec fn header_line(name: Seq<char>, value: Seq<char>) -> Seq<char> {
    name + seq![':'] + join(words(value), seq![' ']) + seq!['\n']
}

/// The canonical headers block for the given names, in order, or the fault
/// of the first name that has no readable value.
pub open spec fn canonical_headers(
    names: Seq<Seq<char>>,
    hs: Seq<(Seq<char>, Option<Seq<char>>)>,
) -> Result<Seq<char>, HeaderFault>
    decreases names.len(),
{
    if names.len() == 0 {
        Ok(seq![])
    } else {
        match canonical_headers(names.drop_last(), hs) {
            Err(f) => Err(f),
            Ok(block) => match header_lookup(hs, names.last()) {
                None => Err(HeaderFault::Missing(names.last())),
                Some(None) => Err(HeaderFault::Unreadable(names.last())),
                Some(Some(v)) => Ok(block + header_line(names.last(), v)),
            },
        }
    }
}

/// The canonical request: method, path, canonical query, canonical headers,
/// signed header names joined with `;`, and the hexadecimal SHA-256 of the
/// payload, one per line.
pub open spec fn canonical_request(
    req: SignedRequestView,
    header_block: Seq<char>,
    names: Seq<Seq<char>>,
) -> Seq<char> {
    join(
        seq![
            req.method,
            req.path,
            canonical_query(req.query),
            header_block,
            join(names, seq![';']),
            hex_lower(sha256_digest(req.payload)),
        ],
        seq!['\n'],
    )
}

/// The string to sign: algorithm, request date, credential scope
/// (`date/region/service/aws4_request`) and the hexadecimal SHA-256 of the
/// canonical request, one per line.
pub open spec fn string_to_sign(
    h: SigV4HeaderView,
    amz_date: Seq<char>,
    canonical: Seq<char>,
) -> Seq<char> {
    join(
        seq![
            h.algorithm,
            amz_date,
            join(seq![h.date, h.region, h.service, "aws4_request"@], seq!['/']),
            hex_lower(sha256_digest(vstd::utf8::encode_utf8(canonical))),
        ],
        seq!['\n'],
    )
}

/// The signature the server computes: the hexadecimal HMAC-SHA256 of the
/// string to sign under the signing key derived from the secret for the
/// credential scope's date, region and service.
pub open spec fn expected_signature(
    secret: Seq<char>,
    h: SigV4HeaderView,
    sts: Seq<char>,
) -> Seq<char> {
    hex_lower(
        hmac_sha256_tag(
            sigv4_signing_key(secret, h.date, h.region, h.service),
            vstd::utf8::encode_utf8(sts),
        ),
    )
}

/// How verifying a SigV4-signed request ends.
pub enum SigV4Outcome {
    /// No credential exists for the access key id.
    UnknownKey,
    /// The request has no `x-amz-date` header.
    DateMissing,
    /// The `x-amz-date` header is not readable text.
    DateUnreadable,
    /// A signed header is missing or unreadable.
    BadHeader(HeaderFault),
    /// The signatures differ.
    Mismatch,
    /// The signatures agree.
    Verified,
}

/// The outcome of verifying a request signed as `h` against the secret of
/// its access key, if any. The signing key is derived for the day of the
/// credential scope's date; a scope date that names no day cannot match.
pub open spec fn sigv4_outcome(
    h: SigV4HeaderView,
    secret: Option<Seq<char>>,
    req: SignedRequestView,
) -> SigV4Outcome {
    match secret {
        None => SigV4Outcome::UnknownKey,
        Some(secret) => match header_lookup(req.headers, "x-amz-date"@) {
            None => SigV4Outcome::DateMissing,
            Some(None) => SigV4Outcome::DateUnreadable,
            Some(Some(amz_date)) => {
                let names = signed_names(h.signed_headers);
                match canonical_headers(names, req.headers) {
                    Err(f) => SigV4Outcome::BadHeader(f),
                    Ok(block) => match scope_date_secs(h.date) {
                        None => SigV4Outcome::Mismatch,
                        Some(_) => {
                            let sts = string_to_sign(
                                h,
                                amz_date,
                                canonical_request(req, block, names),
                            );
                            if h.signature == expected_signature(secret, h, sts) {
                                SigV4Outcome::Verified
                            } else {
                                SigV4Outcome::Mismatch
                            }
                        },
                    },
                }
            },
        },
    }
}

/// The message of the error reported for an unreadable `x-amz-date`.
pub open spec fn unreadable_header_message() -> Seq<char> {
    "failed to convert header to a str"@
}

/// Whether `r` is what verification answers for outcome `o`: the error of
/// each failure, or the credential's user and namespace on success.
pub open spec fn sigv4_answer(
    o: SigV4Outcome,
    h: SigV4HeaderView,
    credential: Option<SigningCredential>,
    r: Result<(User, AuthorizedNamespace), Error>,
) -> bool {
    match o {
        SigV4Outcome::UnknownKey => r matches Err(Error::IdentityNotFound { key_id }) && key_id@
            == h.key_id,
        SigV4Outcome::DateMissing => r matches Err(Error::MissingHeader { header }) && header@
            == "x-amz-date"@,
        SigV4Outcome::DateUnreadable => r matches Err(Error::InternalServerError { message })
            && message@ == unreadable_header_message(),
        SigV4Outcome::BadHeader(HeaderFault::Missing(n)) => r matches Err(
            Error::MissingHeader { header },
        ) && header@ == n,
        SigV4Outcome::BadHeader(HeaderFault::Unreadable(n)) => r matches Err(
            Error::InvalidHeader { header },
        ) && header@ == n,
        SigV4Outcome::Mismatch => r matches Err(Error::Unauthorized),
        SigV4Outcome::Verified => credential matches Some(c) && r == Ok::<
            (User, AuthorizedNamespace),
            Error,
        >((c.user, AuthorizedNamespace(c.namespace))),
    }
}

/// The secret of an optional credential.
pub open spec fn secret_of(c: Option<SigningCredential>) -> Option<Seq<char>> {
    match c {
        Some(c) => Some(c.secret@),
        None => None,
    }
}

/// The canonical query lists the encoded parameters in non-decreasing key
/// order.
pub proof fn lemma_canonical_query_sorted(query: Seq<char>)
    ensures
        crate::text::sorted_by_key(sort_by_key(query_pairs(query))),
{
    crate::text::lemma_sort_sorted(query_pairs(query));
}

// ---------------------------------------------------------------------------
// Computation
// ---------------------------------------------------------------------------

/// The value of the first header named `name` (see [`header_lookup`]).
pub fn find_header<'a>(headers: &'a Vec<(String, Option<String>)>, name: &str) -> (r: Option<
    &'a Option<String>,
>)
    ensures
        match header_lookup(headers_view(headers@), name@) {
            None => r is None,
            Some(v) => r matches Some(x) && opt_view(*x) == v,
        },
{
    let ghost hv = headers_view(headers@);
    let mut i: usize = 0;
    assert(hv.skip(0) =~= hv);
    while i < headers.len()
        invariant
            0 <= i <= headers.len(),
            hv == headers_view(headers@),
            header_lookup(hv, name@) == header_lookup(hv.skip(i as int), name@),
        decreases headers.len() - i,
    {
        assert(hv.skip(i as int)[0] == hv[i as int]);
        if str_eq(headers[i].0.as_str(), name) {
            return Some(&headers[i].1);
        }
        assert(hv.skip(i as int).drop_first() =~= hv.skip(i + 1));
        i += 1;
    }
    assert(hv.skip(i as int).len() == 0);
    None
}

/// The canonical query string of a raw query string (see
/// [`canonical_query`]).
pub fn canonical_query_string(query: &str) -> (r: String)
    ensures
        r@ == canonical_query(query@),
{
    let params = split_char(query, '&');
    let ghost pieces = strings_view(params@);
    let mut pairs: Vec<(String, String)> = Vec::new();
    let mut i: usize = 0;
    while i < params.len()
        invariant
            0 <= i <= params.len(),
            pieces == strings_view(params@),
            pieces == split_on(query@, '&'),
            pairs_view(pairs@) == encoded_pairs(nonempty_only(pieces.take(i as int))),
        decreases params.len() - i,
    {
        let param = params[i].as_str();
        let ghost before = pairs_view(pairs@);
        proof {
            assert(pieces.take(i + 1).drop_last() =~= pieces.take(i as int));
            assert(pieces.take(i + 1).last() == param@);
        }
        if param.unicode_len() > 0 {
            let parts = split_char(param, '=');
            proof {
                crate::text::lemma_split_nonempty(param@, '=');
            }
            let key = url_encode(parts[0].as_str());
            let value = if parts.len() > 1 {
                url_encode(parts[1].as_str())
            } else {
                proof {
                    reveal_strlit("");
                }
                url_encode("")
            };
            pairs.push((key, value));
            assert(pairs_view(pairs@) =~= before.push(query_pair(param@)));
            assert(encoded_pairs(nonempty_only(pieces.take(i + 1))) =~= encoded_pairs(
                nonempty_only(pieces.take(i as int)),
            ).push(query_pair(param@)));
        }
        i += 1;
    }
    assert(pieces.take(params.len() as int) =~= pieces);
    let ghost unsorted = pairs@;
    let sorted = sort_pairs_by_key(pairs);
    proof {
        crate::text::lemma_sort_pairs_view(unsorted, sorted@);
    }
    let ghost sv = pairs_view(sorted@);
    assert(sv == sort_by_key(query_pairs(query@)));
    let mut items: Vec<String> = Vec::new();
    let mut j: usize = 0;
    while j < sorted.len()
        invariant
            0 <= j <= sorted.len(),
            sv == pairs_view(sorted@),
            items@.len() == j,
            forall|k: int|
                0 <= k < j ==> (#[trigger] items@[k])@ == sv[k].0 + seq!['='] + sv[k].1,
        decreases sorted.len() - j,
    {
        let mut item = sorted[j].0.clone();
        crate::text::push_char(&mut item, '=');
        item.append(sorted[j].1.as_str());
        assert(sv[j as int] == (sorted@[j as int].0@, sorted@[j as int].1@));
        items.push(item);
        j += 1;
    }
    proof {
        reveal_strlit("&");
        assert("&"@ =~= seq!['&']);
        assert(strings_view(items@) =~= query_items(sv));
    }
    join_strings(&items, "&")
}

/// The signed header names, sorted and lowercased (see [`signed_names`]).
pub fn sorted_signed_headers(names: &Vec<&str>) -> (r: Vec<String>)
    ensures
        strings_view(r@) == signed_names(str_views(names@)),
{
    let ghost nv = str_views(names@);
    let mut keyed: Vec<(String, ())> = Vec::new();
    let mut i: usize = 0;
    while i < names.len()
        invariant
            0 <= i <= names.len(),
            nv == str_views(names@),
            keyed_view(keyed@) == with_unit(nv.take(i as int)),
        decreases names.len() - i,
    {
        let name: &str = names[i];
        let ghost before = keyed_view(keyed@);
        keyed.push((name.to_owned(), ()));
        assert(nv[i as int] == name@);
        assert(keyed_view(keyed@) =~= before.push((name@, ())));
        assert(with_unit(nv.take(i + 1)) =~= with_unit(nv.take(i as int)).push((name@, ())));
        i += 1;
    }
    assert(nv.take(names.len() as int) =~= nv);
    let sorted = sort_pairs_by_key(keyed);
    let ghost sv = keyed_view(sorted@);
    let mut out: Vec<String> = Vec::new();
    let mut j: usize = 0;
    while j < sorted.len()
        invariant
            0 <= j <= sorted.len(),
            sv == keyed_view(sorted@),
            strings_view(out@) == lowered_keys(sv.take(j as int)),
        decreases sorted.len() - j,
    {
        let lower = to_lowercase(sorted[j].0.as_str());
        let ghost before = strings_view(out@);
        out.push(lower);
        assert(sv[j as int].0 == sorted@[j as int].0@);
        assert(strings_view(out@) =~= before.push(unicode_lowercase(sv[j as int].0)));
        assert(lowered_keys(sv.take(j + 1)) =~= lowered_keys(sv.take(j as int)).push(
            unicode_lowercase(sv[j as int].0),
        ));
        j += 1;
    }
    assert(sv.take(sorted.len() as int) =~= sv);
    out
}

/// The canonical headers block for the given names (see
/// [`canonical_headers`]), with the fault of the first unusable name
/// reported as `MissingHeader` or `InvalidHeader`.
pub fn canonical_headers_block(names: &Vec<String>, headers: &Vec<(String, Option<String>)>) -> (r:
    Result<String, Error>)
    ensures
        match canonical_headers(strings_view(names@), headers_view(headers@)) {
            Ok(block) => r matches Ok(s) && s@ == block,
            Err(HeaderFault::Missing(n)) => r matches Err(Error::MissingHeader { header })
                && header@ == n,
            Err(HeaderFault::Unreadable(n)) => r matches Err(Error::InvalidHeader { header })
                && header@ == n,
        },
{
    let ghost nv = strings_view(names@);
    let ghost hv = headers_view(headers@);
    let mut block = String::new();
    let mut i: usize = 0;
    while i < names.len()
        invariant
            0 <= i <= names.len(),
            nv == strings_view(names@),
            hv == headers_view(headers@),
            canonical_headers(nv.take(i as int), hv) == Ok::<Seq<char>, HeaderFault>(block@),
        decreases names.len() - i,
    {
        let name = names[i].as_str();
        proof {
            assert(nv.take(i + 1).drop_last() =~= nv.take(i as int));
            assert(nv.take(i + 1).last() == name@);
        }
        match find_header(headers, name) {
            None => {
                proof {
                    lemma_canonical_headers_prefix_fault(nv, hv, i + 1);
                }
                return Err(Error::MissingHeader { header: name.to_owned() });
            },
            Some(None) => {
                proof {
                    lemma_canonical_headers_prefix_fault(nv, hv, i + 1);
                }
                return Err(Error::InvalidHeader { header: name.to_owned() });
            },
            Some(Some(value)) => {
                let ghost before = block@;
                block.append(name);
                crate::text::push_char(&mut block, ':');
                let collapsed = collapse_whitespace(value.as_str());
                block.append(collapsed.as_str());
                crate::text::push_char(&mut block, '\n');
                assert(block@ =~= before + header_line(name@, value@));
            },
        }
        i += 1;
    }
    assert(nv.take(names.len() as int) =~= nv);
    Ok(block)
}

/// A fault found for a prefix of the names is the fault of all of them.
proof fn lemma_canonical_headers_prefix_fault(
    names: Seq<Seq<char>>,
    hs: Seq<(Seq<char>, Option<Seq<char>>)>,
    k: int,
)
    requires
        0 <= k <= names.len(),
        canonical_headers(names.take(k), hs) is Err,
    ensures
        canonical_headers(names, hs) == canonical_headers(names.take(k), hs),
    decreases names.len() - k,
{
    if k < names.len() {
        assert(names.take(k + 1).drop_last() =~= names.take(k));
        lemma_canonical_headers_prefix_fault(names, hs, k + 1);
    } else {
        assert(names.take(k) =~= names);
    }
}

/// Verifies a SigV4-signed request, given the stored credential of its
/// access key, if any. The signing key is derived for the day of the
/// credential scope's date. Answers the credential's user and namespace
/// when the signatures agree, and otherwise the error of the first check
/// that fails (see [`sigv4_outcome`]).
pub fn authenticate_sigv4(
    header: &SigV4Header,
    credential: Option<SigningCredential>,
    request: &SignedRequest,
) -> (r: Result<(User, AuthorizedNamespace), Error>)
    ensures
        sigv4_answer(sigv4_outcome(header@, secret_of(credential), request@), header@, credential, r),
{
    let credential = match credential {
        None => {
            return Err(Error::IdentityNotFound { key_id: header.key_id.to_owned() });
        },
        Some(c) => c,
    };
    let amz_date: &str = match find_header(&request.headers, "x-amz-date") {
        None => {
            return Err(Error::MissingHeader { header: String::from_str("x-amz-date") });
        },
        Some(None) => {
            return Err(Error::internal(String::from_str("failed to convert header to a str")));
        },
        Some(Some(v)) => v.as_str(),
    };
    let payload_hash = sha256_hex(request.payload.as_slice());
    let query = canonical_query_string(request.query.as_str());
    let names = sorted_signed_headers(&header.signed_headers);
    let ghost nv = strings_view(names@);
    assert(nv == signed_names(header@.signed_headers));
    let header_block = match canonical_headers_block(&names, &request.headers) {
        Ok(b) => b,
        Err(e) => {
            return Err(e);
        },
    };
    assert(canonical_headers(nv, request@.headers) == Ok::<Seq<char>, HeaderFault>(
        header_block@,
    ));
    let day = match parse_scope_date(header.date) {
        Some(d) => d,
        None => {
            return Err(Error::Unauthorized);
        },
    };
    let signing_key = generate_signing_key(
        credential.secret.as_str(),
        header.date,
        day,
        header.region,
        header.service,
    );
    let signed_list = join_strings(&names, ";");
    let ghost parts = seq![
        request@.method,
        request@.path,
        query@,
        header_block@,
        signed_list@,
        payload_hash@,
    ];
    let mut lines: Vec<String> = Vec::new();
    lines.push(request.method.clone());
    lines.push(request.path.clone());
    lines.push(query);
    lines.push(header_block);
    lines.push(signed_list);
    lines.push(payload_hash);
    assert(strings_view(lines@) =~= parts);
    let canonical = join_strings(&lines, "\n");
    proof {
        reveal_strlit(";");
        reveal_strlit("\n");
        assert(";"@ =~= seq![';']);
        assert("\n"@ =~= seq!['\n']);
        assert(parts =~= seq![
            request@.method,
            request@.path,
            canonical_query(request@.query),
            canonical_headers(nv, request@.headers)->Ok_0,
            join(nv, seq![';']),
            hex_lower(sha256_digest(request@.payload)),
        ]);
        assert(canonical@ == canonical_request(request@, canonical_headers(nv, request@.headers)->Ok_0, nv));
    }
    let canonical_hash = sha256_hex(canonical.as_str().as_bytes());
    let mut scope_parts: Vec<String> = Vec::new();
    scope_parts.push(header.date.to_owned());
    scope_parts.push(header.region.to_owned());
    scope_parts.push(header.service.to_owned());
    scope_parts.push(String::from_str("aws4_request"));
    assert(strings_view(scope_parts@) =~= seq![
        header@.date,
        header@.region,
        header@.service,
        "aws4_request"@,
    ]);
    let scope = join_strings(&scope_parts, "/");
    let ghost sts_parts = seq![header@.algorithm, amz_date@, scope@, canonical_hash@];
    let mut sts_lines: Vec<String> = Vec::new();
    sts_lines.push(header.algorithm.to_owned());
    sts_lines.push(amz_date.to_owned());
    sts_lines.push(scope);
    sts_lines.push(canonical_hash);
    assert(strings_view(sts_lines@) =~= sts_parts);
    let sts = join_strings(&sts_lines, "\n");
    proof {
        reveal_strlit("/");
        reveal_strlit("x-amz-date");
        assert("/"@ =~= seq!['/']);
        assert(sts@ == string_to_sign(header@, amz_date@, canonical@));
    }
    let generated = match hmac_sha256(signing_key.as_slice(), sts.as_str().as_bytes()) {
        Some(tag) => hex_encode(tag.as_slice()),
        None => {
            return Err(Error::internal(String::from_str("invalid signing key")));
        },
    };
    if str_eq(header.signature, generated.as_str()) {
        Ok((credential.user, AuthorizedNamespace(credential.namespace)))
    } else {
        Err(Error::Unauthorized)
    }
}

/// The last line of the canonical request is the lowercase hexadecimal
/// SHA-256 of the request's own payload bytes, after the lines that do not
/// depend on the payload: method, path, canonical query, signed header
/// block and signed header names.
pub proof fn lemma_canonical_request_ends_with_payload_hash(
    req: SignedRequestView,
    header_block: Seq<char>,
    names: Seq<Seq<char>>,
)
    ensures
        canonical_request(req, header_block, names) == join(
            seq![
                req.method,
                req.path,
                canonical_query(req.query),
                header_block,
                join(names, seq![';']),
            ],
            seq!['\n'],
        ) + seq!['\n'] + hex_lower(sha256_digest(req.payload)),
{
    let five = seq![
        req.method,
        req.path,
        canonical_query(req.query),
        header_block,
        join(names, seq![';']),
    ];
    let h = hex_lower(sha256_digest(req.payload));
    crate::text::lemma_join_push(five, h, seq!['\n']);
    assert(five.push(h) =~= seq![
        req.method,
        req.path,
        canonical_query(req.query),
        header_block,
        join(names, seq![';']),
        h,
    ]);
}

/// The signature covers the payload: two requests that differ only in
/// their payloads have the same canonical request (so the same string to
/// sign and the same expected signature) only when their payloads have the
/// same SHA-256 hexadecimal digest.
pub proof fn lemma_canonical_request_covers_the_payload(
    a: SignedRequestView,
    b: SignedRequestView,
    header_block: Seq<char>,
    names: Seq<Seq<char>>,
)
    requires
        a.method == b.method,
        a.path == b.path,
        a.query == b.query,
    ensures
        canonical_request(a, header_block, names) == canonical_request(b, header_block, names)
            ==> hex_lower(sha256_digest(a.payload)) == hex_lower(sha256_digest(b.payload)),
{
    lemma_canonical_request_ends_with_payload_hash(a, header_block, names);
    lemma_canonical_request_ends_with_payload_hash(b, header_block, names);
    let p = join(
        seq![a.method, a.path, canonical_query(a.query), header_block, join(names, seq![';'])],
        seq!['\n'],
    ) + seq!['\n'];
    let ha = hex_lower(sha256_digest(a.payload));
    let hb = hex_lower(sha256_digest(b.payload));
    assert(canonical_request(a, header_block, names) =~= p + ha);
    assert(canonical_request(b, header_block, names) =~= p + hb);
    if canonical_request(a, header_block, names) == canonical_request(b, header_block, names) {
        assert(ha =~= (p + ha).subrange(p.len() as int, (p + ha).len() as int));
        assert(hb =~= (p + hb).subrange(p.len() as int, (p + hb).len() as int));
    }
}

} // verus!
