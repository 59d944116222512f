//! The SigV4 `Authorization` header:
//!
//! ```text
//! AWS4-HMAC-SHA256 Credential=<key id>/<date>/<region>/<service>/aws4_request, SignedHeaders=<h1>;<h2>, Signature=<hex>
//! ```
//!
//! The scheme ends at the first space; the rest is a comma-separated list of
//! `name=value` parameters (spaces before a name are skipped, the value runs
//! to the next comma). The first parameter of each name counts.

use crate::auth::protocols::sigv4::{str_views, SigV4Header, SigV4HeaderView};
use crate::error::Error;
use crate::text::{join, join_strings, split_char, split_on, str_eq, strings_view};
use vstd::prelude::*;

verus! {

/// The signing algorithm this server verifies.
pub const SIGV4_ALGORITHM: &'static str = "AWS4-HMAC-SHA256";

/// The terminator of a SigV4 credential scope.
pub const SCOPE_TERMINATOR: &'static str = "aws4_request";

/// `s` without its leading spaces.
pub open spec fn skip_spaces(s: Seq<char>) -> Seq<char>
    decreases s.len(),
{
    if s.len() > 0 && s[0] == ' ' {
        skip_spaces(s.drop_first())
    } else {
        s
    }
}

/// A parameter split at its first `=`: the name, and the value after it
/// (none when there is no `=`).
pub open spec fn param_of(p: Seq<char>) -> (Seq<char>, Option<Seq<char>>) {
    let parts = split_on(skip_spaces(p), '=');
    if parts.len() >= 2 {
        (parts[0], Some(join(parts.drop_first(), seq!['='])))
    } else {
        (parts[0], None)
    }
}

/// The value of the first parameter named `name`, if it has one.
pub open spec fn param_value(params: Seq<Seq<char>>, name: Seq<char>) -> Option<Seq<char>>
    decreases params.len(),
{
    if params.len() == 0 {
        None
    } else if param_of(params[0]).0 == name {
        param_of(params[0]).1
    } else {
        param_value(params.drop_first(), name)
    }
}

/// The parsed header, if it is well formed: the scheme is the SigV4
/// algorithm, and there are a `Credential` of five `/`-separated parts
/// ending in `aws4_request`, `SignedHeaders` (`;`-separated) and a
/// `Signature`.
pub open spec fn sigv4_authorization(h: Seq<char>) -> Option<SigV4HeaderView> {
    let pieces = split_on(h, ' ');
    let scheme = pieces[0];
    let params = split_on(join(pieces.drop_first(), seq![' ']), ',');
    if pieces.len() < 2 || scheme != SIGV4_ALGORITHM@ {
        None
    } else {
        match (
            param_value(params, "Credential"@),
            param_value(params, "SignedHeaders"@),
            param_value(params, "Signature"@),
        ) {
            (Some(credential), Some(signed), Some(signature)) => {
                let scope = split_on(credential, '/');
                if scope.len() == 5 && scope[4] == SCOPE_TERMINATOR@ {
                    Some(
                        SigV4HeaderView {
                            algorithm: scheme,
                            key_id: scope[0],
                            date: scope[1],
                            signed_headers: split_on(signed, ';'),
                            signature,
                            region: scope[2],
                            service: scope[3],
                        },
                    )
                } else {
                    None
                }
            },
            _ => None,
        }
    }
}

/// The owned components of a parsed SigV4 `Authorization` header.
#[derive(Debug, Clone)]
pub struct ParsedSigV4 {
    pub algorithm: String,
    pub key_id: String,
    pub date: String,
    pub signed_headers: Vec<String>,
    pub signature: String,
    pub region: String,
    pub service: String,
}

impl View for ParsedSigV4 {
    type V = SigV4HeaderView;

    open spec fn view(&self) -> SigV4HeaderView {
        SigV4HeaderView {
            algorithm: self.algorithm@,
            key_id: self.key_id@,
            date: self.date@,
            signed_headers: strings_view(self.signed_headers@),
            signature: self.signature@,
            region: self.region@,
            service: self.service@,
        }
    }
}

impl ParsedSigV4 {
    /// The header components, borrowed.
    pub fn as_header(&self) -> (r: SigV4Header<'_>)
        ensures
            r@ == self@,
    {
        let mut signed: Vec<&str> = Vec::new();
        let mut i: usize = 0;
        while i < self.signed_headers.len()
            invariant
                0 <= i <= self.signed_headers@.len(),
                str_views(signed@) == strings_view(self.signed_headers@).take(i as int),
            decreases self.signed_headers@.len() - i,
        {
            let ghost before = str_views(signed@);
            signed.push(self.signed_headers[i].as_str());
            assert(str_views(signed@) =~= before.push(self.signed_headers@[i as int]@));
            assert(strings_view(self.signed_headers@).take(i + 1) =~= strings_view(
                self.signed_headers@,
            ).take(i as int).push(self.signed_headers@[i as int]@));
            i += 1;
        }
        assert(strings_view(self.signed_headers@).take(self.signed_headers@.len() as int)
            =~= strings_view(self.signed_headers@));
        SigV4Header {
            algorithm: self.algorithm.as_str(),
            key_id: self.key_id.as_str(),
            date: self.date.as_str(),
            signed_headers: signed,
            signature: self.signature.as_str(),
            region: self.region.as_str(),
            service: self.service.as_str(),
        }
    }
}

/// `s` without its leading spaces (see [`skip_spaces`]).
fn skip_leading_spaces(s: &str) -> (r: String)
    ensures
        r@ == skip_spaces(s@),
{
    let cs = crate::text::chars_of(s);
    let mut i: usize = 0;
    assert(cs@.skip(0) =~= s@);
    while i < cs.len() && cs[i] == ' '
        invariant
            0 <= i <= cs.len(),
            cs@ == s@,
            skip_spaces(s@) == skip_spaces(cs@.skip(i as int)),
        decreases cs.len() - i,
    {
        assert(cs@.skip(i as int).drop_first() =~= cs@.skip(i + 1));
        i += 1;
    }
    let mut rest: Vec<char> = Vec::new();
    let mut j: usize = i;
    while j < cs.len()
        invariant
            i <= j <= cs.len(),
            rest@ == cs@.subrange(i as int, j as int),
        decreases cs.len() - j,
    {
        rest.push(cs[j]);
        j += 1;
    }
    assert(rest@ =~= cs@.skip(i as int));
    crate::text::string_from_chars(&rest)
}

/// The name and value of a parameter (see [`param_of`]).
fn split_param(p: &str) -> (r: (String, Option<String>))
    ensures
        r.0@ == param_of(p@).0,
        match param_of(p@).1 {
            Some(v) => r.1 matches Some(x) && x@ == v,
            None => r.1 is None,
        },
{
    let trimmed = skip_leading_spaces(p);
    let parts = split_char(trimmed.as_str(), '=');
    proof {
        crate::text::lemma_split_nonempty(trimmed@, '=');
    }
    if parts.len() >= 2 {
        let mut rest: Vec<String> = Vec::new();
        let mut i: usize = 1;
        while i < parts.len()
            invariant
                1 <= i <= parts@.len(),
                strings_view(rest@) == strings_view(parts@).subrange(1, i as int),
            decreases parts@.len() - i,
        {
            let ghost before = strings_view(rest@);
            rest.push(parts[i].clone());
            assert(strings_view(rest@) =~= before.push(parts@[i as int]@));
            assert(strings_view(rest@) =~= strings_view(parts@).subrange(1, i + 1));
            i += 1;
        }
        assert(strings_view(parts@).drop_first() =~= strings_view(rest@));
        let value = join_strings(&rest, "=");
        proof {
            reveal_strlit("=");
            assert("="@ =~= seq!['=']);
        }
        (parts[0].clone(), Some(value))
    } else {
        (parts[0].clone(), None)
    }
}

/// The value of the first parameter named `name` (see [`param_value`]).
fn find_param(params: &Vec<String>, name: &str) -> (r: Option<String>)
    ensures
        match param_value(strings_view(params@), name@) {
            Some(v) => r matches Some(x) && x@ == v,
            None => r is None,
        },
{
    let ghost pv = strings_view(params@);
    let mut i: usize = 0;
    assert(pv.skip(0) =~= pv);
    while i < params.len()
        invariant
            0 <= i <= params@.len(),
            pv == strings_view(params@),
            param_value(pv, name@) == param_value(pv.skip(i as int), name@),
        decreases params@.len() - i,
    {
        assert(pv.skip(i as int)[0] == params@[i as int]@);
        let (n, v) = split_param(params[i].as_str());
        if str_eq(n.as_str(), name) {
            return v;
        }
        assert(pv.skip(i as int).drop_first() =~= pv.skip(i + 1));
        i += 1;
    }
    assert(pv.skip(i as int).len() == 0);
    None
}

/// Parses a SigV4 `Authorization` header (see [`sigv4_authorization`]).
/// A header that is not well formed is reported as an invalid
/// `authorization` header.
pub fn parse_sigv4_authorization(h: &str) -> (r: Result<ParsedSigV4, Error>)
    ensures
        match sigv4_authorization(h@) {
            Some(v) => r matches Ok(p) && p@ == v,
            None => r matches Err(Error::InvalidHeader { header }) && header@ == "authorization"@,
        },
{
    let pieces = split_char(h, ' ');
    proof {
        crate::text::lemma_split_nonempty(h@, ' ');
    }
    let invalid = Error::InvalidHeader { header: String::from_str("authorization") };
    if pieces.len() < 2 || !str_eq(pieces[0].as_str(), SIGV4_ALGORITHM) {
        return Err(invalid);
    }
    let mut rest_pieces: Vec<String> = Vec::new();
    let mut i: usize = 1;
    while i < pieces.len()
        invariant
            1 <= i <= pieces@.len(),
            strings_view(rest_pieces@) == strings_view(pieces@).subrange(1, i as int),
        decreases pieces@.len() - i,
    {
        let ghost before = strings_view(rest_pieces@);
        rest_pieces.push(pieces[i].clone());
        assert(strings_view(rest_pieces@) =~= before.push(pieces@[i as int]@));
        assert(strings_view(rest_pieces@) =~= strings_view(pieces@).subrange(1, i + 1));
        i += 1;
    }
    assert(strings_view(pieces@).drop_first() =~= strings_view(rest_pieces@));
    let rest = join_strings(&rest_pieces, " ");
    proof {
        reveal_strlit(" ");
        assert(" "@ =~= seq![' ']);
    }
    let params = split_char(rest.as_str(), ',');
    let credential = find_param(&params, "Credential");
    let signed = find_param(&params, "SignedHeaders");
    let signature = find_param(&params, "Signature");
    let (credential, signed, signature) = match (credential, signed, signature) {
        (Some(c), Some(s), Some(g)) => (c, s, g),
        _ => {
            return Err(invalid);
        },
    };
    let scope = split_char(credential.as_str(), '/');
    if scope.len() != 5 || !str_eq(scope[4].as_str(), SCOPE_TERMINATOR) {
        return Err(invalid);
    }
    let signed_headers = split_char(signed.as_str(), ';');
    Ok(
        ParsedSigV4 {
            algorithm: pieces[0].clone(),
            key_id: scope[0].clone(),
            date: scope[1].clone(),
            signed_headers,
            signature,
            region: scope[2].clone(),
            service: scope[3].clone(),
        },
    )
}

} // verus!
