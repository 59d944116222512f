//! Byte encodings and cryptographic digests: hexadecimal and percent
//! encoding, MD5, SHA-256 and HMAC-SHA256, and the AWS SigV4 signing key.
//!
//! The digest functions are computed by the `md5`, `sha2`, `hmac` and
//! `aws-sigv4` crates; each result is given a name below and the code that
//! builds on it is verified against that name.

use hmac::digest::FixedOutput;
use hmac::Mac;
use sha2::Digest;
use vstd::prelude::*;

verus! {

// ---------------------------------------------------------------------------
// Hexadecimal and percent encoding
// ---------------------------------------------------------------------------

/// Lowercase hexadecimal digit for a value below 16.
pub open spec fn hex_lower_digit(d: u8) -> char {
    if d < 10 {
        (('0' as u8) + d) as char
    } else {
        (('a' as u8) + d - 10) as char
    }
}

/// Uppercase hexadecimal digit for a value below 16.
pub open spec fn hex_upper_digit(d: u8) -> char {
    if d < 10 {
        (('0' as u8) + d) as char
    } else {
        (('A' as u8) + d - 10) as char
    }
}

/// Lowercase hexadecimal rendering of bytes, two digits per byte, most
/// significant nibble first.
pub open spec fn hex_lower(bytes: Seq<u8>) -> Seq<char>
    decreases bytes.len(),
{
    if bytes.len() == 0 {
        seq![]
    } else {
        hex_lower(bytes.drop_last()) + seq![
            hex_lower_digit(bytes.last() / 16),
            hex_lower_digit(bytes.last() % 16),
        ]
    }
}

/// Bytes that percent encoding leaves as they are: ASCII letters, digits and
/// `-`, `.`, `_`, `~`.
pub open spec fn is_unreserved_byte(b: u8) -> bool {
    ||| 0x30 <= b <= 0x39
    ||| 0x41 <= b <= 0x5a
    ||| 0x61 <= b <= 0x7a
    ||| b == 0x2d
    ||| b == 0x2e
    ||| b == 0x5f
    ||| b == 0x7e
}

/// Percent encoding of one byte: unreserved bytes stand for themselves, every
/// other byte becomes `%` and two uppercase hexadecimal digits.
pub open spec fn percent_encode_byte(b: u8) -> Seq<char> {
    if is_unreserved_byte(b) {
        seq![b as char]
    } else {
        seq!['%', hex_upper_digit(b / 16), hex_upper_digit(b % 16)]
    }
}

/// Percent encoding of a byte sequence.
pub open spec fn percent_encode(bytes: Seq<u8>) -> Seq<char>
    decreases bytes.len(),
{
    if bytes.len() == 0 {
        seq![]
    } else {
        percent_encode(bytes.drop_last()) + percent_encode_byte(bytes.last())
    }
}

/// `hex::encode`: lowercase hexadecimal, two digits per byte.
#[verifier::external_body]
pub(crate) fn hex_encode(bytes: &[u8]) -> (r: String)
    ensures
        r@ == hex_lower(bytes@),
{
    hex::encode(bytes)
}

/// `urlencoding::encode`: percent-encodes every byte of the UTF-8 encoding
/// of `s` except ASCII letters, digits and `-`, `.`, `_`, `~`, with
/// uppercase hexadecimal digits.
#[verifier::external_body]
pub(crate) fn url_encode(s: &str) -> (r: String)
    ensures
        r@ == percent_encode(vstd::utf8::encode_utf8(s@)),
{
    urlencoding::encode(s).into_owned()
}

// ---------------------------------------------------------------------------
// Digests
// ---------------------------------------------------------------------------

/// The MD5 digest of the bytes, as computed by the `md5` crate.
pub uninterp spec fn md5_digest(data: Seq<u8>) -> Seq<u8>;

/// The SHA-256 digest of the bytes, as computed by the `sha2` crate.
pub uninterp spec fn sha256_digest(data: Seq<u8>) -> Seq<u8>;

/// The HMAC-SHA256 tag of `msg` under `key`, as computed by the `hmac` crate.
pub uninterp spec fn hmac_sha256_tag(key: Seq<u8>, msg: Seq<u8>) -> Seq<u8>;

/// The AWS SigV4 signing key for a secret access key, a `YYYYMMDD` date, a
/// region and a service: HMAC-SHA256 chained four times, starting from the
/// key `AWS4` followed by the secret, over the date, the region, the
/// service and `aws4_request`.
pub open spec fn sigv4_signing_key(
    secret: Seq<char>,
    date: Seq<char>,
    region: Seq<char>,
    service: Seq<char>,
) -> Seq<u8> {
    let k_date = hmac_sha256_tag(
        vstd::utf8::encode_utf8("AWS4"@ + secret),
        vstd::utf8::encode_utf8(date),
    );
    let k_region = hmac_sha256_tag(k_date, vstd::utf8::encode_utf8(region));
    let k_service = hmac_sha256_tag(k_region, vstd::utf8::encode_utf8(service));
    hmac_sha256_tag(k_service, vstd::utf8::encode_utf8("aws4_request"@))
}

/// Seconds since the Unix epoch of the last instant of the year 9999, the
/// latest time the date formatting of `aws-sigv4` accepts.
pub const MAX_SIGNING_TIME_SECS: u64 = 253402300799u64;

/// `md5::compute`: the 16-byte MD5 digest of `data`.
#[verifier::external_body]
pub(crate) fn md5_compute(data: &[u8]) -> (r: Vec<u8>)
    ensures
        r@ == md5_digest(data@),
        r@.len() == 16,
{
    md5::compute(data).0.to_vec()
}

/// `sha2::Sha256::digest`: the 32-byte SHA-256 digest of `data`.
#[verifier::external_body]
pub(crate) fn sha256(data: &[u8]) -> (r: Vec<u8>)
    ensures
        r@ == sha256_digest(data@),
        r@.len() == 32,
{
    sha2::Sha256::digest(data).to_vec()
}

/// `hmac::Hmac::<Sha256>`: the 32-byte tag of `msg` under `key`. Keying an
/// HMAC never fails in the `hmac` crate (any key length is accepted), so the
/// result is always present.
#[verifier::external_body]
pub(crate) fn hmac_sha256(key: &[u8], msg: &[u8]) -> (r: Option<Vec<u8>>)
    ensures
        r is Some,
        r matches Some(t) ==> t@ == hmac_sha256_tag(key@, msg@) && t@.len() == 32,
{
    match hmac::Hmac::<sha2::Sha256>::new_from_slice(key) {
        Ok(mut mac) => {
            mac.update(msg);
            Some(mac.finalize_fixed().to_vec())
        },
        Err(_) => None,
    }
}

/// `aws_sigv4::sign::v4::generate_signing_key` at the instant `day_secs`
/// seconds after the Unix epoch, the start of the day written `date`. The
/// crate formats that instant as `YYYYMMDD`, which is `date` itself, and
/// chains four HMAC-SHA256 over it (see [`sigv4_signing_key`]). The day
/// lies within the years the crate's date formatting accepts.
#[verifier::external_body]
pub(crate) fn generate_signing_key(
    secret: &str,
    date: &str,
    day_secs: u64,
    region: &str,
    service: &str,
) -> (r: Vec<u8>)
    requires
        crate::auth::protocols::scope_date::scope_date_secs(date@) == Some(day_secs),
    ensures
        r@ == sigv4_signing_key(secret@, date@, region@, service@),
{
    let time = std::time::UNIX_EPOCH + std::time::Duration::from_secs(day_secs);
    aws_sigv4::sign::v4::generate_signing_key(secret, time, region, service).as_ref().to_vec()
}

/// Lowercase hexadecimal MD5 digest of `data`, as SQS reports message
/// digests.
pub fn md5_hex(data: &[u8]) -> (r: String)
    ensures
        r@ == hex_lower(md5_digest(data@)),
{
    let d = md5_compute(data);
    hex_encode(d.as_slice())
}

/// Lowercase hexadecimal SHA-256 digest of `data`.
pub fn sha256_hex(data: &[u8]) -> (r: String)
    ensures
        r@ == hex_lower(sha256_digest(data@)),
{
    let d = sha256(data);
    hex_encode(d.as_slice())
}

} // verus!
