use nervemq::api::auth::{Role, User};
use nervemq::auth::protocols::sigv4::{
    canonical_headers_block, canonical_query_string, sorted_signed_headers, authenticate_sigv4,
    SigV4Header, SignedRequest, SigningCredential,
};
use nervemq::auth::protocols::scope_date::parse_scope_date;
use nervemq::auth::session::kept_keys;
use nervemq::digest::{md5_hex, sha256_hex};
use nervemq::error::Error;
use nervemq::text::collapse_whitespace;

const SECRET: &str = "wJalrXUtnFEMI/K7MDENG+bPxRfiCYEXAMPLEKEY";

fn header<'a>(signature: &'a str, signed: Vec<&'a str>) -> SigV4Header<'a> {
    SigV4Header {
        algorithm: "AWS4-HMAC-SHA256",
        key_id: "AKIDEXAMPLE",
        date: "20150830",
        signed_headers: signed,
        signature,
        region: "us-east-1",
        service: "service",
    }
}

fn request(query: &str) -> SignedRequest {
    SignedRequest {
        method: "GET".to_string(),
        path: "/".to_string(),
        query: query.to_string(),
        headers: vec![
            ("host".to_string(), Some("example.amazon.com".to_string())),
            ("x-amz-date".to_string(), Some("20150830T123600Z".to_string())),
        ],
        payload: vec![],
    }
}

fn credential() -> SigningCredential {
    SigningCredential {
        secret: SECRET.to_string(),
        namespace: "ns1".to_string(),
        user: User { id: 7, email: "bob@example.com".to_string(), role: Role::User },
    }
}

#[test]
fn a_correct_signature_authenticates_the_key_owner() {
    let h = header(
        "7ab4567ae243ee168f6bf18206b2b40b61ce08277323168138fa113ed23c538e",
        vec!["x-amz-date", "Host"],
    );
    let (user, ns) = authenticate_sigv4(&h, Some(credential()), &request("")).unwrap();
    assert_eq!(user.email, "bob@example.com");
    assert_eq!(ns.0, "ns1");
}

#[test]
fn the_query_string_is_signed_in_canonical_order() {
    let h = header(
        "932fe7456835afd5f99f907c978fb4ebba944908ae5aa37f2f84039d0814fc57",
        vec!["host", "x-amz-date"],
    );
    assert!(authenticate_sigv4(&h, Some(credential()), &request("c&b=2&&a=1")).is_ok());
}

#[test]
fn a_wrong_signature_is_unauthorized() {
    let h = header(
        "0000000000000000000000000000000000000000000000000000000000000000",
        vec!["host", "x-amz-date"],
    );
    assert!(matches!(
        authenticate_sigv4(&h, Some(credential()), &request("")),
        Err(Error::Unauthorized)
    ));
    // Signed on another day: the signing key differs.
    let good = header(
        "7ab4567ae243ee168f6bf18206b2b40b61ce08277323168138fa113ed23c538e",
        vec!["host", "x-amz-date"],
    );
    let mut next_day = good;
    next_day.date = "20150831";
    assert!(matches!(
        authenticate_sigv4(&next_day, Some(credential()), &request("")),
        Err(Error::Unauthorized)
    ));
    // A scope date that names no day cannot match.
    let mut no_day = header(
        "7ab4567ae243ee168f6bf18206b2b40b61ce08277323168138fa113ed23c538e",
        vec!["host", "x-amz-date"],
    );
    no_day.date = "20150230";
    assert!(matches!(
        authenticate_sigv4(&no_day, Some(credential()), &request("")),
        Err(Error::Unauthorized)
    ));
}

#[test]
fn failures_are_reported_in_order() {
    let h = header("x", vec!["host", "x-amz-date", "x-custom"]);
    assert!(matches!(
        authenticate_sigv4(&h, None, &request("")),
        Err(Error::IdentityNotFound { key_id }) if key_id == "AKIDEXAMPLE"
    ));
    let mut no_date = request("");
    no_date.headers.pop();
    assert!(matches!(
        authenticate_sigv4(&h, Some(credential()), &no_date),
        Err(Error::MissingHeader { header }) if header == "x-amz-date"
    ));
    let mut bad_date = request("");
    bad_date.headers[1].1 = None;
    assert!(matches!(
        authenticate_sigv4(&h, Some(credential()), &bad_date),
        Err(Error::InternalServerError { .. })
    ));
    assert!(matches!(
        authenticate_sigv4(&h, Some(credential()), &request("")),
        Err(Error::MissingHeader { header }) if header == "x-custom"
    ));
    let mut unreadable = request("");
    unreadable.headers.push(("x-custom".to_string(), None));
    assert!(matches!(
        authenticate_sigv4(&h, Some(credential()), &unreadable),
        Err(Error::InvalidHeader { header }) if header == "x-custom"
    ));
}

#[test]
fn canonical_pieces() {
    assert_eq!(canonical_query_string("b=2&a=1&c"), "a=1&b=2&c=");
    assert_eq!(canonical_query_string("a=b=c"), "a=b");
    assert_eq!(canonical_query_string("k=a b&k=1"), "k=a%20b&k=1");
    assert_eq!(canonical_query_string(""), "");
    assert_eq!(
        sorted_signed_headers(&vec!["X-Amz-Date", "Host", "content-type"]),
        vec!["host".to_string(), "x-amz-date".to_string(), "content-type".to_string()]
    );
    let headers = vec![
        ("host".to_string(), Some("  a   b ".to_string())),
        ("host".to_string(), Some("second".to_string())),
    ];
    assert_eq!(
        canonical_headers_block(&vec!["host".to_string()], &headers).unwrap(),
        "host:a b\n"
    );
    assert_eq!(collapse_whitespace(" \t x  y\t"), "x y");
}

#[test]
fn encodings() {
    assert_eq!(canonical_query_string("k=a b/é~"), "k=a%20b%2F%C3%A9~");
    assert_eq!(md5_hex(b""), "d41d8cd98f00b204e9800998ecf8427e");
    assert_eq!(
        sha256_hex(b""),
        "e3b0c44298fc1c149afbf4c8996fb92427ae41e4649b934ca495991b7852b855"
    );
}

#[test]
fn session_keys_are_quoted_and_separated() {
    assert_eq!(kept_keys(&vec![]), "");
    assert_eq!(kept_keys(&vec!["a".to_string()]), "'a'");
    assert_eq!(kept_keys(&vec!["a".to_string(), "b".to_string()]), "'a', 'b'");
    assert_eq!(kept_keys(&vec!["it's".to_string()]), "'it''s'");
}

#[test]
fn scope_dates_name_the_start_of_their_day() {
    assert_eq!(parse_scope_date("19700101"), Some(0));
    assert_eq!(parse_scope_date("20150830"), Some(1440892800));
    assert_eq!(parse_scope_date("20000229"), Some(951782400));
    assert_eq!(parse_scope_date("99991231"), Some(253402214400));
    assert_eq!(parse_scope_date("20150229"), None);
    assert_eq!(parse_scope_date("21000229"), None);
    assert_eq!(parse_scope_date("19691231"), None);
    assert_eq!(parse_scope_date("20151301"), None);
    assert_eq!(parse_scope_date("2015083"), None);
    assert_eq!(parse_scope_date("2015o830"), None);
}
