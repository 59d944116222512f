use nervemq::auth::header::parse_sigv4_authorization;
use nervemq::error::Error;

#[test]
fn parses_a_sigv4_authorization_header() {
    let h = "AWS4-HMAC-SHA256 Credential=AKIDEXAMPLE/20150830/us-east-1/sqs/aws4_request, SignedHeaders=host;x-amz-date, Signature=abc123";
    let parsed = parse_sigv4_authorization(h).unwrap();
    assert_eq!(parsed.algorithm, "AWS4-HMAC-SHA256");
    assert_eq!(parsed.key_id, "AKIDEXAMPLE");
    assert_eq!(parsed.date, "20150830");
    assert_eq!(parsed.region, "us-east-1");
    assert_eq!(parsed.service, "sqs");
    assert_eq!(parsed.signed_headers, vec!["host".to_string(), "x-amz-date".to_string()]);
    assert_eq!(parsed.signature, "abc123");
    let header = parsed.as_header();
    assert_eq!(header.key_id, "AKIDEXAMPLE");
    assert_eq!(header.signed_headers, vec!["host", "x-amz-date"]);
}

#[test]
fn parameters_may_come_in_any_order_without_spaces() {
    let h = "AWS4-HMAC-SHA256 Signature=ff,SignedHeaders=host,Credential=K/D/R/S/aws4_request";
    let parsed = parse_sigv4_authorization(h).unwrap();
    assert_eq!(parsed.signature, "ff");
    assert_eq!(parsed.key_id, "K");
    assert_eq!(parsed.signed_headers, vec!["host".to_string()]);
}

#[test]
fn malformed_headers_are_invalid() {
    for h in [
        "",
        "AWS4-HMAC-SHA256",
        "Bearer token",
        "AWS4-HMAC-SHA256 Credential=K/D/R/S/aws4_request, SignedHeaders=host",
        "AWS4-HMAC-SHA256 Credential=K/D/R/aws4_request, SignedHeaders=host, Signature=x",
        "AWS4-HMAC-SHA256 Credential=K/D/R/S/other, SignedHeaders=host, Signature=x",
    ] {
        assert!(matches!(
            parse_sigv4_authorization(h),
            Err(Error::InvalidHeader { header }) if header == "authorization"
        ), "{h}");
    }
}
