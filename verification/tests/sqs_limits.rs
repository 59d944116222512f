use nervemq::api::auth::{Role, User};
use nervemq::auth::protocols::sigv4::{authenticate_sigv4, SigV4Header, SignedRequest, SigningCredential};
use nervemq::cli::parse_email;
use nervemq::error::Error;
use nervemq::sqs::limits::{
    check_batch_size, check_message_size, check_visibility_change, existing_queue, receive_visibility,
    send_delay,
    MAX_MESSAGE_SIZE_BYTES,
};
use nervemq::sqs::messages::{
    attributes_digest, change_visibility_batch_response, select_attributes, send_response,
};
use nervemq::sqs::request::list_queue_urls;
use nervemq::sqs::types::SqsMessageAttribute;

fn text(v: &str) -> SqsMessageAttribute {
    SqsMessageAttribute::String { string_value: v.to_string() }
}

#[test]
fn delays_come_from_the_request_then_the_queue_and_stop_at_900() {
    assert_eq!(send_delay(Some(5), Some(60)).unwrap(), 5);
    assert_eq!(send_delay(None, Some(60)).unwrap(), 60);
    assert_eq!(send_delay(None, None).unwrap(), 0);
    assert_eq!(send_delay(Some(900), None).unwrap(), 900);
    let err = send_delay(Some(901), None).unwrap_err();
    assert!(matches!(err, Error::InvalidParameter { .. }));
    assert_eq!(err.status_code(), 400);
    assert!(send_delay(None, Some(1000)).is_err());
}

#[test]
fn receive_visibility_comes_from_the_request_then_the_queue_then_30() {
    assert_eq!(receive_visibility(Some(5), Some(60)), 5);
    assert_eq!(receive_visibility(None, Some(60)), 60);
    assert_eq!(receive_visibility(None, None), 30);
    // a receive takes a timeout above 43200 s as it is
    assert_eq!(receive_visibility(Some(50000), None), 50000);
    assert_eq!(receive_visibility(None, Some(86400)), 86400);
}

#[test]
fn visibility_changes_stop_at_43200_seconds() {
    assert_eq!(check_visibility_change(0).unwrap(), 0);
    assert_eq!(check_visibility_change(43200).unwrap(), 43200);
    assert!(matches!(check_visibility_change(43201), Err(Error::InvalidParameter { .. })));
}

#[test]
fn message_size_limits_match_aws_policy() {
    let limit = MAX_MESSAGE_SIZE_BYTES as usize;
    let body = "y".repeat(limit);
    assert!(check_message_size(&body, &vec![], None).is_ok());
    let over = "y".repeat(limit + 1);
    let err = check_message_size(&over, &vec![], None).unwrap_err();
    assert_eq!(err.status_code(), 400);
    // name, data type label and value count toward the size
    let attrs = vec![("Tip".to_string(), text("over"))];
    assert!(check_message_size(&body, &attrs, None).is_err());
    assert!(check_message_size("small and fine", &attrs, None).is_ok());
    // "ab" + "Tip" + "String" + "over" = 15 bytes
    assert!(check_message_size("ab", &attrs, Some(15)).is_ok());
    assert!(check_message_size("ab", &attrs, Some(14)).is_err());
    // the queue's MaximumMessageSize applies per message
    assert!(check_message_size(&"y".repeat(2048), &vec![], Some(1024)).is_err());
    assert!(check_message_size("small", &vec![], Some(1024)).is_ok());
}

#[test]
fn batch_total_payload_is_capped_at_1mib() {
    let entry = "y".repeat(400 * 1024);
    let three: Vec<(String, Vec<(String, SqsMessageAttribute)>)> =
        (0..3).map(|_| (entry.clone(), vec![])).collect();
    assert!(matches!(check_batch_size(&three), Err(Error::InvalidParameter { .. })));
    let two: Vec<(String, Vec<(String, SqsMessageAttribute)>)> =
        (0..2).map(|_| (entry.clone(), vec![])).collect();
    assert!(check_batch_size(&two).is_ok());
    assert!(check_batch_size(&vec![]).is_ok());
}

#[test]
fn operations_on_a_missing_queue_are_not_found() {
    assert_eq!(existing_queue(Some(4), "q", "ns").unwrap(), 4);
    let err = existing_queue(None, "q", "ns").unwrap_err();
    assert!(matches!(&err, Error::QueueNotFound { queue, namespace } if queue == "q" && namespace == "ns"));
    assert_eq!(err.status_code(), 404);
}

#[test]
fn list_queues_filters_by_name_prefix() {
    let names: Vec<String> =
        vec!["q", "alpha-1", "alpha-2", "beta"].into_iter().map(String::from).collect();
    let urls = list_queue_urls("http://localhost:8080", "ns", names.clone(), &Some("alpha".to_string()))
        .unwrap();
    assert_eq!(
        urls,
        vec![
            "http://localhost:8080/api/sqs/ns/alpha-1".to_string(),
            "http://localhost:8080/api/sqs/ns/alpha-2".to_string(),
        ]
    );
    assert!(matches!(
        list_queue_urls("mailto:x@example.com", "ns", names, &None),
        Err(Error::InternalServerError { .. })
    ));
    assert!(list_queue_urls("mailto:x@example.com", "ns", vec![], &None).unwrap().is_empty());
}

#[test]
fn asking_for_all_returns_every_attribute() {
    let stored = vec![("b".to_string(), 1u32), ("a".to_string(), 2u32)];
    let all = select_attributes(stored.clone(), &vec!["All".to_string()]);
    assert_eq!(all, vec![("a".to_string(), 2u32), ("b".to_string(), 1u32)]);
    assert!(select_attributes(stored, &vec![]).is_empty());
}

#[test]
fn send_digest_takes_attributes_in_name_order() {
    let unsorted = vec![("b".to_string(), text("2")), ("a".to_string(), text("1"))];
    let sorted = vec![("a".to_string(), text("1")), ("b".to_string(), text("2"))];
    let resp = send_response(1, "m", unsorted.clone());
    assert_eq!(resp.md5_of_message_attributes, attributes_digest(&sorted));
    assert_ne!(resp.md5_of_message_attributes, attributes_digest(&unsorted));
}

#[test]
fn cli_emails_are_validated() {
    assert_eq!(parse_email("bob@example.com").unwrap(), "bob@example.com");
    assert_eq!(
        parse_email("not an email").unwrap_err(),
        "invalid email address 'not an email': invalid email address, was given 'not an email'"
    );
    assert!(parse_email("").is_err());
}

#[test]
fn signing_failures_are_answered_in_order() {
    let h = SigV4Header {
        algorithm: "AWS4-HMAC-SHA256",
        key_id: "AKIDUNKNOWN",
        date: "20150830",
        signed_headers: vec!["host"],
        signature: "00",
        region: "us-east-1",
        service: "sqs",
    };
    let req = SignedRequest {
        method: "POST".to_string(),
        path: "/".to_string(),
        query: String::new(),
        headers: vec![("host".to_string(), Some("h".to_string()))],
        payload: vec![],
    };
    assert!(matches!(
        authenticate_sigv4(&h, None, &req),
        Err(Error::IdentityNotFound { key_id }) if key_id == "AKIDUNKNOWN"
    ));
    let cred = SigningCredential {
        secret: "s".to_string(),
        namespace: "ns".to_string(),
        user: User { id: 1, email: "a@b.c".to_string(), role: Role::User },
    };
    // no x-amz-date header
    assert!(matches!(
        authenticate_sigv4(&h, Some(cred.clone()), &req),
        Err(Error::MissingHeader { header }) if header == "x-amz-date"
    ));
    let mut dated = SignedRequest {
        method: "POST".to_string(),
        path: "/".to_string(),
        query: String::new(),
        headers: vec![("host".to_string(), Some("h".to_string()))],
        payload: vec![],
    };
    dated.headers.push(("x-amz-date".to_string(), Some("20150830T123600Z".to_string())));
    assert!(matches!(authenticate_sigv4(&h, Some(cred), &dated), Err(Error::Unauthorized)));
}

#[test]
fn visibility_batches_report_each_entry() {
    let r = change_visibility_batch_response(
        vec!["release".to_string(), "extend".to_string()],
        vec![
            ("bogus".to_string(), Error::not_found("receipt handle".to_string())),
            ("oversized".to_string(), check_visibility_change(43201).unwrap_err()),
        ],
    );
    let ok: Vec<&str> = r.successful.iter().map(|e| e.id.as_str()).collect();
    assert_eq!(ok, vec!["release", "extend"]);
    let failed: Vec<(&str, &str)> = r.failed.iter().map(|e| (e.id.as_str(), e.code.as_str())).collect();
    assert_eq!(failed, vec![("bogus", "ReceiptHandleIsInvalid"), ("oversized", "InvalidParameterValue")]);
    assert!(r.failed.iter().all(|e| e.sender_fault));
}
