use nervemq::error::Error;
use nervemq::sqs::messages::{
    attributes_digest, body_digest, delete_batch_response, received_message, select_attributes,
    send_batch_response, send_response,
};
use nervemq::sqs::method::Method;
use nervemq::sqs::types::{SendMessageResponse, SqsMessageAttribute};

#[test]
fn test_parse_method_valid() {
    let test_cases = vec![
        ("AmazonSQS.SendMessage", Method::SendMessage),
        ("AmazonSQS.SendMessageBatch", Method::SendMessageBatch),
        ("AmazonSQS.ReceiveMessage", Method::ReceiveMessage),
        ("AmazonSQS.DeleteMessage", Method::DeleteMessage),
        ("AmazonSQS.ListQueues", Method::ListQueues),
        ("AmazonSQS.GetQueueUrl", Method::GetQueueUrl),
        ("AmazonSQS.CreateQueue", Method::CreateQueue),
        ("AmazonSQS.GetQueueAttributes", Method::GetQueueAttributes),
        ("AmazonSQS.PurgeQueue", Method::PurgeQueue),
        (
            "AmazonSQS.ChangeMessageVisibilityBatch",
            Method::ChangeMessageVisibilityBatch,
        ),
    ];

    for (input, expected) in test_cases {
        let result = Method::parse(input);
        assert!(result.is_ok(), "Failed to parse valid method: {}", input);
        assert_eq!(result.unwrap(), expected, "Method mismatch for input: {}", input);
    }
}

#[test]
fn test_parse_method_invalid() {
    let invalid_inputs = vec![
        "SendMessage",
        "AmazonSQS",
        "AmazonSQS.",
        "AmazonSQS.InvalidMethod",
        "Amazon.SendMessage",
        "",
    ];

    for input in invalid_inputs {
        let result = Method::parse(input);
        assert!(result.is_err(), "Expected error for invalid input: {}", input);

        match result {
            Err(Error::InvalidMethod { .. }) => {}
            _ => panic!("Expected InvalidMethod error for input: {}", input),
        }
    }
}

#[test]
fn every_method_name_parses_back() {
    let all = [
        Method::ChangeMessageVisibility,
        Method::ChangeMessageVisibilityBatch,
        Method::CreateQueue,
        Method::DeleteMessage,
        Method::DeleteMessageBatch,
        Method::DeleteQueue,
        Method::GetQueueAttributes,
        Method::GetQueueUrl,
        Method::ListQueues,
        Method::ListQueueTags,
        Method::PurgeQueue,
        Method::ReceiveMessage,
        Method::SendMessage,
        Method::SendMessageBatch,
        Method::SetQueueAttributes,
        Method::TagQueue,
        Method::UntagQueue,
    ];
    for m in all {
        let target = format!("AmazonSQS.{}", m.name());
        assert_eq!(Method::parse(&target).unwrap(), m);
        assert_eq!(Method::from_name(m.name()), Some(m));
    }
    assert_eq!(Method::from_name("sendmessage"), None);
}

#[test]
fn attribute_encoding_is_length_prefixed() {
    let attr = SqsMessageAttribute::String { string_value: "b".to_string() };
    assert_eq!(attr.data_type(), "String");
    let mut expected = vec![0, 0, 0, 1, b'a', 0, 0, 0, 6];
    expected.extend_from_slice(b"String");
    expected.extend_from_slice(&[1, 0, 0, 0, 1, b'b']);
    assert_eq!(attr.serialize("a"), expected);

    let bin = SqsMessageAttribute::Binary { binary_value: vec![9, 8] };
    assert_eq!(bin.data_type(), "Binary");
    let mut expected = vec![0, 0, 0, 1, b'k', 0, 0, 0, 6];
    expected.extend_from_slice(b"Binary");
    expected.extend_from_slice(&[2, 0, 0, 0, 2, 9, 8]);
    assert_eq!(bin.serialize("k"), expected);

    let num = SqsMessageAttribute::Number { string_value: "12".to_string() };
    assert_eq!(num.data_type(), "Number");
    let mut buf = vec![7u8];
    num.serialize_into("n", &mut buf);
    let mut expected = vec![7u8, 0, 0, 0, 1, b'n', 0, 0, 0, 6];
    expected.extend_from_slice(b"Number");
    expected.extend_from_slice(&[1, 0, 0, 0, 2, b'1', b'2']);
    assert_eq!(buf, expected);
}

#[test]
fn digests_are_lowercase_md5() {
    assert_eq!(body_digest("hello"), "5d41402abc4b2a76b9719d911017c592");
    assert_eq!(body_digest(""), "d41d8cd98f00b204e9800998ecf8427e");
    assert_eq!(attributes_digest(&vec![]), "d41d8cd98f00b204e9800998ecf8427e");
    let attrs = vec![("a".to_string(), SqsMessageAttribute::String { string_value: "b".to_string() })];
    let mut bytes = vec![0, 0, 0, 1, b'a', 0, 0, 0, 6];
    bytes.extend_from_slice(b"String");
    bytes.extend_from_slice(&[1, 0, 0, 0, 1, b'b']);
    assert_eq!(attributes_digest(&attrs), format!("{:x}", md5::compute(&bytes)));
    let resp = send_response(42, "hello", attrs.clone());
    assert_eq!(resp.message_id, 42);
    assert_eq!(resp.md5_of_message_body, "5d41402abc4b2a76b9719d911017c592");
    assert_eq!(resp.md5_of_message_attributes, attributes_digest(&attrs));
}

#[test]
fn receive_selects_requested_attributes_in_name_order() {
    let stored = vec![
        ("zeta".to_string(), 1u32),
        ("alpha".to_string(), 2u32),
        ("skip".to_string(), 3u32),
        ("alpha".to_string(), 4u32),
    ];
    let names = vec!["alpha".to_string(), "zeta".to_string()];
    let picked = select_attributes(stored, &names);
    assert_eq!(picked, vec![("alpha".to_string(), 4u32), ("zeta".to_string(), 1u32)]);
    let none = select_attributes(vec![("a".to_string(), 1u32)], &vec![]);
    assert!(none.is_empty());
}

#[test]
fn received_message_carries_id_handle_and_digests() {
    let attrs = vec![("a".to_string(), SqsMessageAttribute::Number { string_value: "1".to_string() })];
    let m = received_message(17, Some("17:abcd".to_string()), "hello".to_string(), attrs.clone());
    assert_eq!(m.message_id, "17");
    assert_eq!(m.receipt_handle, "17:abcd");
    assert_eq!(m.md5_of_body, "5d41402abc4b2a76b9719d911017c592");
    assert_eq!(m.md5_of_message_attributes, attributes_digest(&attrs));
    assert!(m.attributes.is_empty());
    let m = received_message(0, None, String::new(), vec![]);
    assert_eq!(m.message_id, "0");
    assert_eq!(m.receipt_handle, "");
}

#[test]
fn batch_sends_split_successes_and_failures_in_order() {
    let ok = |id: u64| SendMessageResponse {
        message_id: id,
        md5_of_message_body: "m".to_string(),
        md5_of_message_attributes: "a".to_string(),
    };
    let results = vec![
        ("1".to_string(), Ok(ok(10))),
        ("2".to_string(), Err(Error::PayloadTooLarge)),
        ("3".to_string(), Ok(ok(11))),
        ("4".to_string(), Err(Error::queue_not_found("q", "ns"))),
    ];
    let resp = send_batch_response(results);
    assert_eq!(resp.successful.len(), 2);
    assert_eq!(resp.successful[0].id, "1");
    assert_eq!(resp.successful[0].message_id, "10");
    assert_eq!(resp.successful[1].id, "3");
    assert_eq!(resp.successful[1].message_id, "11");
    assert_eq!(resp.failed.len(), 2);
    assert_eq!(resp.failed[0].id, "2");
    assert_eq!(resp.failed[0].code, "413 Payload Too Large");
    assert_eq!(resp.failed[0].message.as_deref(), Some("payload too large"));
    assert!(!resp.failed[0].sender_fault);
    assert_eq!(resp.failed[1].code, "404 Not Found");
    assert_eq!(resp.failed[1].message.as_deref(), Some("queue not found: ns/q"));
}

#[test]
fn batch_deletes_report_invalid_handles() {
    let resp = delete_batch_response(
        vec!["a".to_string()],
        vec![("b".to_string(), Error::not_found("no such receipt handle".to_string()))],
    );
    assert_eq!(resp.successful.len(), 1);
    assert_eq!(resp.successful[0].id, "a");
    assert_eq!(resp.failed.len(), 1);
    assert_eq!(resp.failed[0].id, "b");
    assert_eq!(resp.failed[0].code, "ReceiptHandleIsInvalid");
    assert_eq!(resp.failed[0].message, "not found: no such receipt handle");
    assert!(resp.failed[0].sender_fault);
}

#[test]
fn errors_have_status_lines_and_messages() {
    assert_eq!(Error::Unauthorized.status_code(), 401);
    assert_eq!(Error::Unauthorized.status_line(), "401 Unauthorized");
    assert_eq!(Error::missing_parameter("queue name").status_line(), "400 Bad Request");
    assert_eq!(Error::missing_parameter("queue name").message(), "missing parameter: queue name");
    assert_eq!(Error::namespace_not_found("ns").message(), "namespace not found: ns");
    assert_eq!(Error::internal("boom".to_string()).status_line(), "500 Internal Server Error");
    assert_eq!(Error::invalid_parameter("x".to_string()).status_code(), 400);
    assert_eq!(Error::PayloadTooLarge.status_code(), 413);
}
