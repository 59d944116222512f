use nervemq::api::auth::{Permission, Role, User};
use nervemq::auth::credential::AuthorizedNamespace;
use nervemq::auth::middleware::protected_route::{check_user_role, Protected};
use nervemq::error::Error;
use nervemq::service::{
    attribute_key, namespace_creator, namespace_deletion, queue_access, queue_creator,
    updated_queue_config, AttributeKey, AttributeValue, QueueAttributesSer,
};
use nervemq::sqs::request::{
    append_body_chunk, filter_by_prefix, list_queue_urls, max_messages, authorize_namespace,
    path_segments, poll_step, queue_target, queue_url, require_body, wait_time_seconds, PollStep,
    MAX_REQUEST_BODY_SIZE,
};

fn permission(user: u64, can_delete_ns: bool) -> Permission {
    Permission { id: 1, user, namespace: 5, can_delete_ns }
}

#[test]
fn queue_urls_name_namespace_then_queue() {
    let (q, ns) = queue_target("/api/sqs/ns1/orders").unwrap();
    assert_eq!(q, "orders");
    assert_eq!(ns, "ns1");
    assert!(matches!(
        queue_target("/orders"),
        Err(Error::MissingParameter { message }) if message == "namespace name"
    ));
    assert!(matches!(
        queue_target(""),
        Err(Error::MissingParameter { message }) if message == "queue name"
    ));
    assert_eq!(path_segments("/a//b"), Some(vec!["a".to_string(), String::new(), "b".to_string()]));
    assert_eq!(path_segments("/"), Some(vec![String::new()]));
    assert_eq!(path_segments("x"), None);
}

#[test]
fn authorize_namespace_checks_existence_permission_and_match() {
    let authorized = AuthorizedNamespace("ns1".to_string());
    assert_eq!(authorize_namespace("ns1", Some(5), Some(permission(2, false)), &authorized, true).unwrap(), 5);
    assert!(matches!(
        authorize_namespace("ns1", None, Some(permission(2, false)), &authorized, true),
        Err(Error::NamespaceNotFound { namespace }) if namespace == "ns1"
    ));
    assert!(matches!(
        authorize_namespace("ns1", Some(5), None, &authorized, true),
        Err(Error::Unauthorized)
    ));
    assert!(matches!(
        authorize_namespace("ns2", Some(6), Some(permission(2, false)), &authorized, true),
        Err(Error::Unauthorized)
    ));
    assert_eq!(authorize_namespace("ns2", Some(6), Some(permission(2, false)), &authorized, false).unwrap(), 6);
}

#[test]
fn request_bodies_are_bounded() {
    let mut body = Vec::new();
    assert!(append_body_chunk(&mut body, b"abc").is_ok());
    assert_eq!(body, b"abc".to_vec());
    // a message of 1 MiB with its JSON envelope fits
    assert!(MAX_REQUEST_BODY_SIZE > 1048576 + 4096);
    let big = vec![0u8; MAX_REQUEST_BODY_SIZE - 3];
    assert!(append_body_chunk(&mut body, &big).is_ok());
    assert_eq!(body.len(), MAX_REQUEST_BODY_SIZE);
    assert!(matches!(append_body_chunk(&mut body, b"x"), Err(Error::PayloadTooLarge)));
    assert_eq!(body.len(), MAX_REQUEST_BODY_SIZE);
    assert!(matches!(
        require_body(b""),
        Err(Error::MissingParameter { message }) if message == "missing request body"
    ));
    assert!(require_body(b"{}").is_ok());
}

#[test]
fn long_polls_wait_at_most_twenty_seconds() {
    assert_eq!(wait_time_seconds(Some(5), Some(10)), 5);
    assert_eq!(wait_time_seconds(None, Some(10)), 10);
    assert_eq!(wait_time_seconds(None, None), 0);
    assert_eq!(wait_time_seconds(Some(60), None), 20);
    assert_eq!(max_messages(None), 1);
    assert_eq!(max_messages(Some(10)), 10);
    assert_eq!(poll_step(1, 0, 20), PollStep::Answer);
    assert_eq!(poll_step(0, 0, 20), PollStep::Sleep);
    assert_eq!(poll_step(0, 19_800, 20), PollStep::Sleep);
    assert_eq!(poll_step(0, 19_801, 20), PollStep::Answer);
    assert_eq!(poll_step(0, 0, 0), PollStep::Answer);
    assert_eq!(poll_step(0, 50_000, 1), PollStep::Answer);
}

#[test]
fn queue_listings_filter_by_prefix() {
    let names = vec!["orders".to_string(), "other".to_string(), "billing".to_string()];
    assert_eq!(
        filter_by_prefix(names.clone(), &Some("or".to_string())),
        vec!["orders".to_string()]
    );
    assert_eq!(filter_by_prefix(names.clone(), &None), names);
    assert_eq!(
        queue_url("http://localhost:8080", "q1", "ns").unwrap(),
        "http://localhost:8080/api/sqs/ns/q1"
    );
    assert_eq!(
        queue_url("http://localhost:8080/", "a b", "ns").unwrap(),
        "http://localhost:8080/api/sqs/ns/a%20b"
    );
    assert!(queue_url("mailto:someone@example.com", "q", "ns").is_err());
    let urls = list_queue_urls("http://h", "ns", names, &Some("o".to_string())).unwrap();
    assert_eq!(urls, vec!["http://h/api/sqs/ns/orders".to_string(), "http://h/api/sqs/ns/other".to_string()]);
}

#[test]
fn protected_routes_require_their_role() {
    assert!(Protected::admin_only().admits(&Role::Admin).is_ok());
    assert!(matches!(Protected::admin_only().admits(&Role::User), Err(Error::Unauthorized)));
    assert!(Protected::authenticated().admits(&Role::User).is_ok());
    assert_eq!(Protected::default().required_role(), Role::User);
    assert_eq!(Protected::new(true).required_role(), Role::Admin);
    assert!(check_user_role(&Role::Admin, &Role::User).is_ok());
    assert!(check_user_role(&Role::User, &Role::Admin).is_err());
}

#[test]
fn namespace_management_rules() {
    let admin = User { id: 3, email: "a@example.com".to_string(), role: Role::Admin };
    let user = User { id: 4, email: "u@example.com".to_string(), role: Role::User };
    assert_eq!(namespace_creator(Some(admin)).unwrap(), 3);
    assert!(matches!(namespace_creator(Some(user)), Err(Error::Unauthorized)));
    assert!(matches!(namespace_creator(None), Err(Error::Unauthorized)));

    assert_eq!(namespace_deletion("ns", Some(5), Some(permission(2, true))).unwrap(), 5);
    assert!(matches!(namespace_deletion("ns", Some(5), Some(permission(2, false))), Err(Error::Unauthorized)));
    assert!(matches!(namespace_deletion("ns", Some(5), None), Err(Error::Unauthorized)));
    let err = namespace_deletion("ns", None, None).unwrap_err();
    assert_eq!(err.message(), "internal server error: Namespace ns does not exist");

    assert_eq!(queue_creator("ns", Some(5), Some(permission(2, false))).unwrap(), (5, 2));
    assert!(queue_creator("ns", None, Some(permission(2, false))).is_err());
}

#[test]
fn queue_attributes_write_and_read_back() {
    let attrs = QueueAttributesSer {
        delay_seconds: Some(5),
        max_message_size: None,
        message_retention_period: None,
        receive_message_wait_time_seconds: None,
        visibility_timeout: Some(30),
        redrive_policy: Some("{}".to_string()),
        other: vec![("Custom".to_string(), "\"x\"".to_string())],
    };
    let rows = attrs.writes();
    let keys: Vec<&str> = rows.iter().map(|(k, _)| k.as_str()).collect();
    assert_eq!(keys, vec!["delay_seconds", "visibility_timeout", "redrive_policy", "Custom"]);
    assert!(matches!(rows[0].1, AttributeValue::Number(5)));
    assert!(matches!(&rows[3].1, AttributeValue::Json(j) if j == "\"x\""));

    assert_eq!(attribute_key("delay_seconds"), AttributeKey::DelaySeconds);
    assert_eq!(attribute_key("redrive_policy"), AttributeKey::RedrivePolicy);
    assert_eq!(attribute_key("DelaySeconds"), AttributeKey::Other);

    let mut read = QueueAttributesSer::empty();
    let requested = vec!["Custom".to_string(), "VisibilityTimeout".to_string()];
    read.record("visibility_timeout".to_string(), AttributeValue::Number(45), &requested);
    read.record("delay_seconds".to_string(), AttributeValue::Number(5), &requested);
    read.record("Custom".to_string(), AttributeValue::Json("1".to_string()), &requested);
    read.record("Ignored".to_string(), AttributeValue::Json("2".to_string()), &requested);
    assert_eq!(read.visibility_timeout, Some(45));
    assert_eq!(read.delay_seconds, None);
    assert_eq!(read.other, vec![("Custom".to_string(), "1".to_string())]);
}

#[test]
fn get_queue_attributes_returns_only_requested_names() {
    let stored = vec![
        ("visibility_timeout".to_string(), AttributeValue::Number(120)),
        ("delay_seconds".to_string(), AttributeValue::Number(5)),
        ("max_message_size".to_string(), AttributeValue::Number(1024)),
        ("Custom".to_string(), AttributeValue::Json("\"x\"".to_string())),
    ];
    let read = |names: Vec<&str>| {
        let names: Vec<String> = names.into_iter().map(String::from).collect();
        let mut a = QueueAttributesSer::empty();
        for (k, v) in stored.clone() {
            a.record(k, v, &names);
        }
        a
    };
    let only = read(vec!["VisibilityTimeout"]);
    assert_eq!(only.visibility_timeout, Some(120));
    assert_eq!(only.delay_seconds, None);
    assert_eq!(only.max_message_size, None);
    assert!(only.other.is_empty());
    let size = read(vec!["MaximumMessageSize"]);
    assert_eq!(size.max_message_size, Some(1024));
    let all = read(vec!["All"]);
    assert_eq!(all.visibility_timeout, Some(120));
    assert_eq!(all.delay_seconds, Some(5));
    assert_eq!(all.max_message_size, Some(1024));
    assert_eq!(all.other, vec![("Custom".to_string(), "\"x\"".to_string())]);
}

#[test]
fn set_attributes_read_back_with_all() {
    let attrs = QueueAttributesSer {
        delay_seconds: Some(5),
        max_message_size: Some(2048),
        message_retention_period: Some(60),
        receive_message_wait_time_seconds: Some(10),
        visibility_timeout: Some(120),
        redrive_policy: Some("{}".to_string()),
        other: vec![("Custom".to_string(), "1".to_string())],
    };
    let all = vec!["All".to_string()];
    let mut read = QueueAttributesSer::empty();
    for (k, v) in attrs.clone().writes() {
        read.record(k, v, &all);
    }
    assert_eq!(read.delay_seconds, Some(5));
    assert_eq!(read.max_message_size, Some(2048));
    assert_eq!(read.message_retention_period, Some(60));
    assert_eq!(read.receive_message_wait_time_seconds, Some(10));
    assert_eq!(read.visibility_timeout, Some(120));
    assert_eq!(read.redrive_policy, Some("{}".to_string()));
    assert_eq!(read.other, attrs.other);
}

#[test]
fn queue_operations_resolve_namespace_access_then_queue() {
    assert_eq!(queue_access("ns", Some(1), Some(permission(2, false)), "q", Some(9)).unwrap(), 9);
    assert!(matches!(
        queue_access("ns", None, Some(permission(2, false)), "q", Some(9)),
        Err(Error::NamespaceNotFound { namespace }) if namespace == "ns"
    ));
    assert!(matches!(queue_access("ns", Some(1), None, "q", Some(9)), Err(Error::Unauthorized)));
    assert!(matches!(
        queue_access("ns", Some(1), Some(permission(2, false)), "q", None),
        Err(Error::QueueNotFound { queue, namespace }) if queue == "q" && namespace == "ns"
    ));
}

#[test]
fn queue_configuration_updates_check_the_dead_letter_queue() {
    let c = updated_queue_config(4, 3, "ns", None).unwrap();
    assert_eq!((c.queue, c.max_retries, c.dead_letter_queue), (4, 3, None));
    let c = updated_queue_config(4, 3, "ns", Some(("dlq".to_string(), Some(8)))).unwrap();
    assert_eq!(c.dead_letter_queue, Some(8));
    assert!(matches!(
        updated_queue_config(4, 3, "ns", Some(("dlq".to_string(), None))),
        Err(Error::QueueNotFound { queue, .. }) if queue == "dlq"
    ));
}
