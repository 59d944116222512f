use argon2::password_hash::{PasswordHasher, SaltString};
use nervemq::api::auth::{login, LoginData, LoginRequest, Role};
use nervemq::error::Error;
use nervemq::message::{
    attribute_detail, message_details, message_status, AttributeDetail, Message, MessageQueue,
    MessageStatus,
};
use nervemq::sqs::types::SqsMessageAttribute;

#[test]
fn status_is_derived_from_visibility_and_attempts() {
    assert_eq!(message_status(None, None, 0, 2, 100), MessageStatus::Pending);
    assert_eq!(message_status(Some(120), Some(150), 1, 2, 100), MessageStatus::Delivered);
    assert_eq!(message_status(Some(70), Some(100), 1, 2, 100), MessageStatus::Pending);
    assert_eq!(message_status(Some(20), Some(50), 2, 2, 100), MessageStatus::Failed);
    assert_eq!(message_status(Some(120), Some(150), 2, 2, 100), MessageStatus::Delivered);
}

#[test]
fn delayed_message_never_received_is_pending() {
    // hidden by its delay, but never delivered
    assert_eq!(message_status(None, Some(150), 0, 2, 100), MessageStatus::Pending);
    let mut q = MessageQueue::new(2);
    q.send("later".to_string(), 60, 100).unwrap();
    let m = q.get(0);
    assert_eq!(
        message_status(m.delivered_at, m.invisible_until, m.tries, 2, 120),
        MessageStatus::Pending
    );
    assert!(q.receive(1, 30, 120, "t").is_empty());
}

#[test]
fn delays_beyond_900_seconds_are_rejected() {
    let mut q = MessageQueue::new(2);
    assert!(matches!(q.send("m".to_string(), 901, 0), Err(Error::InvalidParameter { .. })));
    assert_eq!(q.len(), 0);
    assert_eq!(q.send("m".to_string(), 900, 0).unwrap(), 1);
}

#[test]
fn change_visibility_needs_an_open_window() {
    let mut q = MessageQueue::new(5);
    q.send("m".to_string(), 0, 0).unwrap();
    let got = q.receive(1, 30, 0, "t");
    let handle = got[0].receipt_handle.clone().unwrap();
    assert_eq!(q.change_visibility(&handle, 600, 10).unwrap(), 1);
    assert_eq!(q.get(0).invisible_until, Some(610));
    assert_eq!(q.change_visibility(&handle, 0, 20).unwrap(), 1);
    assert_eq!(q.receive(1, 30, 20, "u").len(), 1);
    // the window of the new delivery lapses: not in flight any more
    assert!(matches!(q.change_visibility("1:u", 10, 50), Err(Error::NotFound { .. })));
    assert!(matches!(q.change_visibility(&handle, 10, 25), Err(Error::NotFound { .. })));
}

#[test]
fn queues_rebuild_from_stored_messages_in_id_order() {
    let m = |id: u64| Message {
        id,
        body: "b".to_string(),
        tries: 0,
        delivered_at: None,
        invisible_until: None,
        receipt_handle: None,
    };
    let mut q = MessageQueue::from_messages(vec![m(3), m(7)], 2).unwrap();
    assert_eq!(q.len(), 2);
    assert_eq!(q.send("n".to_string(), 0, 0).unwrap(), 8);
    assert!(MessageQueue::from_messages(vec![m(7), m(3)], 2).is_none());
    assert!(MessageQueue::from_messages(vec![m(u64::MAX)], 2).is_none());
}

#[test]
fn received_message_is_invisible_until_timeout() {
    let mut q = MessageQueue::new(10);
    let id = q.send("hello".to_string(), 0, 1000).unwrap();
    let got = q.receive(1, 30, 1000, "t1");
    assert_eq!(got.len(), 1);
    assert_eq!(got[0].id, id);
    assert_eq!(got[0].body, "hello");
    assert_eq!(got[0].tries, 1);
    assert_eq!(got[0].receipt_handle.as_deref(), Some("1:t1"));
    assert!(q.receive(1, 30, 1029, "t2").is_empty());
    let again = q.receive(1, 30, 1030, "t3");
    assert_eq!(again.len(), 1);
    assert_eq!(again[0].tries, 2);
}

#[test]
fn delivery_order_is_fifo() {
    let mut q = MessageQueue::new(10);
    let a = q.send("a".to_string(), 0, 0).unwrap();
    let b = q.send("b".to_string(), 0, 0).unwrap();
    let c = q.send("c".to_string(), 0, 0).unwrap();
    assert!(a < b && b < c);
    let first = q.receive(2, 30, 0, "x");
    assert_eq!(first.iter().map(|m| m.id).collect::<Vec<_>>(), vec![a, b]);
    let second = q.receive(5, 30, 0, "y");
    assert_eq!(second.iter().map(|m| m.id).collect::<Vec<_>>(), vec![c]);
}

#[test]
fn delete_requires_current_receipt_handle() {
    let mut q = MessageQueue::new(10);
    q.send("m".to_string(), 0, 0).unwrap();
    let first = q.receive(1, 10, 0, "old");
    let stale = first[0].receipt_handle.clone().unwrap();
    let second = q.receive(1, 10, 10, "new");
    let current = second[0].receipt_handle.clone().unwrap();
    assert!(matches!(q.delete(&stale), Err(Error::NotFound { .. })));
    assert_eq!(q.len(), 1);
    assert_eq!(q.delete(&current).unwrap(), 1);
    assert_eq!(q.len(), 0);
}

#[test]
fn messages_stop_delivering_after_max_retries() {
    let mut q = MessageQueue::new(2);
    q.send("m".to_string(), 0, 0).unwrap();
    assert_eq!(q.receive(1, 5, 0, "a").len(), 1);
    assert_eq!(q.receive(1, 5, 5, "b").len(), 1);
    assert!(q.receive(1, 5, 10, "c").is_empty());
    let m = q.get(0);
    assert_eq!(message_status(m.delivered_at, m.invisible_until, m.tries, 2, 10), MessageStatus::Failed);
    assert!(q.requeue(1));
    assert!(!q.requeue(99));
    assert_eq!(q.receive(1, 5, 10, "d").len(), 1);
}

#[test]
fn delayed_messages_wait_out_their_delay() {
    let mut q = MessageQueue::new(3);
    q.send("later".to_string(), 60, 100).unwrap();
    assert!(q.receive(1, 30, 159, "a").is_empty());
    assert_eq!(q.receive(1, 30, 160, "b").len(), 1);
}

fn argon2_hash(password: &str) -> String {
    let salt = SaltString::from_b64("c29tZXNhbHQxMjM0NTY").unwrap();
    argon2::Argon2::default()
        .hash_password(password.as_bytes(), &salt)
        .unwrap()
        .to_string()
}

#[test]
fn login_checks_the_password_hash() {
    let stored = LoginData { hashed_pass: argon2_hash("s3cret"), role: Role::Admin };
    let ok = login(
        LoginRequest { email: "root@example.com".to_string(), password: "s3cret".to_string() },
        Some(stored.clone()),
    )
    .unwrap();
    assert_eq!(ok.email, "root@example.com");
    assert_eq!(ok.role, Role::Admin);
    assert!(matches!(
        login(
            LoginRequest { email: "root@example.com".to_string(), password: "wrong".to_string() },
            Some(stored),
        ),
        Err(Error::Unauthorized)
    ));
    assert!(matches!(
        login(
            LoginRequest { email: "nobody@example.com".to_string(), password: "x".to_string() },
            None,
        ),
        Err(Error::UserNotFound { email }) if email == "nobody@example.com"
    ));
    assert!(matches!(
        login(
            LoginRequest { email: "a@example.com".to_string(), password: "x".to_string() },
            Some(LoginData { hashed_pass: "not a hash".to_string(), role: Role::User }),
        ),
        Err(Error::Unauthorized)
    ));
}

#[test]
fn message_details_show_status_and_attributes() {
    assert!(matches!(
        attribute_detail(SqsMessageAttribute::Binary { binary_value: b"TEST".to_vec() }),
        AttributeDetail::Text(t) if t == "VEVTVA=="
    ));
    assert!(matches!(
        attribute_detail(SqsMessageAttribute::Binary { binary_value: b"TE".to_vec() }),
        AttributeDetail::Text(t) if t == "VEU="
    ));
    assert!(matches!(
        attribute_detail(SqsMessageAttribute::Number { string_value: "12".to_string() }),
        AttributeDetail::Number(n) if n == "12"
    ));
    let m = Message {
        id: 3,
        body: "b".to_string(),
        tries: 1,
        delivered_at: Some(90),
        invisible_until: Some(120),
        receipt_handle: Some("3:x".to_string()),
    };
    let d = message_details(
        m,
        "q".to_string(),
        None,
        5,
        100,
        vec![("s".to_string(), SqsMessageAttribute::String { string_value: "v".to_string() })],
    );
    assert_eq!(d.id, 3);
    assert_eq!(d.status, MessageStatus::Delivered);
    assert_eq!(d.tries, 1);
    assert_eq!(d.message_attributes.len(), 1);
    assert!(matches!(&d.message_attributes[0].1, AttributeDetail::Text(t) if t == "v"));
}

#[test]
fn admin_status_changes_follow_the_lifecycle() {
    let mut q = MessageQueue::new(3);
    q.send("m".to_string(), 0, 0).unwrap();
    let got = q.receive(1, 30, 0, "t");
    let handle = got[0].receipt_handle.clone().unwrap();
    // requeue: immediately deliverable, attempts reset, handle kept
    q.set_status(1, MessageStatus::Pending).unwrap();
    assert_eq!(q.get(0).tries, 0);
    assert_eq!(q.get(0).invisible_until, None);
    assert_eq!(q.get(0).receipt_handle.as_deref(), Some(handle.as_str()));
    assert_eq!(q.receive(1, 30, 1, "u").len(), 1);
    // mark failed: attempts used up, never delivered again
    q.set_status(1, MessageStatus::Failed).unwrap();
    assert_eq!(q.get(0).tries, 3);
    assert!(q.receive(1, 30, 1000, "v").is_empty());
    // delivered only results from a receive
    let err = q.set_status(1, MessageStatus::Delivered).unwrap_err();
    assert_eq!(err.status_code(), 400);
    assert!(matches!(q.set_status(9, MessageStatus::Pending), Err(Error::NotFound { .. })));
}

#[test]
fn delays_hide_until_now_plus_delay() {
    assert_eq!(nervemq::message::delay_deadline(0, 100), None);
    assert_eq!(nervemq::message::delay_deadline(60, 100), Some(160));
}

#[test]
fn hashed_secrets_log_in() {
    let hash = nervemq::api::auth::hash_secret("s3cret").unwrap();
    let stored = LoginData { hashed_pass: hash.clone(), role: Role::User };
    assert!(login(
        LoginRequest { email: "a@b.c".to_string(), password: "s3cret".to_string() },
        Some(stored.clone())
    )
    .is_ok());
    assert!(matches!(
        login(LoginRequest { email: "a@b.c".to_string(), password: "other".to_string() }, Some(stored)),
        Err(Error::Unauthorized)
    ));
    // a fresh salt each time
    assert_ne!(nervemq::api::auth::hash_secret("s3cret").unwrap(), hash);
}
