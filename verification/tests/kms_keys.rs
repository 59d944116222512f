use nervemq::kms::sqlite::{nonce_for_key_id, EncryptionKey};
use nervemq::kms::Rotation;

#[test]
fn rotation_accessors_expose_both_key_ids() {
    let rotation = Rotation::new("old".to_string(), "new".to_string());
    assert_eq!(rotation.key_id(), "old");
    assert_eq!(rotation.new_key_id(), "new");
}

#[test]
fn nonce_repeats_the_key_id_bytes() {
    assert_eq!(nonce_for_key_id("abc"), b"abcabcabcabc".to_vec());
    assert_eq!(nonce_for_key_id("0123456789abcdef"), b"0123456789ab".to_vec());
    assert_eq!(nonce_for_key_id("x"), b"xxxxxxxxxxxx".to_vec());
}

fn key(id: &str, byte: u8) -> EncryptionKey {
    EncryptionKey { key_id: id.to_string(), key: vec![byte; 32] }
}

#[test]
fn encrypted_data_decrypts_under_the_same_key() {
    let k = key("key-1", 7);
    let plaintext = b"the queue's deepest secret".to_vec();
    let ciphertext = k.encrypt(&plaintext).unwrap();
    assert_ne!(ciphertext, plaintext);
    assert_eq!(ciphertext.len(), plaintext.len() + 16);
    assert_eq!(k.decrypt(&ciphertext).unwrap(), plaintext);
}

#[test]
fn decrypting_under_another_key_fails() {
    let a = key("key-a", 1);
    let b = key("key-b", 2);
    let ciphertext = a.encrypt(b"sealed").unwrap();
    let err = b.decrypt(&ciphertext).unwrap_err();
    assert_eq!(err.message(), "internal server error: Error decrypting data: aead::Error");
    assert!(a.decrypt(b"short").is_err());
}

#[test]
fn encryption_is_deterministic_per_key() {
    let k = key("key-1", 9);
    assert_eq!(k.encrypt(b"same").unwrap(), k.encrypt(b"same").unwrap());
}

fn ring_with(ids: &[(&str, u8)]) -> nervemq::kms::memory::KeyRing {
    let mut ring = nervemq::kms::memory::KeyRing::new();
    for (id, byte) in ids {
        ring.create_key(id.to_string(), vec![*byte; 32]).unwrap();
    }
    ring
}

#[test]
fn roundtrips_data_through_a_created_key() {
    let ring = ring_with(&[("k1", 1)]);
    assert!(ring.key_exists("k1"));
    let plaintext = b"the queue's deepest secret".to_vec();
    let ciphertext = ring.encrypt("k1", &plaintext).unwrap();
    assert_ne!(ciphertext, plaintext);
    assert_eq!(ciphertext.len(), plaintext.len() + 16);
    assert_eq!(ring.decrypt("k1", &ciphertext).unwrap(), plaintext);
}

#[test]
fn decrypting_under_the_wrong_key_fails() {
    let ring = ring_with(&[("a", 1), ("b", 2)]);
    let ciphertext = ring.encrypt("a", b"sealed").unwrap();
    assert!(ring.decrypt("b", &ciphertext).is_err());
}

#[test]
fn missing_keys_are_errors() {
    let ring = ring_with(&[]);
    assert!(!ring.key_exists("no-such-key"));
    assert!(matches!(ring.encrypt("no-such-key", b"data"), Err(nervemq::error::Error::NotFound { .. })));
    assert!(matches!(ring.decrypt("no-such-key", b"data"), Err(nervemq::error::Error::NotFound { .. })));
}

#[test]
fn deleted_keys_stop_decrypting() {
    let mut ring = ring_with(&[("k", 3)]);
    let ciphertext = ring.encrypt("k", b"ephemeral").unwrap();
    ring.delete_key("k").unwrap();
    assert!(!ring.key_exists("k"));
    assert!(ring.decrypt("k", &ciphertext).is_err());
    assert!(ring.delete_key("k").is_err());
}

#[test]
fn memory_manager_rotation_retires_the_old_key() {
    let mut ring = ring_with(&[("old", 4)]);
    let ciphertext = ring.encrypt("old", b"long-lived").unwrap();
    let rotation = ring.begin_rotation("old", "new".to_string(), vec![5u8; 32]).unwrap();
    assert_eq!(rotation.key_id(), "old");
    assert_ne!(rotation.new_key_id(), "old");
    let plaintext = ring.decrypt("old", &ciphertext).unwrap();
    let reencrypted = ring.encrypt("new", &plaintext).unwrap();
    ring.complete_rotation(rotation).unwrap();
    assert!(ring.encrypt("old", b"x").is_err());
    assert_eq!(ring.decrypt("new", &reencrypted).unwrap(), plaintext);
}

#[test]
fn keys_need_32_bytes_and_a_fresh_id() {
    let mut ring = ring_with(&[("k", 1)]);
    assert!(ring.create_key("k".to_string(), vec![2u8; 32]).is_err());
    assert!(ring.create_key("short".to_string(), vec![2u8; 16]).is_err());
    assert!(ring.create_key(String::new(), vec![2u8; 32]).is_err());
    assert!(ring.begin_rotation("absent", "n".to_string(), vec![2u8; 32]).is_err());
}
