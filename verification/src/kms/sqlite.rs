//! Encryption under keys stored by the server, with AES-256-GCM-SIV.
//!
//! Each key is 32 bytes of key material under a textual key id. The nonce of
//! every encryption under a key is derived from the key id: its bytes,
//! repeated, cut to the nonce length. Since AES-GCM-SIV is misuse-resistant,
//! reusing the nonce only reveals whether two plaintexts are equal.

use aes_gcm_siv::aead::Aead;
use aes_gcm_siv::KeyInit;
use crate::error::Error;
use vstd::prelude::*;

verus! {

/// Length in bytes of an AES-256 key.
pub const KEY_LEN: usize = 32;

/// Length in bytes of an AES-GCM-SIV nonce.
pub const NONCE_LEN: usize = 12;

/// The longest plaintext AES-GCM-SIV encrypts, in bytes.
pub const MAX_PLAINTEXT_LEN: u64 = 0x10_0000_0000u64;

/// Length of the authentication tag appended to a ciphertext, in bytes.
pub const TAG_LEN: usize = 16;

/// A stored encryption key.
#[derive(Debug, Clone)]
pub struct EncryptionKey {
    pub key_id: String,
    pub key: Vec<u8>,
}

/// The AES-256-GCM-SIV ciphertext (with its tag) of `msg` under `key` and
/// `nonce`, as computed by the `aes-gcm-siv` crate.
pub uninterp spec fn aes_siv_seal(key: Seq<u8>, nonce: Seq<u8>, msg: Seq<u8>) -> Seq<u8>;

/// The plaintext of `ct` under `key` and `nonce`, or none when `ct` does
/// not authenticate, as computed by the `aes-gcm-siv` crate.
pub uninterp spec fn aes_siv_open(key: Seq<u8>, nonce: Seq<u8>, ct: Seq<u8>) -> Option<Seq<u8>>;

/// `Aes256GcmSiv::encrypt` without associated data. It fails only for a
/// plaintext longer than 2^36 bytes; what it produces is the plaintext's
/// length plus the 16-byte tag, and decrypts, under the same key and
/// nonce, to the plaintext.
#[verifier::external_body]
fn seal_bytes(key: &[u8], nonce: &[u8], msg: &[u8]) -> (r: Option<Vec<u8>>)
    requires
        key@.len() == KEY_LEN,
        nonce@.len() == NONCE_LEN,
    ensures
        r is Some <==> msg@.len() <= MAX_PLAINTEXT_LEN,
        r matches Some(c) ==> c@ == aes_siv_seal(key@, nonce@, msg@),
        r matches Some(c) ==> c@.len() == msg@.len() + TAG_LEN,
        r matches Some(c) ==> aes_siv_open(key@, nonce@, c@) == Some(msg@),
{
    let cipher = aes_gcm_siv::Aes256GcmSiv::new(aes_gcm_siv::Key::<aes_gcm_siv::Aes256GcmSiv>::from_slice(key));
    match cipher.encrypt(aes_gcm_siv::Nonce::from_slice(nonce), msg) {
        Ok(c) => Some(c),
        Err(_) => None,
    }
}

/// `Aes256GcmSiv::decrypt` without associated data: the plaintext, or none
/// when the ciphertext does not authenticate under the key and nonce.
#[verifier::external_body]
fn open_bytes(key: &[u8], nonce: &[u8], ct: &[u8]) -> (r: Option<Vec<u8>>)
    requires
        key@.len() == KEY_LEN,
        nonce@.len() == NONCE_LEN,
    ensures
        match r {
            Some(m) => aes_siv_open(key@, nonce@, ct@) == Some(m@),
            None => aes_siv_open(key@, nonce@, ct@) is None,
        },
{
    let cipher = aes_gcm_siv::Aes256GcmSiv::new(aes_gcm_siv::Key::<aes_gcm_siv::Aes256GcmSiv>::from_slice(key));
    match cipher.decrypt(aes_gcm_siv::Nonce::from_slice(nonce), ct) {
        Ok(m) => Some(m),
        Err(_) => None,
    }
}

/// The nonce derived from a key id: its bytes repeated, cut to
/// [`NONCE_LEN`] bytes.
pub open spec fn nonce_of(key_id: Seq<u8>) -> Seq<u8> {
    Seq::new(NONCE_LEN as nat, |i: int| key_id[i % (key_id.len() as int)])
}

/// The nonce derived from a key id (see [`nonce_of`]). The key id must not
/// be empty.
pub fn nonce_for_key_id(key_id: &str) -> (r: Vec<u8>)
    requires
        key_id@.len() > 0,
    ensures
        r@ == nonce_of(vstd::utf8::encode_utf8(key_id@)),
{
    let bytes = key_id.as_bytes();
    proof {
        lemma_encode_utf8_nonempty(key_id@);
    }
    let n = bytes.len();
    let mut out: Vec<u8> = Vec::new();
    let mut i: usize = 0;
    while i < NONCE_LEN
        invariant
            0 <= i <= NONCE_LEN,
            n == bytes@.len(),
            n > 0,
            out@.len() == i,
            forall|j: int| 0 <= j < i ==> #[trigger] out@[j] == bytes@[j % (n as int)],
        decreases NONCE_LEN - i,
    {
        out.push(bytes[i % n]);
        i += 1;
    }
    assert(out@ =~= nonce_of(bytes@));
    out
}

/// A non-empty string has a non-empty UTF-8 encoding.
proof fn lemma_encode_utf8_nonempty(s: Seq<char>)
    requires
        s.len() > 0,
    ensures
        vstd::utf8::encode_utf8(s).len() > 0,
{
    assert(s =~= seq![s[0]] + s.drop_first());
    crate::text::lemma_encode_utf8_concat(seq![s[0]], s.drop_first());
    assert(seq![s[0]].drop_first() =~= Seq::<char>::empty());
}

/// The ciphertext of `data` under a stored key.
pub open spec fn sealed(key: EncryptionKey, data: Seq<u8>) -> Seq<u8> {
    aes_siv_seal(key.key@, nonce_of(vstd::utf8::encode_utf8(key.key_id@)), data)
}

/// The plaintext of `data` under a stored key, if it authenticates.
pub open spec fn opened(key: EncryptionKey, data: Seq<u8>) -> Option<Seq<u8>> {
    aes_siv_open(key.key@, nonce_of(vstd::utf8::encode_utf8(key.key_id@)), data)
}

/// The message of the error reported when encryption fails.
pub open spec fn encrypt_error_message() -> Seq<char> {
    "Error encrypting data: aead::Error"@
}

/// The message of the error reported when decryption fails.
pub open spec fn decrypt_error_message() -> Seq<char> {
    "Error decrypting data: aead::Error"@
}

impl EncryptionKey {
    /// Encrypts `data` under this key, with the nonce derived from the key
    /// id: the ciphertext is the plaintext's length plus the 16-byte tag.
    /// Fails only for a plaintext longer than 2^36 bytes.
    pub fn encrypt(&self, data: &[u8]) -> (r: Result<Vec<u8>, Error>)
        requires
            self.key@.len() == KEY_LEN,
            self.key_id@.len() > 0,
        ensures
            match r {
                Ok(c) => {
                    &&& data@.len() <= MAX_PLAINTEXT_LEN
                    &&& c@ == sealed(*self, data@)
                    &&& c@.len() == data@.len() + TAG_LEN
                    &&& opened(*self, c@) == Some(data@)
                },
                Err(e) => {
                    &&& data@.len() > MAX_PLAINTEXT_LEN
                    &&& e matches Error::InternalServerError { message }
                    &&& message@ == encrypt_error_message()
                },
            },
    {
        let nonce = nonce_for_key_id(self.key_id.as_str());
        match seal_bytes(self.key.as_slice(), nonce.as_slice(), data) {
            Some(c) => Ok(c),
            None => Err(Error::internal(String::from_str("Error encrypting data: aead::Error"))),
        }
    }

    /// Decrypts `data` under this key, with the nonce derived from the key
    /// id. Fails when the ciphertext does not authenticate.
    pub fn decrypt(&self, data: &[u8]) -> (r: Result<Vec<u8>, Error>)
        requires
            self.key@.len() == KEY_LEN,
            self.key_id@.len() > 0,
        ensures
            match opened(*self, data@) {
                Some(m) => r matches Ok(p) && p@ == m,
                None => r matches Err(Error::InternalServerError { message })
                    && message@ == decrypt_error_message(),
            },
    {
        let nonce = nonce_for_key_id(self.key_id.as_str());
        match open_bytes(self.key.as_slice(), nonce.as_slice(), data) {
            Some(m) => Ok(m),
            None => Err(Error::internal(String::from_str("Error decrypting data: aead::Error"))),
        }
    }
}

} // verus!
