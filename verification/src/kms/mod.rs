//! Key management: the handle of a key rotation, and encryption of stored
//! secrets under keys kept by the server.

pub mod memory;
pub mod sqlite;

use vstd::prelude::*;

verus! {

/// An in-progress key rotation: the key being retired and the key replacing
/// it. Data encrypted under the old key is re-encrypted under the new one
/// before the rotation completes and the old key is deleted.
pub struct Rotation {
    key_id: String,
    new_key_id: String,
}

impl View for Rotation {
    /// The old and the new key id.
    type V = (Seq<char>, Seq<char>);

    closed spec fn view(&self) -> (Seq<char>, Seq<char>) {
        (self.key_id@, self.new_key_id@)
    }
}

impl Rotation {
    /// The rotation from `key_id` to `new_key_id`.
    pub fn new(key_id: String, new_key_id: String) -> (r: Rotation)
        ensures
            r@ == (key_id@, new_key_id@),
    {
        Rotation { key_id, new_key_id }
    }

    /// The id of the key being retired.
    pub fn key_id(&self) -> (r: &str)
        ensures
            r@ == self@.0,
    {
        self.key_id.as_str()
    }

    /// The id of the key replacing it.
    pub fn new_key_id(&self) -> (r: &str)
        ensures
            r@ == self@.1,
    {
        self.new_key_id.as_str()
    }
}

} // verus!
