//! Keys kept in memory: each key id names 32 bytes of key material; data is
//! encrypted under a key id, and a rotation moves from one key to another
//! and then deletes the old one.

use crate::error::Error;
use crate::kms::sqlite::{aes_siv_open, aes_siv_seal, nonce_of, EncryptionKey, KEY_LEN, MAX_PLAINTEXT_LEN};
use crate::kms::Rotation;
use crate::text::str_eq;
use vstd::prelude::*;

verus! {

/// The key material stored under `id`, if any (the last entry under it).
pub open spec fn find_key(keys: Seq<(Seq<char>, Seq<u8>)>, id: Seq<char>) -> Option<Seq<u8>>
    decreases keys.len(),
{
    if keys.len() == 0 {
        None
    } else if keys.last().0 == id {
        Some(keys.last().1)
    } else {
        find_key(keys.drop_last(), id)
    }
}

/// Whether no two entries share a key id.
pub open spec fn distinct_ids(keys: Seq<(Seq<char>, Seq<u8>)>) -> bool {
    forall|i: int, j: int| 0 <= i < j < keys.len() ==> keys[i].0 != keys[j].0
}

/// Keys kept in memory, in the order they were created.
pub struct KeyRing {
    keys: Vec<EncryptionKey>,
}

/// The stored keys viewed as key ids with their key material.
pub open spec fn keys_view(keys: Seq<EncryptionKey>) -> Seq<(Seq<char>, Seq<u8>)> {
    keys.map_values(|k: EncryptionKey| (k.key_id@, k.key@))
}

impl View for KeyRing {
    type V = Seq<(Seq<char>, Seq<u8>)>;

    closed spec fn view(&self) -> Seq<(Seq<char>, Seq<u8>)> {
        keys_view(self.keys@)
    }
}

/// Whether every stored key can encrypt: its id is not empty and its key
/// material is 32 bytes long.
pub open spec fn usable_keys(keys: Seq<(Seq<char>, Seq<u8>)>) -> bool {
    forall|i: int| 0 <= i < keys.len() ==> #[trigger] keys[i].0.len() > 0 && keys[i].1.len()
        == KEY_LEN
}

/// A key found under an id is one of the entries under that id.
proof fn lemma_find_key_entry(keys: Seq<(Seq<char>, Seq<u8>)>, id: Seq<char>)
    ensures
        find_key(keys, id) is None <==> forall|i: int| 0 <= i < keys.len() ==> keys[i].0 != id,
        find_key(keys, id) matches Some(k) ==> exists|i: int|
            0 <= i < keys.len() && keys[i].0 == id && keys[i].1 == k,
    decreases keys.len(),
{
    if keys.len() > 0 {
        lemma_find_key_entry(keys.drop_last(), id);
        if find_key(keys, id) is None {
            assert forall|i: int| 0 <= i < keys.len() implies keys[i].0 != id by {
                if i < keys.len() - 1 {
                    assert(keys.drop_last()[i] == keys[i]);
                }
            }
        }
        if let Some(k) = find_key(keys.drop_last(), id) {
            if keys.last().0 != id {
                let i = choose|i: int|
                    0 <= i < keys.drop_last().len() && keys.drop_last()[i].0 == id
                        && keys.drop_last()[i].1 == k;
                assert(keys[i] == keys.drop_last()[i]);
            }
        }
        if keys.last().0 != id && find_key(keys.drop_last(), id) is None {
            assert forall|i: int| 0 <= i < keys.len() implies keys[i].0 != id by {
                if i < keys.len() - 1 {
                    assert(keys.drop_last()[i] == keys[i]);
                }
            }
        }
    }
}

/// With distinct ids, the entry at `j` is what its id finds.
proof fn lemma_find_key_at(keys: Seq<(Seq<char>, Seq<u8>)>, j: int)
    requires
        distinct_ids(keys),
        0 <= j < keys.len(),
    ensures
        find_key(keys, keys[j].0) == Some(keys[j].1),
    decreases keys.len(),
{
    if j < keys.len() - 1 {
        assert(keys.drop_last()[j] == keys[j]);
        lemma_find_key_at(keys.drop_last(), j);
    }
}

/// Removing the entry at `j` (distinct ids) forgets its id and keeps
/// every other.
proof fn lemma_find_key_remove(keys: Seq<(Seq<char>, Seq<u8>)>, j: int, x: Seq<char>)
    requires
        distinct_ids(keys),
        0 <= j < keys.len(),
    ensures
        find_key(keys.remove(j), x) == if x == keys[j].0 {
            None
        } else {
            find_key(keys, x)
        },
    decreases keys.len(),
{
    let n = keys.len();
    if j == n - 1 {
        assert(keys.remove(j) =~= keys.drop_last());
        if x == keys[j].0 {
            lemma_find_key_entry(keys.drop_last(), x);
            assert forall|i: int| 0 <= i < keys.drop_last().len() implies keys.drop_last()[i].0
                != x by {
                assert(keys.drop_last()[i] == keys[i]);
            }
        }
    } else {
        let d = keys.drop_last();
        assert forall|a: int, b: int| 0 <= a < b < d.len() implies d[a].0 != d[b].0 by {
            assert(d[a] == keys[a] && d[b] == keys[b]);
        }
        lemma_find_key_remove(d, j, x);
        assert(keys.remove(j) =~= d.remove(j).push(keys.last()));
        assert(keys.remove(j).drop_last() =~= d.remove(j));
        assert(d[j] == keys[j]);
    }
}

impl KeyRing {
    /// The ring's invariant: ids are distinct and every key can encrypt.
    pub closed spec fn wf(&self) -> bool {
        &&& distinct_ids(self@)
        &&& usable_keys(self@)
    }

    /// An empty ring.
    pub fn new() -> (r: KeyRing)
        ensures
            r.wf(),
            r@ == Seq::<(Seq<char>, Seq<u8>)>::empty(),
    {
        let r = KeyRing { keys: Vec::new() };
        assert(r@ =~= Seq::<(Seq<char>, Seq<u8>)>::empty());
        r
    }

    /// The position of the key stored under `id`, if any.
    fn position(&self, id: &str) -> (r: Option<usize>)
        requires
            self.wf(),
        ensures
            match r {
                Some(j) => j < self@.len() && self@[j as int].0 == id@,
                None => forall|i: int| 0 <= i < self@.len() ==> self@[i].0 != id@,
            },
    {
        let mut i: usize = 0;
        while i < self.keys.len()
            invariant
                0 <= i <= self.keys@.len(),
                self@ == keys_view(self.keys@),
                forall|j: int| 0 <= j < i ==> self@[j].0 != id@,
            decreases self.keys@.len() - i,
        {
            assert(self@[i as int] == (self.keys@[i as int].key_id@, self.keys@[i as int].key@));
            if str_eq(self.keys[i].key_id.as_str(), id) {
                return Some(i);
            }
            i += 1;
        }
        None
    }

    /// Whether a key is stored under `key_id`.
    pub fn key_exists(&self, key_id: &str) -> (r: bool)
        requires
            self.wf(),
        ensures
            r == find_key(self@, key_id@) is Some,
    {
        proof {
            lemma_find_key_entry(self@, key_id@);
        }
        self.position(key_id).is_some()
    }

    /// Stores new key material under `key_id`. An empty id, an id already
    /// in use, or key material that is not 32 bytes long is an invalid
    /// parameter and stores nothing.
    pub fn create_key(&mut self, key_id: String, key: Vec<u8>) -> (r: Result<(), Error>)
        requires
            old(self).wf(),
        ensures
            final(self).wf(),
            r is Ok <==> key_id@.len() > 0 && key@.len() == KEY_LEN && find_key(
                old(self)@,
                key_id@,
            ) is None,
            r is Ok ==> final(self)@ == old(self)@.push((key_id@, key@)),
            r matches Err(e) ==> e is InvalidParameter && final(self)@ == old(self)@,
    {
        proof {
            lemma_find_key_entry(self@, key_id@);
        }
        if crate::text::chars_of(key_id.as_str()).len() == 0 || key.len() != KEY_LEN {
            return Err(Error::invalid_parameter(String::from_str("invalid key")));
        }
        if self.position(key_id.as_str()).is_some() {
            return Err(Error::invalid_parameter(String::from_str("key id already in use")));
        }
        let ghost before = self@;
        let ghost entry = (key_id@, key@);
        self.keys.push(EncryptionKey { key_id, key });
        proof {
            assert(self@ =~= before.push(entry));
        }
        Ok(())
    }

    /// Encrypts `data` under the key stored as `key_id`: not found when no
    /// key is stored under it.
    pub fn encrypt(&self, key_id: &str, data: &[u8]) -> (r: Result<Vec<u8>, Error>)
        requires
            self.wf(),
        ensures
            match find_key(self@, key_id@) {
                None => r matches Err(Error::NotFound { .. }),
                Some(k) => if data@.len() <= MAX_PLAINTEXT_LEN {
                    r matches Ok(c) && c@ == aes_siv_seal(
                        k,
                        nonce_of(vstd::utf8::encode_utf8(key_id@)),
                        data@,
                    ) && aes_siv_open(k, nonce_of(vstd::utf8::encode_utf8(key_id@)), c@) == Some(
                        data@,
                    )
                } else {
                    r matches Err(Error::InternalServerError { .. })
                },
            },
    {
        proof {
            lemma_find_key_entry(self@, key_id@);
        }
        match self.position(key_id) {
            None => {
                let mut m = String::from_str("key ");
                m.append(key_id);
                Err(Error::not_found(m))
            },
            Some(j) => {
                proof {
                    lemma_find_key_at(self@, j as int);
                    assert(self@[j as int] == (self.keys@[j as int].key_id@, self.keys@[j as int].key@));
                }
                self.keys[j].encrypt(data)
            },
        }
    }

    /// Decrypts `data` under the key stored as `key_id`: not found when no
    /// key is stored under it, an internal error when `data` does not
    /// authenticate under it.
    pub fn decrypt(&self, key_id: &str, data: &[u8]) -> (r: Result<Vec<u8>, Error>)
        requires
            self.wf(),
        ensures
            match find_key(self@, key_id@) {
                None => r matches Err(Error::NotFound { .. }),
                Some(k) => match aes_siv_open(k, nonce_of(vstd::utf8::encode_utf8(key_id@)), data@) {
                    Some(m) => r matches Ok(p) && p@ == m,
                    None => r matches Err(Error::InternalServerError { .. }),
                },
            },
    {
        proof {
            lemma_find_key_entry(self@, key_id@);
        }
        match self.position(key_id) {
            None => {
                let mut m = String::from_str("key ");
                m.append(key_id);
                Err(Error::not_found(m))
            },
            Some(j) => {
                proof {
                    lemma_find_key_at(self@, j as int);
                    assert(self@[j as int] == (self.keys@[j as int].key_id@, self.keys@[j as int].key@));
                }
                self.keys[j].decrypt(data)
            },
        }
    }

    /// Deletes the key stored as `key_id`: not found when there is none.
    /// Afterwards no key is stored under that id; every other is kept.
    pub fn delete_key(&mut self, key_id: &str) -> (r: Result<(), Error>)
        requires
            old(self).wf(),
        ensures
            final(self).wf(),
            r is Ok <==> find_key(old(self)@, key_id@) is Some,
            r matches Err(e) ==> e is NotFound && final(self)@ == old(self)@,
            forall|x: Seq<char>|
                #[trigger] find_key(final(self)@, x) == if x == key_id@ {
                    None
                } else {
                    find_key(old(self)@, x)
                },
    {
        proof {
            lemma_find_key_entry(self@, key_id@);
        }
        match self.position(key_id) {
            None => {
                let mut m = String::from_str("key ");
                m.append(key_id);
                Err(Error::not_found(m))
            },
            Some(j) => {
                let ghost before = self@;
                self.keys.remove(j);
                proof {
                    assert(self@ =~= before.remove(j as int));
                    assert forall|x: Seq<char>| #[trigger]
                        find_key(self@, x) == if x == key_id@ {
                            None
                        } else {
                            find_key(before, x)
                        } by {
                        lemma_find_key_remove(before, j as int, x);
                    }
                    assert forall|a: int, b: int| 0 <= a < b < self@.len() implies self@[a].0
                        != self@[b].0 by {
                        let ra = if a < j { a } else { a + 1 };
                        let rb = if b < j { b } else { b + 1 };
                        assert(self@[a] == before[ra] && self@[b] == before[rb]);
                    }
                    assert forall|i: int| 0 <= i < self@.len() implies #[trigger] self@[i].0.len()
                        > 0 && self@[i].1.len() == KEY_LEN by {
                        let ri = if i < j { i } else { i + 1 };
                        assert(self@[i] == before[ri]);
                    }
                }
                Ok(())
            },
        }
    }

    /// Begins rotating `key_id` to fresh key material stored as
    /// `new_key_id`: not found when `key_id` names no key; the new key is
    /// stored as [`KeyRing::create_key`] stores it.
    pub fn begin_rotation(&mut self, key_id: &str, new_key_id: String, new_key: Vec<u8>) -> (r:
        Result<Rotation, Error>)
        requires
            old(self).wf(),
        ensures
            final(self).wf(),
            find_key(old(self)@, key_id@) is None ==> (r matches Err(Error::NotFound { .. })
                && final(self)@ == old(self)@),
            r matches Ok(rot) ==> (rot@ == (key_id@, new_key_id@) && final(self)@ == old(
                self,
            )@.push((new_key_id@, new_key@))),
            find_key(old(self)@, key_id@) is Some ==> (r is Ok <==> new_key_id@.len() > 0
                && new_key@.len() == KEY_LEN && find_key(old(self)@, new_key_id@) is None),
            r matches Err(Error::InvalidParameter { .. }) ==> final(self)@ == old(self)@,
    {
        proof {
            lemma_find_key_entry(self@, key_id@);
        }
        if self.position(key_id).is_none() {
            let mut m = String::from_str("key ");
            m.append(key_id);
            return Err(Error::not_found(m));
        }
        let new_id = new_key_id.clone();
        match self.create_key(new_key_id, new_key) {
            Ok(()) => Ok(Rotation::new(key_id.to_owned(), new_id)),
            Err(e) => Err(e),
        }
    }

    /// Completes a rotation by deleting the retired key: not found when it
    /// is already gone.
    pub fn complete_rotation(&mut self, rotation: Rotation) -> (r: Result<(), Error>)
        requires
            old(self).wf(),
        ensures
            final(self).wf(),
            r is Ok <==> find_key(old(self)@, rotation@.0) is Some,
            forall|x: Seq<char>|
                #[trigger] find_key(final(self)@, x) == if x == rotation@.0 {
                    None
                } else {
                    find_key(old(self)@, x)
                },
    {
        self.delete_key(rotation.key_id())
    }
}

/// A completed rotation retires the old key and keeps the new one: data
/// can no longer be encrypted or decrypted under the old id, and the new
/// id finds the key the rotation began with.
pub proof fn lemma_rotation_retires_the_old_key(
    before: Seq<(Seq<char>, Seq<u8>)>,
    old_id: Seq<char>,
    new_id: Seq<char>,
    new_key: Seq<u8>,
    after: Seq<(Seq<char>, Seq<u8>)>,
)
    requires
        old_id != new_id,
        forall|x: Seq<char>|
            #[trigger] find_key(after, x) == if x == old_id {
                None
            } else {
                find_key(before.push((new_id, new_key)), x)
            },
    ensures
        find_key(after, old_id) is None,
        find_key(after, new_id) == Some(new_key),
{
    assert(find_key(after, new_id) == find_key(before.push((new_id, new_key)), new_id));
}

} // verus!
