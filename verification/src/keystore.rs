//! The session-key store: at most one current symmetric key per client,
//! with its issuance time and the rotation threshold.
use vstd::prelude::*;
use crate::bytes::{bytes_clone, bytes_eq, sat_add, spec_sat_add};

verus! {

/// One client's current session key.
pub struct KeyEntry {
    pub client_id: Vec<u8>,
    pub key: Vec<u8>,
    pub issued_at: u64,
}

/// The model of a key entry.
#[verifier::ext_equal]
pub struct KeyModel {
    pub client_id: Seq<u8>,
    pub key: Seq<u8>,
    pub issued_at: u64,
}

impl View for KeyEntry {
    type V = KeyModel;

    open spec fn view(&self) -> KeyModel {
        KeyModel { client_id: self.client_id@, key: self.key@, issued_at: self.issued_at }
    }
}

/// The store of current session keys, one per client.
pub struct SessionKeyStore {
    pub entries: Vec<KeyEntry>,
    pub rotation_threshold: u64,
}

impl SessionKeyStore {
    pub open spec fn models(self) -> Seq<KeyModel> {
        self.entries@.map_values(|e: KeyEntry| e@)
    }

    pub open spec fn has_key(self, client_id: Seq<u8>) -> bool {
        exists|i: int| 0 <= i < self.models().len() && #[trigger] self.models()[i].client_id
            == client_id
    }

    /// At most one current key per client.
    pub open spec fn wf(self) -> bool {
        forall|i: int, j: int|
            0 <= i < j < self.models().len() ==> #[trigger] self.models()[i].client_id
                != #[trigger] self.models()[j].client_id
    }

    /// An empty store with the given rotation threshold.
    pub fn new(rotation_threshold: u64) -> (r: SessionKeyStore)
        ensures
            r.wf(),
            r.models() == Seq::<KeyModel>::empty(),
            r.rotation_threshold == rotation_threshold,
    {
        let r = SessionKeyStore { entries: Vec::new(), rotation_threshold };
        proof {
            assert(r.models() =~= Seq::<KeyModel>::empty());
        }
        r
    }

    /// Install or atomically replace a client's current key.
    #[verifier::loop_isolation(false)]
    pub fn store(&mut self, client_id: &Vec<u8>, key: Vec<u8>, now: u64) -> (replaced: bool)
        requires
            old(self).wf(),
        ensures
            final(self).wf(),
            final(self).rotation_threshold == old(self).rotation_threshold,
            replaced == old(self).has_key(client_id@),
            final(self).has_key(client_id@),
            !replaced ==> final(self).models() == old(self).models().push(
                (KeyModel { client_id: client_id@, key: key@, issued_at: now }),
            ),
            replaced ==> (exists|i: int|
                0 <= i < old(self).models().len() && #[trigger] old(
                    self,
                ).models()[i].client_id == client_id@ && final(self).models() == old(
                    self,
                ).models().update(
                    i,
                    (KeyModel { client_id: client_id@, key: key@, issued_at: now }),
                )),
    {
        let ghost m = KeyModel { client_id: client_id@, key: key@, issued_at: now };
        let mut i: usize = 0;
        while i < self.entries.len()
            invariant
                i <= self.entries@.len(),
                *self == *old(self),
                forall|k: int| 0 <= k < i ==> #[trigger] self.models()[k].client_id != client_id@,
            decreases self.entries@.len() - i,
        {
            if bytes_eq(&self.entries[i].client_id, client_id) {
                let entry = KeyEntry { client_id: bytes_clone(client_id), key, issued_at: now };
                self.entries.set(i, entry);
                proof {
                    assert(self.entries@ == old(self).entries@.update(i as int, entry));
                    assert(entry@ =~~= m);
                    assert(self.models() =~~= old(self).models().update(i as int, m));
                    assert(self.models()[i as int].client_id == client_id@);
                    assert(forall|k: int|
                        0 <= k < self.models().len() ==> #[trigger] self.models()[k].client_id
                            == old(self).models()[k].client_id);
                }
                return true;
            }
            i = i + 1;
        }
        let entry = KeyEntry { client_id: bytes_clone(client_id), key, issued_at: now };
        self.entries.push(entry);
        proof {
            assert(self.models() =~~= old(self).models().push(m));
            assert(self.models()[self.models().len() - 1].client_id == client_id@);
        }
        false
    }

    /// The client's current key, when one is installed.
    pub fn get(&self, client_id: &Vec<u8>) -> (r: Option<Vec<u8>>)
        ensures
            r is Some <==> self.has_key(client_id@),
            r matches Some(k) ==> exists|i: int|
                0 <= i < self.models().len() && #[trigger] self.models()[i].client_id == client_id@
                    && self.models()[i].key == k@,
    {
        let mut i: usize = 0;
        while i < self.entries.len()
            invariant
                i <= self.entries@.len(),
                forall|k: int| 0 <= k < i ==> #[trigger] self.models()[k].client_id != client_id@,
            decreases self.entries@.len() - i,
        {
            if bytes_eq(&self.entries[i].client_id, client_id) {
                let k = bytes_clone(&self.entries[i].key);
                proof {
                    assert(self.models()[i as int].client_id == client_id@);
                }
                return Option::Some(k);
            }
            i = i + 1;
        }
        Option::None
    }

    /// Erase the client's key; says whether one was present. Afterwards the
    /// client has no key, and erasing again changes nothing.
    #[verifier::loop_isolation(false)]
    pub fn remove(&mut self, client_id: &Vec<u8>) -> (removed: bool)
        requires
            old(self).wf(),
        ensures
            final(self).wf(),
            final(self).rotation_threshold == old(self).rotation_threshold,
            removed == old(self).has_key(client_id@),
            !removed ==> *final(self) == *old(self),
            removed ==> (exists|i: int|
                0 <= i < old(self).models().len() && #[trigger] old(
                    self,
                ).models()[i].client_id == client_id@ && final(self).models() == old(
                    self,
                ).models().remove(i)),
            !final(self).has_key(client_id@),
    {
        let mut i: usize = 0;
        while i < self.entries.len()
            invariant
                i <= self.entries@.len(),
                *self == *old(self),
                forall|k: int| 0 <= k < i ==> #[trigger] self.models()[k].client_id != client_id@,
            decreases self.entries@.len() - i,
        {
            if bytes_eq(&self.entries[i].client_id, client_id) {
                proof {
                    assert(old(self).models()[i as int].client_id == client_id@);
                }
                self.entries.remove(i);
                proof {
                    assert(self.models() =~~= old(self).models().remove(i as int));
                    assert(forall|j: int|
                        0 <= j < old(self).models().len() && j != i as int ==> #[trigger] old(
                            self,
                        ).models()[j].client_id != client_id@);
                    assert(forall|k: int|
                        0 <= k < self.models().len() ==> #[trigger] self.models()[k] == (if k < i
                            as int {
                            old(self).models()[k]
                        } else {
                            old(self).models()[k + 1]
                        }));
                }
                return true;
            }
            i = i + 1;
        }
        false
    }

    /// Whether the client's key is due for rotation: a key is installed and
    /// its age has reached the rotation threshold.
    pub fn needs_rotation(&self, client_id: &Vec<u8>, now: u64) -> (r: bool)
        requires
            self.wf(),
        ensures
            r == exists|i: int|
                0 <= i < self.models().len() && #[trigger] self.models()[i].client_id == client_id@
                    && now >= spec_sat_add(self.models()[i].issued_at, self.rotation_threshold),
    {
        let mut i: usize = 0;
        while i < self.entries.len()
            invariant
                i <= self.entries@.len(),
                self.wf(),
                forall|k: int| 0 <= k < i ==> #[trigger] self.models()[k].client_id != client_id@,
            decreases self.entries@.len() - i,
        {
            if bytes_eq(&self.entries[i].client_id, client_id) {
                proof {
                    assert(self.models()[i as int].client_id == client_id@);
                }
                let due = sat_add(self.entries[i].issued_at, self.rotation_threshold);
                return now >= due;
            }
            i = i + 1;
        }
        false
    }
}

} // verus!
