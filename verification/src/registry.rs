//! The session registry: the set of live sessions, indexed by session id
//! and by client id.
use vstd::prelude::*;
use crate::bytes::bytes_eq;
use crate::session::{Session, SessionModel};

verus! {

/// The set of live sessions.
pub struct Registry {
    pub sessions: Vec<Session>,
}

impl Registry {
    pub open spec fn models(self) -> Seq<SessionModel> {
        self.sessions@.map_values(|s: Session| s@)
    }

    pub open spec fn has_session(self, session_id: Seq<u8>) -> bool {
        exists|i: int| 0 <= i < self.models().len() && #[trigger] self.models()[i].session_id
            == session_id
    }

    pub open spec fn has_client(self, client_id: Seq<u8>) -> bool {
        exists|i: int| 0 <= i < self.models().len() && #[trigger] self.models()[i].client_id
            == client_id
    }

    pub open spec fn has_ip(self, ip: Seq<u8>) -> bool {
        exists|i: int| 0 <= i < self.models().len() && #[trigger] self.models()[i].ip_address == ip
    }

    /// Sessions are keyed by session id and by client id, and no address is
    /// held by two live sessions.
    pub open spec fn wf(self) -> bool {
        &&& forall|i: int, j: int|
            0 <= i < j < self.models().len() ==> #[trigger] self.models()[i].session_id
                != #[trigger] self.models()[j].session_id
        &&& forall|i: int, j: int|
            0 <= i < j < self.models().len() ==> #[trigger] self.models()[i].client_id
                != #[trigger] self.models()[j].client_id
        &&& forall|i: int, j: int|
            0 <= i < j < self.models().len() ==> #[trigger] self.models()[i].ip_address
                != #[trigger] self.models()[j].ip_address
    }

    /// An empty registry.
    pub fn new() -> (r: Registry)
        ensures
            r.wf(),
            r.models() == Seq::<SessionModel>::empty(),
    {
        let r = Registry { sessions: Vec::new() };
        proof {
            assert(r.models() =~= Seq::<SessionModel>::empty());
        }
        r
    }

    pub fn len(&self) -> (n: usize)
        ensures
            n == self.models().len(),
    {
        self.sessions.len()
    }

    /// Register a session. Succeeds exactly when neither its session id, nor
    /// its client id, nor its address is already registered.
    #[verifier::loop_isolation(false)]
    pub fn add(&mut self, s: Session) -> (added: bool)
        requires
            old(self).wf(),
        ensures
            final(self).wf(),
            added == (!old(self).has_session(s@.session_id) && !old(self).has_client(s@.client_id)
                && !old(self).has_ip(s@.ip_address)),
            added ==> final(self).models() == old(self).models().push(s@),
            added ==> final(self).has_session(s@.session_id),
            !added ==> *final(self) == *old(self),
    {
        let mut i: usize = 0;
        while i < self.sessions.len()
            invariant
                i <= self.sessions@.len(),
                *self == *old(self),
                forall|k: int| 0 <= k < i ==> #[trigger] self.models()[k].session_id != s@.session_id,
                forall|k: int| 0 <= k < i ==> #[trigger] self.models()[k].client_id != s@.client_id,
                forall|k: int| 0 <= k < i ==> #[trigger] self.models()[k].ip_address != s@.ip_address,
            decreases self.sessions@.len() - i,
        {
            let e = &self.sessions[i];
            proof {
                assert(self.models()[i as int] == self.sessions@[i as int]@);
            }
            if bytes_eq(&e.session_id, &s.session_id) {
                proof {
                    assert(self.models()[i as int].session_id == s@.session_id);
                }
                return false;
            }
            if bytes_eq(&e.client_id, &s.client_id) {
                proof {
                    assert(self.models()[i as int].client_id == s@.client_id);
                }
                return false;
            }
            if bytes_eq(&e.ip_address, &s.ip_address) {
                proof {
                    assert(self.models()[i as int].ip_address == s@.ip_address);
                }
                return false;
            }
            i = i + 1;
        }
        let ghost sm = s@;
        self.sessions.push(s);
        proof {
            assert(self.models() =~~= old(self).models().push(sm));
            assert(self.models()[self.models().len() - 1].session_id == sm.session_id);
            assert(forall|k: int|
                0 <= k < old(self).models().len() ==> #[trigger] self.models()[k] == old(
                    self,
                ).models()[k]);
        }
        true
    }

    /// The position of the session with this id, if it is registered.
    #[verifier::loop_isolation(false)]
    pub fn lookup_by_session(&self, session_id: &Vec<u8>) -> (r: Option<usize>)
        ensures
            r is Some <==> self.has_session(session_id@),
            r matches Some(i) ==> i < self.models().len() && self.models()[
                i as int
            ].session_id == session_id@,
    {
        let mut i: usize = 0;
        while i < self.sessions.len()
            invariant
                i <= self.sessions@.len(),
                forall|k: int| 0 <= k < i ==> #[trigger] self.models()[k].session_id != session_id@,
            decreases self.sessions@.len() - i,
        {
            if bytes_eq(&self.sessions[i].session_id, session_id) {
                proof {
                    assert(self.models()[i as int].session_id == session_id@);
                }
                return Option::Some(i);
            }
            i = i + 1;
        }
        Option::None
    }

    /// The position of the session of this client, if one is registered.
    #[verifier::loop_isolation(false)]
    pub fn lookup_by_client(&self, client_id: &Vec<u8>) -> (r: Option<usize>)
        ensures
            r is Some <==> self.has_client(client_id@),
            r matches Some(i) ==> i < self.models().len() && self.models()[
                i as int
            ].client_id == client_id@,
    {
        let mut i: usize = 0;
        while i < self.sessions.len()
            invariant
                i <= self.sessions@.len(),
                forall|k: int| 0 <= k < i ==> #[trigger] self.models()[k].client_id != client_id@,
            decreases self.sessions@.len() - i,
        {
            if bytes_eq(&self.sessions[i].client_id, client_id) {
                proof {
                    assert(self.models()[i as int].client_id == client_id@);
                }
                return Option::Some(i);
            }
            i = i + 1;
        }
        Option::None
    }

    /// The session at a position, for iteration over a snapshot.
    pub fn get(&self, i: usize) -> (r: &Session)
        requires
            i < self.models().len(),
        ensures
            r@ == self.models()[i as int],
    {
        &self.sessions[i]
    }

    /// Deregister the session with this id; says whether one was registered.
    /// Afterwards the id is absent, and removing again changes nothing.
    #[verifier::loop_isolation(false)]
    pub fn remove(&mut self, session_id: &Vec<u8>) -> (removed: bool)
        requires
            old(self).wf(),
        ensures
            final(self).wf(),
            removed == old(self).has_session(session_id@),
            !removed ==> *final(self) == *old(self),
            removed ==> (exists|i: int|
                0 <= i < old(self).models().len() && #[trigger] old(
                    self,
                ).models()[i].session_id == session_id@ && final(self).models() == old(
                    self,
                ).models().remove(i)),
            !final(self).has_session(session_id@),
    {
        let mut i: usize = 0;
        while i < self.sessions.len()
            invariant
                i <= self.sessions@.len(),
                *self == *old(self),
                forall|k: int| 0 <= k < i ==> #[trigger] self.models()[k].session_id != session_id@,
            decreases self.sessions@.len() - i,
        {
            if bytes_eq(&self.sessions[i].session_id, session_id) {
                proof {
                    assert(old(self).models()[i as int].session_id == session_id@);
                }
                self.sessions.remove(i);
                proof {
                    assert(self.models() =~~= old(self).models().remove(i as int));
                    assert(forall|j: int|
                        0 <= j < old(self).models().len() && j != i as int ==> #[trigger] old(
                            self,
                        ).models()[j].session_id != session_id@);
                    assert(forall|k: int|
                        0 <= k < self.models().len() ==> #[trigger] self.models()[k] == (if k < i
                            as int {
                            old(self).models()[k]
                        } else {
                            old(self).models()[k + 1]
                        }));
                }
                return true;
            }
            i = i + 1;
        }
        false
    }
}

/// Each live session has exactly one registry entry: a well-formed registry
/// holds no two entries with one session id.
pub proof fn lemma_registry_entry_unique(r: Registry, i: int, j: int)
    requires
        r.wf(),
        0 <= i < r.models().len(),
        0 <= j < r.models().len(),
        r.models()[i].session_id == r.models()[j].session_id,
    ensures
        i == j,
{
}

/// No address is held by two live sessions: a well-formed registry holds no
/// two entries with one assigned address.
pub proof fn lemma_ip_held_once(r: Registry, i: int, j: int)
    requires
        r.wf(),
        0 <= i < r.models().len(),
        0 <= j < r.models().len(),
        r.models()[i].ip_address == r.models()[j].ip_address,
    ensures
        i == j,
{
}

} // verus!
