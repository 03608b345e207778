//! The challenge authenticator: per-peer challenges with expiry and single
//! use, and the access-control list.
use vstd::prelude::*;
use crate::bytes::{bytes_clone, bytes_eq, sat_add, spec_sat_add};

verus! {

/// Why a challenge response was refused.
#[derive(PartialEq, Eq, Structural, Clone, Copy, Debug)]
pub enum ChallengeError {
    Unknown,
    Expired,
    PeerMismatch,
    BadSignature,
}

/// A pending challenge: a random value a client must sign to prove key
/// possession. Single use; expires.
pub struct Challenge {
    pub id: Vec<u8>,
    pub data: Vec<u8>,
    pub peer_addr: Vec<u8>,
    pub expires_at: u64,
}

/// The model of a challenge.
#[verifier::ext_equal]
pub struct ChallengeModel {
    pub id: Seq<u8>,
    pub data: Seq<u8>,
    pub peer_addr: Seq<u8>,
    pub expires_at: u64,
}

impl View for Challenge {
    type V = ChallengeModel;

    open spec fn view(&self) -> ChallengeModel {
        ChallengeModel {
            id: self.id@,
            data: self.data@,
            peer_addr: self.peer_addr@,
            expires_at: self.expires_at,
        }
    }
}

/// One access-control entry.
pub struct AclEntry {
    pub client_id: Vec<u8>,
    pub allowed: bool,
}

/// The model of an access-control entry.
#[verifier::ext_equal]
pub struct AclModel {
    pub client_id: Seq<u8>,
    pub allowed: bool,
}

impl View for AclEntry {
    type V = AclModel;

    open spec fn view(&self) -> AclModel {
        AclModel { client_id: self.client_id@, allowed: self.allowed }
    }
}

/// Issues challenges and answers access-control queries.
pub struct Authenticator {
    pub challenges: Vec<Challenge>,
    pub acl: Vec<AclEntry>,
    pub default_allow: bool,
    pub challenge_ttl: u64,
}

impl Authenticator {
    pub open spec fn challenge_models(self) -> Seq<ChallengeModel> {
        self.challenges@.map_values(|c: Challenge| c@)
    }

    pub open spec fn acl_models(self) -> Seq<AclModel> {
        self.acl@.map_values(|e: AclEntry| e@)
    }

    pub open spec fn has_challenge(self, id: Seq<u8>) -> bool {
        exists|i: int| 0 <= i < self.challenge_models().len()
            && #[trigger] self.challenge_models()[i].id == id
    }

    pub open spec fn has_acl_entry(self, client_id: Seq<u8>) -> bool {
        exists|i: int| 0 <= i < self.acl_models().len()
            && #[trigger] self.acl_models()[i].client_id == client_id
    }

    /// Whether the list admits the client: the client's entry decides, and a
    /// client without an entry gets the configured default.
    pub open spec fn acl_allows(self, client_id: Seq<u8>) -> bool {
        if self.has_acl_entry(client_id) {
            exists|i: int| 0 <= i < self.acl_models().len()
                && #[trigger] self.acl_models()[i].client_id == client_id
                && self.acl_models()[i].allowed
        } else {
            self.default_allow
        }
    }

    /// Challenge ids are unique, and each client has one list entry.
    pub open spec fn wf(self) -> bool {
        &&& forall|i: int, j: int|
            0 <= i < j < self.challenge_models().len() ==> #[trigger] self.challenge_models()[i].id
                != #[trigger] self.challenge_models()[j].id
        &&& forall|i: int, j: int|
            0 <= i < j < self.acl_models().len() ==> #[trigger] self.acl_models()[i].client_id
                != #[trigger] self.acl_models()[j].client_id
    }

    /// An authenticator with no pending challenges and an empty list.
    pub fn new(default_allow: bool, challenge_ttl: u64) -> (r: Authenticator)
        ensures
            r.wf(),
            r.challenge_models() == Seq::<ChallengeModel>::empty(),
            r.acl_models() == Seq::<AclModel>::empty(),
            r.default_allow == default_allow,
            r.challenge_ttl == challenge_ttl,
    {
        let r = Authenticator {
            challenges: Vec::new(),
            acl: Vec::new(),
            default_allow,
            challenge_ttl,
        };
        proof {
            assert(r.challenge_models() =~= Seq::<ChallengeModel>::empty());
            assert(r.acl_models() =~= Seq::<AclModel>::empty());
        }
        r
    }

    /// Add or overwrite a client's access-control entry.
    #[verifier::loop_isolation(false)]
    pub fn set_acl(&mut self, client_id: &Vec<u8>, allowed: bool)
        requires
            old(self).wf(),
        ensures
            final(self).wf(),
            final(self).challenges == old(self).challenges,
            final(self).default_allow == old(self).default_allow,
            final(self).challenge_ttl == old(self).challenge_ttl,
            final(self).has_acl_entry(client_id@),
            final(self).acl_allows(client_id@) == allowed,
            !old(self).has_acl_entry(client_id@) ==> final(self).acl_models() == old(
                self,
            ).acl_models().push((AclModel { client_id: client_id@, allowed })),
            old(self).has_acl_entry(client_id@) ==> (exists|i: int|
                0 <= i < old(self).acl_models().len() && #[trigger] old(
                    self,
                ).acl_models()[i].client_id == client_id@ && final(self).acl_models() == old(
                    self,
                ).acl_models().update(i, (AclModel { client_id: client_id@, allowed }))),
    {
        let ghost m = AclModel { client_id: client_id@, allowed };
        let mut i: usize = 0;
        while i < self.acl.len()
            invariant
                i <= self.acl@.len(),
                *self == *old(self),
                forall|k: int| 0 <= k < i ==> #[trigger] self.acl_models()[k].client_id
                    != client_id@,
            decreases self.acl@.len() - i,
        {
            if bytes_eq(&self.acl[i].client_id, client_id) {
                proof {
                    assert(old(self).acl_models()[i as int].client_id == client_id@);
                }
                let entry = AclEntry { client_id: bytes_clone(client_id), allowed };
                self.acl.set(i, entry);
                proof {
                    assert(self.acl_models() =~~= old(self).acl_models().update(i as int, m));
                    assert(self.acl_models()[i as int].client_id == client_id@);
                    assert(forall|k: int|
                        0 <= k < self.acl_models().len() && k != i as int
                            ==> #[trigger] self.acl_models()[k] == old(self).acl_models()[k]);
                    assert(forall|j: int|
                        0 <= j < old(self).acl_models().len() && j != i as int ==> #[trigger] old(
                            self,
                        ).acl_models()[j].client_id != client_id@);
                    assert(self.challenges == old(self).challenges);
                    assert(self.challenge_models() == old(self).challenge_models());
                    assert(forall|a: int, b: int|
                        0 <= a < b < self.acl_models().len()
                            ==> #[trigger] self.acl_models()[a].client_id
                            != #[trigger] self.acl_models()[b].client_id);
                    assert(forall|j: int|
                        0 <= j < self.acl_models().len() && j != i as int
                            ==> #[trigger] self.acl_models()[j].client_id != client_id@);
                }
                return;
            }
            i = i + 1;
        }
        let entry = AclEntry { client_id: bytes_clone(client_id), allowed };
        self.acl.push(entry);
        proof {
            assert(self.acl_models() =~~= old(self).acl_models().push(m));
            assert(self.acl_models()[self.acl_models().len() - 1].client_id == client_id@);
            assert(forall|k: int|
                0 <= k < old(self).acl_models().len() ==> #[trigger] self.acl_models()[k] == old(
                    self,
                ).acl_models()[k]);
            assert(self.challenges == old(self).challenges);
            assert(self.challenge_models() == old(self).challenge_models());
            assert(forall|j: int|
                0 <= j < self.acl_models().len() && j != self.acl_models().len() - 1
                    ==> #[trigger] self.acl_models()[j].client_id != client_id@);
        }
    }

    /// Whether the list admits the client.
    #[verifier::loop_isolation(false)]
    pub fn is_allowed(&self, client_id: &Vec<u8>) -> (r: bool)
        requires
            self.wf(),
        ensures
            r == self.acl_allows(client_id@),
    {
        let mut i: usize = 0;
        while i < self.acl.len()
            invariant
                i <= self.acl@.len(),
                forall|k: int| 0 <= k < i ==> #[trigger] self.acl_models()[k].client_id
                    != client_id@,
            decreases self.acl@.len() - i,
        {
            if bytes_eq(&self.acl[i].client_id, client_id) {
                proof {
                    assert(self.acl_models()[i as int].client_id == client_id@);
                    assert(forall|j: int|
                        0 <= j < self.acl_models().len() && j != i as int
                            ==> #[trigger] self.acl_models()[j].client_id != client_id@);
                }
                return self.acl[i].allowed;
            }
            i = i + 1;
        }
        self.default_allow
    }

    /// Store a fresh challenge under a caller-supplied id. Succeeds exactly
    /// when the id is not already pending; duplicate issue requests are
    /// never coalesced into an existing challenge.
    #[verifier::loop_isolation(false)]
    pub fn generate(&mut self, peer_addr: &Vec<u8>, id: &Vec<u8>, data: &Vec<u8>, now: u64) -> (r:
        bool)
        requires
            old(self).wf(),
        ensures
            final(self).wf(),
            final(self).acl == old(self).acl,
            final(self).default_allow == old(self).default_allow,
            final(self).challenge_ttl == old(self).challenge_ttl,
            r == !old(self).has_challenge(id@),
            !r ==> *final(self) == *old(self),
            r ==> final(self).challenge_models() == old(self).challenge_models().push(
                (ChallengeModel {
                    id: id@,
                    data: data@,
                    peer_addr: peer_addr@,
                    expires_at: spec_sat_add(now, old(self).challenge_ttl),
                }),
            ),
            r ==> final(self).has_challenge(id@),
    {
        let mut i: usize = 0;
        while i < self.challenges.len()
            invariant
                i <= self.challenges@.len(),
                *self == *old(self),
                forall|k: int| 0 <= k < i ==> #[trigger] self.challenge_models()[k].id != id@,
            decreases self.challenges@.len() - i,
        {
            if bytes_eq(&self.challenges[i].id, id) {
                proof {
                    assert(self.challenge_models()[i as int].id == id@);
                }
                return false;
            }
            i = i + 1;
        }
        let expires_at = sat_add(now, self.challenge_ttl);
        let c = Challenge {
            id: bytes_clone(id),
            data: bytes_clone(data),
            peer_addr: bytes_clone(peer_addr),
            expires_at,
        };
        let ghost m = c@;
        self.challenges.push(c);
        proof {
            assert(self.challenge_models() =~~= old(self).challenge_models().push(m));
            assert(self.challenge_models()[self.challenge_models().len() - 1].id == id@);
            assert(forall|k: int|
                0 <= k < old(self).challenge_models().len()
                    ==> #[trigger] self.challenge_models()[k] == old(self).challenge_models()[k]);
            assert(self.acl == old(self).acl);
            assert(self.acl_models() == old(self).acl_models());
        }
        true
    }

    /// Look a pending challenge up for verification: it must exist, be
    /// unexpired at `now`, and have been issued to the same peer address;
    /// then its data is returned for signature checking.
    #[verifier::loop_isolation(false)]
    pub fn lookup(&self, id: &Vec<u8>, peer_addr: &Vec<u8>, now: u64) -> (r: Result<
        Vec<u8>,
        ChallengeError,
    >)
        requires
            self.wf(),
        ensures
            r != Result::<Vec<u8>, ChallengeError>::Err(ChallengeError::BadSignature),
            r == Result::<Vec<u8>, ChallengeError>::Err(ChallengeError::Unknown)
                <==> !self.has_challenge(id@),
            r == Result::<Vec<u8>, ChallengeError>::Err(ChallengeError::Expired) <==> (exists|
                i: int,
            |
                0 <= i < self.challenge_models().len() && #[trigger] self.challenge_models()[i].id
                    == id@ && now >= self.challenge_models()[i].expires_at),
            r == Result::<Vec<u8>, ChallengeError>::Err(ChallengeError::PeerMismatch) <==> (exists|
                i: int,
            |
                0 <= i < self.challenge_models().len() && #[trigger] self.challenge_models()[i].id
                    == id@ && now < self.challenge_models()[i].expires_at
                    && self.challenge_models()[i].peer_addr != peer_addr@),
            r matches Ok(data) ==> exists|i: int|
                0 <= i < self.challenge_models().len() && #[trigger] self.challenge_models()[i].id
                    == id@ && now < self.challenge_models()[i].expires_at
                    && self.challenge_models()[i].peer_addr == peer_addr@
                    && self.challenge_models()[i].data == data@,
            (exists|i: int|
                0 <= i < self.challenge_models().len() && #[trigger] self.challenge_models()[i].id
                    == id@ && now < self.challenge_models()[i].expires_at
                    && self.challenge_models()[i].peer_addr == peer_addr@) ==> r is Ok,
    {
        let mut i: usize = 0;
        while i < self.challenges.len()
            invariant
                i <= self.challenges@.len(),
                forall|k: int| 0 <= k < i ==> #[trigger] self.challenge_models()[k].id != id@,
            decreases self.challenges@.len() - i,
        {
            if bytes_eq(&self.challenges[i].id, id) {
                proof {
                    assert(self.challenge_models()[i as int].id == id@);
                    assert(forall|j: int|
                        0 <= j < self.challenge_models().len() && j != i as int
                            ==> #[trigger] self.challenge_models()[j].id != id@);
                }
                if now >= self.challenges[i].expires_at {
                    return Result::Err(ChallengeError::Expired);
                }
                if !bytes_eq(&self.challenges[i].peer_addr, peer_addr) {
                    return Result::Err(ChallengeError::PeerMismatch);
                }
                let data = bytes_clone(&self.challenges[i].data);
                return Result::Ok(data);
            }
            i = i + 1;
        }
        Result::Err(ChallengeError::Unknown)
    }

    /// Discard every expired challenge; pending unexpired challenges stay,
    /// in order.
    #[verifier::loop_isolation(false)]
    pub fn sweep(&mut self, now: u64)
        requires
            old(self).wf(),
        ensures
            final(self).wf(),
            final(self).acl == old(self).acl,
            final(self).default_allow == old(self).default_allow,
            final(self).challenge_ttl == old(self).challenge_ttl,
            final(self).challenge_models() == old(self).challenge_models().filter(
                |c: ChallengeModel| now < c.expires_at,
            ),
    {
        let ghost pred = |c: ChallengeModel| now < c.expires_at;
        let mut kept: Vec<Challenge> = Vec::new();
        proof {
            reveal_with_fuel(Seq::<ChallengeModel>::filter, 2);
            assert(kept@.map_values(|c: Challenge| c@) =~= Seq::<ChallengeModel>::empty());
            assert(old(self).challenge_models().take(0) =~= Seq::<ChallengeModel>::empty());
        }
        let mut i: usize = 0;
        while i < self.challenges.len()
            invariant
                i <= self.challenges@.len(),
                *self == *old(self),
                pred == (|c: ChallengeModel| now < c.expires_at),
                kept@.map_values(|c: Challenge| c@) == old(self).challenge_models().take(
                    i as int,
                ).filter(pred),
            decreases self.challenges@.len() - i,
        {
            let ghost km = kept@.map_values(|c: Challenge| c@);
            let ghost t = old(self).challenge_models().take(i + 1);
            proof {
                reveal_with_fuel(Seq::<ChallengeModel>::filter, 2);
                assert(t.drop_last() =~= old(self).challenge_models().take(i as int));
                assert(t.last() == old(self).challenge_models()[i as int]);
            }
            let c = &self.challenges[i];
            proof {
                assert(c@ == old(self).challenge_models()[i as int]);
            }
            if now < c.expires_at {
                let copy = Challenge {
                    id: bytes_clone(&c.id),
                    data: bytes_clone(&c.data),
                    peer_addr: bytes_clone(&c.peer_addr),
                    expires_at: c.expires_at,
                };
                let ghost cm = copy@;
                kept.push(copy);
                proof {
                    reveal_with_fuel(Seq::<ChallengeModel>::filter, 2);
                    assert(cm =~~= t.last());
                    assert(pred(t.last()));
                    assert(kept@.map_values(|c: Challenge| c@) =~~= km.push(cm));
                    assert(kept@.map_values(|c: Challenge| c@) =~~= t.filter(pred));
                }
            } else {
                proof {
                    reveal_with_fuel(Seq::<ChallengeModel>::filter, 2);
                    assert(!pred(t.last()));
                    assert(kept@.map_values(|c: Challenge| c@) =~~= t.filter(pred));
                }
            }
            i = i + 1;
        }
        proof {
            assert(old(self).challenge_models().take(self.challenges@.len() as int) =~= old(
                self,
            ).challenge_models());
            lemma_filter_keeps_distinct_ids(old(self).challenge_models(), pred);
        }
        self.challenges = kept;
        proof {
            let f = old(self).challenge_models().filter(pred);
            assert(self.challenge_models() == f);
            assert(forall|a: int, b: int|
                0 <= a < b < self.challenge_models().len()
                    ==> #[trigger] self.challenge_models()[a].id
                    != #[trigger] self.challenge_models()[b].id) by {
                assert(forall|a: int, b: int|
                    0 <= a < b < f.len() ==> #[trigger] f[a].id != #[trigger] f[b].id);
            }
            assert(self.acl == old(self).acl);
            assert(self.acl_models() == old(self).acl_models());
        }
    }

    /// Discard a pending challenge, making it single-use; says whether it
    /// was still pending. Afterwards the id is absent.
    #[verifier::loop_isolation(false)]
    pub fn consume(&mut self, id: &Vec<u8>) -> (removed: bool)
        requires
            old(self).wf(),
        ensures
            final(self).wf(),
            final(self).acl == old(self).acl,
            final(self).default_allow == old(self).default_allow,
            final(self).challenge_ttl == old(self).challenge_ttl,
            removed == old(self).has_challenge(id@),
            !removed ==> *final(self) == *old(self),
            removed ==> (exists|i: int|
                0 <= i < old(self).challenge_models().len() && #[trigger] old(
                    self,
                ).challenge_models()[i].id == id@ && final(self).challenge_models() == old(
                    self,
                ).challenge_models().remove(i)),
            !final(self).has_challenge(id@),
    {
        let mut i: usize = 0;
        while i < self.challenges.len()
            invariant
                i <= self.challenges@.len(),
                *self == *old(self),
                forall|k: int| 0 <= k < i ==> #[trigger] self.challenge_models()[k].id != id@,
            decreases self.challenges@.len() - i,
        {
            if bytes_eq(&self.challenges[i].id, id) {
                proof {
                    assert(old(self).challenge_models()[i as int].id == id@);
                }
                self.challenges.remove(i);
                proof {
                    assert(self.challenge_models() =~~= old(self).challenge_models().remove(
                        i as int,
                    ));
                    assert(forall|j: int|
                        0 <= j < old(self).challenge_models().len() && j != i as int
                            ==> #[trigger] old(self).challenge_models()[j].id != id@);
                    assert(forall|k: int|
                        0 <= k < self.challenge_models().len()
                            ==> #[trigger] self.challenge_models()[k] == (if k < i as int {
                            old(self).challenge_models()[k]
                        } else {
                            old(self).challenge_models()[k + 1]
                        }));
                    assert(self.acl == old(self).acl);
                    assert(self.acl_models() == old(self).acl_models());
                }
                return true;
            }
            i = i + 1;
        }
        false
    }
}


/// Filtering a sequence of challenges with distinct ids keeps the ids
/// distinct.
proof fn lemma_filter_keeps_distinct_ids(s: Seq<ChallengeModel>, pred: spec_fn(ChallengeModel) -> bool)
    requires
        forall|i: int, j: int| 0 <= i < j < s.len() ==> #[trigger] s[i].id != #[trigger] s[j].id,
    ensures
        forall|a: int, b: int|
            0 <= a < b < s.filter(pred).len() ==> #[trigger] s.filter(pred)[a].id
                != #[trigger] s.filter(pred)[b].id,
        forall|a: int|
            0 <= a < s.filter(pred).len() ==> (exists|i: int|
                0 <= i < s.len() && #[trigger] s.filter(pred)[a] == s[i]),
    decreases s.len(),
{
    reveal_with_fuel(Seq::<ChallengeModel>::filter, 2);
    if s.len() > 0 {
        let d = s.drop_last();
        assert(forall|i: int, j: int|
            0 <= i < j < d.len() ==> #[trigger] d[i].id != #[trigger] d[j].id) by {
            assert(forall|i: int| 0 <= i < d.len() ==> #[trigger] d[i] == s[i]);
        }
        lemma_filter_keeps_distinct_ids(d, pred);
        let f = s.filter(pred);
        let fd = d.filter(pred);
        assert(forall|i: int| 0 <= i < d.len() ==> #[trigger] d[i] == s[i]);
        if pred(s.last()) {
            assert(f == fd.push(s.last()));
            assert forall|a: int| 0 <= a < f.len() implies (exists|i: int|
                0 <= i < s.len() && #[trigger] f[a] == s[i]) by {
                if a < fd.len() {
                    let i = choose|i: int| 0 <= i < d.len() && fd[a] == d[i];
                    assert(f[a] == s[i]);
                } else {
                    assert(f[a] == s[s.len() - 1]);
                }
            }
            assert forall|a: int, b: int| 0 <= a < b < f.len() implies #[trigger] f[a].id
                != #[trigger] f[b].id by {
                if b < fd.len() {
                    assert(fd[a].id != fd[b].id);
                } else {
                    let i = choose|i: int| 0 <= i < d.len() && fd[a] == d[i];
                    assert(f[a] == s[i]);
                    assert(f[b] == s[s.len() - 1]);
                    assert(s[i].id != s[s.len() - 1].id);
                }
            }
        } else {
            assert(f == fd);
        }
    }
}

} // verus!
