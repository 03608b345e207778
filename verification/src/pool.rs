//! The virtual-network address pool: free addresses and live leases.
use vstd::prelude::*;
use crate::bytes::{bytes_clone, bytes_eq, sat_add, spec_sat_add};

verus! {

/// One live lease: an address held by a client until it expires or is
/// released.
pub struct Lease {
    pub ip: Vec<u8>,
    pub client_id: Vec<u8>,
    pub expires_at: u64,
}

/// The model of a lease.
#[verifier::ext_equal]
pub struct LeaseModel {
    pub ip: Seq<u8>,
    pub client_id: Seq<u8>,
    pub expires_at: u64,
}

impl View for Lease {
    type V = LeaseModel;

    open spec fn view(&self) -> LeaseModel {
        LeaseModel { ip: self.ip@, client_id: self.client_id@, expires_at: self.expires_at }
    }
}

/// The pool of virtual-network addresses.
pub struct IpPool {
    pub free: Vec<Vec<u8>>,
    pub leased: Vec<Lease>,
    pub lease_duration: u64,
}

impl IpPool {
    pub open spec fn free_ips(self) -> Seq<Seq<u8>> {
        self.free@.map_values(|v: Vec<u8>| v@)
    }

    pub open spec fn leases(self) -> Seq<LeaseModel> {
        self.leased@.map_values(|l: Lease| l@)
    }

    pub open spec fn is_leased(self, ip: Seq<u8>) -> bool {
        exists|i: int| 0 <= i < self.leases().len() && #[trigger] self.leases()[i].ip == ip
    }

    /// Every address appears once: free addresses are distinct, leases are
    /// distinct by address, and no address is both free and leased.
    pub open spec fn wf(self) -> bool {
        &&& forall|i: int, j: int|
            0 <= i < j < self.free_ips().len() ==> #[trigger] self.free_ips()[i]
                != #[trigger] self.free_ips()[j]
        &&& forall|i: int, j: int|
            0 <= i < j < self.leases().len() ==> #[trigger] self.leases()[i].ip
                != #[trigger] self.leases()[j].ip
        &&& forall|i: int, j: int|
            0 <= i < self.free_ips().len() && 0 <= j < self.leases().len()
                ==> #[trigger] self.free_ips()[i] != #[trigger] self.leases()[j].ip
    }

    /// A pool over the given distinct addresses, all free.
    pub fn new(ips: Vec<Vec<u8>>, lease_duration: u64) -> (r: IpPool)
        requires
            forall|i: int, j: int|
                0 <= i < j < ips@.len() ==> #[trigger] ips@[i]@ != #[trigger] ips@[j]@,
        ensures
            r.wf(),
            r.free_ips() == ips@.map_values(|v: Vec<u8>| v@),
            r.leases() == Seq::<LeaseModel>::empty(),
            r.lease_duration == lease_duration,
    {
        let r = IpPool { free: ips, leased: Vec::new(), lease_duration };
        proof {
            assert(r.leases() =~= Seq::<LeaseModel>::empty());
        }
        r
    }

    pub fn default_lease_duration(&self) -> (d: u64)
        ensures
            d == self.lease_duration,
    {
        self.lease_duration
    }

    /// Lease an address to a client. Succeeds exactly when an address is
    /// free; the last free address is taken.
    pub fn allocate(&mut self, client_id: &Vec<u8>, now: u64) -> (r: Option<Vec<u8>>)
        requires
            old(self).wf(),
        ensures
            final(self).wf(),
            final(self).lease_duration == old(self).lease_duration,
            r is Some <==> old(self).free_ips().len() > 0,
            r is None ==> *final(self) == *old(self),
            r matches Some(ip) ==> ip@ == old(self).free_ips().last() && final(self).free_ips()
                == old(self).free_ips().drop_last() && final(self).leases() == old(
                self,
            ).leases().push(
                (LeaseModel {
                    ip: ip@,
                    client_id: client_id@,
                    expires_at: spec_sat_add(now, old(self).lease_duration),
                }),
            ) && final(self).is_leased(ip@),
    {
        if self.free.len() == 0 {
            return Option::None;
        }
        match self.free.pop() {
            Option::Some(ip) => {
                let expires_at = sat_add(now, self.lease_duration);
                let lease = Lease {
                    ip: bytes_clone(&ip),
                    client_id: bytes_clone(client_id),
                    expires_at,
                };
                let ghost lm = lease@;
                self.leased.push(lease);
                proof {
                    assert(self.free_ips() =~~= old(self).free_ips().drop_last());
                    assert(self.leases() =~~= old(self).leases().push(lm));
                    assert(old(self).free_ips().last() == ip@);
                    assert(old(self).free_ips()[old(self).free_ips().len() - 1] == ip@);
                    assert(self.leases()[self.leases().len() - 1].ip == ip@);
                    assert(forall|k: int|
                        0 <= k < self.free_ips().len() ==> #[trigger] self.free_ips()[k] == old(
                            self,
                        ).free_ips()[k]);
                    assert(forall|k: int|
                        0 <= k < old(self).leases().len() ==> #[trigger] self.leases()[k] == old(
                            self,
                        ).leases()[k]);
                }
                Option::Some(ip)
            },
            Option::None => vstd::pervasive::unreached(),
        }
    }

    /// Extend the lease on an address. Succeeds exactly when the address is
    /// leased; only that lease's expiry changes.
    #[verifier::loop_isolation(false)]
    pub fn renew(&mut self, ip: &Vec<u8>, now: u64) -> (r: Option<u64>)
        requires
            old(self).wf(),
        ensures
            final(self).wf(),
            final(self).lease_duration == old(self).lease_duration,
            final(self).free_ips() == old(self).free_ips(),
            r is Some <==> old(self).is_leased(ip@),
            r is None ==> *final(self) == *old(self),
            r matches Some(expires_at) ==> expires_at == spec_sat_add(
                now,
                old(self).lease_duration,
            ) && (exists|i: int|
                0 <= i < old(self).leases().len() && #[trigger] old(self).leases()[i].ip == ip@
                    && final(self).leases() == old(self).leases().update(
                    i,
                    (LeaseModel { expires_at, ..old(self).leases()[i] }),
                )),
    {
        let mut i: usize = 0;
        while i < self.leased.len()
            invariant
                i <= self.leased@.len(),
                *self == *old(self),
                forall|k: int| 0 <= k < i ==> #[trigger] self.leases()[k].ip != ip@,
            decreases self.leased@.len() - i,
        {
            if bytes_eq(&self.leased[i].ip, ip) {
                proof {
                    assert(old(self).leases()[i as int].ip == ip@);
                }
                let expires_at = sat_add(now, self.lease_duration);
                let lease = Lease {
                    ip: bytes_clone(&self.leased[i].ip),
                    client_id: bytes_clone(&self.leased[i].client_id),
                    expires_at,
                };
                let ghost lm = lease@;
                self.leased.set(i, lease);
                proof {
                    assert(self.leases() =~~= old(self).leases().update(i as int, lm));
                    assert(lm =~~= (LeaseModel {
                        expires_at: spec_sat_add(now, old(self).lease_duration),
                        ..old(self).leases()[i as int]
                    }));
                    assert(forall|k: int|
                        0 <= k < self.leases().len() ==> #[trigger] self.leases()[k].ip == old(
                            self,
                        ).leases()[k].ip);
                    assert(self.free == old(self).free);
                    assert(self.free_ips() == old(self).free_ips());
                    assert(forall|a: int, b: int|
                        0 <= a < b < self.free_ips().len() ==> #[trigger] self.free_ips()[a]
                            != #[trigger] self.free_ips()[b]);
                    assert(forall|a: int, b: int|
                        0 <= a < self.free_ips().len() && 0 <= b < self.leases().len()
                            ==> #[trigger] self.free_ips()[a] != #[trigger] self.leases()[b].ip);
                }
                return Option::Some(expires_at);
            }
            i = i + 1;
        }
        Option::None
    }

    /// Return an address to the pool; says whether it was leased. Afterwards
    /// the address is free and not leased, and releasing again changes
    /// nothing.
    #[verifier::loop_isolation(false)]
    pub fn release(&mut self, ip: &Vec<u8>) -> (released: bool)
        requires
            old(self).wf(),
        ensures
            final(self).wf(),
            final(self).lease_duration == old(self).lease_duration,
            released == old(self).is_leased(ip@),
            !released ==> *final(self) == *old(self),
            released ==> final(self).free_ips() == old(self).free_ips().push(ip@) && (exists|
                i: int,
            |
                0 <= i < old(self).leases().len() && #[trigger] old(self).leases()[i].ip == ip@
                    && final(self).leases() == old(self).leases().remove(i)),
            released ==> !final(self).is_leased(ip@),
    {
        let mut i: usize = 0;
        while i < self.leased.len()
            invariant
                i <= self.leased@.len(),
                *self == *old(self),
                forall|k: int| 0 <= k < i ==> #[trigger] self.leases()[k].ip != ip@,
            decreases self.leased@.len() - i,
        {
            if bytes_eq(&self.leased[i].ip, ip) {
                proof {
                    assert(old(self).leases()[i as int].ip == ip@);
                }
                self.leased.remove(i);
                self.free.push(bytes_clone(ip));
                proof {
                    assert(self.leases() =~~= old(self).leases().remove(i as int));
                    assert(self.free_ips() =~~= old(self).free_ips().push(ip@));
                    assert(forall|j: int|
                        0 <= j < old(self).leases().len() && j != i as int ==> #[trigger] old(
                            self,
                        ).leases()[j].ip != ip@);
                    assert(forall|k: int|
                        0 <= k < self.leases().len() ==> #[trigger] self.leases()[k] == (if k < i
                            as int {
                            old(self).leases()[k]
                        } else {
                            old(self).leases()[k + 1]
                        }));
                }
                return true;
            }
            i = i + 1;
        }
        false
    }
}

/// Allocating an address and then releasing it restores the pool: the free
/// list and the lease set return exactly to their prior state.
pub proof fn lemma_allocate_release_restores(
    free0: Seq<Seq<u8>>,
    leases0: Seq<LeaseModel>,
    client_id: Seq<u8>,
    expires_at: u64,
)
    requires
        free0.len() > 0,
        // the allocated address is not already leased, as pool well-formedness
        // guarantees of every free address
        forall|j: int| 0 <= j < leases0.len() ==> #[trigger] leases0[j].ip != free0.last(),
    ensures
        ({
            let ip = free0.last();
            // what allocate does
            let free1 = free0.drop_last();
            let leases1 = leases0.push(LeaseModel { ip, client_id, expires_at });
            // what release does
            let free2 = free1.push(ip);
            let leases2 = leases1.remove(leases0.len() as int);
            free2 == free0 && leases2 == leases0
        }),
{
    let ip = free0.last();
    let free1 = free0.drop_last();
    let leases1 = leases0.push(LeaseModel { ip, client_id, expires_at });
    assert(free1.push(ip) =~= free0);
    assert(leases1.remove(leases0.len() as int) =~= leases0);
}

} // verus!
