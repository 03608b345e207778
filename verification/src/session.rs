//! The per-client session record: identity, leased address, activity clock,
//! and the replay counter.
use vstd::prelude::*;
use crate::counter_accepted;
use crate::bytes::bytes_clone;

verus! {

/// One client's live association with the server. The transport endpoints
/// stay outside the library; this record carries what the engine decides on.
pub struct Session {
    pub session_id: Vec<u8>,
    pub client_id: Vec<u8>,
    pub ip_address: Vec<u8>,
    pub peer_addr: Vec<u8>,
    pub last_activity: u64,
    pub last_counter: Option<u64>,
}

/// The model of a session.
#[verifier::ext_equal]
pub struct SessionModel {
    pub session_id: Seq<u8>,
    pub client_id: Seq<u8>,
    pub ip_address: Seq<u8>,
    pub peer_addr: Seq<u8>,
    pub last_activity: u64,
    pub last_counter: Option<u64>,
}

impl View for Session {
    type V = SessionModel;

    open spec fn view(&self) -> SessionModel {
        SessionModel {
            session_id: self.session_id@,
            client_id: self.client_id@,
            ip_address: self.ip_address@,
            peer_addr: self.peer_addr@,
            last_activity: self.last_activity,
            last_counter: self.last_counter,
        }
    }
}

impl Session {
    /// A fresh session: no data frame accepted yet, activity set to now.
    pub fn new(
        session_id: &Vec<u8>,
        client_id: &Vec<u8>,
        ip_address: &Vec<u8>,
        peer_addr: &Vec<u8>,
        now: u64,
    ) -> (s: Session)
        ensures
            s@ == (SessionModel {
                session_id: session_id@,
                client_id: client_id@,
                ip_address: ip_address@,
                peer_addr: peer_addr@,
                last_activity: now,
                last_counter: Option::None,
            }),
    {
        Session {
            session_id: bytes_clone(session_id),
            client_id: bytes_clone(client_id),
            ip_address: bytes_clone(ip_address),
            peer_addr: bytes_clone(peer_addr),
            last_activity: now,
            last_counter: Option::None,
        }
    }

    /// Record an inbound frame's arrival time.
    pub fn update_activity(&mut self, now: u64)
        ensures
            final(self)@ == (SessionModel { last_activity: now, ..old(self)@ }),
    {
        self.last_activity = now;
    }

    /// Accept or reject a data counter under the replay rule; an accepted
    /// counter becomes the new high mark.
    pub fn update_counter(&mut self, n: u64) -> (accepted: bool)
        ensures
            accepted == counter_accepted(old(self)@.last_counter, n),
            accepted ==> final(self)@ == (SessionModel {
                last_counter: Option::Some(n),
                ..old(self)@
            }),
            !accepted ==> final(self)@ == old(self)@,
    {
        let ok = match self.last_counter {
            Option::None => true,
            Option::Some(l) => n > l || n == 0,
        };
        if ok {
            self.last_counter = Option::Some(n);
        }
        ok
    }
}

/// Accepted data counters grow strictly but for the single wrap-around
/// carve-out: once some counter has been accepted, a further counter is
/// accepted only when it exceeds the high mark or is exactly zero.
pub proof fn lemma_counter_strictly_increasing(last: Option<u64>, n: u64)
    requires
        counter_accepted(last, n),
        last is Some,
    ensures
        n > last.unwrap() || n == 0,
{
}

} // verus!
