//! A privacy-network gateway's per-client session engine: the frame codec,
//! the challenge authenticator and access list, the address pool, the
//! session-key store, the session registry, and the state machine that
//! drives a client from acceptance through authentication, establishment,
//! the steady-state loop, key rotation, and teardown.
pub mod auth;
pub mod bytes;
pub mod codec;
pub mod engine;
pub mod keystore;
pub mod pool;
pub mod messages;
pub mod packet;
pub mod pubkey;
pub mod registry;
pub mod session;

use vstd::prelude::*;

verus! {

/// Whether a replay counter is accepted given the highest counter accepted so
/// far: a fresh session accepts anything; afterwards a counter must either
/// grow strictly or be exactly zero (the single wrap-around carve-out).
pub open spec fn counter_accepted(last: Option<u64>, n: u64) -> bool {
    match last {
        Option::None => true,
        Option::Some(l) => n > l || n == 0,
    }
}

} // verus!
