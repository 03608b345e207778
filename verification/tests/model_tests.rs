use gateway_session::auth::{Authenticator, ChallengeError};
use gateway_session::keystore::SessionKeyStore;
use gateway_session::pool::IpPool;
use gateway_session::registry::Registry;
use gateway_session::session::Session;

fn sess(id: &[u8], client: &[u8], ip: &[u8]) -> Session {
    Session::new(&id.to_vec(), &client.to_vec(), &ip.to_vec(), &b"peer".to_vec(), 0)
}

#[test]
fn replay_counter_rule() {
    let mut s = sess(b"s1", b"c1", b"10.7.0.2");
    // a fresh session accepts the first counter, whatever it is
    assert!(s.update_counter(5));
    assert_eq!(s.last_counter, Some(5));
    // a replayed counter is dropped and the high mark stays
    assert!(!s.update_counter(5));
    assert_eq!(s.last_counter, Some(5));
    assert!(!s.update_counter(3));
    assert_eq!(s.last_counter, Some(5));
    // strictly larger counters are accepted
    assert!(s.update_counter(6));
    assert_eq!(s.last_counter, Some(6));
    // zero is the wrap-around carve-out: always accepted
    assert!(s.update_counter(0));
    assert_eq!(s.last_counter, Some(0));
    assert!(s.update_counter(1));
    assert_eq!(s.last_counter, Some(1));
}

#[test]
fn update_activity_sets_clock() {
    let mut s = sess(b"s1", b"c1", b"ip");
    s.update_activity(42);
    assert_eq!(s.last_activity, 42);
}

#[test]
fn pool_allocate_release_restores_availability() {
    let mut pool = IpPool::new(vec![b"10.7.0.2".to_vec()], 3600);
    let ip = pool.allocate(&b"c1".to_vec(), 1000).expect("one address is free");
    assert_eq!(ip, b"10.7.0.2".to_vec());
    // the pool is now exhausted
    assert!(pool.allocate(&b"c2".to_vec(), 1000).is_none());
    // releasing restores availability
    assert!(pool.release(&ip));
    let again = pool.allocate(&b"c3".to_vec(), 2000).expect("released address is free again");
    assert_eq!(again, b"10.7.0.2".to_vec());
}

#[test]
fn pool_release_is_idempotent() {
    let mut pool = IpPool::new(vec![b"10.7.0.2".to_vec()], 3600);
    let ip = pool.allocate(&b"c1".to_vec(), 0).unwrap();
    assert!(pool.release(&ip));
    assert!(!pool.release(&ip));
    assert!(!pool.release(&b"10.9.9.9".to_vec()));
}

#[test]
fn pool_renew_extends_lease() {
    let mut pool = IpPool::new(vec![b"10.7.0.2".to_vec()], 3600);
    let ip = pool.allocate(&b"c1".to_vec(), 1000).unwrap();
    assert_eq!(pool.renew(&ip, 2000), Some(2000 + 3600));
    // an address that is not leased cannot be renewed
    assert_eq!(pool.renew(&b"10.9.9.9".to_vec(), 2000), None);
    assert_eq!(pool.default_lease_duration(), 3600);
}

#[test]
fn keystore_store_get_remove() {
    let mut ks = SessionKeyStore::new(3_600_000);
    let c1 = b"client1".to_vec();
    assert!(ks.get(&c1).is_none());
    assert!(!ks.store(&c1, vec![1; 32], 10));
    assert_eq!(ks.get(&c1), Some(vec![1; 32]));
    // a second store replaces atomically
    assert!(ks.store(&c1, vec![2; 32], 20));
    assert_eq!(ks.get(&c1), Some(vec![2; 32]));
    assert!(ks.remove(&c1));
    assert!(ks.get(&c1).is_none());
    assert!(!ks.remove(&c1));
}

#[test]
fn keystore_rotation_due_at_threshold() {
    let mut ks = SessionKeyStore::new(100);
    let c1 = b"client1".to_vec();
    ks.store(&c1, vec![1; 32], 1000);
    assert!(!ks.needs_rotation(&c1, 1099));
    assert!(ks.needs_rotation(&c1, 1100));
    assert!(ks.needs_rotation(&c1, 5000));
    assert!(!ks.needs_rotation(&b"absent".to_vec(), 5000));
}

#[test]
fn registry_add_lookup_remove() {
    let mut reg = Registry::new();
    assert!(reg.add(sess(b"s1", b"c1", b"10.7.0.2")));
    assert_eq!(reg.len(), 1);
    // the same session id, client, or address cannot be registered twice
    assert!(!reg.add(sess(b"s1", b"cX", b"10.7.0.9")));
    assert!(!reg.add(sess(b"sX", b"c1", b"10.7.0.9")));
    assert!(!reg.add(sess(b"sX", b"cX", b"10.7.0.2")));
    assert_eq!(reg.len(), 1);
    let i = reg.lookup_by_session(&b"s1".to_vec()).expect("registered");
    assert_eq!(reg.get(i).client_id, b"c1".to_vec());
    let j = reg.lookup_by_client(&b"c1".to_vec()).expect("registered");
    assert_eq!(reg.get(j).session_id, b"s1".to_vec());
    assert!(reg.lookup_by_session(&b"s2".to_vec()).is_none());
    assert!(reg.remove(&b"s1".to_vec()));
    assert_eq!(reg.len(), 0);
    assert!(!reg.remove(&b"s1".to_vec()));
}

#[test]
fn challenge_lifecycle() {
    let mut auth = Authenticator::new(true, 30_000);
    let peer = b"127.0.0.1:9000".to_vec();
    let id = b"C1".to_vec();
    let data: Vec<u8> = (0u8..32).collect();
    assert!(auth.generate(&peer, &id, &data, 1000));
    // a duplicate id is refused, never coalesced
    assert!(!auth.generate(&peer, &id, &data, 1000));
    // lookup by the right peer before expiry yields the data
    assert_eq!(auth.lookup(&id, &peer, 2000), Ok(data.clone()));
    // unknown id
    assert_eq!(auth.lookup(&b"C2".to_vec(), &peer, 2000), Err(ChallengeError::Unknown));
    // wrong peer
    assert_eq!(
        auth.lookup(&id, &b"10.0.0.8:1".to_vec(), 2000),
        Err(ChallengeError::PeerMismatch)
    );
    // expiry is enforced server-side: the window is 30 s from issue
    assert_eq!(auth.lookup(&id, &peer, 31_000), Err(ChallengeError::Expired));
    // single use: consuming removes the entry
    assert!(auth.consume(&id));
    assert!(!auth.consume(&id));
    assert_eq!(auth.lookup(&id, &peer, 2000), Err(ChallengeError::Unknown));
}

#[test]
fn acl_decides_and_defaults() {
    let mut auth = Authenticator::new(false, 30_000);
    let c1 = b"client1".to_vec();
    assert!(!auth.is_allowed(&c1)); // default deny
    auth.set_acl(&c1, true);
    assert!(auth.is_allowed(&c1));
    auth.set_acl(&c1, false);
    assert!(!auth.is_allowed(&c1));

    let mut open = Authenticator::new(true, 30_000);
    assert!(open.is_allowed(&c1)); // default allow
    open.set_acl(&c1, false);
    assert!(!open.is_allowed(&c1));
}

#[test]
fn sweep_discards_only_expired_challenges() {
    let mut auth = Authenticator::new(true, 30_000);
    let peer = b"127.0.0.1:9000".to_vec();
    let data: Vec<u8> = (0u8..32).collect();
    assert!(auth.generate(&peer, &b"C1".to_vec(), &data, 1000)); // expires at 31000
    assert!(auth.generate(&peer, &b"C2".to_vec(), &data, 10_000)); // expires at 40000
    auth.sweep(35_000);
    assert_eq!(auth.lookup(&b"C1".to_vec(), &peer, 35_000), Err(ChallengeError::Unknown));
    assert_eq!(auth.lookup(&b"C2".to_vec(), &peer, 35_000), Ok(data));
}
