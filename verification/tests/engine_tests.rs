use gateway_session::codec::{decode, encode};
use gateway_session::engine::{
    begin_establish, begin_rotation, build_key_rotation, cleanup, commit_rotation,
    complete_wrap, confirm_establish, finish_verify, handle_auth_frame, handle_response_frame,
    handle_running_frame, heartbeat_tick, make_rotation_sign_data, precheck_server, Conn,
    ConnState, EstablishStep, Gateway, HandshakeStep, ResponseStep, RunningStep, ServerState,
    VerifyStep, WrapStep,
};
use gateway_session::auth::Authenticator;
use gateway_session::keystore::SessionKeyStore;
use gateway_session::packet::PacketKind;
use gateway_session::pool::IpPool;
use gateway_session::registry::Registry;
use gateway_session::session::Session;

// 32 ones in base58 decode to the all-zero 32-byte key: a valid client id.
const CLIENT: &[u8] = b"11111111111111111111111111111111";
const OTHER_CLIENT: &[u8] = b"22222222222222222222222222222222";

fn gateway() -> Gateway {
    Gateway {
        authenticator: Authenticator::new(true, 30_000),
        registry: Registry::new(),
        pool: IpPool::new(vec![b"10.7.0.2".to_vec()], 3600),
        keystore: SessionKeyStore::new(3_600_000),
        server_key: b"serverpubkey".to_vec(),
        state: ServerState::Running,
    }
}

fn conn() -> Conn {
    Conn { peer_addr: b"127.0.0.1:40000".to_vec(), state: ConnState::AwaitAuth }
}

fn auth_frame(public_key: &[u8]) -> Vec<u8> {
    encode(&PacketKind::Auth {
        public_key: public_key.to_vec(),
        version: b"1.0".to_vec(),
        features: vec![b"aead".to_vec()],
        nonce: b"n1".to_vec(),
    })
    .unwrap()
}

fn expect_error(frame: &Vec<u8>, code: u16, message: &[u8]) {
    match decode(frame).unwrap() {
        PacketKind::Error { code: c, message: m } => {
            assert_eq!(c, code);
            assert_eq!(m, message.to_vec());
        }
        other => panic!("expected an error frame, got {:?}", other),
    }
}

/// Runs the handshake through establishment; returns the gateway, the
/// connection, and the live session.
fn run_handshake() -> (Gateway, Conn, Session) {
    let mut gw = gateway();
    let mut c = conn();
    let cid = b"C1".to_vec();
    let cdata: Vec<u8> = (0u8..32).collect();

    // Auth in, Challenge out
    let challenge_frame =
        match handle_auth_frame(&mut gw, &mut c, &auth_frame(CLIENT), &cid, &cdata, 1000) {
            HandshakeStep::Proceed { frame } => frame,
            HandshakeStep::Fail { frame } => panic!("auth failed: {:?}", decode(&frame)),
        };
    match decode(&challenge_frame).unwrap() {
        PacketKind::Challenge { data, server_key, expires_at, id } => {
            assert_eq!(data, cdata);
            assert_eq!(server_key, b"serverpubkey".to_vec());
            assert_eq!(expires_at, 1000 + 30_000);
            assert_eq!(id, cid);
        }
        other => panic!("expected a challenge, got {:?}", other),
    }

    // ChallengeResponse in, signature check out
    let resp = encode(&PacketKind::ChallengeResponse {
        signature: b"signed-challenge".to_vec(),
        public_key: CLIENT.to_vec(),
        challenge_id: cid.clone(),
    })
    .unwrap();
    let (data_out, _sig, _pk) = match handle_response_frame(&mut gw, &mut c, &resp, 2000) {
        ResponseStep::NeedVerify { challenge_data, signature, public_key } => {
            (challenge_data, signature, public_key)
        }
        ResponseStep::Fail { frame } => panic!("response failed: {:?}", decode(&frame)),
    };
    assert_eq!(data_out, cdata);

    // the caller verified the signature
    match finish_verify(&mut gw, &mut c, true) {
        VerifyStep::Proceed => {}
        VerifyStep::Fail { frame } => panic!("verify failed: {:?}", decode(&frame)),
    }

    // allocation, session id, session key
    let rand16: Vec<u8> = (0u8..16).collect();
    let peer_pubkey = match begin_establish(&mut gw, &mut c, &rand16, vec![5; 32], 3000) {
        EstablishStep::Proceed { peer_pubkey } => peer_pubkey,
        EstablishStep::Fail { frame } => panic!("establish failed: {:?}", decode(&frame)),
    };
    assert_eq!(peer_pubkey, vec![0u8; 32]);

    // the caller wrapped the session key under the shared secret
    let assign_frame = match complete_wrap(&mut gw, &mut c, Some((vec![9; 48], vec![7; 12]))) {
        WrapStep::Assign { frame } => frame,
        WrapStep::Fail { frame } => panic!("wrap failed: {:?}", decode(&frame)),
    };
    match decode(&assign_frame).unwrap() {
        PacketKind::IpAssign {
            ip_address,
            lease_duration,
            session_id,
            encrypted_session_key,
            key_nonce,
        } => {
            assert_eq!(ip_address, b"10.7.0.2".to_vec());
            assert_eq!(lease_duration, 3600);
            assert_eq!(&session_id[..8], b"session_");
            assert_eq!(session_id.len(), 8 + 32);
            assert_eq!(session_id[8..].to_vec(), b"000102030405060708090a0b0c0d0e0f".to_vec());
            assert_eq!(encrypted_session_key, vec![9; 48]);
            assert_eq!(key_nonce, vec![7; 12]);
        }
        other => panic!("expected an address assignment, got {:?}", other),
    }

    let (session, registered) = confirm_establish(&mut gw, &mut c, 4000);
    assert!(registered);
    assert_eq!(gw.registry.len(), 1);
    (gw, c, session)
}

#[test]
fn happy_path_establishes_and_registers() {
    let (gw, _c, session) = run_handshake();
    assert_eq!(session.client_id, CLIENT.to_vec());
    assert_eq!(session.ip_address, b"10.7.0.2".to_vec());
    let i = gw.registry.lookup_by_session(&session.session_id).expect("live entry");
    assert_eq!(gw.registry.get(i).client_id, CLIENT.to_vec());
    assert_eq!(gw.keystore.get(&session.client_id), Some(vec![5; 32]));
}

#[test]
fn pubkey_mismatch_rejected() {
    let mut gw = gateway();
    let mut c = conn();
    let cid = b"C1".to_vec();
    let cdata: Vec<u8> = (0u8..32).collect();
    match handle_auth_frame(&mut gw, &mut c, &auth_frame(CLIENT), &cid, &cdata, 1000) {
        HandshakeStep::Proceed { .. } => {}
        HandshakeStep::Fail { .. } => panic!("auth should pass"),
    }
    let resp = encode(&PacketKind::ChallengeResponse {
        signature: b"sig".to_vec(),
        public_key: OTHER_CLIENT.to_vec(),
        challenge_id: cid,
    })
    .unwrap();
    match handle_response_frame(&mut gw, &mut c, &resp, 2000) {
        ResponseStep::Fail { frame } => expect_error(&frame, 1001, b"Public key mismatch"),
        ResponseStep::NeedVerify { .. } => panic!("mismatched key must be refused"),
    }
    assert_eq!(gw.registry.len(), 0);
}

#[test]
fn invalid_pubkey_format_rejected() {
    let mut gw = gateway();
    let mut c = conn();
    match handle_auth_frame(
        &mut gw,
        &mut c,
        &auth_frame(b"not-base58-0OIl"),
        &b"C1".to_vec(),
        &vec![0; 32],
        1000,
    ) {
        HandshakeStep::Fail { frame } => expect_error(&frame, 1001, b"Invalid public key format"),
        HandshakeStep::Proceed { .. } => panic!("bad key must be refused"),
    }
}

#[test]
fn wrong_first_packet_rejected() {
    let mut gw = gateway();
    let mut c = conn();
    let ping = encode(&PacketKind::Ping { timestamp: 0, sequence: 0 }).unwrap();
    match handle_auth_frame(&mut gw, &mut c, &ping, &b"C1".to_vec(), &vec![0; 32], 1000) {
        HandshakeStep::Fail { frame } => {
            expect_error(&frame, 1002, b"Expected authentication message")
        }
        HandshakeStep::Proceed { .. } => panic!("only auth opens a session"),
    }
}

#[test]
fn acl_denial_beats_valid_signature() {
    let mut gw = gateway();
    gw.authenticator.set_acl(&CLIENT.to_vec(), false);
    let mut c = conn();
    let cid = b"C1".to_vec();
    let cdata: Vec<u8> = (0u8..32).collect();
    match handle_auth_frame(&mut gw, &mut c, &auth_frame(CLIENT), &cid, &cdata, 1000) {
        HandshakeStep::Proceed { .. } => {}
        HandshakeStep::Fail { .. } => panic!("auth should pass"),
    }
    let resp = encode(&PacketKind::ChallengeResponse {
        signature: b"sig".to_vec(),
        public_key: CLIENT.to_vec(),
        challenge_id: cid,
    })
    .unwrap();
    match handle_response_frame(&mut gw, &mut c, &resp, 2000) {
        ResponseStep::NeedVerify { .. } => {}
        ResponseStep::Fail { .. } => panic!("response itself is fine"),
    }
    // the signature verifies, yet the list denies
    match finish_verify(&mut gw, &mut c, true) {
        VerifyStep::Fail { frame } => expect_error(&frame, 1005, b"Access denied by ACL"),
        VerifyStep::Proceed => panic!("a denied client must never authenticate"),
    }
    assert_eq!(gw.registry.len(), 0);
}

#[test]
fn allocation_failure_reports_1007() {
    let mut gw = gateway();
    gw.pool = IpPool::new(vec![], 3600); // no free addresses
    let mut c = conn();
    let cid = b"C1".to_vec();
    let cdata: Vec<u8> = (0u8..32).collect();
    handle_auth_frame(&mut gw, &mut c, &auth_frame(CLIENT), &cid, &cdata, 1000);
    let resp = encode(&PacketKind::ChallengeResponse {
        signature: b"sig".to_vec(),
        public_key: CLIENT.to_vec(),
        challenge_id: cid,
    })
    .unwrap();
    handle_response_frame(&mut gw, &mut c, &resp, 2000);
    finish_verify(&mut gw, &mut c, true);
    match begin_establish(&mut gw, &mut c, &vec![0; 16], vec![5; 32], 3000) {
        EstablishStep::Fail { frame } => expect_error(&frame, 1007, b"Failed to allocate IP"),
        EstablishStep::Proceed { .. } => panic!("no address is free"),
    }
}

#[test]
fn wrap_failure_rolls_back() {
    let mut gw = gateway();
    let mut c = conn();
    let cid = b"C1".to_vec();
    let cdata: Vec<u8> = (0u8..32).collect();
    handle_auth_frame(&mut gw, &mut c, &auth_frame(CLIENT), &cid, &cdata, 1000);
    let resp = encode(&PacketKind::ChallengeResponse {
        signature: b"sig".to_vec(),
        public_key: CLIENT.to_vec(),
        challenge_id: cid,
    })
    .unwrap();
    handle_response_frame(&mut gw, &mut c, &resp, 2000);
    finish_verify(&mut gw, &mut c, true);
    begin_establish(&mut gw, &mut c, &vec![0; 16], vec![5; 32], 3000);
    match complete_wrap(&mut gw, &mut c, None) {
        WrapStep::Fail { frame } => expect_error(&frame, 1006, b"Encryption failed"),
        WrapStep::Assign { .. } => panic!("the wrap failed"),
    }
    // the address is back and the key is gone
    assert_eq!(gw.pool.allocate(&b"x".to_vec(), 0), Some(b"10.7.0.2".to_vec()));
    assert!(gw.keystore.get(&CLIENT.to_vec()).is_none());
}

#[test]
fn replay_second_data_frame_dropped() {
    let (mut gw, _c, mut session) = run_handshake();
    let data5 = encode(&PacketKind::Data {
        encrypted: vec![1, 2, 3],
        nonce: vec![0; 12],
        counter: 5,
        padding: None,
    })
    .unwrap();
    match handle_running_frame(&mut gw, &mut session, &data5, 5000) {
        RunningStep::Route { ciphertext, key, .. } => {
            assert_eq!(ciphertext, vec![1, 2, 3]);
            assert_eq!(key, vec![5; 32]);
        }
        other => panic!("first data frame must route, got {:?}", step_name(&other)),
    }
    assert_eq!(session.last_counter, Some(5));
    // the same counter again is dropped silently
    match handle_running_frame(&mut gw, &mut session, &data5, 5001) {
        RunningStep::Ignore => {}
        other => panic!("replay must be dropped, got {:?}", step_name(&other)),
    }
    assert_eq!(session.last_counter, Some(5));
}

fn step_name(s: &RunningStep) -> &'static str {
    match s {
        RunningStep::Ignore => "Ignore",
        RunningStep::Route { .. } => "Route",
        RunningStep::Respond { .. } => "Respond",
        RunningStep::RecordRtt { .. } => "RecordRtt",
        RunningStep::Close => "Close",
    }
}

#[test]
fn ping_earns_exactly_matching_pong() {
    let (mut gw, _c, mut session) = run_handshake();
    let ping = encode(&PacketKind::Ping { timestamp: 777, sequence: 3 }).unwrap();
    match handle_running_frame(&mut gw, &mut session, &ping, 9999) {
        RunningStep::Respond { frame } => match decode(&frame).unwrap() {
            PacketKind::Pong { echo_timestamp, server_timestamp, sequence } => {
                assert_eq!(echo_timestamp, 777);
                assert_eq!(server_timestamp, 9999);
                assert_eq!(sequence, 3);
            }
            other => panic!("expected a pong, got {:?}", other),
        },
        other => panic!("a ping earns a pong, got {:?}", step_name(&other)),
    }
}

#[test]
fn heartbeat_and_rtt() {
    let (frame, next) = heartbeat_tick(30_000, 0);
    assert_eq!(next, 1);
    match decode(&frame).unwrap() {
        PacketKind::Ping { timestamp, sequence } => {
            assert_eq!(timestamp, 30_000);
            assert_eq!(sequence, 0);
        }
        other => panic!("expected a ping, got {:?}", other),
    }
    assert_eq!(heartbeat_tick(0, u64::MAX).1, 0);

    let (mut gw, _c, mut session) = run_handshake();
    let pong = encode(&PacketKind::Pong {
        echo_timestamp: 30_000,
        server_timestamp: 0,
        sequence: 0,
    })
    .unwrap();
    match handle_running_frame(&mut gw, &mut session, &pong, 30_025) {
        RunningStep::RecordRtt { rtt } => assert_eq!(rtt, 25),
        other => panic!("expected an rtt record, got {:?}", step_name(&other)),
    }
    // a pong from the future is ignored
    match handle_running_frame(&mut gw, &mut session, &pong, 29_000) {
        RunningStep::Ignore => {}
        other => panic!("future pong must be ignored, got {:?}", step_name(&other)),
    }
}

#[test]
fn renewal_matches_session_or_is_dropped() {
    let (mut gw, _c, mut session) = run_handshake();
    let good = encode(&PacketKind::IpRenewal {
        session_id: session.session_id.clone(),
        ip_address: session.ip_address.clone(),
    })
    .unwrap();
    match handle_running_frame(&mut gw, &mut session, &good, 10_000) {
        RunningStep::Respond { frame } => match decode(&frame).unwrap() {
            PacketKind::IpRenewalResponse { session_id, expires_at, success } => {
                assert_eq!(session_id, session.session_id);
                assert_eq!(expires_at, 10_000 + 3600);
                assert!(success);
            }
            other => panic!("expected a renewal response, got {:?}", other),
        },
        other => panic!("a matching renewal earns a response, got {:?}", step_name(&other)),
    }
    let wrong = encode(&PacketKind::IpRenewal {
        session_id: b"session_bogus".to_vec(),
        ip_address: session.ip_address.clone(),
    })
    .unwrap();
    match handle_running_frame(&mut gw, &mut session, &wrong, 10_001) {
        RunningStep::Ignore => {}
        other => panic!("mismatched renewal must be dropped, got {:?}", step_name(&other)),
    }
}

#[test]
fn disconnect_closes_and_malformed_is_dropped() {
    let (mut gw, _c, mut session) = run_handshake();
    // a malformed frame is dropped, never fatal
    match handle_running_frame(&mut gw, &mut session, &vec![99u8, 1, 2], 5000) {
        RunningStep::Ignore => {}
        other => panic!("malformed frames are dropped, got {:?}", step_name(&other)),
    }
    let bye = encode(&PacketKind::Disconnect { reason: 0, message: b"bye".to_vec() }).unwrap();
    match handle_running_frame(&mut gw, &mut session, &bye, 5001) {
        RunningStep::Close => {}
        other => panic!("disconnect closes the session, got {:?}", step_name(&other)),
    }
}

#[test]
fn rotation_only_when_due_and_store_reflects_new_key() {
    let (mut gw, _c, session) = run_handshake();
    // installed at 3000 with a one-hour threshold: not yet due
    assert!(begin_rotation(&gw, &session.client_id, 3000 + 3_599_999).is_none());
    let current = begin_rotation(&gw, &session.client_id, 3000 + 3_600_000)
        .expect("due exactly at the threshold");
    assert_eq!(current, vec![5; 32]);

    let sign_data = make_rotation_sign_data(&b"K1".to_vec(), &vec![7; 12]);
    assert_eq!(&sign_data[..2], b"K1");
    assert_eq!(sign_data.len(), 2 + 12);

    let frame = build_key_rotation(vec![8; 48], vec![7; 12], b"K1".to_vec(), b"sig".to_vec());
    match decode(&frame).unwrap() {
        PacketKind::KeyRotation { encrypted_new_key, nonce, key_id, signature } => {
            assert_eq!(encrypted_new_key, vec![8; 48]);
            assert_eq!(nonce, vec![7; 12]);
            assert_eq!(key_id, b"K1".to_vec());
            assert_eq!(signature, b"sig".to_vec());
        }
        other => panic!("expected a rotation frame, got {:?}", other),
    }

    commit_rotation(&mut gw, &session.client_id, vec![6; 32], 7_300_000);
    assert_eq!(gw.keystore.get(&session.client_id), Some(vec![6; 32]));
}

#[test]
fn shutdown_precheck_and_cleanup() {
    let (mut gw, _c, session) = run_handshake();
    assert!(precheck_server(&gw).is_none());
    gw.state = ServerState::Stopping;
    let frame = precheck_server(&gw).expect("a stopping server disconnects clients");
    match decode(&frame).unwrap() {
        PacketKind::Disconnect { reason, message } => {
            assert_eq!(reason, 2);
            assert_eq!(message, b"Server shutting down".to_vec());
        }
        other => panic!("expected a disconnect, got {:?}", other),
    }

    cleanup(&mut gw, &session.session_id, &session.client_id, &session.ip_address);
    assert_eq!(gw.registry.len(), 0);
    assert!(gw.keystore.get(&session.client_id).is_none());
    // cleanup is idempotent
    cleanup(&mut gw, &session.session_id, &session.client_id, &session.ip_address);
    assert_eq!(gw.registry.len(), 0);
    // the address is back in the pool
    assert_eq!(gw.pool.allocate(&b"x".to_vec(), 0), Some(b"10.7.0.2".to_vec()));
}

#[test]
fn data_without_session_key_is_dropped() {
    let (mut gw, _c, mut session) = run_handshake();
    gw.keystore.remove(&session.client_id);
    let data = encode(&PacketKind::Data {
        encrypted: vec![1],
        nonce: vec![0; 12],
        counter: 1,
        padding: None,
    })
    .unwrap();
    match handle_running_frame(&mut gw, &mut session, &data, 5000) {
        RunningStep::Ignore => {}
        other => panic!("keyless data must be dropped, got {:?}", step_name(&other)),
    }
    // the counter still advanced: the frame passed the replay rule
    assert_eq!(session.last_counter, Some(1));
}

#[test]
fn counter_zero_accepted_after_wrap() {
    let (mut gw, _c, mut session) = run_handshake();
    let high = encode(&PacketKind::Data {
        encrypted: vec![1],
        nonce: vec![0; 12],
        counter: u64::MAX,
        padding: None,
    })
    .unwrap();
    handle_running_frame(&mut gw, &mut session, &high, 5000);
    assert_eq!(session.last_counter, Some(u64::MAX));
    let zero = encode(&PacketKind::Data {
        encrypted: vec![2],
        nonce: vec![0; 12],
        counter: 0,
        padding: None,
    })
    .unwrap();
    match handle_running_frame(&mut gw, &mut session, &zero, 5001) {
        RunningStep::Route { .. } => {}
        other => panic!("the wrap-around frame must pass, got {:?}", step_name(&other)),
    }
    assert_eq!(session.last_counter, Some(0));
}

#[test]
fn duplicate_challenge_id_refused() {
    let mut gw = gateway();
    let mut c1 = conn();
    let cid = b"C1".to_vec();
    let cdata: Vec<u8> = (0u8..32).collect();
    match handle_auth_frame(&mut gw, &mut c1, &auth_frame(CLIENT), &cid, &cdata, 1000) {
        HandshakeStep::Proceed { .. } => {}
        HandshakeStep::Fail { .. } => panic!("first challenge must be issued"),
    }
    // a second connection drawing the same challenge id is refused
    let mut c2 = conn();
    match handle_auth_frame(&mut gw, &mut c2, &auth_frame(CLIENT), &cid, &cdata, 1001) {
        HandshakeStep::Fail { frame } => expect_error(&frame, 1001, b"Challenge generation failed"),
        HandshakeStep::Proceed { .. } => panic!("challenge ids are never reused"),
    }
}

#[test]
fn expired_challenge_refused_and_destroyed() {
    let mut gw = gateway();
    let mut c = conn();
    let cid = b"C1".to_vec();
    let cdata: Vec<u8> = (0u8..32).collect();
    handle_auth_frame(&mut gw, &mut c, &auth_frame(CLIENT), &cid, &cdata, 1000);
    let resp = encode(&PacketKind::ChallengeResponse {
        signature: b"sig".to_vec(),
        public_key: CLIENT.to_vec(),
        challenge_id: cid.clone(),
    })
    .unwrap();
    // 30 s have passed: the challenge expired
    match handle_response_frame(&mut gw, &mut c, &resp, 31_001) {
        ResponseStep::Fail { frame } => {
            expect_error(&frame, 1001, b"Challenge verification failed")
        }
        ResponseStep::NeedVerify { .. } => panic!("an expired challenge must be refused"),
    }
    // single use: the entry is gone
    assert_eq!(
        gw.authenticator.lookup(&cid, &c.peer_addr, 2000),
        Err(gateway_session::auth::ChallengeError::Unknown)
    );
}

#[test]
fn invalid_signature_refused() {
    let mut gw = gateway();
    let mut c = conn();
    let cid = b"C1".to_vec();
    let cdata: Vec<u8> = (0u8..32).collect();
    handle_auth_frame(&mut gw, &mut c, &auth_frame(CLIENT), &cid, &cdata, 1000);
    let resp = encode(&PacketKind::ChallengeResponse {
        signature: b"forged".to_vec(),
        public_key: CLIENT.to_vec(),
        challenge_id: cid,
    })
    .unwrap();
    handle_response_frame(&mut gw, &mut c, &resp, 2000);
    match finish_verify(&mut gw, &mut c, false) {
        VerifyStep::Fail { frame } => expect_error(&frame, 1001, b"Challenge verification failed"),
        VerifyStep::Proceed => panic!("a bad signature must be refused"),
    }
}
