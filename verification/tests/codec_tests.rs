use gateway_session::codec::{decode, encode, ProtocolError};
use gateway_session::packet::{classify, PacketClass, PacketKind};

fn round_trip(p: PacketKind) {
    let bytes = encode(&p).expect("well-formed packet must encode");
    let back = decode(&bytes).expect("canonical frame must decode");
    assert_eq!(back, p);
}

#[test]
fn round_trip_auth() {
    round_trip(PacketKind::Auth {
        public_key: b"11111111111111111111111111111111".to_vec(),
        version: b"1.0".to_vec(),
        features: vec![b"aead".to_vec(), b"renewal".to_vec()],
        nonce: b"n1".to_vec(),
    });
}

#[test]
fn round_trip_auth_empty_features() {
    round_trip(PacketKind::Auth {
        public_key: vec![],
        version: vec![],
        features: vec![],
        nonce: vec![],
    });
}

#[test]
fn round_trip_challenge() {
    round_trip(PacketKind::Challenge {
        data: (0u8..32).collect(),
        server_key: b"serverkey".to_vec(),
        expires_at: u64::MAX,
        id: b"C1".to_vec(),
    });
}

#[test]
fn round_trip_challenge_response() {
    round_trip(PacketKind::ChallengeResponse {
        signature: b"sig".to_vec(),
        public_key: b"pk".to_vec(),
        challenge_id: b"C1".to_vec(),
    });
}

#[test]
fn round_trip_ip_assign() {
    round_trip(PacketKind::IpAssign {
        ip_address: b"10.7.0.2".to_vec(),
        lease_duration: 3600,
        session_id: b"session_0123".to_vec(),
        encrypted_session_key: vec![9; 48],
        key_nonce: vec![7; 12],
    });
}

#[test]
fn round_trip_ip_renewal() {
    round_trip(PacketKind::IpRenewal {
        session_id: b"session_0123".to_vec(),
        ip_address: b"10.7.0.2".to_vec(),
    });
}

#[test]
fn round_trip_ip_renewal_response() {
    round_trip(PacketKind::IpRenewalResponse {
        session_id: b"session_0123".to_vec(),
        expires_at: 123456,
        success: true,
    });
    round_trip(PacketKind::IpRenewalResponse {
        session_id: vec![],
        expires_at: 0,
        success: false,
    });
}

#[test]
fn round_trip_data() {
    round_trip(PacketKind::Data {
        encrypted: vec![1, 2, 3],
        nonce: vec![4; 12],
        counter: 5,
        padding: None,
    });
    round_trip(PacketKind::Data {
        encrypted: vec![],
        nonce: vec![],
        counter: u64::MAX,
        padding: Some(vec![0; 16]),
    });
}

#[test]
fn round_trip_ping_pong() {
    round_trip(PacketKind::Ping { timestamp: 1, sequence: 0 });
    round_trip(PacketKind::Pong { echo_timestamp: 1, server_timestamp: 2, sequence: 0 });
}

#[test]
fn round_trip_key_rotation() {
    round_trip(PacketKind::KeyRotation {
        encrypted_new_key: vec![1; 48],
        nonce: vec![2; 12],
        key_id: b"K123".to_vec(),
        signature: b"sigbytes".to_vec(),
    });
}

#[test]
fn round_trip_disconnect_error() {
    round_trip(PacketKind::Disconnect { reason: 2, message: b"Server shutting down".to_vec() });
    round_trip(PacketKind::Error { code: 1001, message: b"Public key mismatch".to_vec() });
}

#[test]
fn ping_exact_bytes() {
    let p = PacketKind::Ping { timestamp: 0x0102030405060708, sequence: 1 };
    let bytes = encode(&p).unwrap();
    let expected: Vec<u8> = vec![
        8, // tag
        8, 7, 6, 5, 4, 3, 2, 1, // timestamp, little-endian
        1, 0, 0, 0, 0, 0, 0, 0, // sequence, little-endian
    ];
    assert_eq!(bytes, expected);
}

#[test]
fn disconnect_exact_bytes() {
    let p = PacketKind::Disconnect { reason: 2, message: b"x".to_vec() };
    let bytes = encode(&p).unwrap();
    let expected: Vec<u8> = vec![
        11, // tag
        2, 0, // reason, little-endian
        1, 0, 0, 0, // message length
        b'x',
    ];
    assert_eq!(bytes, expected);
}

#[test]
fn decode_unknown_tag() {
    assert_eq!(decode(&vec![99u8]), Err(ProtocolError::UnknownTag));
    assert_eq!(decode(&vec![0u8]), Err(ProtocolError::UnknownTag));
}

#[test]
fn decode_truncated() {
    assert_eq!(decode(&vec![]), Err(ProtocolError::Truncated));
    // a ping frame cut short
    assert_eq!(decode(&vec![8u8, 1, 2, 3]), Err(ProtocolError::Truncated));
    // a bytes field whose length prefix promises more than the frame holds
    assert_eq!(decode(&vec![5u8, 200, 0, 0, 0]), Err(ProtocolError::Truncated));
}

#[test]
fn decode_trailing_bytes_rejected() {
    let mut bytes = encode(&PacketKind::Ping { timestamp: 1, sequence: 2 }).unwrap();
    bytes.push(0);
    assert_eq!(decode(&bytes), Err(ProtocolError::BadField));
}

#[test]
fn decode_bad_bool() {
    let p = PacketKind::IpRenewalResponse {
        session_id: vec![],
        expires_at: 0,
        success: true,
    };
    let mut bytes = encode(&p).unwrap();
    let last = bytes.len() - 1;
    bytes[last] = 7; // neither 0 nor 1
    assert_eq!(decode(&bytes), Err(ProtocolError::BadField));
}

#[test]
fn classify_kinds() {
    let auth = PacketKind::Auth {
        public_key: vec![],
        version: vec![],
        features: vec![],
        nonce: vec![],
    };
    assert_eq!(classify(&auth), PacketClass::AuthClass);
    let data = PacketKind::Data { encrypted: vec![], nonce: vec![], counter: 0, padding: None };
    assert_eq!(classify(&data), PacketClass::DataClass);
    let ping = PacketKind::Ping { timestamp: 0, sequence: 0 };
    assert_eq!(classify(&ping), PacketClass::Control);
}
