//! Protocol messages: the twelve packet kinds that travel as binary frames
//! over the transport, together with their mathematical model.
use vstd::prelude::*;

verus! {

/// A protocol message. String-valued wire fields are carried as their UTF-8
/// bytes; the transport boundary converts to and from text.
#[derive(Debug, Clone, PartialEq, Eq)]
pub enum PacketKind {
    Auth { public_key: Vec<u8>, version: Vec<u8>, features: Vec<Vec<u8>>, nonce: Vec<u8> },
    Challenge { data: Vec<u8>, server_key: Vec<u8>, expires_at: u64, id: Vec<u8> },
    ChallengeResponse { signature: Vec<u8>, public_key: Vec<u8>, challenge_id: Vec<u8> },
    IpAssign {
        ip_address: Vec<u8>,
        lease_duration: u64,
        session_id: Vec<u8>,
        encrypted_session_key: Vec<u8>,
        key_nonce: Vec<u8>,
    },
    IpRenewal { session_id: Vec<u8>, ip_address: Vec<u8> },
    IpRenewalResponse { session_id: Vec<u8>, expires_at: u64, success: bool },
    Data { encrypted: Vec<u8>, nonce: Vec<u8>, counter: u64, padding: Option<Vec<u8>> },
    Ping { timestamp: u64, sequence: u64 },
    Pong { echo_timestamp: u64, server_timestamp: u64, sequence: u64 },
    KeyRotation { encrypted_new_key: Vec<u8>, nonce: Vec<u8>, key_id: Vec<u8>, signature: Vec<u8> },
    Disconnect { reason: u16, message: Vec<u8> },
    Error { code: u16, message: Vec<u8> },
}

/// The mathematical model of a packet: the same variants over `Seq<u8>`.
#[verifier::ext_equal]
pub enum PacketModel {
    Auth { public_key: Seq<u8>, version: Seq<u8>, features: Seq<Seq<u8>>, nonce: Seq<u8> },
    Challenge { data: Seq<u8>, server_key: Seq<u8>, expires_at: u64, id: Seq<u8> },
    ChallengeResponse { signature: Seq<u8>, public_key: Seq<u8>, challenge_id: Seq<u8> },
    IpAssign {
        ip_address: Seq<u8>,
        lease_duration: u64,
        session_id: Seq<u8>,
        encrypted_session_key: Seq<u8>,
        key_nonce: Seq<u8>,
    },
    IpRenewal { session_id: Seq<u8>, ip_address: Seq<u8> },
    IpRenewalResponse { session_id: Seq<u8>, expires_at: u64, success: bool },
    Data { encrypted: Seq<u8>, nonce: Seq<u8>, counter: u64, padding: Option<Seq<u8>> },
    Ping { timestamp: u64, sequence: u64 },
    Pong { echo_timestamp: u64, server_timestamp: u64, sequence: u64 },
    KeyRotation { encrypted_new_key: Seq<u8>, nonce: Seq<u8>, key_id: Seq<u8>, signature: Seq<u8> },
    Disconnect { reason: u16, message: Seq<u8> },
    Error { code: u16, message: Seq<u8> },
}

impl View for PacketKind {
    type V = PacketModel;

    open spec fn view(&self) -> PacketModel {
        match self {
            PacketKind::Auth { public_key, version, features, nonce } => PacketModel::Auth {
                public_key: public_key@,
                version: version@,
                features: features@.map_values(|v: Vec<u8>| v@),
                nonce: nonce@,
            },
            PacketKind::Challenge { data, server_key, expires_at, id } => PacketModel::Challenge {
                data: data@,
                server_key: server_key@,
                expires_at: *expires_at,
                id: id@,
            },
            PacketKind::ChallengeResponse { signature, public_key, challenge_id } => {
                PacketModel::ChallengeResponse {
                    signature: signature@,
                    public_key: public_key@,
                    challenge_id: challenge_id@,
                }
            },
            PacketKind::IpAssign {
                ip_address,
                lease_duration,
                session_id,
                encrypted_session_key,
                key_nonce,
            } => PacketModel::IpAssign {
                ip_address: ip_address@,
                lease_duration: *lease_duration,
                session_id: session_id@,
                encrypted_session_key: encrypted_session_key@,
                key_nonce: key_nonce@,
            },
            PacketKind::IpRenewal { session_id, ip_address } => PacketModel::IpRenewal {
                session_id: session_id@,
                ip_address: ip_address@,
            },
            PacketKind::IpRenewalResponse { session_id, expires_at, success } => {
                PacketModel::IpRenewalResponse {
                    session_id: session_id@,
                    expires_at: *expires_at,
                    success: *success,
                }
            },
            PacketKind::Data { encrypted, nonce, counter, padding } => PacketModel::Data {
                encrypted: encrypted@,
                nonce: nonce@,
                counter: *counter,
                padding: match padding {
                    Option::Some(p) => Option::Some(p@),
                    Option::None => Option::None,
                },
            },
            PacketKind::Ping { timestamp, sequence } => PacketModel::Ping {
                timestamp: *timestamp,
                sequence: *sequence,
            },
            PacketKind::Pong { echo_timestamp, server_timestamp, sequence } => PacketModel::Pong {
                echo_timestamp: *echo_timestamp,
                server_timestamp: *server_timestamp,
                sequence: *sequence,
            },
            PacketKind::KeyRotation { encrypted_new_key, nonce, key_id, signature } => {
                PacketModel::KeyRotation {
                    encrypted_new_key: encrypted_new_key@,
                    nonce: nonce@,
                    key_id: key_id@,
                    signature: signature@,
                }
            },
            PacketKind::Disconnect { reason, message } => PacketModel::Disconnect {
                reason: *reason,
                message: message@,
            },
            PacketKind::Error { code, message } => PacketModel::Error {
                code: *code,
                message: message@,
            },
        }
    }
}

/// A variable-length wire field must fit its four-byte length prefix.
pub open spec fn wf_bytes(b: Seq<u8>) -> bool {
    b.len() <= 0xFFFF_FFFF
}

/// A well-formed string list fits its four-byte count, and so does each item.
pub open spec fn wf_strs(l: Seq<Seq<u8>>) -> bool {
    &&& l.len() <= 0xFFFF_FFFF
    &&& forall|i: int| 0 <= i < l.len() ==> wf_bytes(#[trigger] l[i])
}

/// Well-formed packets: every variable-length field fits its length prefix.
pub open spec fn wf_packet(m: PacketModel) -> bool {
    match m {
        PacketModel::Auth { public_key, version, features, nonce } => {
            &&& wf_bytes(public_key)
            &&& wf_bytes(version)
            &&& wf_strs(features)
            &&& wf_bytes(nonce)
        },
        PacketModel::Challenge { data, server_key, id, .. } => {
            wf_bytes(data) && wf_bytes(server_key) && wf_bytes(id)
        },
        PacketModel::ChallengeResponse { signature, public_key, challenge_id } => {
            wf_bytes(signature) && wf_bytes(public_key) && wf_bytes(challenge_id)
        },
        PacketModel::IpAssign { ip_address, session_id, encrypted_session_key, key_nonce, .. } => {
            &&& wf_bytes(ip_address)
            &&& wf_bytes(session_id)
            &&& wf_bytes(encrypted_session_key)
            &&& wf_bytes(key_nonce)
        },
        PacketModel::IpRenewal { session_id, ip_address } => {
            wf_bytes(session_id) && wf_bytes(ip_address)
        },
        PacketModel::IpRenewalResponse { session_id, .. } => wf_bytes(session_id),
        PacketModel::Data { encrypted, nonce, padding, .. } => {
            &&& wf_bytes(encrypted)
            &&& wf_bytes(nonce)
            &&& (padding matches Option::Some(p) ==> wf_bytes(p))
        },
        PacketModel::Ping { .. } => true,
        PacketModel::Pong { .. } => true,
        PacketModel::KeyRotation { encrypted_new_key, nonce, key_id, signature } => {
            &&& wf_bytes(encrypted_new_key)
            &&& wf_bytes(nonce)
            &&& wf_bytes(key_id)
            &&& wf_bytes(signature)
        },
        PacketModel::Disconnect { message, .. } => wf_bytes(message),
        PacketModel::Error { message, .. } => wf_bytes(message),
    }
}

/// Coarse class of a packet, used for logging and metrics.
#[derive(PartialEq, Eq, Structural, Clone, Copy, Debug)]
pub enum PacketClass {
    Control,
    DataClass,
    AuthClass,
}

/// The class a packet belongs to: authentication handshake kinds, the payload
/// kind, or control traffic.
pub open spec fn spec_classify(m: PacketModel) -> PacketClass {
    match m {
        PacketModel::Auth { .. } => PacketClass::AuthClass,
        PacketModel::Challenge { .. } => PacketClass::AuthClass,
        PacketModel::ChallengeResponse { .. } => PacketClass::AuthClass,
        PacketModel::Data { .. } => PacketClass::DataClass,
        _ => PacketClass::Control,
    }
}

/// Classify a packet as auth, data, or control traffic.
pub fn classify(p: &PacketKind) -> (r: PacketClass)
    ensures
        r == spec_classify(p@),
{
    match p {
        PacketKind::Auth { .. } => PacketClass::AuthClass,
        PacketKind::Challenge { .. } => PacketClass::AuthClass,
        PacketKind::ChallengeResponse { .. } => PacketClass::AuthClass,
        PacketKind::Data { .. } => PacketClass::DataClass,
        _ => PacketClass::Control,
    }
}

} // verus!
