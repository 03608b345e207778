//! The session engine: drives one client from acceptance through
//! authentication, establishment, the steady-state loop, key rotation, and
//! teardown.
//!
//! The engine is the decision core of the gateway. Transport reads and
//! writes, timers, and the cryptographic primitives stay with the caller:
//! each step takes the bytes or outcomes the caller obtained and returns the
//! next state together with the frames to send.
use vstd::prelude::*;
use crate::auth::Authenticator;
use crate::bytes::{bytes_clone, bytes_extend, sat_add, spec_sat_add};
use crate::codec::{decode, encode, spec_decode, spec_encode};
use crate::counter_accepted;
use crate::keystore::SessionKeyStore;
use crate::messages;
use crate::packet::{PacketKind, PacketModel, wf_bytes};
use crate::pool::IpPool;
use crate::pubkey::{base58_decode_32, parse_pubkey};
use crate::registry::Registry;
use crate::session::Session;

verus! {

/// The process-wide server state the inbound loop polls.
#[derive(PartialEq, Eq, Structural, Clone, Copy, Debug)]
pub enum ServerState {
    Starting,
    Running,
    Stopping,
}

/// The shared gateway state one engine step may read or change.
pub struct Gateway {
    pub authenticator: Authenticator,
    pub registry: Registry,
    pub pool: IpPool,
    pub keystore: SessionKeyStore,
    pub server_key: Vec<u8>,
    pub state: ServerState,
}

impl Gateway {
    pub open spec fn wf(self) -> bool {
        &&& self.authenticator.wf()
        &&& self.registry.wf()
        &&& self.pool.wf()
        &&& self.keystore.wf()
        &&& wf_bytes(self.server_key@)
    }
}

/// Where one connection stands.
pub enum ConnState {
    /// Waiting for the client's opening authentication message.
    AwaitAuth,
    /// A challenge has been sent; waiting for the signed response.
    AwaitResponse { public_key: Vec<u8>, challenge_id: Vec<u8> },
    /// The response arrived; waiting for the signature check's outcome.
    VerifyPending { public_key: Vec<u8>, challenge_id: Vec<u8> },
    /// Authenticated; resources not yet allocated.
    Establishing { public_key: Vec<u8> },
    /// Address and key allocated; waiting for the session-key wrap.
    WrapPending { public_key: Vec<u8>, ip_address: Vec<u8>, session_id: Vec<u8> },
    /// The address-assignment frame is built; waiting for its send outcome.
    AssignPending { public_key: Vec<u8>, ip_address: Vec<u8>, session_id: Vec<u8> },
    /// In the steady-state message loop.
    Running,
    /// Torn down.
    Terminated,
}

/// One client connection as the engine sees it.
pub struct Conn {
    pub peer_addr: Vec<u8>,
    pub state: ConnState,
}

/// A pending handshake connection never holds an unparsable public key.
pub open spec fn conn_wf(c: Conn) -> bool {
    match c.state {
        ConnState::AwaitResponse { public_key, challenge_id } => base58_decode_32(public_key@)
            is Some && wf_bytes(public_key@),
        ConnState::VerifyPending { public_key, challenge_id } => base58_decode_32(public_key@)
            is Some && wf_bytes(public_key@),
        ConnState::Establishing { public_key } => base58_decode_32(public_key@) is Some && wf_bytes(
            public_key@,
        ),
        ConnState::WrapPending { public_key, ip_address, session_id } => wf_bytes(ip_address@)
            && wf_bytes(session_id@) && wf_bytes(public_key@),
        ConnState::AssignPending { public_key, ip_address, session_id } => wf_bytes(ip_address@)
            && wf_bytes(session_id@) && wf_bytes(public_key@),
        _ => true,
    }
}

/// The model of an error frame.
pub open spec fn spec_error_frame(code: u16, message: Seq<u8>) -> Seq<u8> {
    spec_encode(PacketModel::Error { code, message })
}

fn error_frame(code: u16, message: Vec<u8>) -> (r: Vec<u8>)
    requires
        wf_bytes(message@),
    ensures
        r@ == spec_error_frame(code, message@),
{
    let p = PacketKind::Error { code, message };
    match encode(&p) {
        Result::Ok(f) => f,
        Result::Err(_) => vstd::pervasive::unreached(),
    }
}

/// What one handshake step asks the caller to do next.
pub enum HandshakeStep {
    /// Send this frame and go on.
    Proceed { frame: Vec<u8> },
    /// Send this error frame best-effort, then tear down.
    Fail { frame: Vec<u8> },
}

/// The opening step: the client's first frame must be a well-formed `Auth`
/// with a parsable public key; then a challenge is issued and sent.
#[verifier::rlimit(30)]
pub fn handle_auth_frame(
    gw: &mut Gateway,
    conn: &mut Conn,
    frame: &Vec<u8>,
    challenge_id: &Vec<u8>,
    challenge_data: &Vec<u8>,
    now: u64,
) -> (r: HandshakeStep)
    requires
        old(gw).wf(),
        old(conn).state is AwaitAuth,
        wf_bytes(challenge_id@),
        wf_bytes(challenge_data@),
    ensures
        final(gw).wf(),
        conn_wf(*final(conn)),
        final(gw).registry == old(gw).registry,
        final(gw).pool == old(gw).pool,
        final(gw).keystore == old(gw).keystore,
        final(gw).server_key == old(gw).server_key,
        final(gw).state == old(gw).state,
        final(conn).peer_addr == old(conn).peer_addr,
        r is Proceed <==> (spec_decode(frame@) matches Option::Some(
            PacketModel::Auth { public_key, .. },
        ) && base58_decode_32(public_key) is Some && !old(gw).authenticator.has_challenge(
            challenge_id@,
        )),
        r matches HandshakeStep::Proceed { frame: out } ==> (spec_decode(frame@) matches
            Option::Some(PacketModel::Auth { public_key, .. }) && out@ == spec_encode(
            PacketModel::Challenge {
                data: challenge_data@,
                server_key: old(gw).server_key@,
                expires_at: spec_sat_add(now, old(gw).authenticator.challenge_ttl),
                id: challenge_id@,
            },
        ) && (final(conn).state matches ConnState::AwaitResponse {
            public_key: pk,
            challenge_id: cid,
        } && pk@ == public_key && cid@ == challenge_id@) && final(gw).authenticator.has_challenge(
            challenge_id@,
        )),
        r is Fail ==> final(conn).state is Terminated && final(gw).authenticator == old(gw).authenticator,
        spec_decode(frame@) is None ==> (r matches HandshakeStep::Fail { frame: out } && out@
            == spec_error_frame(1002, messages::spec_invalid_auth())),
        (spec_decode(frame@) matches Option::Some(m) && !(m is Auth)) ==> (r matches
            HandshakeStep::Fail { frame: out } && out@ == spec_error_frame(
            1002,
            messages::spec_expected_auth(),
        )),
        (spec_decode(frame@) matches Option::Some(PacketModel::Auth { public_key, .. })
            && base58_decode_32(public_key) is None) ==> (r matches HandshakeStep::Fail {
            frame: out,
        } && out@ == spec_error_frame(1001, messages::spec_invalid_public_key())),
        (spec_decode(frame@) matches Option::Some(PacketModel::Auth { public_key, .. })
            && base58_decode_32(public_key) is Some && old(gw).authenticator.has_challenge(
            challenge_id@,
        )) ==> (r matches HandshakeStep::Fail { frame: out } && out@ == spec_error_frame(
            1001,
            messages::spec_challenge_failed(),
        )),
{
    let p = match decode(frame) {
        Result::Ok(p) => p,
        Result::Err(_) => {
            conn.state = ConnState::Terminated;
            return HandshakeStep::Fail {
                frame: error_frame(1002, messages::invalid_auth()),
            };
        },
    };
    match p {
        PacketKind::Auth { public_key, .. } => {
            if parse_pubkey(&public_key).is_none() {
                conn.state = ConnState::Terminated;
                return HandshakeStep::Fail {
                    frame: error_frame(1001, messages::invalid_public_key()),
                };
            }
            if !gw.authenticator.generate(&conn.peer_addr, challenge_id, challenge_data, now) {
                conn.state = ConnState::Terminated;
                return HandshakeStep::Fail {
                    frame: error_frame(1001, messages::challenge_failed()),
                };
            }
            let expires_at = sat_add(now, gw.authenticator.challenge_ttl);
            let challenge = PacketKind::Challenge {
                data: bytes_clone(challenge_data),
                server_key: bytes_clone(&gw.server_key),
                expires_at,
                id: bytes_clone(challenge_id),
            };
            let out = match encode(&challenge) {
                Result::Ok(f) => f,
                Result::Err(_) => vstd::pervasive::unreached(),
            };
            conn.state = ConnState::AwaitResponse {
                public_key,
                challenge_id: bytes_clone(challenge_id),
            };
            HandshakeStep::Proceed { frame: out }
        },
        _ => {
            conn.state = ConnState::Terminated;
            HandshakeStep::Fail { frame: error_frame(1002, messages::expected_auth()) }
        },
    }
}

/// What the response step asks the caller to do next.
pub enum ResponseStep {
    /// Check this signature over the challenge data under the public key,
    /// then report the outcome to `finish_verify`.
    NeedVerify { challenge_data: Vec<u8>, signature: Vec<u8>, public_key: Vec<u8> },
    /// Send this error frame best-effort, then tear down.
    Fail { frame: Vec<u8> },
}

/// The response step: the next frame must be a `ChallengeResponse` whose
/// public key repeats the `Auth` key exactly and whose challenge is pending,
/// unexpired, and was issued to the same peer. The signature check itself is
/// the caller's: the engine hands out the challenge data.
#[verifier::rlimit(30)]
pub fn handle_response_frame(gw: &mut Gateway, conn: &mut Conn, frame: &Vec<u8>, now: u64) -> (r:
    ResponseStep)
    requires
        old(gw).wf(),
        old(conn).state is AwaitResponse,
        conn_wf(*old(conn)),
    ensures
        final(gw).wf(),
        conn_wf(*final(conn)),
        final(gw).registry == old(gw).registry,
        final(gw).pool == old(gw).pool,
        final(gw).keystore == old(gw).keystore,
        final(gw).server_key == old(gw).server_key,
        final(gw).state == old(gw).state,
        final(gw).authenticator.acl == old(gw).authenticator.acl,
        final(gw).authenticator.default_allow == old(gw).authenticator.default_allow,
        final(gw).authenticator.challenge_ttl == old(gw).authenticator.challenge_ttl,
        r is NeedVerify ==> final(gw).authenticator == old(gw).authenticator,
        // on a failed lookup the challenge is destroyed: single use
        ({
            match spec_decode(frame@) {
                Option::Some(PacketModel::ChallengeResponse { public_key, challenge_id, .. }) => (
                public_key == old(conn).state->AwaitResponse_public_key@ && r is Fail) ==> !final(gw).authenticator.has_challenge(challenge_id),
                _ => true,
            }
        }),
        final(conn).peer_addr == old(conn).peer_addr,
        r is NeedVerify <==> (spec_decode(frame@) matches Option::Some(
            PacketModel::ChallengeResponse { signature, public_key, challenge_id },
        ) && public_key == old(conn).state->AwaitResponse_public_key@ && (exists|i: int|
            0 <= i < old(gw).authenticator.challenge_models().len()
                && #[trigger] old(gw).authenticator.challenge_models()[i].id == challenge_id && now
                < old(gw).authenticator.challenge_models()[i].expires_at
                && old(gw).authenticator.challenge_models()[i].peer_addr == old(conn).peer_addr@)),
        r matches ResponseStep::NeedVerify { challenge_data, signature, public_key } ==> (
        spec_decode(frame@) matches Option::Some(
            PacketModel::ChallengeResponse { signature: sig, public_key: pk, challenge_id },
        ) && signature@ == sig && public_key@ == pk && (final(conn).state matches
            ConnState::VerifyPending { public_key: spk, challenge_id: scid } && spk@ == pk && scid@
            == challenge_id) && (exists|i: int|
            0 <= i < old(gw).authenticator.challenge_models().len()
                && #[trigger] old(gw).authenticator.challenge_models()[i].id == challenge_id
                && old(gw).authenticator.challenge_models()[i].data == challenge_data@)),
        r is Fail ==> final(conn).state is Terminated,
        spec_decode(frame@) is None ==> (r matches ResponseStep::Fail { frame: out } && out@
            == spec_error_frame(1002, messages::spec_invalid_response())),
        (spec_decode(frame@) matches Option::Some(m) && !(m is ChallengeResponse)) ==> (r matches
            ResponseStep::Fail { frame: out } && out@ == spec_error_frame(
            1002,
            messages::spec_expected_response(),
        )),
        (spec_decode(frame@) matches Option::Some(
            PacketModel::ChallengeResponse { public_key, .. },
        ) && public_key != old(conn).state->AwaitResponse_public_key@) ==> (r matches
            ResponseStep::Fail { frame: out } && out@ == spec_error_frame(
            1001,
            messages::spec_pubkey_mismatch(),
        )),
{
    let p = match decode(frame) {
        Result::Ok(p) => p,
        Result::Err(_) => {
            conn.state = ConnState::Terminated;
            return ResponseStep::Fail {
                frame: error_frame(1002, messages::invalid_response()),
            };
        },
    };
    match p {
        PacketKind::ChallengeResponse { signature, public_key, challenge_id } => {
            let auth_pk = match &conn.state {
                ConnState::AwaitResponse { public_key: pk, .. } => bytes_clone(pk),
                _ => vstd::pervasive::unreached(),
            };
            if !crate::bytes::bytes_eq(&public_key, &auth_pk) {
                conn.state = ConnState::Terminated;
                return ResponseStep::Fail {
                    frame: error_frame(1001, messages::pubkey_mismatch()),
                };
            }
            match gw.authenticator.lookup(&challenge_id, &conn.peer_addr, now) {
                Result::Ok(challenge_data) => {
                    conn.state = ConnState::VerifyPending {
                        public_key: bytes_clone(&public_key),
                        challenge_id: bytes_clone(&challenge_id),
                    };
                    ResponseStep::NeedVerify { challenge_data, signature, public_key }
                },
                Result::Err(_) => {
                    gw.authenticator.consume(&challenge_id);
                    conn.state = ConnState::Terminated;
                    ResponseStep::Fail { frame: error_frame(1001, messages::verify_failed()) }
                },
            }
        },
        _ => {
            conn.state = ConnState::Terminated;
            ResponseStep::Fail { frame: error_frame(1002, messages::expected_response()) }
        },
    }
}

/// What the verification step decides.
pub enum VerifyStep {
    /// Authenticated and admitted: go on to establishment.
    Proceed,
    /// Send this error frame best-effort, then tear down.
    Fail { frame: Vec<u8> },
}

/// The verification step: the challenge is consumed whatever the outcome
/// (single use); the session goes on only when the signature verified and
/// the access-control list admits the client. A verified signature never
/// outweighs a denial.
pub fn finish_verify(gw: &mut Gateway, conn: &mut Conn, sig_valid: bool) -> (r: VerifyStep)
    requires
        old(gw).wf(),
        old(conn).state is VerifyPending,
        conn_wf(*old(conn)),
    ensures
        final(gw).wf(),
        conn_wf(*final(conn)),
        final(gw).registry == old(gw).registry,
        final(gw).pool == old(gw).pool,
        final(gw).keystore == old(gw).keystore,
        final(gw).server_key == old(gw).server_key,
        final(gw).state == old(gw).state,
        final(conn).peer_addr == old(conn).peer_addr,
        !final(gw).authenticator.has_challenge(old(conn).state->VerifyPending_challenge_id@),
        r is Proceed <==> (sig_valid && old(gw).authenticator.acl_allows(
            old(conn).state->VerifyPending_public_key@,
        )),
        r is Proceed ==> (final(conn).state matches ConnState::Establishing { public_key } && public_key@
            == old(conn).state->VerifyPending_public_key@),
        r is Fail ==> final(conn).state is Terminated,
        !sig_valid ==> (r matches VerifyStep::Fail { frame: out } && out@ == spec_error_frame(
            1001,
            messages::spec_verify_failed(),
        )),
        (sig_valid && !old(gw).authenticator.acl_allows(
            old(conn).state->VerifyPending_public_key@,
        )) ==> (r matches VerifyStep::Fail { frame: out } && out@ == spec_error_frame(
            1005,
            messages::spec_acl_denied(),
        )),
{
    let (public_key, challenge_id) = match &conn.state {
        ConnState::VerifyPending { public_key, challenge_id } => (
            bytes_clone(public_key),
            bytes_clone(challenge_id),
        ),
        _ => vstd::pervasive::unreached(),
    };
    gw.authenticator.consume(&challenge_id);
    proof {
        assert(gw.authenticator.acl_models() == old(gw).authenticator.acl_models());
        assert(gw.authenticator.has_acl_entry(public_key@) == old(gw).authenticator.has_acl_entry(public_key@));
        assert(gw.authenticator.acl_allows(public_key@) == old(gw).authenticator.acl_allows(
            public_key@,
        ));
    }
    if !sig_valid {
        conn.state = ConnState::Terminated;
        return VerifyStep::Fail { frame: error_frame(1001, messages::verify_failed()) };
    }
    if !gw.authenticator.is_allowed(&public_key) {
        conn.state = ConnState::Terminated;
        return VerifyStep::Fail { frame: error_frame(1005, messages::acl_denied()) };
    }
    conn.state = ConnState::Establishing { public_key };
    VerifyStep::Proceed
}

/// What the establishment step decides.
pub enum EstablishStep {
    /// Derive the shared secret from these raw key bytes, wrap the session
    /// key, and report through `complete_wrap`.
    Proceed { peer_pubkey: Vec<u8> },
    /// Send this error frame best-effort, then tear down.
    Fail { frame: Vec<u8> },
}

/// The model of the freshly minted session id: the fixed prefix, then the
/// random bytes in hex.
pub open spec fn spec_session_id(rand: Seq<u8>) -> Seq<u8> {
    messages::spec_session_prefix() + crate::bytes::hex_of(rand)
}

proof fn lemma_hex_of_len(s: Seq<u8>)
    ensures
        crate::bytes::hex_of(s).len() == 2 * s.len(),
    decreases s.len(),
{
    if s.len() > 0 {
        lemma_hex_of_len(s.drop_last());
    }
}

/// The establishment step: lease an address, mint the session id and the
/// session key, install the key, and hand out the peer's raw key bytes for
/// the session-key wrap. Fails exactly when no address is free.
#[verifier::rlimit(30)]
pub fn begin_establish(
    gw: &mut Gateway,
    conn: &mut Conn,
    session_rand: &Vec<u8>,
    session_key: Vec<u8>,
    now: u64,
) -> (r: EstablishStep)
    requires
        old(gw).wf(),
        old(conn).state is Establishing,
        conn_wf(*old(conn)),
        session_rand@.len() == 16,
        session_key@.len() == 32,
        forall|i: int|
            0 <= i < old(gw).pool.free_ips().len() ==> wf_bytes(
                #[trigger] old(gw).pool.free_ips()[i],
            ),
    ensures
        final(gw).wf(),
        conn_wf(*final(conn)),
        final(gw).registry == old(gw).registry,
        final(gw).authenticator == old(gw).authenticator,
        final(gw).server_key == old(gw).server_key,
        final(gw).state == old(gw).state,
        final(conn).peer_addr == old(conn).peer_addr,
        r is Proceed <==> old(gw).pool.free_ips().len() > 0,
        r is Fail ==> final(conn).state is Terminated && *final(gw) == *old(gw) && (r matches
            EstablishStep::Fail { frame: out } && out@ == spec_error_frame(
            1007,
            messages::spec_alloc_failed(),
        )),
        r matches EstablishStep::Proceed { peer_pubkey } ==> ({
            let pk = old(conn).state->Establishing_public_key@;
            &&& Option::Some(peer_pubkey@) == base58_decode_32(pk)
            &&& (final(conn).state matches ConnState::WrapPending {
                public_key,
                ip_address,
                session_id,
            } && public_key@ == pk && ip_address@ == old(gw).pool.free_ips().last() && session_id@
                == spec_session_id(session_rand@))
            &&& final(gw).keystore.has_key(pk)
            &&& (exists|i: int|
                0 <= i < final(gw).keystore.models().len()
                    && #[trigger] final(gw).keystore.models()[i].client_id == pk
                    && final(gw).keystore.models()[i].key == session_key@
                    && final(gw).keystore.models()[i].issued_at == now)
            &&& final(gw).pool.free_ips() == old(gw).pool.free_ips().drop_last()
            &&& final(gw).pool.is_leased(old(gw).pool.free_ips().last())
            &&& final(gw).pool.lease_duration == old(gw).pool.lease_duration
        }),
{
    let public_key = match &conn.state {
        ConnState::Establishing { public_key } => bytes_clone(public_key),
        _ => vstd::pervasive::unreached(),
    };
    let ip_address = match gw.pool.allocate(&public_key, now) {
        Option::Some(ip) => ip,
        Option::None => {
            conn.state = ConnState::Terminated;
            return EstablishStep::Fail { frame: error_frame(1007, messages::alloc_failed()) };
        },
    };
    let mut session_id = messages::session_prefix();
    let hx = crate::bytes::hex_bytes(session_rand);
    bytes_extend(&mut session_id, &hx);
    proof {
        lemma_hex_of_len(session_rand@);
    }
    let replaced = gw.keystore.store(&public_key, session_key, now);
    let peer_pubkey = match parse_pubkey(&public_key) {
        Option::Some(b) => b,
        Option::None => vstd::pervasive::unreached(),
    };
    proof {
        if replaced {
            assert(gw.keystore.has_key(public_key@));
        }
    }
    conn.state = ConnState::WrapPending { public_key, ip_address, session_id };
    EstablishStep::Proceed { peer_pubkey }
}

/// What the wrap step decides.
pub enum WrapStep {
    /// Send this address-assignment frame, then report through
    /// `confirm_establish` or `assign_send_failed`.
    Assign { frame: Vec<u8> },
    /// Send this error frame best-effort, then tear down; the address and
    /// the key have been returned.
    Fail { frame: Vec<u8> },
}

/// The wrap step: with the wrapped session key in hand, build the
/// address-assignment frame; when the wrap failed, compensate in reverse
/// order, returning the address and erasing the key.
#[verifier::rlimit(30)]
pub fn complete_wrap(gw: &mut Gateway, conn: &mut Conn, wrap: Option<(Vec<u8>, Vec<u8>)>) -> (r:
    WrapStep)
    requires
        old(gw).wf(),
        old(conn).state is WrapPending,
        conn_wf(*old(conn)),
        wrap matches Option::Some((ct, nonce)) ==> wf_bytes(ct@) && wf_bytes(nonce@),
    ensures
        final(gw).wf(),
        conn_wf(*final(conn)),
        final(gw).registry == old(gw).registry,
        final(gw).authenticator == old(gw).authenticator,
        final(gw).server_key == old(gw).server_key,
        final(gw).state == old(gw).state,
        final(conn).peer_addr == old(conn).peer_addr,
        r is Assign <==> wrap is Some,
        r matches WrapStep::Assign { frame: out } ==> (*final(gw) == *old(gw) && (wrap matches
            Option::Some((ct, nonce)) && out@ == spec_encode(
            PacketModel::IpAssign {
                ip_address: old(conn).state->WrapPending_ip_address@,
                lease_duration: old(gw).pool.lease_duration,
                session_id: old(conn).state->WrapPending_session_id@,
                encrypted_session_key: ct@,
                key_nonce: nonce@,
            },
        )) && (final(conn).state matches ConnState::AssignPending {
            public_key,
            ip_address,
            session_id,
        } && public_key@ == old(conn).state->WrapPending_public_key@ && ip_address@ == old(conn).state->WrapPending_ip_address@ && session_id@ == old(conn).state->WrapPending_session_id@)),
        r is Fail ==> ({
            &&& final(conn).state is Terminated
            &&& (r matches WrapStep::Fail { frame: out } && out@ == spec_error_frame(
                1006,
                messages::spec_crypto_failed(),
            ))
            &&& !final(gw).pool.is_leased(old(conn).state->WrapPending_ip_address@)
            &&& !final(gw).keystore.has_key(old(conn).state->WrapPending_public_key@)
            &&& (old(gw).pool.is_leased(old(conn).state->WrapPending_ip_address@) ==> final(gw).pool.free_ips() == old(gw).pool.free_ips().push(
                old(conn).state->WrapPending_ip_address@,
            ))
        }),
{
    let (public_key, ip_address, session_id) = match &conn.state {
        ConnState::WrapPending { public_key, ip_address, session_id } => (
            bytes_clone(public_key),
            bytes_clone(ip_address),
            bytes_clone(session_id),
        ),
        _ => vstd::pervasive::unreached(),
    };
    match wrap {
        Option::Some((encrypted_session_key, key_nonce)) => {
            let lease_duration = gw.pool.default_lease_duration();
            let p = PacketKind::IpAssign {
                ip_address,
                lease_duration,
                session_id,
                encrypted_session_key,
                key_nonce,
            };
            let out = match encode(&p) {
                Result::Ok(f) => f,
                Result::Err(_) => vstd::pervasive::unreached(),
            };
            conn.state = ConnState::AssignPending {
                public_key,
                ip_address: match &conn.state {
                    ConnState::WrapPending { ip_address, .. } => bytes_clone(ip_address),
                    _ => vstd::pervasive::unreached(),
                },
                session_id: match &conn.state {
                    ConnState::WrapPending { session_id, .. } => bytes_clone(session_id),
                    _ => vstd::pervasive::unreached(),
                },
            };
            WrapStep::Assign { frame: out }
        },
        Option::None => {
            gw.pool.release(&ip_address);
            gw.keystore.remove(&public_key);
            conn.state = ConnState::Terminated;
            WrapStep::Fail { frame: error_frame(1006, messages::crypto_failed()) }
        },
    }
}

/// The address-assignment frame could not be sent: compensate, returning the
/// address and erasing the key.
pub fn assign_send_failed(gw: &mut Gateway, conn: &mut Conn)
    requires
        old(gw).wf(),
        old(conn).state is AssignPending,
    ensures
        final(gw).wf(),
        final(conn).state is Terminated,
        final(conn).peer_addr == old(conn).peer_addr,
        final(gw).registry == old(gw).registry,
        final(gw).authenticator == old(gw).authenticator,
        final(gw).server_key == old(gw).server_key,
        final(gw).state == old(gw).state,
        !final(gw).pool.is_leased(old(conn).state->AssignPending_ip_address@),
        !final(gw).keystore.has_key(old(conn).state->AssignPending_public_key@),
        old(gw).pool.is_leased(old(conn).state->AssignPending_ip_address@) ==> final(gw).pool.free_ips() == old(gw).pool.free_ips().push(
            old(conn).state->AssignPending_ip_address@,
        ),
{
    let (public_key, ip_address) = match &conn.state {
        ConnState::AssignPending { public_key, ip_address, .. } => (
            bytes_clone(public_key),
            bytes_clone(ip_address),
        ),
        _ => vstd::pervasive::unreached(),
    };
    gw.pool.release(&ip_address);
    gw.keystore.remove(&public_key);
    conn.state = ConnState::Terminated;
}

/// The address assignment reached the client: construct the session and
/// register it. Registration succeeds exactly when neither the session id,
/// the client, nor the address is already registered; the registry then
/// holds exactly one entry for the session.
pub fn confirm_establish(gw: &mut Gateway, conn: &mut Conn, now: u64) -> (r: (Session, bool))
    requires
        old(gw).wf(),
        old(conn).state is AssignPending,
    ensures
        final(gw).wf(),
        final(conn).state is Running,
        final(conn).peer_addr == old(conn).peer_addr,
        final(gw).authenticator == old(gw).authenticator,
        final(gw).pool == old(gw).pool,
        final(gw).keystore == old(gw).keystore,
        final(gw).server_key == old(gw).server_key,
        final(gw).state == old(gw).state,
        r.0@.session_id == old(conn).state->AssignPending_session_id@,
        r.0@.client_id == old(conn).state->AssignPending_public_key@,
        r.0@.ip_address == old(conn).state->AssignPending_ip_address@,
        r.0@.peer_addr == old(conn).peer_addr@,
        r.0@.last_activity == now,
        r.0@.last_counter is None,
        r.1 == (!old(gw).registry.has_session(r.0@.session_id) && !old(gw).registry.has_client(
            r.0@.client_id,
        ) && !old(gw).registry.has_ip(r.0@.ip_address)),
        r.1 ==> final(gw).registry.has_session(r.0@.session_id) && final(gw).registry.models()
            == old(gw).registry.models().push(r.0@),
        !r.1 ==> final(gw).registry == old(gw).registry,
{
    let (public_key, ip_address, session_id) = match &conn.state {
        ConnState::AssignPending { public_key, ip_address, session_id } => (
            bytes_clone(public_key),
            bytes_clone(ip_address),
            bytes_clone(session_id),
        ),
        _ => vstd::pervasive::unreached(),
    };
    let s = Session::new(&session_id, &public_key, &ip_address, &conn.peer_addr, now);
    let reg_copy = Session::new(&session_id, &public_key, &ip_address, &conn.peer_addr, now);
    let added = gw.registry.add(reg_copy);
    conn.state = ConnState::Running;
    (s, added)
}

/// Whether the inbound loop must stop for shutdown: when the server is not
/// running, the client is told the server is shutting down and the session
/// ends.
pub fn precheck_server(gw: &Gateway) -> (r: Option<Vec<u8>>)
    ensures
        r is None <==> gw.state is Running,
        r matches Some(f) ==> f@ == spec_encode(
            PacketModel::Disconnect { reason: 2, message: messages::spec_server_shutdown() },
        ),
{
    match gw.state {
        ServerState::Running => Option::None,
        _ => {
            let p = PacketKind::Disconnect { reason: 2, message: messages::server_shutdown() };
            match encode(&p) {
                Result::Ok(f) => Option::Some(f),
                Result::Err(_) => vstd::pervasive::unreached(),
            }
        },
    }
}

/// One heartbeat: a ping frame stamped now, and the next sequence number,
/// wrapping.
pub fn heartbeat_tick(now: u64, sequence: u64) -> (r: (Vec<u8>, u64))
    ensures
        r.0@ == spec_encode(PacketModel::Ping { timestamp: now, sequence }),
        r.1 == (if sequence == u64::MAX {
            0u64
        } else {
            (sequence + 1) as u64
        }),
{
    let p = PacketKind::Ping { timestamp: now, sequence };
    let f = match encode(&p) {
        Result::Ok(f) => f,
        Result::Err(_) => vstd::pervasive::unreached(),
    };
    let next: u64 = if sequence == u64::MAX {
        0
    } else {
        sequence + 1
    };
    (f, next)
}

/// What the inbound loop does with one frame.
pub enum RunningStep {
    /// Drop the frame (malformed, replayed, keyless, or unexpected) and go
    /// on.
    Ignore,
    /// Hand this ciphertext, nonce, and session key to the router.
    Route { ciphertext: Vec<u8>, nonce: Vec<u8>, key: Vec<u8> },
    /// Send this frame; a failed send ends the session.
    Respond { frame: Vec<u8> },
    /// Record this round-trip time.
    RecordRtt { rtt: u64 },
    /// The client disconnected in good order.
    Close,
}

/// One steady-state inbound frame: activity is recorded for every decodable
/// frame, data frames pass the replay rule before routing, a ping earns
/// exactly one pong echoing its sequence and timestamp, renewals must match
/// the session, and a disconnect ends the loop. A malformed frame is
/// dropped, never fatal.
#[verifier::rlimit(60)]
pub fn handle_running_frame(gw: &mut Gateway, session: &mut Session, frame: &Vec<u8>, now: u64) -> (
    r: RunningStep)
    requires
        old(gw).wf(),
        wf_bytes(old(session)@.session_id),
    ensures
        final(gw).wf(),
        final(gw).registry == old(gw).registry,
        final(gw).keystore == old(gw).keystore,
        final(gw).authenticator == old(gw).authenticator,
        final(gw).server_key == old(gw).server_key,
        final(gw).state == old(gw).state,
        final(gw).pool.lease_duration == old(gw).pool.lease_duration,
        final(session)@.session_id == old(session)@.session_id,
        final(session)@.client_id == old(session)@.client_id,
        final(session)@.ip_address == old(session)@.ip_address,
        final(session)@.peer_addr == old(session)@.peer_addr,
        spec_decode(frame@) is None ==> (r is Ignore && *final(session) == *old(session) && final(gw).pool == old(gw).pool),
        spec_decode(frame@) is Some ==> final(session)@.last_activity == now,
        spec_decode(frame@) matches Option::Some(PacketModel::Data { encrypted, nonce, counter, .. })
            ==> ({
            let accepted = counter_accepted(old(session)@.last_counter, counter);
            &&& final(gw).pool == old(gw).pool
            &&& accepted ==> final(session)@.last_counter == Option::Some(counter)
            &&& !accepted ==> (r is Ignore && final(session)@.last_counter == old(session)@.last_counter)
            &&& (accepted && old(gw).keystore.has_key(old(session)@.client_id)) ==> (r matches
                RunningStep::Route { ciphertext, nonce: n, key } && ciphertext@ == encrypted && n@
                == nonce && (exists|i: int|
                0 <= i < old(gw).keystore.models().len()
                    && #[trigger] old(gw).keystore.models()[i].client_id == old(session)@.client_id && old(gw).keystore.models()[i].key == key@))
            &&& (accepted && !old(gw).keystore.has_key(old(session)@.client_id)) ==> r is Ignore
        }),
        spec_decode(frame@) matches Option::Some(PacketModel::Ping { timestamp, sequence }) ==> (
        final(gw).pool == old(gw).pool && final(session)@.last_counter == old(session)@.last_counter && (r matches RunningStep::Respond { frame: out } && out@ == spec_encode(
            PacketModel::Pong { echo_timestamp: timestamp, server_timestamp: now, sequence },
        ))),
        spec_decode(frame@) matches Option::Some(PacketModel::Pong { echo_timestamp, .. }) ==> (
        final(gw).pool == old(gw).pool && final(session)@.last_counter == old(session)@.last_counter && (now >= echo_timestamp ==> (r matches RunningStep::RecordRtt { rtt }
            && rtt == now - echo_timestamp)) && (now < echo_timestamp ==> r is Ignore)),
        spec_decode(frame@) matches Option::Some(
            PacketModel::IpRenewal { session_id: rsid, ip_address: rip },
        ) ==> ({
            &&& final(session)@.last_counter == old(session)@.last_counter
            &&& (rsid != old(session)@.session_id || rip != old(session)@.ip_address) ==> (r
                is Ignore && final(gw).pool == old(gw).pool)
            &&& (rsid == old(session)@.session_id && rip == old(session)@.ip_address) ==> ({
                &&& final(gw).pool.free_ips() == old(gw).pool.free_ips()
                &&& old(gw).pool.is_leased(rip) ==> (r matches RunningStep::Respond { frame: out }
                    && out@ == spec_encode(
                    PacketModel::IpRenewalResponse {
                        session_id: rsid,
                        expires_at: spec_sat_add(now, old(gw).pool.lease_duration),
                        success: true,
                    },
                ))
                &&& !old(gw).pool.is_leased(rip) ==> (final(gw).pool == old(gw).pool && (r matches
                    RunningStep::Respond { frame: out } && out@ == spec_encode(
                    PacketModel::IpRenewalResponse { session_id: rsid, expires_at: 0, success: false },
                )))
            })
        }),
        spec_decode(frame@) matches Option::Some(PacketModel::Disconnect { .. }) ==> (r is Close
            && final(gw).pool == old(gw).pool && final(session)@.last_counter == old(session)@.last_counter),
        spec_decode(frame@) matches Option::Some(m) ==> ((m is Auth || m is Challenge || m
            is ChallengeResponse || m is IpAssign || m is IpRenewalResponse || m is KeyRotation || m
            is Error) ==> (r is Ignore && final(gw).pool == old(gw).pool && final(session)@.last_counter == old(session)@.last_counter)),
{
    let p = match decode(frame) {
        Result::Ok(p) => p,
        Result::Err(_) => {
            return RunningStep::Ignore;
        },
    };
    session.update_activity(now);
    match p {
        PacketKind::Data { encrypted, nonce, counter, .. } => {
            let accepted = session.update_counter(counter);
            if !accepted {
                return RunningStep::Ignore;
            }
            match gw.keystore.get(&session.client_id) {
                Option::Some(key) => RunningStep::Route { ciphertext: encrypted, nonce, key },
                Option::None => RunningStep::Ignore,
            }
        },
        PacketKind::Ping { timestamp, sequence } => {
            let pong = PacketKind::Pong {
                echo_timestamp: timestamp,
                server_timestamp: now,
                sequence,
            };
            let out = match encode(&pong) {
                Result::Ok(f) => f,
                Result::Err(_) => vstd::pervasive::unreached(),
            };
            RunningStep::Respond { frame: out }
        },
        PacketKind::Pong { echo_timestamp, .. } => {
            if now >= echo_timestamp {
                RunningStep::RecordRtt { rtt: now - echo_timestamp }
            } else {
                RunningStep::Ignore
            }
        },
        PacketKind::IpRenewal { session_id: rsid, ip_address: rip } => {
            if !crate::bytes::bytes_eq(&rsid, &session.session_id) {
                return RunningStep::Ignore;
            }
            if !crate::bytes::bytes_eq(&rip, &session.ip_address) {
                return RunningStep::Ignore;
            }
            let response = match gw.pool.renew(&session.ip_address, now) {
                Option::Some(expires_at) => PacketKind::IpRenewalResponse {
                    session_id: bytes_clone(&session.session_id),
                    expires_at,
                    success: true,
                },
                Option::None => PacketKind::IpRenewalResponse {
                    session_id: bytes_clone(&session.session_id),
                    expires_at: 0,
                    success: false,
                },
            };
            let out = match encode(&response) {
                Result::Ok(f) => f,
                Result::Err(_) => vstd::pervasive::unreached(),
            };
            RunningStep::Respond { frame: out }
        },
        PacketKind::Disconnect { .. } => RunningStep::Close,
        _ => RunningStep::Ignore,
    }
}

/// Whether the client's key is due for rotation; if so, the current key is
/// handed out for wrapping the replacement. A rotation begins only when the
/// key's age has reached the threshold.
pub fn begin_rotation(gw: &Gateway, client_id: &Vec<u8>, now: u64) -> (r: Option<Vec<u8>>)
    requires
        gw.wf(),
    ensures
        r is Some <==> (exists|i: int|
            0 <= i < gw.keystore.models().len() && #[trigger] gw.keystore.models()[i].client_id
                == client_id@ && now >= spec_sat_add(
                gw.keystore.models()[i].issued_at,
                gw.keystore.rotation_threshold,
            )),
        r matches Some(key) ==> exists|i: int|
            0 <= i < gw.keystore.models().len() && #[trigger] gw.keystore.models()[i].client_id
                == client_id@ && gw.keystore.models()[i].key == key@,
{
    if gw.keystore.needs_rotation(client_id, now) {
        match gw.keystore.get(client_id) {
            Option::Some(key) => Option::Some(key),
            Option::None => vstd::pervasive::unreached(),
        }
    } else {
        Option::None
    }
}

/// The bytes the server signs for a rotation: the key id, then the nonce.
pub fn make_rotation_sign_data(key_id: &Vec<u8>, nonce: &Vec<u8>) -> (r: Vec<u8>)
    ensures
        r@ == key_id@ + nonce@,
{
    let mut r = bytes_clone(key_id);
    bytes_extend(&mut r, nonce);
    r
}

/// The rotation frame announcing a wrapped replacement key.
pub fn build_key_rotation(
    encrypted_new_key: Vec<u8>,
    nonce: Vec<u8>,
    key_id: Vec<u8>,
    signature: Vec<u8>,
) -> (r: Vec<u8>)
    requires
        wf_bytes(encrypted_new_key@),
        wf_bytes(nonce@),
        wf_bytes(key_id@),
        wf_bytes(signature@),
    ensures
        r@ == spec_encode(
            PacketModel::KeyRotation {
                encrypted_new_key: encrypted_new_key@,
                nonce: nonce@,
                key_id: key_id@,
                signature: signature@,
            },
        ),
{
    let p = PacketKind::KeyRotation { encrypted_new_key, nonce, key_id, signature };
    match encode(&p) {
        Result::Ok(f) => f,
        Result::Err(_) => vstd::pervasive::unreached(),
    }
}

/// After the rotation frame was sent: atomically replace the stored session
/// key. The store then reflects the new key.
pub fn commit_rotation(gw: &mut Gateway, client_id: &Vec<u8>, new_key: Vec<u8>, now: u64)
    requires
        old(gw).wf(),
    ensures
        final(gw).wf(),
        final(gw).registry == old(gw).registry,
        final(gw).pool == old(gw).pool,
        final(gw).authenticator == old(gw).authenticator,
        final(gw).server_key == old(gw).server_key,
        final(gw).state == old(gw).state,
        final(gw).keystore.has_key(client_id@),
        exists|i: int|
            0 <= i < final(gw).keystore.models().len()
                && #[trigger] final(gw).keystore.models()[i].client_id == client_id@ && final(gw).keystore.models()[i].key == new_key@ && final(gw).keystore.models()[i].issued_at
                == now,
{
    let ghost k = new_key@;
    let replaced = gw.keystore.store(client_id, new_key, now);
    proof {
        if replaced {
            assert(exists|i: int|
                0 <= i < gw.keystore.models().len()
                    && #[trigger] gw.keystore.models()[i].client_id == client_id@
                    && gw.keystore.models()[i].key == k && gw.keystore.models()[i].issued_at
                    == now);
        } else {
            assert(gw.keystore.models()[gw.keystore.models().len() - 1].client_id == client_id@);
        }
    }
}

/// Tear a session down, exactly once per session in practice and harmlessly
/// repeatable: deregister, return the address, erase the key. Afterwards
/// none of the three is held, and a cleanup that finds nothing to undo
/// changes nothing.
pub fn cleanup(gw: &mut Gateway, session_id: &Vec<u8>, client_id: &Vec<u8>, ip_address: &Vec<u8>)
    requires
        old(gw).wf(),
    ensures
        final(gw).wf(),
        final(gw).authenticator == old(gw).authenticator,
        final(gw).server_key == old(gw).server_key,
        final(gw).state == old(gw).state,
        final(gw).pool.lease_duration == old(gw).pool.lease_duration,
        !final(gw).registry.has_session(session_id@),
        !final(gw).pool.is_leased(ip_address@),
        !final(gw).keystore.has_key(client_id@),
        old(gw).pool.is_leased(ip_address@) ==> final(gw).pool.free_ips() == old(gw).pool.free_ips().push(ip_address@),
        !old(gw).pool.is_leased(ip_address@) ==> final(gw).pool == old(gw).pool,
        (!old(gw).registry.has_session(session_id@) && !old(gw).pool.is_leased(ip_address@) && !old(gw).keystore.has_key(client_id@)) ==> *final(gw) == *old(gw),
{
    gw.registry.remove(session_id);
    gw.pool.release(ip_address);
    gw.keystore.remove(client_id);
}

/// Cleanup is idempotent. `cleanup` guarantees two things: afterwards the
/// session, its address, and its key are all unheld; and a cleanup that
/// finds all three unheld changes nothing. So where `after_first` is what
/// one cleanup left and `after_second` what a repetition produced, the
/// repetition was the identity.
pub proof fn lemma_cleanup_idempotent(
    after_first: Gateway,
    after_second: Gateway,
    session_id: Seq<u8>,
    client_id: Seq<u8>,
    ip_address: Seq<u8>,
)
    requires
        !after_first.registry.has_session(session_id),
        !after_first.pool.is_leased(ip_address),
        !after_first.keystore.has_key(client_id),
        (!after_first.registry.has_session(session_id) && !after_first.pool.is_leased(ip_address)
            && !after_first.keystore.has_key(client_id)) ==> after_second == after_first,
    ensures
        after_second == after_first,
{
}

} // verus!
