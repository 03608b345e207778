//! Frame codec: a canonical tagged binary encoding of `PacketKind`.
//!
//! Each frame is one tag byte followed by the variant's fields in order.
//! Integers are little-endian; variable-length fields carry a four-byte
//! length prefix; a string list carries a four-byte count; an optional
//! field carries a one-byte presence flag. The encoding is canonical:
//! decoding accepts exactly the byte strings that `spec_encode` produces.
use vstd::prelude::*;
use crate::packet::{PacketKind, PacketModel, wf_bytes, wf_packet, wf_strs};

verus! {

/// Decode-side error: the frame is not a canonical encoding of any packet.
#[derive(PartialEq, Eq, Structural, Clone, Copy, Debug)]
pub enum ProtocolError {
    /// The tag byte names no packet kind.
    UnknownTag,
    /// The frame ends before a field does.
    Truncated,
    /// A field holds an impossible value or the frame has trailing bytes.
    BadField,
}

/// Encode-side error: a field is too long for its length prefix.
#[derive(PartialEq, Eq, Structural, Clone, Copy, Debug)]
pub enum EncodeError {
    Oversize,
}

// ---------- encoding, at the specification level ----------

pub open spec fn le16(v: u16) -> Seq<u8> {
    seq![v as u8, (v >> 8) as u8]
}

pub open spec fn le32(v: u32) -> Seq<u8> {
    seq![v as u8, (v >> 8) as u8, (v >> 16) as u8, (v >> 24) as u8]
}

pub open spec fn le64(v: u64) -> Seq<u8> {
    seq![
        v as u8,
        (v >> 8) as u8,
        (v >> 16) as u8,
        (v >> 24) as u8,
        (v >> 32) as u8,
        (v >> 40) as u8,
        (v >> 48) as u8,
        (v >> 56) as u8,
    ]
}

pub open spec fn enc_bool(b: bool) -> Seq<u8> {
    if b {
        seq![1u8]
    } else {
        seq![0u8]
    }
}

pub open spec fn enc_bytes(b: Seq<u8>) -> Seq<u8> {
    le32(b.len() as u32) + b
}

pub open spec fn enc_strs(l: Seq<Seq<u8>>) -> Seq<u8>
    decreases l.len(),
{
    if l.len() == 0 {
        Seq::empty()
    } else {
        enc_bytes(l[0]) + enc_strs(l.drop_first())
    }
}

pub open spec fn enc_list(l: Seq<Seq<u8>>) -> Seq<u8> {
    le32(l.len() as u32) + enc_strs(l)
}

pub open spec fn enc_opt(p: Option<Seq<u8>>) -> Seq<u8> {
    match p {
        Option::Some(b) => seq![1u8] + enc_bytes(b),
        Option::None => seq![0u8],
    }
}

// ---------- decoding, at the specification level ----------

pub open spec fn dec_u16_at(s: Seq<u8>, i: int) -> Option<(u16, int)> {
    if 0 <= i && i + 2 <= s.len() {
        Option::Some(((s[i] as u16) | ((s[i + 1] as u16) << 8), i + 2))
    } else {
        Option::None
    }
}

pub open spec fn dec_u32_at(s: Seq<u8>, i: int) -> Option<(u32, int)> {
    if 0 <= i && i + 4 <= s.len() {
        Option::Some(
            (
                (s[i] as u32) | ((s[i + 1] as u32) << 8) | ((s[i + 2] as u32) << 16) | ((s[i
                    + 3] as u32) << 24),
                i + 4,
            ),
        )
    } else {
        Option::None
    }
}

pub open spec fn dec_u64_at(s: Seq<u8>, i: int) -> Option<(u64, int)> {
    if 0 <= i && i + 8 <= s.len() {
        Option::Some(
            (
                (s[i] as u64) | ((s[i + 1] as u64) << 8) | ((s[i + 2] as u64) << 16) | ((s[i
                    + 3] as u64) << 24) | ((s[i + 4] as u64) << 32) | ((s[i + 5] as u64) << 40) | ((
                s[i + 6] as u64) << 48) | ((s[i + 7] as u64) << 56),
                i + 8,
            ),
        )
    } else {
        Option::None
    }
}

pub open spec fn dec_bool_at(s: Seq<u8>, i: int) -> Option<(bool, int)> {
    if 0 <= i && i + 1 <= s.len() {
        if s[i] == 0u8 {
            Option::Some((false, i + 1))
        } else if s[i] == 1u8 {
            Option::Some((true, i + 1))
        } else {
            Option::None
        }
    } else {
        Option::None
    }
}

pub open spec fn dec_bytes_at(s: Seq<u8>, i: int) -> Option<(Seq<u8>, int)> {
    match dec_u32_at(s, i) {
        Option::Some((n, j)) => if j + n <= s.len() {
            Option::Some((s.subrange(j, j + n), j + n))
        } else {
            Option::None
        },
        Option::None => Option::None,
    }
}

pub open spec fn dec_strs_at(s: Seq<u8>, i: int, n: int) -> Option<(Seq<Seq<u8>>, int)>
    decreases n,
{
    if n <= 0 {
        Option::Some((Seq::empty(), i))
    } else {
        match dec_bytes_at(s, i) {
            Option::Some((b, j)) => match dec_strs_at(s, j, n - 1) {
                Option::Some((rest, k)) => Option::Some((seq![b] + rest, k)),
                Option::None => Option::None,
            },
            Option::None => Option::None,
        }
    }
}

pub open spec fn dec_list_at(s: Seq<u8>, i: int) -> Option<(Seq<Seq<u8>>, int)> {
    match dec_u32_at(s, i) {
        Option::Some((n, j)) => dec_strs_at(s, j, n as int),
        Option::None => Option::None,
    }
}

pub open spec fn dec_opt_at(s: Seq<u8>, i: int) -> Option<(Option<Seq<u8>>, int)> {
    if 0 <= i && i + 1 <= s.len() {
        if s[i] == 0u8 {
            Option::Some((Option::None, i + 1))
        } else if s[i] == 1u8 {
            match dec_bytes_at(s, i + 1) {
                Option::Some((b, j)) => Option::Some((Option::Some(b), j)),
                Option::None => Option::None,
            }
        } else {
            Option::None
        }
    } else {
        Option::None
    }
}

// ---------- whole packets, at the specification level ----------

/// The canonical frame for a packet model.
pub open spec fn spec_encode(m: PacketModel) -> Seq<u8> {
    match m {
        PacketModel::Auth { public_key, version, features, nonce } => seq![1u8] + enc_bytes(
            public_key,
        ) + enc_bytes(version) + enc_list(features) + enc_bytes(nonce),
        PacketModel::Challenge { data, server_key, expires_at, id } => seq![2u8] + enc_bytes(data)
            + enc_bytes(server_key) + le64(expires_at) + enc_bytes(id),
        PacketModel::ChallengeResponse { signature, public_key, challenge_id } => seq![3u8]
            + enc_bytes(signature) + enc_bytes(public_key) + enc_bytes(challenge_id),
        PacketModel::IpAssign {
            ip_address,
            lease_duration,
            session_id,
            encrypted_session_key,
            key_nonce,
        } => seq![4u8] + enc_bytes(ip_address) + le64(lease_duration) + enc_bytes(session_id)
            + enc_bytes(encrypted_session_key) + enc_bytes(key_nonce),
        PacketModel::IpRenewal { session_id, ip_address } => seq![5u8] + enc_bytes(session_id)
            + enc_bytes(ip_address),
        PacketModel::IpRenewalResponse { session_id, expires_at, success } => seq![6u8] + enc_bytes(
            session_id,
        ) + le64(expires_at) + enc_bool(success),
        PacketModel::Data { encrypted, nonce, counter, padding } => seq![7u8] + enc_bytes(encrypted)
            + enc_bytes(nonce) + le64(counter) + enc_opt(padding),
        PacketModel::Ping { timestamp, sequence } => seq![8u8] + le64(timestamp) + le64(sequence),
        PacketModel::Pong { echo_timestamp, server_timestamp, sequence } => seq![9u8] + le64(
            echo_timestamp,
        ) + le64(server_timestamp) + le64(sequence),
        PacketModel::KeyRotation { encrypted_new_key, nonce, key_id, signature } => seq![10u8]
            + enc_bytes(encrypted_new_key) + enc_bytes(nonce) + enc_bytes(key_id) + enc_bytes(
            signature,
        ),
        PacketModel::Disconnect { reason, message } => seq![11u8] + le16(reason) + enc_bytes(
            message,
        ),
        PacketModel::Error { code, message } => seq![12u8] + le16(code) + enc_bytes(message),
    }
}

pub open spec fn spec_dec_auth(s: Seq<u8>) -> Option<PacketModel> {
    match dec_bytes_at(s, 1) {
        Option::Some((public_key, i1)) => match dec_bytes_at(s, i1) {
            Option::Some((version, i2)) => match dec_list_at(s, i2) {
                Option::Some((features, i3)) => match dec_bytes_at(s, i3) {
                    Option::Some((nonce, i4)) => if i4 == s.len() {
                        Option::Some(PacketModel::Auth { public_key, version, features, nonce })
                    } else {
                        Option::None
                    },
                    Option::None => Option::None,
                },
                Option::None => Option::None,
            },
            Option::None => Option::None,
        },
        Option::None => Option::None,
    }
}

pub open spec fn spec_dec_challenge(s: Seq<u8>) -> Option<PacketModel> {
    match dec_bytes_at(s, 1) {
        Option::Some((data, i1)) => match dec_bytes_at(s, i1) {
            Option::Some((server_key, i2)) => match dec_u64_at(s, i2) {
                Option::Some((expires_at, i3)) => match dec_bytes_at(s, i3) {
                    Option::Some((id, i4)) => if i4 == s.len() {
                        Option::Some(PacketModel::Challenge { data, server_key, expires_at, id })
                    } else {
                        Option::None
                    },
                    Option::None => Option::None,
                },
                Option::None => Option::None,
            },
            Option::None => Option::None,
        },
        Option::None => Option::None,
    }
}

pub open spec fn spec_dec_response(s: Seq<u8>) -> Option<PacketModel> {
    match dec_bytes_at(s, 1) {
        Option::Some((signature, i1)) => match dec_bytes_at(s, i1) {
            Option::Some((public_key, i2)) => match dec_bytes_at(s, i2) {
                Option::Some((challenge_id, i3)) => if i3 == s.len() {
                    Option::Some(
                        PacketModel::ChallengeResponse { signature, public_key, challenge_id },
                    )
                } else {
                    Option::None
                },
                Option::None => Option::None,
            },
            Option::None => Option::None,
        },
        Option::None => Option::None,
    }
}

pub open spec fn spec_dec_ip_assign(s: Seq<u8>) -> Option<PacketModel> {
    match dec_bytes_at(s, 1) {
        Option::Some((ip_address, i1)) => match dec_u64_at(s, i1) {
            Option::Some((lease_duration, i2)) => match dec_bytes_at(s, i2) {
                Option::Some((session_id, i3)) => match dec_bytes_at(s, i3) {
                    Option::Some((encrypted_session_key, i4)) => match dec_bytes_at(s, i4) {
                        Option::Some((key_nonce, i5)) => if i5 == s.len() {
                            Option::Some(
                                PacketModel::IpAssign {
                                    ip_address,
                                    lease_duration,
                                    session_id,
                                    encrypted_session_key,
                                    key_nonce,
                                },
                            )
                        } else {
                            Option::None
                        },
                        Option::None => Option::None,
                    },
                    Option::None => Option::None,
                },
                Option::None => Option::None,
            },
            Option::None => Option::None,
        },
        Option::None => Option::None,
    }
}

pub open spec fn spec_dec_ip_renewal(s: Seq<u8>) -> Option<PacketModel> {
    match dec_bytes_at(s, 1) {
        Option::Some((session_id, i1)) => match dec_bytes_at(s, i1) {
            Option::Some((ip_address, i2)) => if i2 == s.len() {
                Option::Some(PacketModel::IpRenewal { session_id, ip_address })
            } else {
                Option::None
            },
            Option::None => Option::None,
        },
        Option::None => Option::None,
    }
}

pub open spec fn spec_dec_ip_renewal_response(s: Seq<u8>) -> Option<PacketModel> {
    match dec_bytes_at(s, 1) {
        Option::Some((session_id, i1)) => match dec_u64_at(s, i1) {
            Option::Some((expires_at, i2)) => match dec_bool_at(s, i2) {
                Option::Some((success, i3)) => if i3 == s.len() {
                    Option::Some(
                        PacketModel::IpRenewalResponse { session_id, expires_at, success },
                    )
                } else {
                    Option::None
                },
                Option::None => Option::None,
            },
            Option::None => Option::None,
        },
        Option::None => Option::None,
    }
}

pub open spec fn spec_dec_data(s: Seq<u8>) -> Option<PacketModel> {
    match dec_bytes_at(s, 1) {
        Option::Some((encrypted, i1)) => match dec_bytes_at(s, i1) {
            Option::Some((nonce, i2)) => match dec_u64_at(s, i2) {
                Option::Some((counter, i3)) => match dec_opt_at(s, i3) {
                    Option::Some((padding, i4)) => if i4 == s.len() {
                        Option::Some(PacketModel::Data { encrypted, nonce, counter, padding })
                    } else {
                        Option::None
                    },
                    Option::None => Option::None,
                },
                Option::None => Option::None,
            },
            Option::None => Option::None,
        },
        Option::None => Option::None,
    }
}

pub open spec fn spec_dec_ping(s: Seq<u8>) -> Option<PacketModel> {
    match dec_u64_at(s, 1) {
        Option::Some((timestamp, i1)) => match dec_u64_at(s, i1) {
            Option::Some((sequence, i2)) => if i2 == s.len() {
                Option::Some(PacketModel::Ping { timestamp, sequence })
            } else {
                Option::None
            },
            Option::None => Option::None,
        },
        Option::None => Option::None,
    }
}

pub open spec fn spec_dec_pong(s: Seq<u8>) -> Option<PacketModel> {
    match dec_u64_at(s, 1) {
        Option::Some((echo_timestamp, i1)) => match dec_u64_at(s, i1) {
            Option::Some((server_timestamp, i2)) => match dec_u64_at(s, i2) {
                Option::Some((sequence, i3)) => if i3 == s.len() {
                    Option::Some(
                        PacketModel::Pong { echo_timestamp, server_timestamp, sequence },
                    )
                } else {
                    Option::None
                },
                Option::None => Option::None,
            },
            Option::None => Option::None,
        },
        Option::None => Option::None,
    }
}

pub open spec fn spec_dec_key_rotation(s: Seq<u8>) -> Option<PacketModel> {
    match dec_bytes_at(s, 1) {
        Option::Some((encrypted_new_key, i1)) => match dec_bytes_at(s, i1) {
            Option::Some((nonce, i2)) => match dec_bytes_at(s, i2) {
                Option::Some((key_id, i3)) => match dec_bytes_at(s, i3) {
                    Option::Some((signature, i4)) => if i4 == s.len() {
                        Option::Some(
                            PacketModel::KeyRotation { encrypted_new_key, nonce, key_id, signature },
                        )
                    } else {
                        Option::None
                    },
                    Option::None => Option::None,
                },
                Option::None => Option::None,
            },
            Option::None => Option::None,
        },
        Option::None => Option::None,
    }
}

pub open spec fn spec_dec_disconnect(s: Seq<u8>) -> Option<PacketModel> {
    match dec_u16_at(s, 1) {
        Option::Some((reason, i1)) => match dec_bytes_at(s, i1) {
            Option::Some((message, i2)) => if i2 == s.len() {
                Option::Some(PacketModel::Disconnect { reason, message })
            } else {
                Option::None
            },
            Option::None => Option::None,
        },
        Option::None => Option::None,
    }
}

pub open spec fn spec_dec_error(s: Seq<u8>) -> Option<PacketModel> {
    match dec_u16_at(s, 1) {
        Option::Some((code, i1)) => match dec_bytes_at(s, i1) {
            Option::Some((message, i2)) => if i2 == s.len() {
                Option::Some(PacketModel::Error { code, message })
            } else {
                Option::None
            },
            Option::None => Option::None,
        },
        Option::None => Option::None,
    }
}

/// The packet model a frame stands for, or nothing when the frame is not a
/// canonical encoding.
pub open spec fn spec_decode(s: Seq<u8>) -> Option<PacketModel> {
    if s.len() < 1 {
        Option::None
    } else if s[0] == 1u8 {
        spec_dec_auth(s)
    } else if s[0] == 2u8 {
        spec_dec_challenge(s)
    } else if s[0] == 3u8 {
        spec_dec_response(s)
    } else if s[0] == 4u8 {
        spec_dec_ip_assign(s)
    } else if s[0] == 5u8 {
        spec_dec_ip_renewal(s)
    } else if s[0] == 6u8 {
        spec_dec_ip_renewal_response(s)
    } else if s[0] == 7u8 {
        spec_dec_data(s)
    } else if s[0] == 8u8 {
        spec_dec_ping(s)
    } else if s[0] == 9u8 {
        spec_dec_pong(s)
    } else if s[0] == 10u8 {
        spec_dec_key_rotation(s)
    } else if s[0] == 11u8 {
        spec_dec_disconnect(s)
    } else if s[0] == 12u8 {
        spec_dec_error(s)
    } else {
        Option::None
    }
}

// ---------- executable building blocks ----------

fn push_u16(out: &mut Vec<u8>, v: u16)
    ensures
        final(out)@ == old(out)@ + le16(v),
{
    out.push(v as u8);
    out.push((v >> 8) as u8);
    proof {
        assert(out@ =~= old(out)@ + le16(v));
    }
}

fn push_u32(out: &mut Vec<u8>, v: u32)
    ensures
        final(out)@ == old(out)@ + le32(v),
{
    out.push(v as u8);
    out.push((v >> 8) as u8);
    out.push((v >> 16) as u8);
    out.push((v >> 24) as u8);
    proof {
        assert(out@ =~= old(out)@ + le32(v));
    }
}

fn push_u64(out: &mut Vec<u8>, v: u64)
    ensures
        final(out)@ == old(out)@ + le64(v),
{
    out.push(v as u8);
    out.push((v >> 8) as u8);
    out.push((v >> 16) as u8);
    out.push((v >> 24) as u8);
    out.push((v >> 32) as u8);
    out.push((v >> 40) as u8);
    out.push((v >> 48) as u8);
    out.push((v >> 56) as u8);
    proof {
        assert(out@ =~= old(out)@ + le64(v));
    }
}

fn push_bool(out: &mut Vec<u8>, b: bool)
    ensures
        final(out)@ == old(out)@ + enc_bool(b),
{
    if b {
        out.push(1u8);
    } else {
        out.push(0u8);
    }
    proof {
        assert(out@ =~= old(out)@ + enc_bool(b));
    }
}

fn push_bytes(out: &mut Vec<u8>, b: &Vec<u8>)
    requires
        wf_bytes(b@),
    ensures
        final(out)@ == old(out)@ + enc_bytes(b@),
{
    push_u32(out, b.len() as u32);
    let mut i: usize = 0;
    while i < b.len()
        invariant
            i <= b@.len(),
            wf_bytes(b@),
            out@ == old(out)@ + le32(b@.len() as u32) + b@.take(i as int),
        decreases b@.len() - i,
    {
        out.push(b[i]);
        proof {
            assert(b@.take(i + 1) =~= b@.take(i as int).push(b@[i as int]));
        }
        i = i + 1;
    }
    proof {
        assert(b@.take(b@.len() as int) =~= b@);
    }
}

proof fn lemma_enc_strs_snoc(l: Seq<Seq<u8>>, x: Seq<u8>)
    ensures
        enc_strs(l.push(x)) == enc_strs(l) + enc_bytes(x),
    decreases l.len(),
{
    reveal_with_fuel(enc_strs, 3);
    if l.len() == 0 {
        assert(l.push(x)[0] == x);
        assert(l.push(x).drop_first() =~= Seq::<Seq<u8>>::empty());
        assert(enc_strs(l.push(x)) =~= enc_strs(l) + enc_bytes(x));
    } else {
        assert(l.push(x).drop_first() =~= l.drop_first().push(x));
        lemma_enc_strs_snoc(l.drop_first(), x);
        assert(l.push(x)[0] == l[0]);
        assert(enc_strs(l.push(x)) == enc_bytes(l[0]) + (enc_strs(l.drop_first()) + enc_bytes(x)));
        assert(enc_bytes(l[0]) + (enc_strs(l.drop_first()) + enc_bytes(x)) =~= (enc_bytes(l[0])
            + enc_strs(l.drop_first())) + enc_bytes(x));
    }
}

fn push_list(out: &mut Vec<u8>, l: &Vec<Vec<u8>>)
    requires
        wf_strs(l@.map_values(|v: Vec<u8>| v@)),
    ensures
        final(out)@ == old(out)@ + enc_list(l@.map_values(|v: Vec<u8>| v@)),
{
    let ghost lv = l@.map_values(|v: Vec<u8>| v@);
    push_u32(out, l.len() as u32);
    let mut i: usize = 0;
    while i < l.len()
        invariant
            i <= l@.len(),
            lv == l@.map_values(|v: Vec<u8>| v@),
            wf_strs(lv),
            out@ == old(out)@ + le32(l@.len() as u32) + enc_strs(lv.take(i as int)),
        decreases l@.len() - i,
    {
        proof {
            assert(lv[i as int] == l@[i as int]@);
        }
        push_bytes(out, &l[i]);
        proof {
            assert(lv.take(i + 1) =~= lv.take(i as int).push(lv[i as int]));
            lemma_enc_strs_snoc(lv.take(i as int), lv[i as int]);
        }
        i = i + 1;
    }
    proof {
        assert(lv.take(lv.len() as int) =~= lv);
    }
}

fn push_opt(out: &mut Vec<u8>, p: &Option<Vec<u8>>)
    requires
        p matches Option::Some(b) ==> wf_bytes(b@),
    ensures
        final(out)@ == old(out)@ + enc_opt(
            match p {
                Option::Some(b) => Option::Some(b@),
                Option::None => Option::None,
            },
        ),
{
    match p {
        Option::Some(b) => {
            out.push(1u8);
            let ghost mid = out@;
            proof {
                assert(mid =~= old(out)@ + seq![1u8]);
            }
            push_bytes(out, b);
        },
        Option::None => {
            out.push(0u8);
            proof {
                assert(out@ =~= old(out)@ + seq![0u8]);
            }
        },
    }
}

fn read_u16(buf: &Vec<u8>, i: usize) -> (r: Option<(u16, usize)>)
    ensures
        match r {
            Option::Some((v, j)) => dec_u16_at(buf@, i as int) == Option::Some((v, j as int)),
            Option::None => dec_u16_at(buf@, i as int) is None,
        },
{
    if buf.len() >= 2 && i <= buf.len() - 2 {
        let v: u16 = (buf[i] as u16) | ((buf[i + 1] as u16) << 8u16);
        Option::Some((v, i + 2))
    } else {
        Option::None
    }
}

fn read_u32(buf: &Vec<u8>, i: usize) -> (r: Option<(u32, usize)>)
    ensures
        match r {
            Option::Some((v, j)) => dec_u32_at(buf@, i as int) == Option::Some((v, j as int)),
            Option::None => dec_u32_at(buf@, i as int) is None,
        },
{
    if buf.len() >= 4 && i <= buf.len() - 4 {
        let v: u32 = (buf[i] as u32) | ((buf[i + 1] as u32) << 8u32) | ((buf[i + 2] as u32)
            << 16u32) | ((buf[i + 3] as u32) << 24u32);
        Option::Some((v, i + 4))
    } else {
        Option::None
    }
}

fn read_u64(buf: &Vec<u8>, i: usize) -> (r: Option<(u64, usize)>)
    ensures
        match r {
            Option::Some((v, j)) => dec_u64_at(buf@, i as int) == Option::Some((v, j as int)),
            Option::None => dec_u64_at(buf@, i as int) is None,
        },
{
    if buf.len() >= 8 && i <= buf.len() - 8 {
        let v: u64 = (buf[i] as u64) | ((buf[i + 1] as u64) << 8u64) | ((buf[i + 2] as u64)
            << 16u64) | ((buf[i + 3] as u64) << 24u64) | ((buf[i + 4] as u64) << 32u64) | ((buf[i
            + 5] as u64) << 40u64) | ((buf[i + 6] as u64) << 48u64) | ((buf[i + 7] as u64)
            << 56u64);
        Option::Some((v, i + 8))
    } else {
        Option::None
    }
}

fn read_bool(buf: &Vec<u8>, i: usize) -> (r: Option<(bool, usize)>)
    ensures
        match r {
            Option::Some((v, j)) => dec_bool_at(buf@, i as int) == Option::Some((v, j as int)),
            Option::None => dec_bool_at(buf@, i as int) is None,
        },
{
    if buf.len() >= 1 && i <= buf.len() - 1 {
        if buf[i] == 0u8 {
            Option::Some((false, i + 1))
        } else if buf[i] == 1u8 {
            Option::Some((true, i + 1))
        } else {
            Option::None
        }
    } else {
        Option::None
    }
}

fn read_exact(buf: &Vec<u8>, i: usize, n: usize) -> (r: Vec<u8>)
    requires
        i + n <= buf@.len(),
    ensures
        r@ == buf@.subrange(i as int, i as int + n as int),
{
    let mut v: Vec<u8> = Vec::new();
    let blen: usize = buf.len();
    let mut k: usize = 0;
    while k < n
        invariant
            k <= n,
            blen == buf@.len(),
            i + n <= buf@.len(),
            v@ == buf@.subrange(i as int, i as int + k as int),
        decreases n - k,
    {
        assert(i + k < buf@.len());
        v.push(buf[i + k]);
        proof {
            assert(buf@.subrange(i as int, i as int + (k + 1) as int) =~= buf@.subrange(
                i as int,
                i as int + k as int,
            ).push(buf@[i as int + k as int]));
        }
        k = k + 1;
    }
    v
}

fn read_bytes(buf: &Vec<u8>, i: usize) -> (r: Option<(Vec<u8>, usize)>)
    ensures
        match r {
            Option::Some((b, j)) => dec_bytes_at(buf@, i as int) == Option::Some((b@, j as int)),
            Option::None => dec_bytes_at(buf@, i as int) is None,
        },
{
    match read_u32(buf, i) {
        Option::Some((n, j)) => {
            let n_us = n as usize;
            if n_us <= buf.len() && j <= buf.len() - n_us {
                let b = read_exact(buf, j, n_us);
                Option::Some((b, j + n_us))
            } else {
                Option::None
            }
        },
        Option::None => Option::None,
    }
}

fn read_strs(buf: &Vec<u8>, i: usize, n: u32) -> (r: Option<(Vec<Vec<u8>>, usize)>)
    ensures
        match r {
            Option::Some((l, j)) => dec_strs_at(buf@, i as int, n as int) == Option::Some(
                (l@.map_values(|v: Vec<u8>| v@), j as int),
            ),
            Option::None => dec_strs_at(buf@, i as int, n as int) is None,
        },
    decreases n,
{
    if n == 0 {
        let l: Vec<Vec<u8>> = Vec::new();
        proof {
            assert(l@.map_values(|v: Vec<u8>| v@) =~= Seq::<Seq<u8>>::empty());
        }
        Option::Some((l, i))
    } else {
        match read_bytes(buf, i) {
            Option::Some((b, j)) => match read_strs(buf, j, n - 1) {
                Option::Some((mut l, k)) => {
                    let ghost rest = l@.map_values(|v: Vec<u8>| v@);
                    l.insert(0, b);
                    proof {
                        assert(l@.map_values(|v: Vec<u8>| v@) =~= seq![b@] + rest);
                    }
                    Option::Some((l, k))
                },
                Option::None => Option::None,
            },
            Option::None => Option::None,
        }
    }
}

fn read_list(buf: &Vec<u8>, i: usize) -> (r: Option<(Vec<Vec<u8>>, usize)>)
    ensures
        match r {
            Option::Some((l, j)) => dec_list_at(buf@, i as int) == Option::Some(
                (l@.map_values(|v: Vec<u8>| v@), j as int),
            ),
            Option::None => dec_list_at(buf@, i as int) is None,
        },
{
    match read_u32(buf, i) {
        Option::Some((n, j)) => read_strs(buf, j, n),
        Option::None => Option::None,
    }
}

fn read_opt(buf: &Vec<u8>, i: usize) -> (r: Option<(Option<Vec<u8>>, usize)>)
    ensures
        match r {
            Option::Some((p, j)) => dec_opt_at(buf@, i as int) == Option::Some(
                (
                    match p {
                        Option::Some(b) => Option::Some(b@),
                        Option::None => Option::None,
                    },
                    j as int,
                ),
            ),
            Option::None => dec_opt_at(buf@, i as int) is None,
        },
{
    if buf.len() >= 1 && i <= buf.len() - 1 {
        if buf[i] == 0u8 {
            Option::Some((Option::None, i + 1))
        } else if buf[i] == 1u8 {
            match read_bytes(buf, i + 1) {
                Option::Some((b, j)) => Option::Some((Option::Some(b), j)),
                Option::None => Option::None,
            }
        } else {
            Option::None
        }
    } else {
        Option::None
    }
}

// ---------- the codec round trip ----------

proof fn lemma_dec_u16_le(s: Seq<u8>, i: int, v: u16)
    requires
        0 <= i,
        i + 2 <= s.len(),
        s.subrange(i, i + 2) == le16(v),
    ensures
        dec_u16_at(s, i) == Option::Some((v, i + 2)),
{
    assert(s.subrange(i, i + 2)[0] == s[i]);
    assert(s.subrange(i, i + 2)[1] == s[i + 1]);
    assert((v as u8 as u16) | (((v >> 8) as u8 as u16) << 8) == v) by (bit_vector);
}

proof fn lemma_dec_u32_le(s: Seq<u8>, i: int, v: u32)
    requires
        0 <= i,
        i + 4 <= s.len(),
        s.subrange(i, i + 4) == le32(v),
    ensures
        dec_u32_at(s, i) == Option::Some((v, i + 4)),
{
    assert(s.subrange(i, i + 4)[0] == s[i]);
    assert(s.subrange(i, i + 4)[1] == s[i + 1]);
    assert(s.subrange(i, i + 4)[2] == s[i + 2]);
    assert(s.subrange(i, i + 4)[3] == s[i + 3]);
    assert((v as u8 as u32) | (((v >> 8) as u8 as u32) << 8) | (((v >> 16) as u8 as u32) << 16) | ((
    (v >> 24) as u8 as u32) << 24) == v) by (bit_vector);
}

proof fn lemma_dec_u64_le(s: Seq<u8>, i: int, v: u64)
    requires
        0 <= i,
        i + 8 <= s.len(),
        s.subrange(i, i + 8) == le64(v),
    ensures
        dec_u64_at(s, i) == Option::Some((v, i + 8)),
{
    assert(s.subrange(i, i + 8)[0] == s[i]);
    assert(s.subrange(i, i + 8)[1] == s[i + 1]);
    assert(s.subrange(i, i + 8)[2] == s[i + 2]);
    assert(s.subrange(i, i + 8)[3] == s[i + 3]);
    assert(s.subrange(i, i + 8)[4] == s[i + 4]);
    assert(s.subrange(i, i + 8)[5] == s[i + 5]);
    assert(s.subrange(i, i + 8)[6] == s[i + 6]);
    assert(s.subrange(i, i + 8)[7] == s[i + 7]);
    assert((v as u8 as u64) | (((v >> 8) as u8 as u64) << 8) | (((v >> 16) as u8 as u64) << 16) | ((
    (v >> 24) as u8 as u64) << 24) | (((v >> 32) as u8 as u64) << 32) | (((v >> 40) as u8 as u64)
        << 40) | (((v >> 48) as u8 as u64) << 48) | (((v >> 56) as u8 as u64) << 56) == v)
        by (bit_vector);
}

proof fn lemma_dec_bool(s: Seq<u8>, i: int, b: bool)
    requires
        0 <= i,
        i + 1 <= s.len(),
        s.subrange(i, i + 1) == enc_bool(b),
    ensures
        dec_bool_at(s, i) == Option::Some((b, i + 1)),
{
    assert(s.subrange(i, i + 1)[0] == s[i]);
}

proof fn lemma_dec_bytes(s: Seq<u8>, i: int, b: Seq<u8>)
    requires
        wf_bytes(b),
        0 <= i,
        i + 4 + b.len() <= s.len(),
        s.subrange(i, i + 4 + b.len()) == enc_bytes(b),
    ensures
        dec_bytes_at(s, i) == Option::Some((b, i + 4 + b.len())),
{
    let n: u32 = b.len() as u32;
    assert(s.subrange(i, i + 4) =~= le32(n)) by {
        assert(forall|k: int|
            0 <= k < 4 ==> #[trigger] s.subrange(i, i + 4)[k] == s.subrange(
                i,
                i + 4 + b.len(),
            )[k]);
    }
    lemma_dec_u32_le(s, i, n);
    assert(n as int == b.len());
    assert(s.subrange(i + 4, i + 4 + b.len()) =~= b) by {
        assert(forall|k: int|
            0 <= k < b.len() ==> #[trigger] s.subrange(i + 4, i + 4 + b.len())[k] == s.subrange(
                i,
                i + 4 + b.len(),
            )[4 + k]);
    }
}

proof fn lemma_dec_strs(s: Seq<u8>, i: int, l: Seq<Seq<u8>>)
    requires
        wf_strs(l),
        0 <= i,
        i + enc_strs(l).len() <= s.len(),
        s.subrange(i, i + enc_strs(l).len()) == enc_strs(l),
    ensures
        dec_strs_at(s, i, l.len() as int) == Option::Some((l, i + enc_strs(l).len())),
    decreases l.len(),
{
    if l.len() == 0 {
        assert(l =~= Seq::<Seq<u8>>::empty());
    } else {
        let e0 = enc_bytes(l[0]);
        let rest = enc_strs(l.drop_first());
        assert(enc_strs(l) == e0 + rest);
        assert(e0.len() == 4 + l[0].len());
        assert(s.subrange(i, i + 4 + l[0].len()) =~= e0) by {
            assert(forall|k: int|
                0 <= k < e0.len() ==> #[trigger] s.subrange(i, i + e0.len())[k] == s.subrange(
                    i,
                    i + enc_strs(l).len(),
                )[k]);
        }
        lemma_dec_bytes(s, i, l[0]);
        let j = i + e0.len();
        assert(s.subrange(j, j + rest.len()) =~= rest) by {
            assert(forall|k: int|
                0 <= k < rest.len() ==> #[trigger] s.subrange(j, j + rest.len())[k] == s.subrange(
                    i,
                    i + enc_strs(l).len(),
                )[e0.len() + k]);
        }
        assert(wf_strs(l.drop_first())) by {
            assert(forall|k: int|
                0 <= k < l.drop_first().len() ==> #[trigger] l.drop_first()[k] == l[k + 1]);
        }
        lemma_dec_strs(s, j, l.drop_first());
        assert(seq![l[0]] + l.drop_first() =~= l);
    }
}

proof fn lemma_dec_list(s: Seq<u8>, i: int, l: Seq<Seq<u8>>)
    requires
        wf_strs(l),
        0 <= i,
        i + enc_list(l).len() <= s.len(),
        s.subrange(i, i + enc_list(l).len()) == enc_list(l),
    ensures
        dec_list_at(s, i) == Option::Some((l, i + enc_list(l).len())),
{
    let n: u32 = l.len() as u32;
    assert(s.subrange(i, i + 4) =~= le32(n)) by {
        assert(forall|k: int|
            0 <= k < 4 ==> #[trigger] s.subrange(i, i + 4)[k] == s.subrange(
                i,
                i + enc_list(l).len(),
            )[k]);
    }
    lemma_dec_u32_le(s, i, n);
    let j = i + 4;
    assert(s.subrange(j, j + enc_strs(l).len()) =~= enc_strs(l)) by {
        assert(forall|k: int|
            0 <= k < enc_strs(l).len() ==> #[trigger] s.subrange(j, j + enc_strs(l).len())[k]
                == s.subrange(i, i + enc_list(l).len())[4 + k]);
    }
    lemma_dec_strs(s, j, l);
    assert(n as int == l.len());
}

proof fn lemma_dec_opt(s: Seq<u8>, i: int, p: Option<Seq<u8>>)
    requires
        p matches Option::Some(b) ==> wf_bytes(b),
        0 <= i,
        i + enc_opt(p).len() <= s.len(),
        s.subrange(i, i + enc_opt(p).len()) == enc_opt(p),
    ensures
        dec_opt_at(s, i) == Option::Some((p, i + enc_opt(p).len())),
{
    match p {
        Option::None => {
            assert(s.subrange(i, i + 1)[0] == s[i]);
        },
        Option::Some(b) => {
            assert(s.subrange(i, i + enc_opt(p).len())[0] == s[i]);
            assert(s[i] == 1u8);
            assert(s.subrange(i + 1, i + 1 + 4 + b.len()) =~= enc_bytes(b)) by {
                assert(forall|k: int|
                    0 <= k < 4 + b.len() ==> #[trigger] s.subrange(i + 1, i + 5 + b.len())[k]
                        == s.subrange(i, i + enc_opt(p).len())[1 + k]);
            }
            lemma_dec_bytes(s, i + 1, b);
        },
    }
}

proof fn lemma_concat_parts(x: Seq<u8>, y: Seq<u8>)
    ensures
        (x + y).subrange(0, x.len() as int) == x,
        (x + y).subrange(x.len() as int, (x + y).len() as int) == y,
{
    assert((x + y).subrange(0, x.len() as int) =~= x);
    assert((x + y).subrange(x.len() as int, (x + y).len() as int) =~= y);
}

proof fn lemma_subrange_of_prefix(x: Seq<u8>, y: Seq<u8>, i: int, j: int)
    requires
        0 <= i <= j <= x.len(),
    ensures
        (x + y).subrange(i, j) == x.subrange(i, j),
{
    assert((x + y).subrange(i, j) =~= x.subrange(i, j));
}

proof fn lemma_rt_auth(m: PacketModel)
    requires
        m is Auth,
        wf_packet(m),
    ensures
        spec_decode(spec_encode(m)) == Option::Some(m),
{
    let s = spec_encode(m);
    match m {
        PacketModel::Auth { public_key, version, features, nonce } => {
            let t = seq![1u8];
            let a = enc_bytes(public_key);
            let b = enc_bytes(version);
            let c = enc_list(features);
            let d = enc_bytes(nonce);
            let x1 = t + a;
            let x2 = x1 + b;
            let x3 = x2 + c;
            assert(s == x3 + d);
            let o2 = x1.len() as int;
            let o3 = x2.len() as int;
            let o4 = x3.len() as int;
            lemma_concat_parts(x3, d);
            lemma_concat_parts(x2, c);
            lemma_concat_parts(x1, b);
            lemma_concat_parts(t, a);
            lemma_subrange_of_prefix(x3, d, o3, o4);
            lemma_subrange_of_prefix(x3, d, o2, o3);
            lemma_subrange_of_prefix(x2, c, o2, o3);
            lemma_subrange_of_prefix(x3, d, 1, o2);
            lemma_subrange_of_prefix(x2, c, 1, o2);
            lemma_subrange_of_prefix(x1, b, 1, o2);
            assert(s.subrange(o4, s.len() as int) == d);
            assert(s.subrange(o3, o4) == c);
            assert(s.subrange(o2, o3) == b);
            assert(s.subrange(1, o2) == a);
            assert(s[0] == 1u8);
            lemma_dec_bytes(s, 1, public_key);
            lemma_dec_bytes(s, o2, version);
            lemma_dec_list(s, o3, features);
            lemma_dec_bytes(s, o4, nonce);
        },
        _ => {},
    }
}

#[verifier::rlimit(100)]
proof fn lemma_rt_challenge(m: PacketModel)
    requires
        m is Challenge,
        wf_packet(m),
    ensures
        spec_decode(spec_encode(m)) == Option::Some(m),
{
    let s = spec_encode(m);
    match m {
        PacketModel::Challenge { data, server_key, expires_at, id } => {
    let a = enc_bytes(data);
    let b = enc_bytes(server_key);
    let c = le64(expires_at);
    let d = enc_bytes(id);
    let o2 = 1 + a.len() as int;
    let o3 = o2 + b.len();
    let o4 = o3 + 8;
    assert(s[0] == 2u8);
    assert(s.subrange(1, o2) =~= a);
    assert(s.subrange(o2, o3) =~= b);
    assert(s.subrange(o3, o4) =~= c);
    assert(s.subrange(o4, s.len() as int) =~= d);
    lemma_dec_bytes(s, 1, data);
    lemma_dec_bytes(s, o2, server_key);
    lemma_dec_u64_le(s, o3, expires_at);
    lemma_dec_bytes(s, o4, id);
        },
        _ => {},
    }
}

proof fn lemma_rt_challenge_response(m: PacketModel)
    requires
        m is ChallengeResponse,
        wf_packet(m),
    ensures
        spec_decode(spec_encode(m)) == Option::Some(m),
{
    let s = spec_encode(m);
    match m {
        PacketModel::ChallengeResponse { signature, public_key, challenge_id } => {
    let a = enc_bytes(signature);
    let b = enc_bytes(public_key);
    let c = enc_bytes(challenge_id);
    let o2 = 1 + a.len() as int;
    let o3 = o2 + b.len();
    assert(s[0] == 3u8);
    assert(s.subrange(1, o2) =~= a);
    assert(s.subrange(o2, o3) =~= b);
    assert(s.subrange(o3, s.len() as int) =~= c);
    lemma_dec_bytes(s, 1, signature);
    lemma_dec_bytes(s, o2, public_key);
    lemma_dec_bytes(s, o3, challenge_id);
        },
        _ => {},
    }
}

#[verifier::rlimit(100)]
proof fn lemma_rt_ip_assign(m: PacketModel)
    requires
        m is IpAssign,
        wf_packet(m),
    ensures
        spec_decode(spec_encode(m)) == Option::Some(m),
{
    let s = spec_encode(m);
    match m {
        PacketModel::IpAssign {
            ip_address,
            lease_duration,
            session_id,
            encrypted_session_key,
            key_nonce,
        } => {
    let a = enc_bytes(ip_address);
    let c = enc_bytes(session_id);
    let d = enc_bytes(encrypted_session_key);
    let e = enc_bytes(key_nonce);
    let o2 = 1 + a.len() as int;
    let o3 = o2 + 8;
    let o4 = o3 + c.len();
    let o5 = o4 + d.len();
    assert(s[0] == 4u8);
    assert(s.subrange(1, o2) =~= a);
    assert(s.subrange(o2, o3) =~= le64(lease_duration));
    assert(s.subrange(o3, o4) =~= c);
    assert(s.subrange(o4, o5) =~= d);
    assert(s.subrange(o5, s.len() as int) =~= e);
    lemma_dec_bytes(s, 1, ip_address);
    lemma_dec_u64_le(s, o2, lease_duration);
    lemma_dec_bytes(s, o3, session_id);
    lemma_dec_bytes(s, o4, encrypted_session_key);
    lemma_dec_bytes(s, o5, key_nonce);
        },
        _ => {},
    }
}

proof fn lemma_rt_ip_renewal(m: PacketModel)
    requires
        m is IpRenewal,
        wf_packet(m),
    ensures
        spec_decode(spec_encode(m)) == Option::Some(m),
{
    let s = spec_encode(m);
    match m {
        PacketModel::IpRenewal { session_id, ip_address } => {
    let a = enc_bytes(session_id);
    let b = enc_bytes(ip_address);
    let o2 = 1 + a.len() as int;
    assert(s[0] == 5u8);
    assert(s.subrange(1, o2) =~= a);
    assert(s.subrange(o2, s.len() as int) =~= b);
    lemma_dec_bytes(s, 1, session_id);
    lemma_dec_bytes(s, o2, ip_address);
        },
        _ => {},
    }
}

#[verifier::rlimit(100)]
proof fn lemma_rt_ip_renewal_response(m: PacketModel)
    requires
        m is IpRenewalResponse,
        wf_packet(m),
    ensures
        spec_decode(spec_encode(m)) == Option::Some(m),
{
    let s = spec_encode(m);
    match m {
        PacketModel::IpRenewalResponse { session_id, expires_at, success } => {
    let a = enc_bytes(session_id);
    let o2 = 1 + a.len() as int;
    let o3 = o2 + 8;
    assert(s[0] == 6u8);
    assert(s.subrange(1, o2) =~= a);
    assert(s.subrange(o2, o3) =~= le64(expires_at));
    assert(s.subrange(o3, s.len() as int) =~= enc_bool(success));
    lemma_dec_bytes(s, 1, session_id);
    lemma_dec_u64_le(s, o2, expires_at);
    lemma_dec_bool(s, o3, success);
        },
        _ => {},
    }
}

#[verifier::rlimit(100)]
proof fn lemma_rt_data(m: PacketModel)
    requires
        m is Data,
        wf_packet(m),
    ensures
        spec_decode(spec_encode(m)) == Option::Some(m),
{
    let s = spec_encode(m);
    match m {
        PacketModel::Data { encrypted, nonce, counter, padding } => {
    let a = enc_bytes(encrypted);
    let b = enc_bytes(nonce);
    let d = enc_opt(padding);
    let o2 = 1 + a.len() as int;
    let o3 = o2 + b.len();
    let o4 = o3 + 8;
    assert(s[0] == 7u8);
    assert(s.subrange(1, o2) =~= a);
    assert(s.subrange(o2, o3) =~= b);
    assert(s.subrange(o3, o4) =~= le64(counter));
    assert(s.subrange(o4, s.len() as int) =~= d);
    lemma_dec_bytes(s, 1, encrypted);
    lemma_dec_bytes(s, o2, nonce);
    lemma_dec_u64_le(s, o3, counter);
    lemma_dec_opt(s, o4, padding);
        },
        _ => {},
    }
}

proof fn lemma_rt_ping(m: PacketModel)
    requires
        m is Ping,
        wf_packet(m),
    ensures
        spec_decode(spec_encode(m)) == Option::Some(m),
{
    let s = spec_encode(m);
    match m {
        PacketModel::Ping { timestamp, sequence } => {
    assert(s[0] == 8u8);
    assert(s.subrange(1, 9) =~= le64(timestamp));
    assert(s.subrange(9, 17) =~= le64(sequence));
    lemma_dec_u64_le(s, 1, timestamp);
    lemma_dec_u64_le(s, 9, sequence);
        },
        _ => {},
    }
}

proof fn lemma_rt_pong(m: PacketModel)
    requires
        m is Pong,
        wf_packet(m),
    ensures
        spec_decode(spec_encode(m)) == Option::Some(m),
{
    let s = spec_encode(m);
    match m {
        PacketModel::Pong { echo_timestamp, server_timestamp, sequence } => {
    assert(s[0] == 9u8);
    assert(s.subrange(1, 9) =~= le64(echo_timestamp));
    assert(s.subrange(9, 17) =~= le64(server_timestamp));
    assert(s.subrange(17, 25) =~= le64(sequence));
    lemma_dec_u64_le(s, 1, echo_timestamp);
    lemma_dec_u64_le(s, 9, server_timestamp);
    lemma_dec_u64_le(s, 17, sequence);
        },
        _ => {},
    }
}

#[verifier::rlimit(100)]
proof fn lemma_rt_key_rotation(m: PacketModel)
    requires
        m is KeyRotation,
        wf_packet(m),
    ensures
        spec_decode(spec_encode(m)) == Option::Some(m),
{
    let s = spec_encode(m);
    match m {
        PacketModel::KeyRotation { encrypted_new_key, nonce, key_id, signature } => {
    let a = enc_bytes(encrypted_new_key);
    let b = enc_bytes(nonce);
    let c = enc_bytes(key_id);
    let d = enc_bytes(signature);
    let o2 = 1 + a.len() as int;
    let o3 = o2 + b.len();
    let o4 = o3 + c.len();
    assert(s[0] == 10u8);
    assert(s.subrange(1, o2) =~= a);
    assert(s.subrange(o2, o3) =~= b);
    assert(s.subrange(o3, o4) =~= c);
    assert(s.subrange(o4, s.len() as int) =~= d);
    lemma_dec_bytes(s, 1, encrypted_new_key);
    lemma_dec_bytes(s, o2, nonce);
    lemma_dec_bytes(s, o3, key_id);
    lemma_dec_bytes(s, o4, signature);
        },
        _ => {},
    }
}

proof fn lemma_rt_disconnect(m: PacketModel)
    requires
        m is Disconnect,
        wf_packet(m),
    ensures
        spec_decode(spec_encode(m)) == Option::Some(m),
{
    let s = spec_encode(m);
    match m {
        PacketModel::Disconnect { reason, message } => {
    assert(s[0] == 11u8);
    assert(s.subrange(1, 3) =~= le16(reason));
    assert(s.subrange(3, s.len() as int) =~= enc_bytes(message));
    lemma_dec_u16_le(s, 1, reason);
    lemma_dec_bytes(s, 3, message);
        },
        _ => {},
    }
}

proof fn lemma_rt_error(m: PacketModel)
    requires
        m is Error,
        wf_packet(m),
    ensures
        spec_decode(spec_encode(m)) == Option::Some(m),
{
    let s = spec_encode(m);
    match m {
        PacketModel::Error { code, message } => {
    assert(s[0] == 12u8);
    assert(s.subrange(1, 3) =~= le16(code));
    assert(s.subrange(3, s.len() as int) =~= enc_bytes(message));
    lemma_dec_u16_le(s, 1, code);
    lemma_dec_bytes(s, 3, message);
        },
        _ => {},
    }
}

/// The codec round trip: decoding the canonical frame of any well-formed
/// packet yields that packet back.
pub proof fn lemma_codec_round_trip(m: PacketModel)
    requires
        wf_packet(m),
    ensures
        spec_decode(spec_encode(m)) == Option::Some(m),
{
    match m {
        PacketModel::Auth { .. } => lemma_rt_auth(m),
        PacketModel::Challenge { .. } => lemma_rt_challenge(m),
        PacketModel::ChallengeResponse { .. } => lemma_rt_challenge_response(m),
        PacketModel::IpAssign { .. } => lemma_rt_ip_assign(m),
        PacketModel::IpRenewal { .. } => lemma_rt_ip_renewal(m),
        PacketModel::IpRenewalResponse { .. } => lemma_rt_ip_renewal_response(m),
        PacketModel::Data { .. } => lemma_rt_data(m),
        PacketModel::Ping { .. } => lemma_rt_ping(m),
        PacketModel::Pong { .. } => lemma_rt_pong(m),
        PacketModel::KeyRotation { .. } => lemma_rt_key_rotation(m),
        PacketModel::Disconnect { .. } => lemma_rt_disconnect(m),
        PacketModel::Error { .. } => lemma_rt_error(m),
    }
}

/// Encode a packet as its canonical frame. Fails exactly when a
/// variable-length field is too long for its length prefix.
pub fn encode(p: &PacketKind) -> (r: Result<Vec<u8>, EncodeError>)
    ensures
        r is Ok <==> wf_packet(p@),
        r matches Ok(v) ==> v@ == spec_encode(p@),
{
    match p {
        PacketKind::Auth { public_key, version, features, nonce } => {
            if !(bytes_wf(public_key) && bytes_wf(version) && strs_wf(features) && bytes_wf(
                nonce,
            )) {
                return Result::Err(EncodeError::Oversize);
            }
            let mut out: Vec<u8> = Vec::new();
            out.push(1u8);
            proof {
                assert(out@ =~= seq![1u8]);
            }
            push_bytes(&mut out, public_key);
            push_bytes(&mut out, version);
            push_list(&mut out, features);
            push_bytes(&mut out, nonce);
            proof {
                assert(out@ =~= spec_encode(p@));
            }
            Result::Ok(out)
        },
        PacketKind::Challenge { data, server_key, expires_at, id } => {
            if !(bytes_wf(data) && bytes_wf(server_key) && bytes_wf(id)) {
                return Result::Err(EncodeError::Oversize);
            }
            let mut out: Vec<u8> = Vec::new();
            out.push(2u8);
            proof {
                assert(out@ =~= seq![2u8]);
            }
            push_bytes(&mut out, data);
            push_bytes(&mut out, server_key);
            push_u64(&mut out, *expires_at);
            push_bytes(&mut out, id);
            proof {
                assert(out@ =~= spec_encode(p@));
            }
            Result::Ok(out)
        },
        PacketKind::ChallengeResponse { signature, public_key, challenge_id } => {
            if !(bytes_wf(signature) && bytes_wf(public_key) && bytes_wf(challenge_id)) {
                return Result::Err(EncodeError::Oversize);
            }
            let mut out: Vec<u8> = Vec::new();
            out.push(3u8);
            proof {
                assert(out@ =~= seq![3u8]);
            }
            push_bytes(&mut out, signature);
            push_bytes(&mut out, public_key);
            push_bytes(&mut out, challenge_id);
            proof {
                assert(out@ =~= spec_encode(p@));
            }
            Result::Ok(out)
        },
        PacketKind::IpAssign {
            ip_address,
            lease_duration,
            session_id,
            encrypted_session_key,
            key_nonce,
        } => {
            if !(bytes_wf(ip_address) && bytes_wf(session_id) && bytes_wf(encrypted_session_key)
                && bytes_wf(key_nonce)) {
                return Result::Err(EncodeError::Oversize);
            }
            let mut out: Vec<u8> = Vec::new();
            out.push(4u8);
            proof {
                assert(out@ =~= seq![4u8]);
            }
            push_bytes(&mut out, ip_address);
            push_u64(&mut out, *lease_duration);
            push_bytes(&mut out, session_id);
            push_bytes(&mut out, encrypted_session_key);
            push_bytes(&mut out, key_nonce);
            proof {
                assert(out@ =~= spec_encode(p@));
            }
            Result::Ok(out)
        },
        PacketKind::IpRenewal { session_id, ip_address } => {
            if !(bytes_wf(session_id) && bytes_wf(ip_address)) {
                return Result::Err(EncodeError::Oversize);
            }
            let mut out: Vec<u8> = Vec::new();
            out.push(5u8);
            proof {
                assert(out@ =~= seq![5u8]);
            }
            push_bytes(&mut out, session_id);
            push_bytes(&mut out, ip_address);
            proof {
                assert(out@ =~= spec_encode(p@));
            }
            Result::Ok(out)
        },
        PacketKind::IpRenewalResponse { session_id, expires_at, success } => {
            if !bytes_wf(session_id) {
                return Result::Err(EncodeError::Oversize);
            }
            let mut out: Vec<u8> = Vec::new();
            out.push(6u8);
            proof {
                assert(out@ =~= seq![6u8]);
            }
            push_bytes(&mut out, session_id);
            push_u64(&mut out, *expires_at);
            push_bool(&mut out, *success);
            proof {
                assert(out@ =~= spec_encode(p@));
            }
            Result::Ok(out)
        },
        PacketKind::Data { encrypted, nonce, counter, padding } => {
            let pad_ok = match padding {
                Option::Some(b) => bytes_wf(b),
                Option::None => true,
            };
            if !(bytes_wf(encrypted) && bytes_wf(nonce) && pad_ok) {
                return Result::Err(EncodeError::Oversize);
            }
            let mut out: Vec<u8> = Vec::new();
            out.push(7u8);
            proof {
                assert(out@ =~= seq![7u8]);
            }
            push_bytes(&mut out, encrypted);
            push_bytes(&mut out, nonce);
            push_u64(&mut out, *counter);
            push_opt(&mut out, padding);
            proof {
                assert(out@ =~= spec_encode(p@));
            }
            Result::Ok(out)
        },
        PacketKind::Ping { timestamp, sequence } => {
            let mut out: Vec<u8> = Vec::new();
            out.push(8u8);
            proof {
                assert(out@ =~= seq![8u8]);
            }
            push_u64(&mut out, *timestamp);
            push_u64(&mut out, *sequence);
            proof {
                assert(out@ =~= spec_encode(p@));
            }
            Result::Ok(out)
        },
        PacketKind::Pong { echo_timestamp, server_timestamp, sequence } => {
            let mut out: Vec<u8> = Vec::new();
            out.push(9u8);
            proof {
                assert(out@ =~= seq![9u8]);
            }
            push_u64(&mut out, *echo_timestamp);
            push_u64(&mut out, *server_timestamp);
            push_u64(&mut out, *sequence);
            proof {
                assert(out@ =~= spec_encode(p@));
            }
            Result::Ok(out)
        },
        PacketKind::KeyRotation { encrypted_new_key, nonce, key_id, signature } => {
            if !(bytes_wf(encrypted_new_key) && bytes_wf(nonce) && bytes_wf(key_id) && bytes_wf(
                signature,
            )) {
                return Result::Err(EncodeError::Oversize);
            }
            let mut out: Vec<u8> = Vec::new();
            out.push(10u8);
            proof {
                assert(out@ =~= seq![10u8]);
            }
            push_bytes(&mut out, encrypted_new_key);
            push_bytes(&mut out, nonce);
            push_bytes(&mut out, key_id);
            push_bytes(&mut out, signature);
            proof {
                assert(out@ =~= spec_encode(p@));
            }
            Result::Ok(out)
        },
        PacketKind::Disconnect { reason, message } => {
            if !bytes_wf(message) {
                return Result::Err(EncodeError::Oversize);
            }
            let mut out: Vec<u8> = Vec::new();
            out.push(11u8);
            proof {
                assert(out@ =~= seq![11u8]);
            }
            push_u16(&mut out, *reason);
            push_bytes(&mut out, message);
            proof {
                assert(out@ =~= spec_encode(p@));
            }
            Result::Ok(out)
        },
        PacketKind::Error { code, message } => {
            if !bytes_wf(message) {
                return Result::Err(EncodeError::Oversize);
            }
            let mut out: Vec<u8> = Vec::new();
            out.push(12u8);
            proof {
                assert(out@ =~= seq![12u8]);
            }
            push_u16(&mut out, *code);
            push_bytes(&mut out, message);
            proof {
                assert(out@ =~= spec_encode(p@));
            }
            Result::Ok(out)
        },
    }
}

/// Decode a frame into the packet it canonically encodes. Fails exactly when
/// the frame encodes no packet.
pub fn decode(buf: &Vec<u8>) -> (r: Result<PacketKind, ProtocolError>)
    ensures
        r matches Ok(p) ==> spec_decode(buf@) == Option::Some(p@),
        r is Err ==> spec_decode(buf@) is None,
{
    if buf.len() < 1 {
        return Result::Err(ProtocolError::Truncated);
    }
    let tag = buf[0];
    if tag == 1u8 {
        let (public_key, i1) = match read_bytes(buf, 1) {
            Option::Some(x) => x,
            Option::None => {
                return Result::Err(ProtocolError::Truncated);
            },
        };
        let (version, i2) = match read_bytes(buf, i1) {
            Option::Some(x) => x,
            Option::None => {
                return Result::Err(ProtocolError::Truncated);
            },
        };
        let (features, i3) = match read_list(buf, i2) {
            Option::Some(x) => x,
            Option::None => {
                return Result::Err(ProtocolError::Truncated);
            },
        };
        let (nonce, i4) = match read_bytes(buf, i3) {
            Option::Some(x) => x,
            Option::None => {
                return Result::Err(ProtocolError::Truncated);
            },
        };
        if i4 != buf.len() {
            return Result::Err(ProtocolError::BadField);
        }
        Result::Ok(PacketKind::Auth { public_key, version, features, nonce })
    } else if tag == 2u8 {
        let (data, i1) = match read_bytes(buf, 1) {
            Option::Some(x) => x,
            Option::None => {
                return Result::Err(ProtocolError::Truncated);
            },
        };
        let (server_key, i2) = match read_bytes(buf, i1) {
            Option::Some(x) => x,
            Option::None => {
                return Result::Err(ProtocolError::Truncated);
            },
        };
        let (expires_at, i3) = match read_u64(buf, i2) {
            Option::Some(x) => x,
            Option::None => {
                return Result::Err(ProtocolError::Truncated);
            },
        };
        let (id, i4) = match read_bytes(buf, i3) {
            Option::Some(x) => x,
            Option::None => {
                return Result::Err(ProtocolError::Truncated);
            },
        };
        if i4 != buf.len() {
            return Result::Err(ProtocolError::BadField);
        }
        Result::Ok(PacketKind::Challenge { data, server_key, expires_at, id })
    } else if tag == 3u8 {
        let (signature, i1) = match read_bytes(buf, 1) {
            Option::Some(x) => x,
            Option::None => {
                return Result::Err(ProtocolError::Truncated);
            },
        };
        let (public_key, i2) = match read_bytes(buf, i1) {
            Option::Some(x) => x,
            Option::None => {
                return Result::Err(ProtocolError::Truncated);
            },
        };
        let (challenge_id, i3) = match read_bytes(buf, i2) {
            Option::Some(x) => x,
            Option::None => {
                return Result::Err(ProtocolError::Truncated);
            },
        };
        if i3 != buf.len() {
            return Result::Err(ProtocolError::BadField);
        }
        Result::Ok(PacketKind::ChallengeResponse { signature, public_key, challenge_id })
    } else if tag == 4u8 {
        let (ip_address, i1) = match read_bytes(buf, 1) {
            Option::Some(x) => x,
            Option::None => {
                return Result::Err(ProtocolError::Truncated);
            },
        };
        let (lease_duration, i2) = match read_u64(buf, i1) {
            Option::Some(x) => x,
            Option::None => {
                return Result::Err(ProtocolError::Truncated);
            },
        };
        let (session_id, i3) = match read_bytes(buf, i2) {
            Option::Some(x) => x,
            Option::None => {
                return Result::Err(ProtocolError::Truncated);
            },
        };
        let (encrypted_session_key, i4) = match read_bytes(buf, i3) {
            Option::Some(x) => x,
            Option::None => {
                return Result::Err(ProtocolError::Truncated);
            },
        };
        let (key_nonce, i5) = match read_bytes(buf, i4) {
            Option::Some(x) => x,
            Option::None => {
                return Result::Err(ProtocolError::Truncated);
            },
        };
        if i5 != buf.len() {
            return Result::Err(ProtocolError::BadField);
        }
        Result::Ok(
            PacketKind::IpAssign {
                ip_address,
                lease_duration,
                session_id,
                encrypted_session_key,
                key_nonce,
            },
        )
    } else if tag == 5u8 {
        let (session_id, i1) = match read_bytes(buf, 1) {
            Option::Some(x) => x,
            Option::None => {
                return Result::Err(ProtocolError::Truncated);
            },
        };
        let (ip_address, i2) = match read_bytes(buf, i1) {
            Option::Some(x) => x,
            Option::None => {
                return Result::Err(ProtocolError::Truncated);
            },
        };
        if i2 != buf.len() {
            return Result::Err(ProtocolError::BadField);
        }
        Result::Ok(PacketKind::IpRenewal { session_id, ip_address })
    } else if tag == 6u8 {
        let (session_id, i1) = match read_bytes(buf, 1) {
            Option::Some(x) => x,
            Option::None => {
                return Result::Err(ProtocolError::Truncated);
            },
        };
        let (expires_at, i2) = match read_u64(buf, i1) {
            Option::Some(x) => x,
            Option::None => {
                return Result::Err(ProtocolError::Truncated);
            },
        };
        let (success, i3) = match read_bool(buf, i2) {
            Option::Some(x) => x,
            Option::None => {
                return Result::Err(ProtocolError::BadField);
            },
        };
        if i3 != buf.len() {
            return Result::Err(ProtocolError::BadField);
        }
        Result::Ok(PacketKind::IpRenewalResponse { session_id, expires_at, success })
    } else if tag == 7u8 {
        let (encrypted, i1) = match read_bytes(buf, 1) {
            Option::Some(x) => x,
            Option::None => {
                return Result::Err(ProtocolError::Truncated);
            },
        };
        let (nonce, i2) = match read_bytes(buf, i1) {
            Option::Some(x) => x,
            Option::None => {
                return Result::Err(ProtocolError::Truncated);
            },
        };
        let (counter, i3) = match read_u64(buf, i2) {
            Option::Some(x) => x,
            Option::None => {
                return Result::Err(ProtocolError::Truncated);
            },
        };
        let (padding, i4) = match read_opt(buf, i3) {
            Option::Some(x) => x,
            Option::None => {
                return Result::Err(ProtocolError::BadField);
            },
        };
        if i4 != buf.len() {
            return Result::Err(ProtocolError::BadField);
        }
        Result::Ok(PacketKind::Data { encrypted, nonce, counter, padding })
    } else if tag == 8u8 {
        let (timestamp, i1) = match read_u64(buf, 1) {
            Option::Some(x) => x,
            Option::None => {
                return Result::Err(ProtocolError::Truncated);
            },
        };
        let (sequence, i2) = match read_u64(buf, i1) {
            Option::Some(x) => x,
            Option::None => {
                return Result::Err(ProtocolError::Truncated);
            },
        };
        if i2 != buf.len() {
            return Result::Err(ProtocolError::BadField);
        }
        Result::Ok(PacketKind::Ping { timestamp, sequence })
    } else if tag == 9u8 {
        let (echo_timestamp, i1) = match read_u64(buf, 1) {
            Option::Some(x) => x,
            Option::None => {
                return Result::Err(ProtocolError::Truncated);
            },
        };
        let (server_timestamp, i2) = match read_u64(buf, i1) {
            Option::Some(x) => x,
            Option::None => {
                return Result::Err(ProtocolError::Truncated);
            },
        };
        let (sequence, i3) = match read_u64(buf, i2) {
            Option::Some(x) => x,
            Option::None => {
                return Result::Err(ProtocolError::Truncated);
            },
        };
        if i3 != buf.len() {
            return Result::Err(ProtocolError::BadField);
        }
        Result::Ok(PacketKind::Pong { echo_timestamp, server_timestamp, sequence })
    } else if tag == 10u8 {
        let (encrypted_new_key, i1) = match read_bytes(buf, 1) {
            Option::Some(x) => x,
            Option::None => {
                return Result::Err(ProtocolError::Truncated);
            },
        };
        let (nonce, i2) = match read_bytes(buf, i1) {
            Option::Some(x) => x,
            Option::None => {
                return Result::Err(ProtocolError::Truncated);
            },
        };
        let (key_id, i3) = match read_bytes(buf, i2) {
            Option::Some(x) => x,
            Option::None => {
                return Result::Err(ProtocolError::Truncated);
            },
        };
        let (signature, i4) = match read_bytes(buf, i3) {
            Option::Some(x) => x,
            Option::None => {
                return Result::Err(ProtocolError::Truncated);
            },
        };
        if i4 != buf.len() {
            return Result::Err(ProtocolError::BadField);
        }
        Result::Ok(PacketKind::KeyRotation { encrypted_new_key, nonce, key_id, signature })
    } else if tag == 11u8 {
        let (reason, i1) = match read_u16(buf, 1) {
            Option::Some(x) => x,
            Option::None => {
                return Result::Err(ProtocolError::Truncated);
            },
        };
        let (message, i2) = match read_bytes(buf, i1) {
            Option::Some(x) => x,
            Option::None => {
                return Result::Err(ProtocolError::Truncated);
            },
        };
        if i2 != buf.len() {
            return Result::Err(ProtocolError::BadField);
        }
        Result::Ok(PacketKind::Disconnect { reason, message })
    } else if tag == 12u8 {
        let (code, i1) = match read_u16(buf, 1) {
            Option::Some(x) => x,
            Option::None => {
                return Result::Err(ProtocolError::Truncated);
            },
        };
        let (message, i2) = match read_bytes(buf, i1) {
            Option::Some(x) => x,
            Option::None => {
                return Result::Err(ProtocolError::Truncated);
            },
        };
        if i2 != buf.len() {
            return Result::Err(ProtocolError::BadField);
        }
        Result::Ok(PacketKind::Error { code, message })
    } else {
        Result::Err(ProtocolError::UnknownTag)
    }
}

fn bytes_wf(b: &Vec<u8>) -> (r: bool)
    ensures
        r == wf_bytes(b@),
{
    b.len() <= 0xFFFF_FFFF
}

fn strs_wf(l: &Vec<Vec<u8>>) -> (r: bool)
    ensures
        r == wf_strs(l@.map_values(|v: Vec<u8>| v@)),
{
    let ghost lv = l@.map_values(|v: Vec<u8>| v@);
    if l.len() > 0xFFFF_FFFF {
        return false;
    }
    let mut i: usize = 0;
    while i < l.len()
        invariant
            i <= l@.len(),
            lv == l@.map_values(|v: Vec<u8>| v@),
            forall|k: int| 0 <= k < i ==> wf_bytes(#[trigger] lv[k]),
        decreases l@.len() - i,
    {
        if !bytes_wf(&l[i]) {
            proof {
                assert(lv[i as int] == l@[i as int]@);
            }
            return false;
        }
        proof {
            assert(lv[i as int] == l@[i as int]@);
        }
        i = i + 1;
    }
    true
}

} // verus!
