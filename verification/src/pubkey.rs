//! Peer public keys: base58 text to raw 32-byte keys, through the Solana
//! SDK's key parser.
use vstd::prelude::*;

verus! {

/// What base58 decoding of 32-byte-key text yields: the raw key when the
/// text is a well-formed encoding, nothing otherwise. A function of the
/// text alone.
pub uninterp spec fn base58_decode_32(s: Seq<u8>) -> Option<Seq<u8>>;

/// Relies on solana_sdk::pubkey::Pubkey::from_str: parses base58 text into
/// exactly 32 key bytes, failing on any invalid character or any other
/// decoded length; the result depends on the text alone.
#[verifier::external_body]
pub fn parse_pubkey(s: &Vec<u8>) -> (r: Option<Vec<u8>>)
    ensures
        r is Some <==> base58_decode_32(s@) is Some,
        r matches Some(b) ==> base58_decode_32(s@) == Option::Some(b@) && b@.len() == 32,
{
    let text = match core::str::from_utf8(s.as_slice()) {
        Ok(t) => t,
        Err(_) => return None,
    };
    match <solana_sdk::pubkey::Pubkey as core::str::FromStr>::from_str(text) {
        Ok(p) => Some(p.to_bytes().to_vec()),
        Err(_) => None,
    }
}

/// Whether text is a well-formed base58 encoding of a 32-byte key.
pub fn is_valid_pubkey(s: &Vec<u8>) -> (r: bool)
    ensures
        r == (base58_decode_32(s@) is Some),
{
    match parse_pubkey(s) {
        Option::Some(_) => true,
        Option::None => false,
    }
}

} // verus!
