//! Fixed wire strings: the texts of error and disconnect frames, and the
//! session-id prefix, as byte strings with their models.
use vstd::prelude::*;

verus! {
/// The bytes of "Invalid public key format".
pub open spec fn spec_invalid_public_key() -> Seq<u8> {
    seq![73u8, 110, 118, 97, 108, 105, 100, 32, 112, 117, 98, 108, 105, 99, 32, 107, 101, 121, 32, 102, 111, 114, 109, 97, 116]
}

/// Builds the bytes of "Invalid public key format".
pub fn invalid_public_key() -> (r: Vec<u8>)
    ensures
        r@ == spec_invalid_public_key(),
{
    let mut v: Vec<u8> = Vec::new();
    v.push(73u8);
    v.push(110u8);
    v.push(118u8);
    v.push(97u8);
    v.push(108u8);
    v.push(105u8);
    v.push(100u8);
    v.push(32u8);
    v.push(112u8);
    v.push(117u8);
    v.push(98u8);
    v.push(108u8);
    v.push(105u8);
    v.push(99u8);
    v.push(32u8);
    v.push(107u8);
    v.push(101u8);
    v.push(121u8);
    v.push(32u8);
    v.push(102u8);
    v.push(111u8);
    v.push(114u8);
    v.push(109u8);
    v.push(97u8);
    v.push(116u8);
    proof {
        assert(v@ =~= spec_invalid_public_key());
    }
    v
}

/// The bytes of "Challenge generation failed".
pub open spec fn spec_challenge_failed() -> Seq<u8> {
    seq![67u8, 104, 97, 108, 108, 101, 110, 103, 101, 32, 103, 101, 110, 101, 114, 97, 116, 105, 111, 110, 32, 102, 97, 105, 108, 101, 100]
}

/// Builds the bytes of "Challenge generation failed".
pub fn challenge_failed() -> (r: Vec<u8>)
    ensures
        r@ == spec_challenge_failed(),
{
    let mut v: Vec<u8> = Vec::new();
    v.push(67u8);
    v.push(104u8);
    v.push(97u8);
    v.push(108u8);
    v.push(108u8);
    v.push(101u8);
    v.push(110u8);
    v.push(103u8);
    v.push(101u8);
    v.push(32u8);
    v.push(103u8);
    v.push(101u8);
    v.push(110u8);
    v.push(101u8);
    v.push(114u8);
    v.push(97u8);
    v.push(116u8);
    v.push(105u8);
    v.push(111u8);
    v.push(110u8);
    v.push(32u8);
    v.push(102u8);
    v.push(97u8);
    v.push(105u8);
    v.push(108u8);
    v.push(101u8);
    v.push(100u8);
    proof {
        assert(v@ =~= spec_challenge_failed());
    }
    v
}

/// The bytes of "Expected authentication message".
pub open spec fn spec_expected_auth() -> Seq<u8> {
    seq![69u8, 120, 112, 101, 99, 116, 101, 100, 32, 97, 117, 116, 104, 101, 110, 116, 105, 99, 97, 116, 105, 111, 110, 32, 109, 101, 115, 115, 97, 103, 101]
}

/// Builds the bytes of "Expected authentication message".
pub fn expected_auth() -> (r: Vec<u8>)
    ensures
        r@ == spec_expected_auth(),
{
    let mut v: Vec<u8> = Vec::new();
    v.push(69u8);
    v.push(120u8);
    v.push(112u8);
    v.push(101u8);
    v.push(99u8);
    v.push(116u8);
    v.push(101u8);
    v.push(100u8);
    v.push(32u8);
    v.push(97u8);
    v.push(117u8);
    v.push(116u8);
    v.push(104u8);
    v.push(101u8);
    v.push(110u8);
    v.push(116u8);
    v.push(105u8);
    v.push(99u8);
    v.push(97u8);
    v.push(116u8);
    v.push(105u8);
    v.push(111u8);
    v.push(110u8);
    v.push(32u8);
    v.push(109u8);
    v.push(101u8);
    v.push(115u8);
    v.push(115u8);
    v.push(97u8);
    v.push(103u8);
    v.push(101u8);
    proof {
        assert(v@ =~= spec_expected_auth());
    }
    v
}

/// The bytes of "Invalid auth message".
pub open spec fn spec_invalid_auth() -> Seq<u8> {
    seq![73u8, 110, 118, 97, 108, 105, 100, 32, 97, 117, 116, 104, 32, 109, 101, 115, 115, 97, 103, 101]
}

/// Builds the bytes of "Invalid auth message".
pub fn invalid_auth() -> (r: Vec<u8>)
    ensures
        r@ == spec_invalid_auth(),
{
    let mut v: Vec<u8> = Vec::new();
    v.push(73u8);
    v.push(110u8);
    v.push(118u8);
    v.push(97u8);
    v.push(108u8);
    v.push(105u8);
    v.push(100u8);
    v.push(32u8);
    v.push(97u8);
    v.push(117u8);
    v.push(116u8);
    v.push(104u8);
    v.push(32u8);
    v.push(109u8);
    v.push(101u8);
    v.push(115u8);
    v.push(115u8);
    v.push(97u8);
    v.push(103u8);
    v.push(101u8);
    proof {
        assert(v@ =~= spec_invalid_auth());
    }
    v
}

/// The bytes of "Expected challenge response".
pub open spec fn spec_expected_response() -> Seq<u8> {
    seq![69u8, 120, 112, 101, 99, 116, 101, 100, 32, 99, 104, 97, 108, 108, 101, 110, 103, 101, 32, 114, 101, 115, 112, 111, 110, 115, 101]
}

/// Builds the bytes of "Expected challenge response".
pub fn expected_response() -> (r: Vec<u8>)
    ensures
        r@ == spec_expected_response(),
{
    let mut v: Vec<u8> = Vec::new();
    v.push(69u8);
    v.push(120u8);
    v.push(112u8);
    v.push(101u8);
    v.push(99u8);
    v.push(116u8);
    v.push(101u8);
    v.push(100u8);
    v.push(32u8);
    v.push(99u8);
    v.push(104u8);
    v.push(97u8);
    v.push(108u8);
    v.push(108u8);
    v.push(101u8);
    v.push(110u8);
    v.push(103u8);
    v.push(101u8);
    v.push(32u8);
    v.push(114u8);
    v.push(101u8);
    v.push(115u8);
    v.push(112u8);
    v.push(111u8);
    v.push(110u8);
    v.push(115u8);
    v.push(101u8);
    proof {
        assert(v@ =~= spec_expected_response());
    }
    v
}

/// The bytes of "Invalid challenge response message".
pub open spec fn spec_invalid_response() -> Seq<u8> {
    seq![73u8, 110, 118, 97, 108, 105, 100, 32, 99, 104, 97, 108, 108, 101, 110, 103, 101, 32, 114, 101, 115, 112, 111, 110, 115, 101, 32, 109, 101, 115, 115, 97, 103, 101]
}

/// Builds the bytes of "Invalid challenge response message".
pub fn invalid_response() -> (r: Vec<u8>)
    ensures
        r@ == spec_invalid_response(),
{
    let mut v: Vec<u8> = Vec::new();
    v.push(73u8);
    v.push(110u8);
    v.push(118u8);
    v.push(97u8);
    v.push(108u8);
    v.push(105u8);
    v.push(100u8);
    v.push(32u8);
    v.push(99u8);
    v.push(104u8);
    v.push(97u8);
    v.push(108u8);
    v.push(108u8);
    v.push(101u8);
    v.push(110u8);
    v.push(103u8);
    v.push(101u8);
    v.push(32u8);
    v.push(114u8);
    v.push(101u8);
    v.push(115u8);
    v.push(112u8);
    v.push(111u8);
    v.push(110u8);
    v.push(115u8);
    v.push(101u8);
    v.push(32u8);
    v.push(109u8);
    v.push(101u8);
    v.push(115u8);
    v.push(115u8);
    v.push(97u8);
    v.push(103u8);
    v.push(101u8);
    proof {
        assert(v@ =~= spec_invalid_response());
    }
    v
}

/// The bytes of "Public key mismatch".
pub open spec fn spec_pubkey_mismatch() -> Seq<u8> {
    seq![80u8, 117, 98, 108, 105, 99, 32, 107, 101, 121, 32, 109, 105, 115, 109, 97, 116, 99, 104]
}

/// Builds the bytes of "Public key mismatch".
pub fn pubkey_mismatch() -> (r: Vec<u8>)
    ensures
        r@ == spec_pubkey_mismatch(),
{
    let mut v: Vec<u8> = Vec::new();
    v.push(80u8);
    v.push(117u8);
    v.push(98u8);
    v.push(108u8);
    v.push(105u8);
    v.push(99u8);
    v.push(32u8);
    v.push(107u8);
    v.push(101u8);
    v.push(121u8);
    v.push(32u8);
    v.push(109u8);
    v.push(105u8);
    v.push(115u8);
    v.push(109u8);
    v.push(97u8);
    v.push(116u8);
    v.push(99u8);
    v.push(104u8);
    proof {
        assert(v@ =~= spec_pubkey_mismatch());
    }
    v
}

/// The bytes of "Challenge verification failed".
pub open spec fn spec_verify_failed() -> Seq<u8> {
    seq![67u8, 104, 97, 108, 108, 101, 110, 103, 101, 32, 118, 101, 114, 105, 102, 105, 99, 97, 116, 105, 111, 110, 32, 102, 97, 105, 108, 101, 100]
}

/// Builds the bytes of "Challenge verification failed".
pub fn verify_failed() -> (r: Vec<u8>)
    ensures
        r@ == spec_verify_failed(),
{
    let mut v: Vec<u8> = Vec::new();
    v.push(67u8);
    v.push(104u8);
    v.push(97u8);
    v.push(108u8);
    v.push(108u8);
    v.push(101u8);
    v.push(110u8);
    v.push(103u8);
    v.push(101u8);
    v.push(32u8);
    v.push(118u8);
    v.push(101u8);
    v.push(114u8);
    v.push(105u8);
    v.push(102u8);
    v.push(105u8);
    v.push(99u8);
    v.push(97u8);
    v.push(116u8);
    v.push(105u8);
    v.push(111u8);
    v.push(110u8);
    v.push(32u8);
    v.push(102u8);
    v.push(97u8);
    v.push(105u8);
    v.push(108u8);
    v.push(101u8);
    v.push(100u8);
    proof {
        assert(v@ =~= spec_verify_failed());
    }
    v
}

/// The bytes of "Access denied by ACL".
pub open spec fn spec_acl_denied() -> Seq<u8> {
    seq![65u8, 99, 99, 101, 115, 115, 32, 100, 101, 110, 105, 101, 100, 32, 98, 121, 32, 65, 67, 76]
}

/// Builds the bytes of "Access denied by ACL".
pub fn acl_denied() -> (r: Vec<u8>)
    ensures
        r@ == spec_acl_denied(),
{
    let mut v: Vec<u8> = Vec::new();
    v.push(65u8);
    v.push(99u8);
    v.push(99u8);
    v.push(101u8);
    v.push(115u8);
    v.push(115u8);
    v.push(32u8);
    v.push(100u8);
    v.push(101u8);
    v.push(110u8);
    v.push(105u8);
    v.push(101u8);
    v.push(100u8);
    v.push(32u8);
    v.push(98u8);
    v.push(121u8);
    v.push(32u8);
    v.push(65u8);
    v.push(67u8);
    v.push(76u8);
    proof {
        assert(v@ =~= spec_acl_denied());
    }
    v
}

/// The bytes of "Failed to allocate IP".
pub open spec fn spec_alloc_failed() -> Seq<u8> {
    seq![70u8, 97, 105, 108, 101, 100, 32, 116, 111, 32, 97, 108, 108, 111, 99, 97, 116, 101, 32, 73, 80]
}

/// Builds the bytes of "Failed to allocate IP".
pub fn alloc_failed() -> (r: Vec<u8>)
    ensures
        r@ == spec_alloc_failed(),
{
    let mut v: Vec<u8> = Vec::new();
    v.push(70u8);
    v.push(97u8);
    v.push(105u8);
    v.push(108u8);
    v.push(101u8);
    v.push(100u8);
    v.push(32u8);
    v.push(116u8);
    v.push(111u8);
    v.push(32u8);
    v.push(97u8);
    v.push(108u8);
    v.push(108u8);
    v.push(111u8);
    v.push(99u8);
    v.push(97u8);
    v.push(116u8);
    v.push(101u8);
    v.push(32u8);
    v.push(73u8);
    v.push(80u8);
    proof {
        assert(v@ =~= spec_alloc_failed());
    }
    v
}

/// The bytes of "Encryption failed".
pub open spec fn spec_crypto_failed() -> Seq<u8> {
    seq![69u8, 110, 99, 114, 121, 112, 116, 105, 111, 110, 32, 102, 97, 105, 108, 101, 100]
}

/// Builds the bytes of "Encryption failed".
pub fn crypto_failed() -> (r: Vec<u8>)
    ensures
        r@ == spec_crypto_failed(),
{
    let mut v: Vec<u8> = Vec::new();
    v.push(69u8);
    v.push(110u8);
    v.push(99u8);
    v.push(114u8);
    v.push(121u8);
    v.push(112u8);
    v.push(116u8);
    v.push(105u8);
    v.push(111u8);
    v.push(110u8);
    v.push(32u8);
    v.push(102u8);
    v.push(97u8);
    v.push(105u8);
    v.push(108u8);
    v.push(101u8);
    v.push(100u8);
    proof {
        assert(v@ =~= spec_crypto_failed());
    }
    v
}

/// The bytes of "Server shutting down".
pub open spec fn spec_server_shutdown() -> Seq<u8> {
    seq![83u8, 101, 114, 118, 101, 114, 32, 115, 104, 117, 116, 116, 105, 110, 103, 32, 100, 111, 119, 110]
}

/// Builds the bytes of "Server shutting down".
pub fn server_shutdown() -> (r: Vec<u8>)
    ensures
        r@ == spec_server_shutdown(),
{
    let mut v: Vec<u8> = Vec::new();
    v.push(83u8);
    v.push(101u8);
    v.push(114u8);
    v.push(118u8);
    v.push(101u8);
    v.push(114u8);
    v.push(32u8);
    v.push(115u8);
    v.push(104u8);
    v.push(117u8);
    v.push(116u8);
    v.push(116u8);
    v.push(105u8);
    v.push(110u8);
    v.push(103u8);
    v.push(32u8);
    v.push(100u8);
    v.push(111u8);
    v.push(119u8);
    v.push(110u8);
    proof {
        assert(v@ =~= spec_server_shutdown());
    }
    v
}

/// The bytes of "session_".
pub open spec fn spec_session_prefix() -> Seq<u8> {
    seq![115u8, 101, 115, 115, 105, 111, 110, 95]
}

/// Builds the bytes of "session_".
pub fn session_prefix() -> (r: Vec<u8>)
    ensures
        r@ == spec_session_prefix(),
{
    let mut v: Vec<u8> = Vec::new();
    v.push(115u8);
    v.push(101u8);
    v.push(115u8);
    v.push(115u8);
    v.push(105u8);
    v.push(111u8);
    v.push(110u8);
    v.push(95u8);
    proof {
        assert(v@ =~= spec_session_prefix());
    }
    v
}

} // verus!
