//! Ed25519 signature checks.

use vstd::prelude::*;

verus! {

/// Whether `public_key` decodes to an Ed25519 verifying key under which
/// `signature` passes the strict check on `message`.
pub uninterp spec fn strict_signature_check(
    public_key: Seq<u8>,
    message: Seq<u8>,
    signature: Seq<u8>,
) -> bool;

/// Decodes the key with `ed25519_dalek::VerifyingKey::from_bytes`, the
/// signature with `ed25519::Signature::from_bytes`, and calls
/// `VerifyingKey::verify_strict` on the message. Trusted: the answer is a
/// function of the three byte strings alone. A key that does not decode
/// gives `false`, as a signature that fails the check does.
#[verifier::external_body]
pub(crate) fn verify_strict(public_key: &[u8; 32], message: &[u8; 32], signature: &[u8; 64]) -> (ok:
    bool)
    ensures
        ok == strict_signature_check(public_key@, message@, signature@),
{
    match ed25519_dalek::VerifyingKey::from_bytes(public_key) {
        Ok(key) => key.verify_strict(message, &ed25519::Signature::from_bytes(signature)).is_ok(),
        Err(_) => false,
    }
}

} // verus!
