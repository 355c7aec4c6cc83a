//! Ed25519 signature checking through the outside implementation, and the
//! two signature checks the relay performs: a device's signed prekey at
//! registration, and a login proof.

use vstd::prelude::*;

use crate::codec::{b64_decode, b64_decode_of};
use crate::errors::SignatureCheckError;

verus! {

use vstd::string::*;

/// Whether ed25519 accepts these 32 bytes as a public key (they decompress
/// to a curve point).
pub uninterp spec fn ed25519_valid_pubkey(key: Seq<u8>) -> bool;

/// Whether `sig` is a valid ed25519 signature over `msg` under the public
/// key `key`.
pub uninterp spec fn ed25519_verifies(key: Seq<u8>, msg: Seq<u8>, sig: Seq<u8>) -> bool;

/// The ed25519 signature over `msg` under secret key `sk`; ed25519 signing
/// is deterministic, so this is a function of the two.
pub uninterp spec fn ed25519_signature_of(sk: Seq<u8>, msg: Seq<u8>) -> Seq<u8>;

/// Relies on ed25519_dalek's `VerifyingKey::from_bytes`: acceptance depends
/// on the 32 key bytes alone.
#[verifier::external_body]
pub(crate) fn ed25519_check_pubkey(key: &[u8]) -> (r: bool)
    requires
        key@.len() == 32,
    ensures
        r == ed25519_valid_pubkey(key@),
{
    let arr: [u8; 32] = match key.try_into() {
        Ok(a) => a,
        Err(_) => return false,
    };
    ed25519_dalek::VerifyingKey::from_bytes(&arr).is_ok()
}

/// Relies on ed25519_dalek's `VerifyingKey::from_bytes`, `Signature::from_bytes`
/// and `Verifier::verify`: acceptance is a function of key, message and
/// signature bytes alone, and only a parseable key ever accepts.
#[verifier::external_body]
pub(crate) fn ed25519_verify(key: &[u8], msg: &[u8], sig: &[u8]) -> (r: bool)
    requires
        key@.len() == 32,
        sig@.len() == 64,
    ensures
        r == ed25519_verifies(key@, msg@, sig@),
        r ==> ed25519_valid_pubkey(key@),
{
    let ka: [u8; 32] = match key.try_into() {
        Ok(a) => a,
        Err(_) => return false,
    };
    let sa: [u8; 64] = match sig.try_into() {
        Ok(a) => a,
        Err(_) => return false,
    };
    match ed25519_dalek::VerifyingKey::from_bytes(&ka) {
        Ok(vk) => {
            let s = ed25519_dalek::Signature::from_bytes(&sa);
            ed25519_dalek::Verifier::verify(&vk, msg, &s).is_ok()
        },
        Err(_) => false,
    }
}

/// Relies on ed25519_dalek's `SigningKey::from_bytes` and `Signer::sign`:
/// the signature is a function of secret key and message, 64 bytes long.
#[verifier::external_body]
pub(crate) fn ed25519_sign(sk: &[u8], msg: &[u8]) -> (r: Vec<u8>)
    requires
        sk@.len() == 32,
    ensures
        r@ == ed25519_signature_of(sk@, msg@),
        r@.len() == 64,
{
    let ka: [u8; 32] = match sk.try_into() {
        Ok(a) => a,
        Err(_) => return Vec::new(),
    };
    let signing = ed25519_dalek::SigningKey::from_bytes(&ka);
    let sig = ed25519_dalek::Signer::sign(&signing, msg);
    sig.to_bytes().to_vec()
}

// ---------------------------------------------------------------------------
// The relay's signature checks
// ---------------------------------------------------------------------------

/// Outcome of checking a base64 signature over a base64 value under a
/// base64 identity key.
pub open spec fn prekey_check_spec(ik: Seq<char>, spk: Seq<char>, sig: Seq<char>) -> Result<
    (),
    SignatureCheckError,
> {
    match b64_decode_of(ik) {
        None => Err(SignatureCheckError::IdentityKeyBase64),
        Some(ikb) => match b64_decode_of(spk) {
            None => Err(SignatureCheckError::ValueBase64),
            Some(spkb) => match b64_decode_of(sig) {
                None => Err(SignatureCheckError::SignatureBase64),
                Some(sigb) => if ikb.len() != 32 || !ed25519_valid_pubkey(ikb) {
                    Err(SignatureCheckError::IdentityKeyBytes)
                } else if sigb.len() != 64 {
                    Err(SignatureCheckError::SignatureBytes)
                } else if !ed25519_verifies(ikb, spkb, sigb) {
                    Err(SignatureCheckError::Mismatch)
                } else {
                    Ok(())
                },
            },
        },
    }
}

/// Check that a device's signed prekey really was signed by its identity
/// key: all three inputs arrive base64-encoded.
pub fn verify_signed_prekey_signature(
    identity_pubkey_b64: &str,
    spk_pub_b64: &str,
    spk_sig_b64: &str,
) -> (r: Result<(), SignatureCheckError>)
    ensures
        r == prekey_check_spec(identity_pubkey_b64@, spk_pub_b64@, spk_sig_b64@),
{
    let ik = match b64_decode(identity_pubkey_b64) {
        Some(v) => v,
        None => return Err(SignatureCheckError::IdentityKeyBase64),
    };
    let spk = match b64_decode(spk_pub_b64) {
        Some(v) => v,
        None => return Err(SignatureCheckError::ValueBase64),
    };
    let sig = match b64_decode(spk_sig_b64) {
        Some(v) => v,
        None => return Err(SignatureCheckError::SignatureBase64),
    };
    if ik.len() != 32 || !ed25519_check_pubkey(ik.as_slice()) {
        return Err(SignatureCheckError::IdentityKeyBytes);
    }
    if sig.len() != 64 {
        return Err(SignatureCheckError::SignatureBytes);
    }
    if !ed25519_verify(ik.as_slice(), spk.as_slice(), sig.as_slice()) {
        return Err(SignatureCheckError::Mismatch);
    }
    Ok(())
}

/// Outcome of checking a base64 signature over a plain-text message under a
/// base64 identity key.
pub open spec fn message_check_spec(ik: Seq<char>, msg: Seq<u8>, sig: Seq<char>) -> Result<
    (),
    SignatureCheckError,
> {
    match b64_decode_of(ik) {
        None => Err(SignatureCheckError::IdentityKeyBase64),
        Some(ikb) => match b64_decode_of(sig) {
            None => Err(SignatureCheckError::SignatureBase64),
            Some(sigb) => if ikb.len() != 32 || !ed25519_valid_pubkey(ikb) {
                Err(SignatureCheckError::IdentityKeyBytes)
            } else if sigb.len() != 64 {
                Err(SignatureCheckError::SignatureBytes)
            } else if !ed25519_verifies(ikb, msg, sigb) {
                Err(SignatureCheckError::Mismatch)
            } else {
                Ok(())
            },
        },
    }
}

/// Check a login proof: the client signs the raw bytes of `message` with
/// the identity key it claims.
pub fn verify_message_signature(
    identity_pubkey_b64: &str,
    message: &str,
    signature_b64: &str,
) -> (r: Result<(), SignatureCheckError>)
    ensures
        r == message_check_spec(identity_pubkey_b64@, message.spec_bytes(), signature_b64@),
{
    let ik = match b64_decode(identity_pubkey_b64) {
        Some(v) => v,
        None => return Err(SignatureCheckError::IdentityKeyBase64),
    };
    let sig = match b64_decode(signature_b64) {
        Some(v) => v,
        None => return Err(SignatureCheckError::SignatureBase64),
    };
    if ik.len() != 32 || !ed25519_check_pubkey(ik.as_slice()) {
        return Err(SignatureCheckError::IdentityKeyBytes);
    }
    if sig.len() != 64 {
        return Err(SignatureCheckError::SignatureBytes);
    }
    if !ed25519_verify(ik.as_slice(), message.as_bytes(), sig.as_slice()) {
        return Err(SignatureCheckError::Mismatch);
    }
    Ok(())
}

} // verus!
