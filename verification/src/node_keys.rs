//! The relay node's own signing identity: a base64-encoded ed25519 key
//! pair. Generating and persisting the pair is the surrounding process's
//! job; here the stored encoding is decoded, validated and used.

use vstd::prelude::*;

use crate::codec::{b64_decode, b64_decode_of, b64_encode, b64_encode_of};
use crate::crypto::{
    ed25519_check_pubkey, ed25519_sign, ed25519_signature_of, ed25519_valid_pubkey,
    ed25519_verifies, ed25519_verify,
};
use crate::errors::NodeKeyError;

verus! {

/// The node's key pair, both halves base64-encoded as they are stored.
pub struct NodeKeys {
    pub public_b64: String,
    pub private_b64: String,
}

/// Outcome of decoding a stored 32-byte value from base64.
pub open spec fn key_bytes_spec(b64: Seq<char>) -> Result<Seq<u8>, NodeKeyError> {
    match b64_decode_of(b64) {
        None => Err(NodeKeyError::Base64),
        Some(b) => if b.len() != 32 {
            Err(NodeKeyError::Length)
        } else {
            Ok(b)
        },
    }
}

/// Outcome of checking a base64 signature over `msg` against a stored
/// base64 public key.
pub open spec fn verify_message_spec(
    pub_b64: Seq<char>,
    msg: Seq<u8>,
    sig_b64: Seq<char>,
) -> Result<bool, NodeKeyError> {
    match key_bytes_spec(pub_b64) {
        Err(e) => Err(e),
        Ok(pk) => if !ed25519_valid_pubkey(pk) {
            Err(NodeKeyError::KeyBytes)
        } else {
            match b64_decode_of(sig_b64) {
                None => Err(NodeKeyError::Base64),
                Some(sig) => if sig.len() != 64 {
                    Err(NodeKeyError::Length)
                } else {
                    Ok(ed25519_verifies(pk, msg, sig))
                },
            }
        },
    }
}

impl NodeKeys {
    /// The 32 secret key bytes, decoded from their stored base64 form.
    pub fn signing_key(&self) -> (r: Result<Vec<u8>, NodeKeyError>)
        ensures
            match r {
                Ok(b) => key_bytes_spec(self.private_b64@) == Ok::<Seq<u8>, NodeKeyError>(b@),
                Err(e) => key_bytes_spec(self.private_b64@) == Err::<Seq<u8>, NodeKeyError>(e),
            },
    {
        let bytes = match b64_decode(self.private_b64.as_str()) {
            Some(v) => v,
            None => return Err(NodeKeyError::Base64),
        };
        if bytes.len() != 32 {
            return Err(NodeKeyError::Length);
        }
        Ok(bytes)
    }

    /// The 32 public key bytes, decoded from their stored base64 form and
    /// checked to be a valid public key.
    pub fn verifying_key(&self) -> (r: Result<Vec<u8>, NodeKeyError>)
        ensures
            match r {
                Ok(b) => key_bytes_spec(self.public_b64@) == Ok::<Seq<u8>, NodeKeyError>(b@)
                    && ed25519_valid_pubkey(b@),
                Err(NodeKeyError::KeyBytes) => (match key_bytes_spec(self.public_b64@) {
                    Ok(b) => !ed25519_valid_pubkey(b),
                    Err(_) => false,
                }),
                Err(e) => key_bytes_spec(self.public_b64@) == Err::<Seq<u8>, NodeKeyError>(e),
            },
    {
        let bytes = match b64_decode(self.public_b64.as_str()) {
            Some(v) => v,
            None => return Err(NodeKeyError::Base64),
        };
        if bytes.len() != 32 {
            return Err(NodeKeyError::Length);
        }
        if !ed25519_check_pubkey(bytes.as_slice()) {
            return Err(NodeKeyError::KeyBytes);
        }
        Ok(bytes)
    }

    /// Sign a message with the node's secret key; the signature is returned
    /// base64-encoded.
    pub fn sign_message(&self, message: &[u8]) -> (r: Result<String, NodeKeyError>)
        ensures
            match key_bytes_spec(self.private_b64@) {
                Ok(sk) => r is Ok && r->Ok_0@ == b64_encode_of(
                    ed25519_signature_of(sk, message@),
                ),
                Err(e) => r == Err::<String, NodeKeyError>(e),
            },
    {
        let sk = match self.signing_key() {
            Ok(v) => v,
            Err(e) => return Err(e),
        };
        let sig = ed25519_sign(sk.as_slice(), message);
        Ok(b64_encode(sig.as_slice()))
    }

    /// Check a base64 signature over a message against the node's public
    /// key.
    pub fn verify_message(&self, message: &[u8], signature_b64: &str) -> (r: Result<
        bool,
        NodeKeyError,
    >)
        ensures
            r == verify_message_spec(self.public_b64@, message@, signature_b64@),
    {
        let pk = match self.verifying_key() {
            Ok(v) => v,
            Err(e) => return Err(e),
        };
        let sig = match b64_decode(signature_b64) {
            Some(v) => v,
            None => return Err(NodeKeyError::Base64),
        };
        if sig.len() != 64 {
            return Err(NodeKeyError::Length);
        }
        Ok(ed25519_verify(pk.as_slice(), message, sig.as_slice()))
    }
}

} // verus!
