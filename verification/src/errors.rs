//! Error taxonomy of the relay core. Each variant maps to one caller-visible
//! outcome; bad signature and unknown device share a variant on purpose, so
//! the caller cannot probe which devices exist.

use vstd::prelude::*;

verus! {

/// Rejections of the per-request identity proof.
#[derive(Clone, Copy, PartialEq, Eq, Structural, Debug)]
pub enum AuthError {
    /// A header is absent, not valid base64, or of the wrong length.
    MalformedRequest,
    /// The signed timestamp is outside the anti-replay window.
    ExpiredCredential,
    /// The signature does not verify, or no device carries the key; the two
    /// are deliberately indistinguishable.
    AuthenticationFailure,
}

/// Failures of handshake confirmation.
#[derive(Clone, Copy, PartialEq, Eq, Structural, Debug)]
pub enum ConfirmError {
    /// The pending offer is absent, or addressed to a different device.
    OfferNotFound,
    /// A device named by the confirmation does not exist.
    DeviceNotFound,
}

/// Failures of offer creation.
#[derive(Clone, Copy, PartialEq, Eq, Structural, Debug)]
pub enum CreateSessionError {
    /// The caller addressed its own user.
    SelfSession,
}

/// Failures of user creation.
#[derive(Clone, Copy, PartialEq, Eq, Structural, Debug)]
pub enum CreateUserError {
    /// A user of that name already exists.
    Conflict,
}

/// Failures of device registration.
#[derive(Clone, Copy, PartialEq, Eq, Structural, Debug)]
pub enum CreateDeviceError {
    /// The enrollment token was already consumed by an earlier registration.
    TokenAlreadyUsed,
    /// The token does not belong to the user being enrolled.
    WrongTokenUser,
    /// The signed prekey's signature does not verify under the identity key.
    SignatureCheckFailed,
    /// The user the device claims does not exist.
    UnknownUser,
    /// A device with this identity key is already registered; the store's
    /// uniqueness constraint on the key would refuse the row.
    DuplicateIdentityKey,
}

/// Failures of directory lookups.
#[derive(Clone, Copy, PartialEq, Eq, Structural, Debug)]
pub enum LookupError {
    /// The device named by the request does not exist.
    DeviceNotFound,
}

/// Failures of the signed-prekey / login signature checks.
#[derive(Clone, Copy, PartialEq, Eq, Structural, Debug)]
pub enum SignatureCheckError {
    /// The identity public key is not valid base64.
    IdentityKeyBase64,
    /// The signed value is not valid base64.
    ValueBase64,
    /// The signature is not valid base64.
    SignatureBase64,
    /// The identity key bytes are not a valid public key.
    IdentityKeyBytes,
    /// The signature bytes are not 64 bytes long.
    SignatureBytes,
    /// The signature does not verify.
    Mismatch,
}

/// Failures of node key handling.
#[derive(Clone, Copy, PartialEq, Eq, Structural, Debug)]
pub enum NodeKeyError {
    /// A stored key is not valid base64.
    Base64,
    /// A stored key or signature has the wrong length.
    Length,
    /// The stored public key bytes are not a valid public key.
    KeyBytes,
}

} // verus!
