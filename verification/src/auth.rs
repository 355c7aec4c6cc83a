//! Request authentication: every protected request carries a base64
//! identity key, a base64 signature over the raw timestamp header, and the
//! decimal timestamp itself. The check is stateless; it re-runs on
//! every request and resolves the caller to the device row holding that key.

use vstd::prelude::*;

use crate::codec::{b64_decode, b64_decode_of, parse_i64, parse_i64_spec};
use crate::crypto::{ed25519_check_pubkey, ed25519_valid_pubkey, ed25519_verifies, ed25519_verify};
use crate::errors::AuthError;
use crate::models::{AuthenticatedDevice, Devices, SpecDevice};
use crate::store::{find_device_by_key_at, RelayState, SpecState};

verus! {

use vstd::string::*;
use vstd::utf8::encode_utf8;

/// The anti-replay window, in seconds, symmetric and inclusive.
pub const REPLAY_WINDOW_SECS: i64 = 30;

/// The timestamp a request claims: what its header parses to as a decimal
/// `i64`, a malformed header counting as 0.
pub open spec fn claimed_timestamp(ts_bytes: Seq<u8>) -> i64 {
    match parse_i64_spec(ts_bytes) {
        Some(v) => v,
        None => 0,
    }
}

/// Whether a claimed timestamp lies within the anti-replay window around
/// the server's clock; a skew of exactly 30 seconds is still accepted.
pub open spec fn within_window(now: i64, ts_val: i64) -> bool {
    -(REPLAY_WINDOW_SECS as int) <= now - ts_val <= REPLAY_WINDOW_SECS as int
}

/// The identity-key header decodes to a well-formed 32-byte public key.
pub open spec fn key_header_ok(ik: Seq<char>) -> bool {
    match b64_decode_of(ik) {
        Some(b) => b.len() == 32 && ed25519_valid_pubkey(b),
        None => false,
    }
}

/// The signature header decodes to 64 bytes.
pub open spec fn sig_header_ok(sig: Seq<char>) -> bool {
    match b64_decode_of(sig) {
        Some(b) => b.len() == 64,
        None => false,
    }
}

/// The authentication outcome for present headers: malformed shape first,
/// then the anti-replay window, then the signature over the raw timestamp
/// bytes, then the device lookup. A failed signature and an unknown device
/// yield the same error on purpose.
pub open spec fn auth_headers_spec(
    state: SpecState,
    ik: Seq<char>,
    sig: Seq<char>,
    ts: Seq<char>,
    now: i64,
) -> Result<SpecDevice, AuthError> {
    if !key_header_ok(ik) || !sig_header_ok(sig) {
        Err(AuthError::MalformedRequest)
    } else {
        let ts_bytes = encode_utf8(ts);
        if !within_window(now, claimed_timestamp(ts_bytes)) {
            Err(AuthError::ExpiredCredential)
        } else if !ed25519_verifies(
            b64_decode_of(ik)->0,
            ts_bytes,
            b64_decode_of(sig)->0,
        ) {
            Err(AuthError::AuthenticationFailure)
        } else {
            match find_device_by_key_at(state.devices, ik, 0) {
                Some(i) => Ok(state.devices[i]),
                None => Err(AuthError::AuthenticationFailure),
            }
        }
    }
}

/// The authentication outcome of a request: an absent header is a
/// malformed request.
pub open spec fn auth_request_spec(
    state: SpecState,
    ik: Option<Seq<char>>,
    sig: Option<Seq<char>>,
    ts: Option<Seq<char>>,
    now: i64,
) -> Result<SpecDevice, AuthError> {
    match (ik, sig, ts) {
        (Some(ikv), Some(sigv), Some(tsv)) => auth_headers_spec(state, ikv, sigv, tsv, now),
        _ => Err(AuthError::MalformedRequest),
    }
}

pub open spec fn opt_header_view(o: Option<&str>) -> Option<Seq<char>> {
    match o {
        Some(s) => Some(s@),
        None => None,
    }
}

/// Whether one authentication result is the authenticator's outcome at
/// clock reading `now`.
pub open spec fn auth_result_matches(
    state: SpecState,
    ik: Option<Seq<char>>,
    sig: Option<Seq<char>>,
    ts: Option<Seq<char>>,
    now: i64,
    r: Result<AuthenticatedDevice, AuthError>,
) -> bool {
    match r {
        Ok(d) => auth_request_spec(state, ik, sig, ts, now) == Ok::<SpecDevice, AuthError>(d.0@),
        Err(e) => auth_request_spec(state, ik, sig, ts, now) == Err::<SpecDevice, AuthError>(e),
    }
}

/// Relies on chrono's `Utc::now`: the server clock in whole seconds since
/// the Unix epoch. Nothing is assumed of the value it reports.
#[verifier::external_body]
pub(crate) fn current_unix_timestamp() -> (r: i64)
{
    chrono::Utc::now().timestamp()
}

impl AuthenticatedDevice {
    /// Authenticate one request from its three identity-proof headers,
    /// against the server clock `now`.
    pub fn from_request_parts(
        state: &RelayState,
        identity_key: Option<&str>,
        signature: Option<&str>,
        timestamp: Option<&str>,
        now: i64,
    ) -> (r: Result<AuthenticatedDevice, AuthError>)
        ensures
            auth_result_matches(
                state@,
                opt_header_view(identity_key),
                opt_header_view(signature),
                opt_header_view(timestamp),
                now,
                r,
            ),
    {
        let ik_header = match identity_key {
            Some(s) => s,
            None => return Err(AuthError::MalformedRequest),
        };
        let sig_header = match signature {
            Some(s) => s,
            None => return Err(AuthError::MalformedRequest),
        };
        let ts_header = match timestamp {
            Some(s) => s,
            None => return Err(AuthError::MalformedRequest),
        };
        let ik_bytes = match b64_decode(ik_header) {
            Some(v) => v,
            None => return Err(AuthError::MalformedRequest),
        };
        if ik_bytes.len() != 32 || !ed25519_check_pubkey(ik_bytes.as_slice()) {
            return Err(AuthError::MalformedRequest);
        }
        let sig_bytes = match b64_decode(sig_header) {
            Some(v) => v,
            None => return Err(AuthError::MalformedRequest),
        };
        if sig_bytes.len() != 64 {
            return Err(AuthError::MalformedRequest);
        }
        let ts_val = match parse_i64(ts_header) {
            Some(v) => v,
            None => 0,
        };
        let diff: i128 = now as i128 - ts_val as i128;
        if diff > REPLAY_WINDOW_SECS as i128 || diff < -(REPLAY_WINDOW_SECS as i128) {
            return Err(AuthError::ExpiredCredential);
        }
        if !ed25519_verify(ik_bytes.as_slice(), ts_header.as_bytes(), sig_bytes.as_slice()) {
            return Err(AuthError::AuthenticationFailure);
        }
        match state.get_device_by_identity_key(ik_header) {
            Some(d) => Ok(AuthenticatedDevice(d)),
            None => Err(AuthError::AuthenticationFailure),
        }
    }
}

impl AuthenticatedDevice {
    /// Authenticate one request against the server clock as it reads at
    /// the moment of the call: whatever second the clock reported, the
    /// outcome is the authenticator's outcome at that second.
    pub fn from_request_now(
        state: &RelayState,
        identity_key: Option<&str>,
        signature: Option<&str>,
        timestamp: Option<&str>,
    ) -> (r: Result<AuthenticatedDevice, AuthError>)
        ensures
            exists|now: i64|
                auth_result_matches(
                    state@,
                    opt_header_view(identity_key),
                    opt_header_view(signature),
                    opt_header_view(timestamp),
                    now,
                    r,
                ),
    {
        let now = current_unix_timestamp();
        let r = Self::from_request_parts(state, identity_key, signature, timestamp, now);
        proof {
            assert(auth_result_matches(
                state@,
                opt_header_view(identity_key),
                opt_header_view(signature),
                opt_header_view(timestamp),
                now,
                r,
            ));
        }
        r
    }
}

// ---------------------------------------------------------------------------
// Laws of the authenticator
// ---------------------------------------------------------------------------

/// For every request whose headers are well formed, whose timestamp lies
/// within the window, and whose signature verifies, authentication resolves
/// exactly the device whose stored identity key equals the supplied one.
pub proof fn lemma_auth_resolves_matching_device(
    state: SpecState,
    ik: Seq<char>,
    sig: Seq<char>,
    ts: Seq<char>,
    now: i64,
    k: int,
)
    requires
        state.wf(),
        key_header_ok(ik),
        sig_header_ok(sig),
        within_window(now, claimed_timestamp(encode_utf8(ts))),
        ed25519_verifies(b64_decode_of(ik)->0, encode_utf8(ts), b64_decode_of(sig)->0),
        0 <= k < state.devices.len(),
        state.devices[k].identity_pubkey == ik,
    ensures
        auth_request_spec(state, Some(ik), Some(sig), Some(ts), now) == Ok::<
            SpecDevice,
            AuthError,
        >(state.devices[k]),
{
    lemma_find_device_by_key_hits(state.devices, ik, 0, k);
    let found = find_device_by_key_at(state.devices, ik, 0)->0;
    assert(state.devices[found].identity_pubkey == ik);
    if found != k {
        assert(false);
    }
}

/// A first-match search over a store with unique identity keys finds the
/// one matching row.
proof fn lemma_find_device_by_key_hits(devices: Seq<SpecDevice>, key: Seq<char>, i: int, k: int)
    requires
        0 <= i <= k < devices.len(),
        devices[k].identity_pubkey == key,
        forall|a: int, b: int|
            #![trigger devices[a], devices[b]]
            0 <= a < b < devices.len() ==> devices[a].identity_pubkey != devices[b].identity_pubkey,
    ensures
        find_device_by_key_at(devices, key, i) == Some(k),
    decreases devices.len() - i,
{
    if devices[i].identity_pubkey == key {
        if i != k {
            assert(devices[i].identity_pubkey != devices[k].identity_pubkey);
        }
    } else {
        lemma_find_device_by_key_hits(devices, key, i + 1, k);
    }
}

/// The window boundary: a skew of exactly 30 seconds, in either direction,
/// passes the anti-replay check; a skew of 31 seconds is rejected as an
/// expired credential.
pub proof fn lemma_window_boundary(
    state: SpecState,
    ik: Seq<char>,
    sig: Seq<char>,
    ts: Seq<char>,
    now: i64,
)
    requires
        key_header_ok(ik),
        sig_header_ok(sig),
    ensures
        ({
            let skew = now - claimed_timestamp(encode_utf8(ts));
            &&& (skew == 30 || skew == -30) ==> auth_headers_spec(state, ik, sig, ts, now)
                != Err::<SpecDevice, AuthError>(AuthError::ExpiredCredential)
            &&& (skew == 31 || skew == -31) ==> auth_headers_spec(state, ik, sig, ts, now)
                == Err::<SpecDevice, AuthError>(AuthError::ExpiredCredential)
        }),
{
}

} // verus!
