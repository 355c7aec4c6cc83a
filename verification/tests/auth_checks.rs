use base64::Engine;
use ed25519_dalek::Signer;

use hushnet_core::codec::parse_i64;
use hushnet_core::errors::AuthError;
use hushnet_core::models::{AuthenticatedDevice, CreateDeviceBody, OneTimePrekeys, SignedPreKey};
use hushnet_core::store::RelayState;

fn b64(bytes: &[u8]) -> String {
    base64::engine::general_purpose::STANDARD.encode(bytes)
}

fn keypair(seed: u8) -> ed25519_dalek::SigningKey {
    ed25519_dalek::SigningKey::from_bytes(&[seed; 32])
}

fn register_device(
    state: &mut RelayState,
    user_id: u64,
    seed: u8,
    token: &str,
) -> (u64, ed25519_dalek::SigningKey) {
    let sk = keypair(seed);
    let spk_sk = keypair(seed.wrapping_add(100));
    let spk_bytes = spk_sk.verifying_key().as_bytes().to_vec();
    let spk_sig = sk.sign(&spk_bytes);
    let body = CreateDeviceBody {
        user_id,
        identity_pubkey: b64(sk.verifying_key().as_bytes()),
        prekey_pubkey: b64(&spk_bytes),
        signed_prekey: SignedPreKey {
            key: b64(&spk_bytes),
            signature: b64(&spk_sig.to_bytes()),
        },
        one_time_prekeys: vec![OneTimePrekeys { key: b64(&[seed; 32]) }],
        device_label: String::from("laptop"),
        push_token: String::from("push"),
        enrollment_token: String::from(token),
    };
    let device = state
        .create_device(&body, Some(user_id), 1_000)
        .expect("device registration should succeed");
    (device.id, sk)
}

fn auth_headers(sk: &ed25519_dalek::SigningKey, ts: i64) -> (String, String, String) {
    let ts_str = format!("{}", ts);
    let sig = sk.sign(ts_str.as_bytes());
    (
        b64(sk.verifying_key().as_bytes()),
        b64(&sig.to_bytes()),
        ts_str,
    )
}

fn state_with_device() -> (RelayState, u64, ed25519_dalek::SigningKey) {
    let mut state = RelayState::new();
    let alice = state.create_user("alice", 100).expect("user");
    let (device_id, sk) = register_device(&mut state, alice.id, 7, "token-alice");
    (state, device_id, sk)
}

#[test]
fn valid_request_resolves_registered_device() {
    let (state, device_id, sk) = state_with_device();
    let now: i64 = 1_700_000_000;
    let (ik, sig, ts) = auth_headers(&sk, now);
    let got = AuthenticatedDevice::from_request_parts(
        &state,
        Some(ik.as_str()),
        Some(sig.as_str()),
        Some(ts.as_str()),
        now,
    )
    .expect("authentication should succeed");
    assert_eq!(got.0.id, device_id);
    assert_eq!(got.0.identity_pubkey, ik);
}

#[test]
fn window_boundary_thirty_accepted_thirty_one_rejected() {
    let (state, _device_id, sk) = state_with_device();
    let now: i64 = 1_700_000_000;
    for skew in [-30i64, 30] {
        let (ik, sig, ts) = auth_headers(&sk, now - skew);
        let r = AuthenticatedDevice::from_request_parts(
            &state,
            Some(ik.as_str()),
            Some(sig.as_str()),
            Some(ts.as_str()),
            now,
        );
        assert!(r.is_ok(), "skew of {} seconds must be accepted", skew);
    }
    for skew in [-31i64, 31] {
        let (ik, sig, ts) = auth_headers(&sk, now - skew);
        let r = AuthenticatedDevice::from_request_parts(
            &state,
            Some(ik.as_str()),
            Some(sig.as_str()),
            Some(ts.as_str()),
            now,
        );
        assert_eq!(r.unwrap_err(), AuthError::ExpiredCredential);
    }
}

#[test]
fn missing_header_is_malformed() {
    let (state, _device_id, sk) = state_with_device();
    let now: i64 = 1_700_000_000;
    let (ik, sig, ts) = auth_headers(&sk, now);
    let r = AuthenticatedDevice::from_request_parts(
        &state,
        None,
        Some(sig.as_str()),
        Some(ts.as_str()),
        now,
    );
    assert_eq!(r.unwrap_err(), AuthError::MalformedRequest);
    let r = AuthenticatedDevice::from_request_parts(
        &state,
        Some(ik.as_str()),
        None,
        Some(ts.as_str()),
        now,
    );
    assert_eq!(r.unwrap_err(), AuthError::MalformedRequest);
    let r = AuthenticatedDevice::from_request_parts(
        &state,
        Some(ik.as_str()),
        Some(sig.as_str()),
        None,
        now,
    );
    assert_eq!(r.unwrap_err(), AuthError::MalformedRequest);
}

#[test]
fn bad_encoding_or_length_is_malformed() {
    let (state, _device_id, sk) = state_with_device();
    let now: i64 = 1_700_000_000;
    let (ik, sig, ts) = auth_headers(&sk, now);
    let r = AuthenticatedDevice::from_request_parts(
        &state,
        Some("not base64 !!"),
        Some(sig.as_str()),
        Some(ts.as_str()),
        now,
    );
    assert_eq!(r.unwrap_err(), AuthError::MalformedRequest);
    let short_key = b64(&[1u8; 16]);
    let r = AuthenticatedDevice::from_request_parts(
        &state,
        Some(short_key.as_str()),
        Some(sig.as_str()),
        Some(ts.as_str()),
        now,
    );
    assert_eq!(r.unwrap_err(), AuthError::MalformedRequest);
    let short_sig = b64(&[1u8; 10]);
    let r = AuthenticatedDevice::from_request_parts(
        &state,
        Some(ik.as_str()),
        Some(short_sig.as_str()),
        Some(ts.as_str()),
        now,
    );
    assert_eq!(r.unwrap_err(), AuthError::MalformedRequest);
}

#[test]
fn wrong_signature_and_unknown_device_are_indistinguishable() {
    let (state, _device_id, sk) = state_with_device();
    let now: i64 = 1_700_000_000;
    let ts = format!("{}", now);
    let other_sig = sk.sign(b"something else entirely");
    let r = AuthenticatedDevice::from_request_parts(
        &state,
        Some(b64(sk.verifying_key().as_bytes()).as_str()),
        Some(b64(&other_sig.to_bytes()).as_str()),
        Some(ts.as_str()),
        now,
    );
    assert_eq!(r.unwrap_err(), AuthError::AuthenticationFailure);

    let stranger = keypair(99);
    let (ik, sig, ts) = auth_headers(&stranger, now);
    let r = AuthenticatedDevice::from_request_parts(
        &state,
        Some(ik.as_str()),
        Some(sig.as_str()),
        Some(ts.as_str()),
        now,
    );
    assert_eq!(r.unwrap_err(), AuthError::AuthenticationFailure);
}

#[test]
fn malformed_timestamp_counts_as_zero() {
    let (state, _device_id, sk) = state_with_device();
    let sig = sk.sign("not-a-number".as_bytes());
    let r = AuthenticatedDevice::from_request_parts(
        &state,
        Some(b64(sk.verifying_key().as_bytes()).as_str()),
        Some(b64(&sig.to_bytes()).as_str()),
        Some("not-a-number"),
        1_700_000_000,
    );
    assert_eq!(r.unwrap_err(), AuthError::ExpiredCredential);
    let r = AuthenticatedDevice::from_request_parts(
        &state,
        Some(b64(sk.verifying_key().as_bytes()).as_str()),
        Some(b64(&sig.to_bytes()).as_str()),
        Some("not-a-number"),
        15,
    );
    assert!(r.is_ok(), "a clock within 30s of zero accepts the zero-valued header");
}

#[test]
fn parse_i64_matches_std_classification() {
    assert_eq!(parse_i64("123"), Some(123));
    assert_eq!(parse_i64("-42"), Some(-42));
    assert_eq!(parse_i64("+42"), Some(42));
    assert_eq!(parse_i64("0"), Some(0));
    assert_eq!(parse_i64("-0"), Some(0));
    assert_eq!(parse_i64("9223372036854775807"), Some(i64::MAX));
    assert_eq!(parse_i64("-9223372036854775808"), Some(i64::MIN));
    assert_eq!(parse_i64("9223372036854775808"), None);
    assert_eq!(parse_i64("-9223372036854775809"), None);
    assert_eq!(parse_i64("00000000000000000000001"), Some(1));
    assert_eq!(parse_i64(""), None);
    assert_eq!(parse_i64("+"), None);
    assert_eq!(parse_i64("-"), None);
    assert_eq!(parse_i64("12a"), None);
    assert_eq!(parse_i64(" 12"), None);
}
