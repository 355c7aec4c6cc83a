use base64::Engine;
use ed25519_dalek::Signer;

use hushnet_core::errors::{
    ConfirmError, CreateDeviceError, CreateSessionError, CreateUserError, SignatureCheckError,
};
use hushnet_core::crypto::verify_signed_prekey_signature;
use hushnet_core::models::{
    AuthenticatedDevice, ConfirmSessionBody, CreateDeviceBody, CreateSessionBody, OneTimePrekeys,
    SessionInit, SignedPreKey,
};
use hushnet_core::store::RelayState;

fn b64(bytes: &[u8]) -> String {
    base64::engine::general_purpose::STANDARD.encode(bytes)
}

fn keypair(seed: u8) -> ed25519_dalek::SigningKey {
    ed25519_dalek::SigningKey::from_bytes(&[seed; 32])
}

fn device_body(user_id: u64, seed: u8, token: &str) -> CreateDeviceBody {
    let sk = keypair(seed);
    let spk_sk = keypair(seed.wrapping_add(100));
    let spk_bytes = spk_sk.verifying_key().as_bytes().to_vec();
    let spk_sig = sk.sign(&spk_bytes);
    CreateDeviceBody {
        user_id,
        identity_pubkey: b64(sk.verifying_key().as_bytes()),
        prekey_pubkey: b64(&spk_bytes),
        signed_prekey: SignedPreKey {
            key: b64(&spk_bytes),
            signature: b64(&spk_sig.to_bytes()),
        },
        one_time_prekeys: vec![OneTimePrekeys { key: b64(&[seed; 32]) }],
        device_label: String::from("phone"),
        push_token: String::from("push"),
        enrollment_token: String::from(token),
    }
}

fn register(state: &mut RelayState, user_id: u64, seed: u8, token: &str) -> AuthenticatedDevice {
    let body = device_body(user_id, seed, token);
    let device = state
        .create_device(&body, Some(user_id), 1_000)
        .expect("registration should succeed");
    AuthenticatedDevice(device)
}

fn init_for(recipient_device_id: u64, eph: &str) -> SessionInit {
    SessionInit {
        recipient_device_id,
        ephemeral_pubkey: String::from(eph),
        sender_prekey_pub: String::from("spk-pub"),
        otpk_used: String::from("otpk-1"),
        ciphertext: String::from("first-ciphertext"),
    }
}

fn two_user_state() -> (RelayState, AuthenticatedDevice, AuthenticatedDevice) {
    let mut state = RelayState::new();
    let alice = state.create_user("alice", 100).expect("alice");
    let bob = state.create_user("bob", 101).expect("bob");
    let a1 = register(&mut state, alice.id, 7, "token-a1");
    let b1 = register(&mut state, bob.id, 8, "token-b1");
    (state, a1, b1)
}

#[test]
fn duplicate_offer_is_silently_ignored() {
    let (mut state, a1, b1) = two_user_state();
    let body = CreateSessionBody {
        recipient_user_id: b1.0.user_id,
        sessions_init: vec![init_for(b1.0.id, "eph-1")],
    };
    state.create_session(&a1, &body, 2_000).expect("first offer");
    state.create_session(&a1, &body, 2_001).expect("identical offer again");
    let offers = state.get_pending_sessions(&b1);
    assert_eq!(offers.len(), 1);
    assert_eq!(offers[0].ephemeral_pubkey, "eph-1");
}

#[test]
fn offer_to_own_user_is_refused() {
    let (mut state, a1, _b1) = two_user_state();
    let body = CreateSessionBody {
        recipient_user_id: a1.0.user_id,
        sessions_init: vec![init_for(a1.0.id, "eph-self")],
    };
    let r = state.create_session(&a1, &body, 2_000);
    assert_eq!(r.unwrap_err(), CreateSessionError::SelfSession);
    assert_eq!(state.get_pending_sessions(&a1).len(), 0);
}

#[test]
fn confirm_both_directions_share_one_chat() {
    let (mut state, a1, b1) = two_user_state();
    state
        .create_session(
            &a1,
            &CreateSessionBody {
                recipient_user_id: b1.0.user_id,
                sessions_init: vec![init_for(b1.0.id, "eph-ab")],
            },
            2_000,
        )
        .expect("offer a->b");
    state
        .create_session(
            &b1,
            &CreateSessionBody {
                recipient_user_id: a1.0.user_id,
                sessions_init: vec![init_for(a1.0.id, "eph-ba")],
            },
            2_001,
        )
        .expect("offer b->a");
    let offer_for_b = state.get_pending_sessions(&b1)[0].id;
    let offer_for_a = state.get_pending_sessions(&a1)[0].id;
    let chat_ab = state
        .confirm_session(
            &b1,
            &ConfirmSessionBody {
                pending_session_id: offer_for_b,
                sender_device_id: a1.0.id,
                receiver_device_id: b1.0.id,
            },
            3_000,
        )
        .expect("confirm a->b");
    let chat_ba = state
        .confirm_session(
            &a1,
            &ConfirmSessionBody {
                pending_session_id: offer_for_a,
                sender_device_id: b1.0.id,
                receiver_device_id: a1.0.id,
            },
            3_001,
        )
        .expect("confirm b->a");
    assert_eq!(chat_ab, chat_ba);
    assert_eq!(state.chats.len(), 1);
    assert_eq!(state.sessions.len(), 2);
}

#[test]
fn confirm_consumes_offer_and_retry_is_not_found() {
    let (mut state, a1, b1) = two_user_state();
    state
        .create_session(
            &a1,
            &CreateSessionBody {
                recipient_user_id: b1.0.user_id,
                sessions_init: vec![init_for(b1.0.id, "eph-1")],
            },
            2_000,
        )
        .expect("offer");
    let offer_id = state.get_pending_sessions(&b1)[0].id;
    let body = ConfirmSessionBody {
        pending_session_id: offer_id,
        sender_device_id: a1.0.id,
        receiver_device_id: b1.0.id,
    };
    state.confirm_session(&b1, &body, 3_000).expect("confirm");
    assert!(state.get_pending_session_by_id(offer_id, b1.0.id).is_none());
    assert_eq!(state.get_pending_sessions(&b1).len(), 0);
    let retry = state.confirm_session(&b1, &body, 3_001);
    assert_eq!(retry.unwrap_err(), ConfirmError::OfferNotFound);
}

#[test]
fn confirm_of_another_devices_offer_is_not_found() {
    let (mut state, a1, b1) = two_user_state();
    state
        .create_session(
            &a1,
            &CreateSessionBody {
                recipient_user_id: b1.0.user_id,
                sessions_init: vec![init_for(b1.0.id, "eph-1")],
            },
            2_000,
        )
        .expect("offer");
    let offer_id = state.get_pending_sessions(&b1)[0].id;
    let r = state.confirm_session(
        &a1,
        &ConfirmSessionBody {
            pending_session_id: offer_id,
            sender_device_id: a1.0.id,
            receiver_device_id: b1.0.id,
        },
        3_000,
    );
    assert_eq!(r.unwrap_err(), ConfirmError::OfferNotFound);
    assert_eq!(state.get_pending_sessions(&b1).len(), 1);
}

#[test]
fn confirm_with_unknown_device_is_device_not_found() {
    let (mut state, a1, b1) = two_user_state();
    state
        .create_session(
            &a1,
            &CreateSessionBody {
                recipient_user_id: b1.0.user_id,
                sessions_init: vec![init_for(b1.0.id, "eph-1")],
            },
            2_000,
        )
        .expect("offer");
    let offer_id = state.get_pending_sessions(&b1)[0].id;
    let r = state.confirm_session(
        &b1,
        &ConfirmSessionBody {
            pending_session_id: offer_id,
            sender_device_id: 424242,
            receiver_device_id: b1.0.id,
        },
        3_000,
    );
    assert_eq!(r.unwrap_err(), ConfirmError::DeviceNotFound);
}

#[test]
fn repeated_confirm_only_refreshes_session() {
    let (mut state, a1, b1) = two_user_state();
    for round in 0..2u64 {
        state
            .create_session(
                &a1,
                &CreateSessionBody {
                    recipient_user_id: b1.0.user_id,
                    sessions_init: vec![init_for(b1.0.id, format!("eph-{}", round).as_str())],
                },
                2_000 + round as i64,
            )
            .expect("offer");
        let offer_id = state.get_pending_sessions(&b1)[0].id;
        state
            .confirm_session(
                &b1,
                &ConfirmSessionBody {
                    pending_session_id: offer_id,
                    sender_device_id: a1.0.id,
                    receiver_device_id: b1.0.id,
                },
                3_000 + round as i64,
            )
            .expect("confirm");
    }
    assert_eq!(state.sessions.len(), 1);
    assert_eq!(state.sessions[0].updated_at, 3_001);
    assert_eq!(state.sessions[0].created_at, 3_000);
    assert_eq!(state.chats.len(), 1);
}

#[test]
fn duplicate_username_is_conflict() {
    let mut state = RelayState::new();
    state.create_user("alice", 100).expect("first");
    let r = state.create_user("alice", 101);
    assert_eq!(r.unwrap_err(), CreateUserError::Conflict);
    assert_eq!(state.get_all_users().len(), 1);
}

#[test]
fn registration_error_paths() {
    let mut state = RelayState::new();
    let alice = state.create_user("alice", 100).expect("alice");

    let body = device_body(alice.id, 7, "token-1");
    state
        .create_device(&body, Some(alice.id), 1_000)
        .expect("first registration");

    let body2 = device_body(alice.id, 9, "token-1");
    let r = state.create_device(&body2, Some(alice.id), 1_001);
    assert_eq!(r.unwrap_err(), CreateDeviceError::TokenAlreadyUsed);

    let mut bad_sig = device_body(alice.id, 9, "token-2");
    bad_sig.signed_prekey.signature = b64(&[0u8; 64]);
    let r = state.create_device(&bad_sig, Some(alice.id), 1_002);
    assert_eq!(r.unwrap_err(), CreateDeviceError::SignatureCheckFailed);

    let body3 = device_body(alice.id, 9, "token-3");
    let r = state.create_device(&body3, Some(alice.id + 77), 1_003);
    assert_eq!(r.unwrap_err(), CreateDeviceError::WrongTokenUser);

    let body4 = device_body(alice.id + 77, 9, "token-4");
    let r = state.create_device(&body4, None, 1_004);
    assert_eq!(r.unwrap_err(), CreateDeviceError::UnknownUser);

    let body5 = device_body(alice.id, 7, "token-5");
    let r = state.create_device(&body5, Some(alice.id), 1_005);
    assert_eq!(r.unwrap_err(), CreateDeviceError::DuplicateIdentityKey);
}

#[test]
fn prekey_signature_check_error_paths() {
    let sk = keypair(7);
    let spk = keypair(107);
    let spk_bytes = spk.verifying_key().as_bytes().to_vec();
    let sig = sk.sign(&spk_bytes);
    let ik = b64(sk.verifying_key().as_bytes());
    let key = b64(&spk_bytes);
    let sig_b64 = b64(&sig.to_bytes());

    assert!(verify_signed_prekey_signature(&ik, &key, &sig_b64).is_ok());
    assert_eq!(
        verify_signed_prekey_signature("!!", &key, &sig_b64).unwrap_err(),
        SignatureCheckError::IdentityKeyBase64
    );
    assert_eq!(
        verify_signed_prekey_signature(&ik, "!!", &sig_b64).unwrap_err(),
        SignatureCheckError::ValueBase64
    );
    assert_eq!(
        verify_signed_prekey_signature(&ik, &key, "!!").unwrap_err(),
        SignatureCheckError::SignatureBase64
    );
    assert_eq!(
        verify_signed_prekey_signature(&b64(&[1u8; 4]), &key, &sig_b64).unwrap_err(),
        SignatureCheckError::IdentityKeyBytes
    );
    assert_eq!(
        verify_signed_prekey_signature(&ik, &key, &b64(&[1u8; 4])).unwrap_err(),
        SignatureCheckError::SignatureBytes
    );
    let wrong = sk.sign(b"other message");
    assert_eq!(
        verify_signed_prekey_signature(&ik, &key, &b64(&wrong.to_bytes())).unwrap_err(),
        SignatureCheckError::Mismatch
    );
}

#[test]
fn directory_lookups_follow_ownership() {
    let (mut state, a1, b1) = two_user_state();
    let alice_id = a1.0.user_id;

    let devices = state.get_devices_by_user_id(alice_id);
    assert_eq!(devices.len(), 1);
    assert_eq!(devices[0].id, a1.0.id);

    let bundles = state.get_device_bundle(b1.0.user_id);
    assert_eq!(bundles.len(), 1);
    assert_eq!(bundles[0].device_id, b1.0.id);
    assert_eq!(bundles[0].identity_pubkey, b1.0.identity_pubkey);

    let owner = state
        .get_user_for_device(a1.0.id)
        .expect("device exists")
        .expect("owner exists");
    assert_eq!(owner.id, alice_id);
    assert!(state.get_user_for_device(999_999).is_err());

    let by_key = state
        .find_user_by_pubkey(a1.0.identity_pubkey.as_str())
        .expect("user behind key");
    assert_eq!(by_key.id, alice_id);

    state
        .create_session(
            &a1,
            &CreateSessionBody {
                recipient_user_id: b1.0.user_id,
                sessions_init: vec![init_for(b1.0.id, "eph")],
            },
            2_000,
        )
        .expect("offer");
    let offer_id = state.get_pending_sessions(&b1)[0].id;
    state
        .confirm_session(
            &b1,
            &ConfirmSessionBody {
                pending_session_id: offer_id,
                sender_device_id: a1.0.id,
                receiver_device_id: b1.0.id,
            },
            3_000,
        )
        .expect("confirm");
    let chats_a = state.get_chats_for_device(&a1);
    assert_eq!(chats_a.len(), 1);
    assert_eq!(chats_a[0].partner_user_id, b1.0.user_id);
    assert_eq!(chats_a[0].partner_username.as_deref(), Some("bob"));
    let chats_b = state.get_chats_for_device(&b1);
    assert_eq!(chats_b.len(), 1);
    assert_eq!(chats_b[0].partner_username.as_deref(), Some("alice"));
}

#[test]
fn login_resolves_user_by_signed_message() {
    let (mut state, a1, _b1) = two_user_state();
    let sk = keypair(7);
    let message = String::from("login-challenge");
    let sig = sk.sign(message.as_bytes());
    let body = hushnet_core::models::LoginUserBody {
        identity_pubkey: a1.0.identity_pubkey.clone(),
        message: message.clone(),
        signature: b64(&sig.to_bytes()),
    };
    let user = state.login_user(&body).expect("valid proof").expect("known key");
    assert_eq!(user.id, a1.0.user_id);

    let bad = hushnet_core::models::LoginUserBody {
        identity_pubkey: a1.0.identity_pubkey.clone(),
        message,
        signature: b64(&[5u8; 64]),
    };
    assert_eq!(
        state.login_user(&bad).unwrap_err(),
        SignatureCheckError::Mismatch
    );
}
