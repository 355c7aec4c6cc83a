use base64::Engine;
use ed25519_dalek::Signer;

use hushnet_core::models::{
    AuthenticatedDevice, ConfirmSessionBody, CreateDeviceBody, CreateSessionBody, OneTimePrekeys,
    OutgoingMessage, OutgoingMessagePayload, RealtimeEvent, SessionInit, SignedPreKey,
};
use hushnet_core::node_keys::NodeKeys;
use hushnet_core::realtime::{event_for_user, route_notification, Bus};
use hushnet_core::store::RelayState;

fn b64(bytes: &[u8]) -> String {
    base64::engine::general_purpose::STANDARD.encode(bytes)
}

fn keypair(seed: u8) -> ed25519_dalek::SigningKey {
    ed25519_dalek::SigningKey::from_bytes(&[seed; 32])
}

fn register(state: &mut RelayState, user_id: u64, seed: u8, token: &str) -> AuthenticatedDevice {
    let sk = keypair(seed);
    let spk_sk = keypair(seed.wrapping_add(100));
    let spk_bytes = spk_sk.verifying_key().as_bytes().to_vec();
    let spk_sig = sk.sign(&spk_bytes);
    let body = CreateDeviceBody {
        user_id,
        identity_pubkey: b64(sk.verifying_key().as_bytes()),
        prekey_pubkey: b64(&spk_bytes),
        signed_prekey: SignedPreKey {
            key: b64(&spk_bytes),
            signature: b64(&spk_sig.to_bytes()),
        },
        one_time_prekeys: vec![OneTimePrekeys { key: b64(&[seed; 32]) }],
        device_label: String::from("phone"),
        push_token: String::from("push"),
        enrollment_token: String::from(token),
    };
    let device = state
        .create_device(&body, Some(user_id), 1_000)
        .expect("registration should succeed");
    AuthenticatedDevice(device)
}

fn payload_for(device_id: u64, tag: &str) -> OutgoingMessagePayload {
    OutgoingMessagePayload {
        to_device_id: device_id,
        header: format!("{{\"dh\":\"{}\"}}", tag),
        ciphertext: format!("cipher-{}", tag),
    }
}

#[test]
fn fan_out_one_row_per_device_each_fetchable_only_by_its_target() {
    let mut state = RelayState::new();
    let alice = state.create_user("alice", 100).expect("alice");
    let bob = state.create_user("bob", 101).expect("bob");
    let a1 = register(&mut state, alice.id, 7, "t-a1");
    let b1 = register(&mut state, bob.id, 8, "t-b1");
    let b2 = register(&mut state, bob.id, 9, "t-b2");

    let msg = OutgoingMessage {
        chat_id: 1,
        logical_msg_id: String::from("m-1"),
        to_user_id: bob.id,
        payloads: vec![payload_for(b1.0.id, "b1"), payload_for(b2.0.id, "b2")],
    };
    state.send_message(&a1, &msg, 5_000);
    assert_eq!(state.messages.len(), 2);

    let got_b1 = state.fetch_pending_messages(&b1, 5_001);
    assert_eq!(got_b1.len(), 1);
    assert_eq!(got_b1[0].ciphertext, "cipher-b1");
    assert_eq!(got_b1[0].logical_msg_id, "m-1");
    assert_eq!(got_b1[0].from_device_id, a1.0.id);

    let got_b2 = state.fetch_pending_messages(&b2, 5_002);
    assert_eq!(got_b2.len(), 1);
    assert_eq!(got_b2[0].ciphertext, "cipher-b2");

    let got_a1 = state.fetch_pending_messages(&a1, 5_003);
    assert_eq!(got_a1.len(), 0);
}

#[test]
fn fetch_is_fifo_and_second_fetch_is_empty() {
    let mut state = RelayState::new();
    let alice = state.create_user("alice", 100).expect("alice");
    let bob = state.create_user("bob", 101).expect("bob");
    let a1 = register(&mut state, alice.id, 7, "t-a1");
    let b1 = register(&mut state, bob.id, 8, "t-b1");

    for k in 0..3u64 {
        let msg = OutgoingMessage {
            chat_id: 1,
            logical_msg_id: format!("m-{}", k),
            to_user_id: bob.id,
            payloads: vec![payload_for(b1.0.id, format!("p{}", k).as_str())],
        };
        state.send_message(&a1, &msg, 5_000 + k as i64);
    }
    let first = state.fetch_pending_messages(&b1, 6_000);
    assert_eq!(first.len(), 3);
    assert_eq!(first[0].logical_msg_id, "m-0");
    assert_eq!(first[1].logical_msg_id, "m-1");
    assert_eq!(first[2].logical_msg_id, "m-2");
    let second = state.fetch_pending_messages(&b1, 6_001);
    assert_eq!(second.len(), 0);
    for row in state.messages.iter() {
        assert_eq!(row.delivered_at, Some(6_000));
    }
}

#[test]
fn scenario_offer_confirm_then_message_delivered_once() {
    let mut state = RelayState::new();
    let alice = state.create_user("alice", 100).expect("alice");
    let bob = state.create_user("bob", 101).expect("bob");
    let a1 = register(&mut state, alice.id, 7, "t-a1");
    let b1 = register(&mut state, bob.id, 8, "t-b1");

    state
        .create_session(
            &a1,
            &CreateSessionBody {
                recipient_user_id: bob.id,
                sessions_init: vec![SessionInit {
                    recipient_device_id: b1.0.id,
                    ephemeral_pubkey: String::from("E1"),
                    sender_prekey_pub: String::from("spk"),
                    otpk_used: String::from("otpk"),
                    ciphertext: String::from("hello-cipher"),
                }],
            },
            2_000,
        )
        .expect("offer");

    let offers = state.get_pending_sessions(&b1);
    assert_eq!(offers.len(), 1);
    assert_eq!(offers[0].ephemeral_pubkey, "E1");

    let chat_id = state
        .confirm_session(
            &b1,
            &ConfirmSessionBody {
                pending_session_id: offers[0].id,
                sender_device_id: a1.0.id,
                receiver_device_id: b1.0.id,
            },
            3_000,
        )
        .expect("confirm");

    assert_eq!(state.get_pending_sessions(&b1).len(), 0);

    let msg = OutgoingMessage {
        chat_id,
        logical_msg_id: String::from("m-1"),
        to_user_id: bob.id,
        payloads: vec![payload_for(b1.0.id, "direct")],
    };
    state.send_message(&a1, &msg, 4_000);

    let first = state.fetch_pending_messages(&b1, 4_001);
    assert_eq!(first.len(), 1);
    assert_eq!(first[0].ciphertext, "cipher-direct");
    let again = state.fetch_pending_messages(&b1, 4_002);
    assert_eq!(again.len(), 0);
}

#[test]
fn notification_routing_keeps_tagged_payloads_only() {
    let e = route_notification("{\"type\":\"message\",\"user_id\":\"u1\"}")
        .expect("tagged payload routes");
    assert_eq!(e.event_type, "message");
    assert_eq!(e.payload, "{\"type\":\"message\",\"user_id\":\"u1\"}");

    assert!(route_notification("{\"kind\":\"message\"}").is_none());
    assert!(route_notification("not json at all").is_none());
    assert!(route_notification("{\"type\":7}").is_none());
}

#[test]
fn event_filter_compares_embedded_user() {
    let e = RealtimeEvent {
        event_type: String::from("message"),
        payload: String::from("{\"type\":\"message\",\"user_id\":\"u1\"}"),
    };
    assert!(event_for_user(&e, "u1"));
    assert!(!event_for_user(&e, "u2"));
    let bare = RealtimeEvent {
        event_type: String::from("message"),
        payload: String::from("{\"type\":\"message\"}"),
    };
    assert!(!event_for_user(&bare, "u1"));
    assert!(event_for_user(&bare, ""));
}

#[test]
fn subscriber_receives_only_its_users_events() {
    let mut bus = Bus::new(16);
    let s1 = bus.subscribe("u1");
    let s2 = bus.subscribe("u2");
    for (kind, user) in [
        ("message", "u1"),
        ("session", "u2"),
        ("message", "u3"),
        ("device", "u1"),
    ] {
        let payload = format!("{{\"type\":\"{}\",\"user_id\":\"{}\"}}", kind, user);
        let event = route_notification(payload.as_str()).expect("routes");
        bus.publish(&event);
    }
    let got1 = bus.drain(s1);
    assert_eq!(got1.len(), 2);
    assert_eq!(got1[0].event_type, "message");
    assert_eq!(got1[1].event_type, "device");
    for e in got1.iter() {
        assert!(event_for_user(e, "u1"));
    }
    assert_eq!(bus.drain(s1).len(), 0);
    let got2 = bus.drain(s2);
    assert_eq!(got2.len(), 1);
    assert_eq!(got2[0].event_type, "session");
}

#[test]
fn slow_subscriber_loses_oldest_events_and_publish_never_fails() {
    let mut bus = Bus::new(2);
    let s1 = bus.subscribe("u1");
    for k in 0..5u64 {
        let payload = format!("{{\"type\":\"message\",\"user_id\":\"u1\",\"n\":{}}}", k);
        let event = route_notification(payload.as_str()).expect("routes");
        bus.publish(&event);
    }
    let got = bus.drain(s1);
    assert_eq!(got.len(), 2);
    assert!(got[0].payload.contains("\"n\":3"));
    assert!(got[1].payload.contains("\"n\":4"));
}

#[test]
fn node_keys_reject_bad_stored_material() {
    let broken = NodeKeys {
        public_b64: String::from("ok"),
        private_b64: String::from("!!not base64!!"),
    };
    assert!(broken.signing_key().is_err());
    assert!(broken.sign_message(b"m").is_err());
    let short = NodeKeys {
        public_b64: String::from("ok"),
        private_b64: b64(&[3u8; 12]),
    };
    assert!(short.signing_key().is_err());
}

#[test]
fn node_keys_sign_and_verify_round_trip() {
    let sk = keypair(42);
    let keys = NodeKeys {
        public_b64: b64(sk.verifying_key().as_bytes()),
        private_b64: b64(&sk.to_bytes()),
    };
    assert_eq!(keys.signing_key().expect("secret decodes").len(), 32);
    assert_eq!(keys.verifying_key().expect("public decodes").len(), 32);

    let message = b"registry challenge";
    let sig_b64 = keys.sign_message(message).expect("signing succeeds");
    assert!(keys.verify_message(message, sig_b64.as_str()).expect("check runs"));
    assert!(!keys
        .verify_message(b"another message", sig_b64.as_str())
        .expect("check runs"));

    let independent = sk.sign(message);
    assert_eq!(sig_b64, b64(&independent.to_bytes()));

    let broken = NodeKeys {
        public_b64: String::from("!!"),
        private_b64: keys.private_b64.clone(),
    };
    assert!(broken.verify_message(message, sig_b64.as_str()).is_err());
    let short = NodeKeys {
        public_b64: b64(&[1u8; 8]),
        private_b64: keys.private_b64.clone(),
    };
    assert!(short.verify_message(message, sig_b64.as_str()).is_err());
}
