//! Data model of the relay: rows of the store, request bodies, and the
//! spec-level shadows (`Spec*`) that contracts are stated over.

use vstd::prelude::*;

verus! {

/// Spec view of an optional owned string.
pub open spec fn opt_str_view(o: Option<String>) -> Option<Seq<char>> {
    match o {
        Some(s) => Some(s@),
        None => None,
    }
}

// ---------------------------------------------------------------------------
// Users
// ---------------------------------------------------------------------------

#[derive(Debug)]
pub struct User {
    pub id: u64,
    pub username: String,
    pub created_at: Option<i64>,
}

pub ghost struct SpecUser {
    pub id: u64,
    pub username: Seq<char>,
    pub created_at: Option<i64>,
}

impl View for User {
    type V = SpecUser;

    open spec fn view(&self) -> SpecUser {
        SpecUser { id: self.id, username: self.username@, created_at: self.created_at }
    }
}

// ---------------------------------------------------------------------------
// Devices
// ---------------------------------------------------------------------------

/// A registered device: the identity key is its sole credential and is
/// globally unique; the prekey bundle is opaque material handed out to peers.
#[derive(Debug)]
pub struct Devices {
    pub id: u64,
    pub user_id: u64,
    pub identity_pubkey: String,
    pub signed_prekey_pub: String,
    pub signed_prekey_sig: String,
    pub one_time_prekeys: Vec<String>,
    pub device_label: Option<String>,
    pub push_token: Option<String>,
    pub last_seen: Option<i64>,
    pub created_at: Option<i64>,
}

pub ghost struct SpecDevice {
    pub id: u64,
    pub user_id: u64,
    pub identity_pubkey: Seq<char>,
    pub signed_prekey_pub: Seq<char>,
    pub signed_prekey_sig: Seq<char>,
    pub one_time_prekeys: Seq<Seq<char>>,
    pub device_label: Option<Seq<char>>,
    pub push_token: Option<Seq<char>>,
    pub last_seen: Option<i64>,
    pub created_at: Option<i64>,
}

impl View for Devices {
    type V = SpecDevice;

    open spec fn view(&self) -> SpecDevice {
        SpecDevice {
            id: self.id,
            user_id: self.user_id,
            identity_pubkey: self.identity_pubkey@,
            signed_prekey_pub: self.signed_prekey_pub@,
            signed_prekey_sig: self.signed_prekey_sig@,
            one_time_prekeys: self.one_time_prekeys@.map_values(|s: String| s@),
            device_label: opt_str_view(self.device_label),
            push_token: opt_str_view(self.push_token),
            last_seen: self.last_seen,
            created_at: self.created_at,
        }
    }
}

/// A device authenticated by the identity-proof headers of one request.
#[derive(Debug)]
pub struct AuthenticatedDevice(pub Devices);

#[derive(Debug)]
pub struct SignedPreKey {
    pub key: String,
    pub signature: String,
}

pub ghost struct SpecSignedPreKey {
    pub key: Seq<char>,
    pub signature: Seq<char>,
}

impl View for SignedPreKey {
    type V = SpecSignedPreKey;

    open spec fn view(&self) -> SpecSignedPreKey {
        SpecSignedPreKey { key: self.key@, signature: self.signature@ }
    }
}

#[derive(Debug)]
pub struct OneTimePrekeys {
    pub key: String,
}

impl View for OneTimePrekeys {
    type V = Seq<char>;

    open spec fn view(&self) -> Seq<char> {
        self.key@
    }
}

/// The public prekey bundle of one device, handed to a peer that wants to
/// open a handshake with it.
#[derive(Debug)]
pub struct DeviceBundle {
    pub device_id: u64,
    pub identity_pubkey: String,
    pub signed_prekey_pub: String,
    pub signed_prekey_sig: String,
    pub one_time_prekeys: Vec<String>,
}

pub ghost struct SpecDeviceBundle {
    pub device_id: u64,
    pub identity_pubkey: Seq<char>,
    pub signed_prekey_pub: Seq<char>,
    pub signed_prekey_sig: Seq<char>,
    pub one_time_prekeys: Seq<Seq<char>>,
}

impl View for DeviceBundle {
    type V = SpecDeviceBundle;

    open spec fn view(&self) -> SpecDeviceBundle {
        SpecDeviceBundle {
            device_id: self.device_id,
            identity_pubkey: self.identity_pubkey@,
            signed_prekey_pub: self.signed_prekey_pub@,
            signed_prekey_sig: self.signed_prekey_sig@,
            one_time_prekeys: self.one_time_prekeys@.map_values(|s: String| s@),
        }
    }
}

// ---------------------------------------------------------------------------
// Handshake offers
// ---------------------------------------------------------------------------

/// A pending handshake offer: stored until the recipient device confirms it,
/// then deleted.
#[derive(Debug)]
pub struct PendingSession {
    pub id: u64,
    pub sender_device_id: u64,
    pub recipient_device_id: u64,
    pub ephemeral_pubkey: String,
    pub sender_prekey_pub: String,
    pub otpk_used: String,
    pub ciphertext: String,
    pub created_at: Option<i64>,
}

pub ghost struct SpecOffer {
    pub id: u64,
    pub sender_device_id: u64,
    pub recipient_device_id: u64,
    pub ephemeral_pubkey: Seq<char>,
    pub sender_prekey_pub: Seq<char>,
    pub otpk_used: Seq<char>,
    pub ciphertext: Seq<char>,
    pub created_at: Option<i64>,
}

impl View for PendingSession {
    type V = SpecOffer;

    open spec fn view(&self) -> SpecOffer {
        SpecOffer {
            id: self.id,
            sender_device_id: self.sender_device_id,
            recipient_device_id: self.recipient_device_id,
            ephemeral_pubkey: self.ephemeral_pubkey@,
            sender_prekey_pub: self.sender_prekey_pub@,
            otpk_used: self.otpk_used@,
            ciphertext: self.ciphertext@,
            created_at: self.created_at,
        }
    }
}

// ---------------------------------------------------------------------------
// Chats and sessions
// ---------------------------------------------------------------------------

/// A direct conversation between two users; the pair is stored canonically,
/// smaller user id first.
#[derive(Debug)]
pub struct Chat {
    pub id: u64,
    pub user_a: u64,
    pub user_b: u64,
    pub name: Option<String>,
    pub last_message_id: Option<u64>,
    pub created_at: i64,
    pub updated_at: i64,
}

pub ghost struct SpecChat {
    pub id: u64,
    pub user_a: u64,
    pub user_b: u64,
    pub name: Option<Seq<char>>,
    pub last_message_id: Option<u64>,
    pub created_at: i64,
    pub updated_at: i64,
}

impl View for Chat {
    type V = SpecChat;

    open spec fn view(&self) -> SpecChat {
        SpecChat {
            id: self.id,
            user_a: self.user_a,
            user_b: self.user_b,
            name: opt_str_view(self.name),
            last_message_id: self.last_message_id,
            created_at: self.created_at,
            updated_at: self.updated_at,
        }
    }
}

/// What a device sees of one of its chats.
#[derive(Debug)]
pub struct ChatView {
    pub id: u64,
    pub partner_user_id: u64,
    pub partner_username: Option<String>,
    pub name: Option<String>,
    pub last_message_id: Option<u64>,
    pub updated_at: i64,
}

pub ghost struct SpecChatView {
    pub id: u64,
    pub partner_user_id: u64,
    pub partner_username: Option<Seq<char>>,
    pub name: Option<Seq<char>>,
    pub last_message_id: Option<u64>,
    pub updated_at: i64,
}

impl View for ChatView {
    type V = SpecChatView;

    open spec fn view(&self) -> SpecChatView {
        SpecChatView {
            id: self.id,
            partner_user_id: self.partner_user_id,
            partner_username: opt_str_view(self.partner_username),
            name: opt_str_view(self.name),
            last_message_id: self.last_message_id,
            updated_at: self.updated_at,
        }
    }
}

/// Per-device-pair session state; the ratchet fields the peers keep are
/// opaque to the relay, which only records that the pair is established.
#[derive(Clone, Copy)]
pub struct Session {
    pub id: u64,
    pub chat_id: u64,
    pub sender_device_id: u64,
    pub receiver_device_id: u64,
    pub created_at: i64,
    pub updated_at: i64,
}

pub ghost struct SpecSession {
    pub id: u64,
    pub chat_id: u64,
    pub sender_device_id: u64,
    pub receiver_device_id: u64,
    pub created_at: i64,
    pub updated_at: i64,
}

impl View for Session {
    type V = SpecSession;

    open spec fn view(&self) -> SpecSession {
        SpecSession {
            id: self.id,
            chat_id: self.chat_id,
            sender_device_id: self.sender_device_id,
            receiver_device_id: self.receiver_device_id,
            created_at: self.created_at,
            updated_at: self.updated_at,
        }
    }
}

// ---------------------------------------------------------------------------
// Messages
// ---------------------------------------------------------------------------

/// One stored message row: a logical message fans out to one row per
/// recipient device.
#[derive(Debug)]
pub struct Message {
    pub id: u64,
    pub logical_msg_id: String,
    pub chat_id: u64,
    pub from_user_id: u64,
    pub from_device_id: u64,
    pub to_user_id: u64,
    pub to_device_id: u64,
    pub header: String,
    pub ciphertext: String,
    pub delivered_at: Option<i64>,
    pub read_at: Option<i64>,
    pub created_at: i64,
}

pub ghost struct SpecMessage {
    pub id: u64,
    pub logical_msg_id: Seq<char>,
    pub chat_id: u64,
    pub from_user_id: u64,
    pub from_device_id: u64,
    pub to_user_id: u64,
    pub to_device_id: u64,
    pub header: Seq<char>,
    pub ciphertext: Seq<char>,
    pub delivered_at: Option<i64>,
    pub read_at: Option<i64>,
    pub created_at: i64,
}

impl View for Message {
    type V = SpecMessage;

    open spec fn view(&self) -> SpecMessage {
        SpecMessage {
            id: self.id,
            logical_msg_id: self.logical_msg_id@,
            chat_id: self.chat_id,
            from_user_id: self.from_user_id,
            from_device_id: self.from_device_id,
            to_user_id: self.to_user_id,
            to_device_id: self.to_device_id,
            header: self.header@,
            ciphertext: self.ciphertext@,
            delivered_at: self.delivered_at,
            read_at: self.read_at,
            created_at: self.created_at,
        }
    }
}

/// Each encrypted payload is specific to a recipient device.
#[derive(Debug)]
pub struct OutgoingMessagePayload {
    pub to_device_id: u64,
    pub header: String,
    pub ciphertext: String,
}

pub ghost struct SpecOutgoingMessagePayload {
    pub to_device_id: u64,
    pub header: Seq<char>,
    pub ciphertext: Seq<char>,
}

impl View for OutgoingMessagePayload {
    type V = SpecOutgoingMessagePayload;

    open spec fn view(&self) -> SpecOutgoingMessagePayload {
        SpecOutgoingMessagePayload {
            to_device_id: self.to_device_id,
            header: self.header@,
            ciphertext: self.ciphertext@,
        }
    }
}

/// The logical message: one client-assigned id, fanned out over the
/// recipient user's devices.
#[derive(Debug)]
pub struct OutgoingMessage {
    pub chat_id: u64,
    pub logical_msg_id: String,
    pub to_user_id: u64,
    pub payloads: Vec<OutgoingMessagePayload>,
}

pub ghost struct SpecOutgoingMessage {
    pub chat_id: u64,
    pub logical_msg_id: Seq<char>,
    pub to_user_id: u64,
    pub payloads: Seq<SpecOutgoingMessagePayload>,
}

impl View for OutgoingMessage {
    type V = SpecOutgoingMessage;

    open spec fn view(&self) -> SpecOutgoingMessage {
        SpecOutgoingMessage {
            chat_id: self.chat_id,
            logical_msg_id: self.logical_msg_id@,
            to_user_id: self.to_user_id,
            payloads: self.payloads@.map_values(|p: OutgoingMessagePayload| p@),
        }
    }
}

/// What a recipient device sees of one pending row.
#[derive(Debug)]
pub struct MessageView {
    pub id: u64,
    pub logical_msg_id: String,
    pub chat_id: u64,
    pub from_user_id: u64,
    pub from_device_id: u64,
    pub header: String,
    pub ciphertext: String,
    pub created_at: i64,
}

pub ghost struct SpecMessageView {
    pub id: u64,
    pub logical_msg_id: Seq<char>,
    pub chat_id: u64,
    pub from_user_id: u64,
    pub from_device_id: u64,
    pub header: Seq<char>,
    pub ciphertext: Seq<char>,
    pub created_at: i64,
}

impl View for MessageView {
    type V = SpecMessageView;

    open spec fn view(&self) -> SpecMessageView {
        SpecMessageView {
            id: self.id,
            logical_msg_id: self.logical_msg_id@,
            chat_id: self.chat_id,
            from_user_id: self.from_user_id,
            from_device_id: self.from_device_id,
            header: self.header@,
            ciphertext: self.ciphertext@,
            created_at: self.created_at,
        }
    }
}

// ---------------------------------------------------------------------------
// Enrollment
// ---------------------------------------------------------------------------

/// Claims carried by an enrollment token; issuance and signing of the token
/// are an external collaborator's job.
#[derive(Debug)]
pub struct EnrollmentClaims {
    pub sub: String,
    pub exp: usize,
}

#[derive(Debug)]
pub struct UsedToken {
    pub token: String,
}

/// A device's published key material on its own, as a store row.
#[derive(Debug)]
pub struct DeviceKeys {
    pub id: u64,
    pub device_id: u64,
    pub signed_prekey: String,
    pub signed_prekey_sig: String,
    pub one_time_prekeys: Vec<String>,
    pub created_at: Option<i64>,
}

// ---------------------------------------------------------------------------
// Request bodies
// ---------------------------------------------------------------------------

#[derive(Debug)]
pub struct CreateUserBody {
    pub username: String,
}

#[derive(Debug)]
pub struct LoginUserBody {
    pub identity_pubkey: String,
    pub message: String,
    pub signature: String,
}

#[derive(Debug)]
pub struct CreateDeviceBody {
    pub user_id: u64,
    pub identity_pubkey: String,
    pub prekey_pubkey: String,
    pub signed_prekey: SignedPreKey,
    pub one_time_prekeys: Vec<OneTimePrekeys>,
    pub device_label: String,
    pub push_token: String,
    pub enrollment_token: String,
}

pub ghost struct SpecCreateDeviceBody {
    pub user_id: u64,
    pub identity_pubkey: Seq<char>,
    pub prekey_pubkey: Seq<char>,
    pub signed_prekey: SpecSignedPreKey,
    pub one_time_prekeys: Seq<Seq<char>>,
    pub device_label: Seq<char>,
    pub push_token: Seq<char>,
    pub enrollment_token: Seq<char>,
}

impl View for CreateDeviceBody {
    type V = SpecCreateDeviceBody;

    open spec fn view(&self) -> SpecCreateDeviceBody {
        SpecCreateDeviceBody {
            user_id: self.user_id,
            identity_pubkey: self.identity_pubkey@,
            prekey_pubkey: self.prekey_pubkey@,
            signed_prekey: self.signed_prekey@,
            one_time_prekeys: self.one_time_prekeys@.map_values(|p: OneTimePrekeys| p@),
            device_label: self.device_label@,
            push_token: self.push_token@,
            enrollment_token: self.enrollment_token@,
        }
    }
}

#[derive(Debug)]
pub struct SessionInit {
    pub recipient_device_id: u64,
    pub ephemeral_pubkey: String,
    pub sender_prekey_pub: String,
    pub otpk_used: String,
    pub ciphertext: String,
}

pub ghost struct SpecSessionInit {
    pub recipient_device_id: u64,
    pub ephemeral_pubkey: Seq<char>,
    pub sender_prekey_pub: Seq<char>,
    pub otpk_used: Seq<char>,
    pub ciphertext: Seq<char>,
}

impl View for SessionInit {
    type V = SpecSessionInit;

    open spec fn view(&self) -> SpecSessionInit {
        SpecSessionInit {
            recipient_device_id: self.recipient_device_id,
            ephemeral_pubkey: self.ephemeral_pubkey@,
            sender_prekey_pub: self.sender_prekey_pub@,
            otpk_used: self.otpk_used@,
            ciphertext: self.ciphertext@,
        }
    }
}

#[derive(Debug)]
pub struct CreateSessionBody {
    pub recipient_user_id: u64,
    pub sessions_init: Vec<SessionInit>,
}

#[derive(Debug)]
pub struct ConfirmSessionBody {
    pub pending_session_id: u64,
    pub sender_device_id: u64,
    pub receiver_device_id: u64,
}

// ---------------------------------------------------------------------------
// Realtime events
// ---------------------------------------------------------------------------

/// A change notification: the kind tag as emitted by the store trigger and
/// the raw JSON payload it came with.
#[derive(Debug)]
pub struct RealtimeEvent {
    pub event_type: String,
    pub payload: String,
}

pub ghost struct SpecRealtimeEvent {
    pub event_type: Seq<char>,
    pub payload: Seq<char>,
}

impl View for RealtimeEvent {
    type V = SpecRealtimeEvent;

    open spec fn view(&self) -> SpecRealtimeEvent {
        SpecRealtimeEvent { event_type: self.event_type@, payload: self.payload@ }
    }
}

} // verus!
