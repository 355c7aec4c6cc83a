//! The relay's store model: every table the core reads or writes, the
//! well-formedness invariant the transactional store enforces through
//! uniqueness and foreign-key constraints, and the directory operations on
//! users, devices and enrollment tokens.

use vstd::prelude::*;

use crate::codec::str_eq;
use crate::crypto::{
    message_check_spec, prekey_check_spec, verify_message_signature,
    verify_signed_prekey_signature,
};
use crate::errors::{CreateDeviceError, CreateUserError, LookupError, SignatureCheckError};
use crate::models::{
    AuthenticatedDevice, Chat, ChatView, CreateDeviceBody, DeviceBundle, Devices, LoginUserBody,
    Message, OneTimePrekeys, PendingSession, Session, SignedPreKey, SpecChat, SpecChatView,
    SpecCreateDeviceBody, SpecDevice, SpecDeviceBundle, SpecMessage, SpecOffer, SpecSession,
    SpecSignedPreKey, SpecUser, User, opt_str_view,
};

verus! {

use vstd::utf8::encode_utf8;

/// Ghost image of the whole store.
pub ghost struct SpecState {
    pub users: Seq<SpecUser>,
    pub devices: Seq<SpecDevice>,
    pub offers: Seq<SpecOffer>,
    pub chats: Seq<SpecChat>,
    pub sessions: Seq<SpecSession>,
    pub messages: Seq<SpecMessage>,
    pub used_tokens: Seq<Seq<char>>,
    pub next_id: u64,
}

/// The store as the core sees it: rows in insertion order, with a monotone
/// id allocator standing in for the store's key generation.
pub struct RelayState {
    pub users: Vec<User>,
    pub devices: Vec<Devices>,
    pub offers: Vec<PendingSession>,
    pub chats: Vec<Chat>,
    pub sessions: Vec<Session>,
    pub messages: Vec<Message>,
    pub used_tokens: Vec<String>,
    pub next_id: u64,
}

impl View for RelayState {
    type V = SpecState;

    open spec fn view(&self) -> SpecState {
        SpecState {
            users: self.users@.map_values(|u: User| u@),
            devices: self.devices@.map_values(|d: Devices| d@),
            offers: self.offers@.map_values(|o: PendingSession| o@),
            chats: self.chats@.map_values(|c: Chat| c@),
            sessions: self.sessions@.map_values(|s: Session| s@),
            messages: self.messages@.map_values(|m: Message| m@),
            used_tokens: self.used_tokens@.map_values(|t: String| t@),
            next_id: self.next_id,
        }
    }
}

// ---------------------------------------------------------------------------
// Well-formedness
// ---------------------------------------------------------------------------

pub open spec fn users_wf(users: Seq<SpecUser>, next_id: u64) -> bool {
    &&& forall|i: int, j: int|
        #![trigger users[i], users[j]]
        0 <= i < j < users.len() ==> users[i].id != users[j].id
    &&& forall|i: int, j: int|
        #![trigger users[i], users[j]]
        0 <= i < j < users.len() ==> users[i].username != users[j].username
    &&& forall|i: int| 0 <= i < users.len() ==> (#[trigger] users[i]).id < next_id
}

pub open spec fn devices_wf(devices: Seq<SpecDevice>, users: Seq<SpecUser>, next_id: u64) -> bool {
    &&& forall|i: int, j: int|
        #![trigger devices[i], devices[j]]
        0 <= i < j < devices.len() ==> devices[i].id != devices[j].id
    &&& forall|i: int, j: int|
        #![trigger devices[i], devices[j]]
        0 <= i < j < devices.len() ==> devices[i].identity_pubkey != devices[j].identity_pubkey
    &&& forall|i: int|
        0 <= i < devices.len() ==> user_id_exists(users, (#[trigger] devices[i]).user_id)
    &&& forall|i: int| 0 <= i < devices.len() ==> (#[trigger] devices[i]).id < next_id
}

pub open spec fn offers_wf(offers: Seq<SpecOffer>, next_id: u64) -> bool {
    &&& forall|i: int, j: int|
        #![trigger offers[i], offers[j]]
        0 <= i < j < offers.len() ==> offers[i].id != offers[j].id
    &&& forall|i: int| 0 <= i < offers.len() ==> (#[trigger] offers[i]).id < next_id
}

pub open spec fn chats_wf(chats: Seq<SpecChat>, next_id: u64) -> bool {
    &&& forall|i: int, j: int|
        #![trigger chats[i], chats[j]]
        0 <= i < j < chats.len() ==> chats[i].id != chats[j].id
    &&& forall|i: int| 0 <= i < chats.len() ==> (#[trigger] chats[i]).user_a <= chats[i].user_b
    &&& forall|i: int, j: int|
        #![trigger chats[i], chats[j]]
        0 <= i < j < chats.len() ==> !(chats[i].user_a == chats[j].user_a && chats[i].user_b
            == chats[j].user_b)
    &&& forall|i: int| 0 <= i < chats.len() ==> (#[trigger] chats[i]).id < next_id
}

pub open spec fn sessions_wf(
    sessions: Seq<SpecSession>,
    chats: Seq<SpecChat>,
    next_id: u64,
) -> bool {
    &&& forall|i: int, j: int|
        #![trigger sessions[i], sessions[j]]
        0 <= i < j < sessions.len() ==> sessions[i].id != sessions[j].id
    &&& forall|i: int, j: int|
        #![trigger sessions[i], sessions[j]]
        0 <= i < j < sessions.len() ==> !(sessions[i].sender_device_id
            == sessions[j].sender_device_id && sessions[i].receiver_device_id
            == sessions[j].receiver_device_id)
    &&& forall|i: int|
        0 <= i < sessions.len() ==> chat_id_exists(chats, (#[trigger] sessions[i]).chat_id)
    &&& forall|i: int| 0 <= i < sessions.len() ==> (#[trigger] sessions[i]).id < next_id
}

pub open spec fn messages_wf(messages: Seq<SpecMessage>, next_id: u64) -> bool {
    &&& forall|i: int, j: int|
        #![trigger messages[i], messages[j]]
        0 <= i < j < messages.len() ==> messages[i].id < messages[j].id
    &&& forall|i: int| 0 <= i < messages.len() ==> (#[trigger] messages[i]).id < next_id
}

pub open spec fn tokens_wf(tokens: Seq<Seq<char>>) -> bool {
    forall|i: int, j: int|
        #![trigger tokens[i], tokens[j]]
        0 <= i < j < tokens.len() ==> tokens[i] != tokens[j]
}

impl SpecState {
    /// The invariant the store's constraints enforce: unique keys, canonical
    /// chat pairs, foreign keys, and a fresh id allocator.
    pub open spec fn wf(self) -> bool {
        &&& users_wf(self.users, self.next_id)
        &&& devices_wf(self.devices, self.users, self.next_id)
        &&& offers_wf(self.offers, self.next_id)
        &&& chats_wf(self.chats, self.next_id)
        &&& sessions_wf(self.sessions, self.chats, self.next_id)
        &&& messages_wf(self.messages, self.next_id)
        &&& tokens_wf(self.used_tokens)
    }
}

// ---------------------------------------------------------------------------
// Spec-level lookups (first match, in row order)
// ---------------------------------------------------------------------------

pub open spec fn user_id_exists(users: Seq<SpecUser>, id: u64) -> bool {
    exists|i: int| 0 <= i < users.len() && (#[trigger] users[i]).id == id
}

pub open spec fn chat_id_exists(chats: Seq<SpecChat>, id: u64) -> bool {
    exists|i: int| 0 <= i < chats.len() && (#[trigger] chats[i]).id == id
}

pub open spec fn find_user_by_id_at(users: Seq<SpecUser>, id: u64, i: int) -> Option<int>
    decreases users.len() - i,
{
    if i < 0 || i >= users.len() {
        None
    } else if users[i].id == id {
        Some(i)
    } else {
        find_user_by_id_at(users, id, i + 1)
    }
}

pub open spec fn find_user_by_name_at(users: Seq<SpecUser>, name: Seq<char>, i: int) -> Option<
    int,
>
    decreases users.len() - i,
{
    if i < 0 || i >= users.len() {
        None
    } else if users[i].username == name {
        Some(i)
    } else {
        find_user_by_name_at(users, name, i + 1)
    }
}

pub open spec fn find_device_by_id_at(devices: Seq<SpecDevice>, id: u64, i: int) -> Option<int>
    decreases devices.len() - i,
{
    if i < 0 || i >= devices.len() {
        None
    } else if devices[i].id == id {
        Some(i)
    } else {
        find_device_by_id_at(devices, id, i + 1)
    }
}

pub open spec fn find_device_by_key_at(devices: Seq<SpecDevice>, key: Seq<char>, i: int) -> Option<
    int,
>
    decreases devices.len() - i,
{
    if i < 0 || i >= devices.len() {
        None
    } else if devices[i].identity_pubkey == key {
        Some(i)
    } else {
        find_device_by_key_at(devices, key, i + 1)
    }
}

pub open spec fn token_used_at(tokens: Seq<Seq<char>>, token: Seq<char>, i: int) -> bool
    decreases tokens.len() - i,
{
    if i < 0 || i >= tokens.len() {
        false
    } else if tokens[i] == token {
        true
    } else {
        token_used_at(tokens, token, i + 1)
    }
}

/// A `None` from a first-match search means no row matches at all.
pub proof fn lemma_find_device_by_key_none(devices: Seq<SpecDevice>, key: Seq<char>, i: int)
    requires
        0 <= i,
        find_device_by_key_at(devices, key, i) is None,
    ensures
        forall|j: int| i <= j < devices.len() ==> (#[trigger] devices[j]).identity_pubkey != key,
    decreases devices.len() - i,
{
    if 0 <= i < devices.len() {
        lemma_find_device_by_key_none(devices, key, i + 1);
    }
}

/// A `Some(k)` from a first-match search points at a matching row.
pub proof fn lemma_find_user_by_id_some(users: Seq<SpecUser>, id: u64, i: int)
    requires
        find_user_by_id_at(users, id, i) is Some,
    ensures
        ({
            let k = find_user_by_id_at(users, id, i)->0;
            i <= k < users.len() && users[k].id == id
        }),
    decreases users.len() - i,
{
    if 0 <= i < users.len() && users[i].id != id {
        lemma_find_user_by_id_some(users, id, i + 1);
    }
}

pub proof fn lemma_find_device_by_id_some(devices: Seq<SpecDevice>, id: u64, i: int)
    requires
        find_device_by_id_at(devices, id, i) is Some,
    ensures
        ({
            let k = find_device_by_id_at(devices, id, i)->0;
            i <= k < devices.len() && devices[k].id == id
        }),
    decreases devices.len() - i,
{
    if 0 <= i < devices.len() && devices[i].id != id {
        lemma_find_device_by_id_some(devices, id, i + 1);
    }
}

// ---------------------------------------------------------------------------
// Row copying
// ---------------------------------------------------------------------------

impl User {
    /// A field-for-field copy of the row.
    pub fn duplicate(&self) -> (r: User)
        ensures
            r@ == self@,
    {
        User { id: self.id, username: self.username.clone(), created_at: self.created_at }
    }
}

fn clone_opt_string(o: &Option<String>) -> (r: Option<String>)
    ensures
        opt_str_view(r) == opt_str_view(*o),
{
    match o {
        Some(s) => Some(s.clone()),
        None => None,
    }
}

fn clone_string_vec(v: &Vec<String>) -> (r: Vec<String>)
    ensures
        r@.map_values(|s: String| s@) == v@.map_values(|s: String| s@),
{
    let mut out: Vec<String> = Vec::new();
    let mut i: usize = 0;
    while i < v.len()
        invariant
            0 <= i <= v.len(),
            out@.len() == i,
            forall|k: int| 0 <= k < i ==> (#[trigger] out@[k])@ == v@[k]@,
        decreases v.len() - i,
    {
        out.push(v[i].clone());
        i += 1;
    }
    proof {
        assert(out@.map_values(|s: String| s@) =~= v@.map_values(|s: String| s@));
    }
    out
}

impl Devices {
    /// A field-for-field copy of the row.
    pub fn duplicate(&self) -> (r: Devices)
        ensures
            r@ == self@,
    {
        let r = Devices {
            id: self.id,
            user_id: self.user_id,
            identity_pubkey: self.identity_pubkey.clone(),
            signed_prekey_pub: self.signed_prekey_pub.clone(),
            signed_prekey_sig: self.signed_prekey_sig.clone(),
            one_time_prekeys: clone_string_vec(&self.one_time_prekeys),
            device_label: clone_opt_string(&self.device_label),
            push_token: clone_opt_string(&self.push_token),
            last_seen: self.last_seen,
            created_at: self.created_at,
        };
        r
    }
}

// ---------------------------------------------------------------------------
// Directory operations
// ---------------------------------------------------------------------------

impl RelayState {
    /// An empty store.
    pub fn new() -> (r: RelayState)
        ensures
            r@.wf(),
            r@.users.len() == 0,
            r@.devices.len() == 0,
            r@.offers.len() == 0,
            r@.chats.len() == 0,
            r@.sessions.len() == 0,
            r@.messages.len() == 0,
            r@.used_tokens.len() == 0,
    {
        RelayState {
            users: Vec::new(),
            devices: Vec::new(),
            offers: Vec::new(),
            chats: Vec::new(),
            sessions: Vec::new(),
            messages: Vec::new(),
            used_tokens: Vec::new(),
            next_id: 0,
        }
    }

    /// All user rows, in stored order.
    pub fn get_all_users(&self) -> (r: Vec<User>)
        ensures
            r@.map_values(|u: User| u@) == self@.users,
    {
        let mut out: Vec<User> = Vec::new();
        let mut i: usize = 0;
        while i < self.users.len()
            invariant
                0 <= i <= self.users.len(),
                out@.len() == i,
                forall|k: int| 0 <= k < i ==> (#[trigger] out@[k])@ == self.users@[k]@,
            decreases self.users.len() - i,
        {
            out.push(self.users[i].duplicate());
            i += 1;
        }
        proof {
            assert(out@.map_values(|u: User| u@) =~= self@.users);
        }
        out
    }

    /// Insert a user; refused when the username is taken, as the store's
    /// uniqueness constraint would refuse it.
    pub fn create_user(&mut self, username: &str, now: i64) -> (r: Result<
        User,
        CreateUserError,
    >)
        requires
            old(self)@.wf(),
            old(self)@.next_id < u64::MAX,
        ensures
            final(self)@.wf(),
            match r {
                Ok(u) => {
                    &&& find_user_by_name_at(old(self)@.users, username@, 0) is None
                    &&& u@.username == username@
                    &&& u@.id == old(self)@.next_id
                    &&& u@.created_at == Some(now)
                    &&& final(self)@ == (SpecState {
                        users: old(self)@.users.push(u@),
                        next_id: (old(self)@.next_id + 1) as u64,
                        ..old(self)@
                    })
                },
                Err(CreateUserError::Conflict) => {
                    &&& find_user_by_name_at(old(self)@.users, username@, 0) is Some
                    &&& final(self)@ == old(self)@
                },
            },
    {
        let n = self.users.len();
        let mut i: usize = 0;
        while i < n
            invariant
                0 <= i <= n,
                n == self.users.len(),
                self@ == old(self)@,
                self@.wf(),
                find_user_by_name_at(self@.users, username@, 0) == find_user_by_name_at(
                    self@.users,
                    username@,
                    i as int,
                ),
            decreases n - i,
        {
            if str_eq(self.users[i].username.as_str(), username) {
                return Err(CreateUserError::Conflict);
            }
            i += 1;
        }
        let user = User { id: self.next_id, username: username.to_owned(), created_at: Some(now) };
        let result = user.duplicate();
        let ghost pre = self@;
        self.users.push(user);
        self.next_id = self.next_id + 1;
        proof {
            assert(self@.users =~= pre.users.push(result@));
            assert(self@ == SpecState {
                users: pre.users.push(result@),
                next_id: (pre.next_id + 1) as u64,
                ..pre
            });
            lemma_find_user_by_name_none(pre.users, username@, 0);
            assert(self@.wf()) by {
                assert(forall|k: int|
                    0 <= k < pre.users.len() ==> self@.users[k] == pre.users[k]);
                assert(forall|k: int|
                    0 <= k < pre.devices.len() ==> user_id_exists(
                        pre.users,
                        (#[trigger] pre.devices[k]).user_id,
                    ) ==> user_id_exists(self@.users, pre.devices[k].user_id));
            }
        }
        Ok(result)
    }

    /// First user row with this id.
    pub fn find_user_by_id(&self, user_id: u64) -> (r: Option<User>)
        ensures
            match r {
                Some(u) => {
                    &&& find_user_by_id_at(self@.users, user_id, 0) is Some
                    &&& u@ == self@.users[find_user_by_id_at(self@.users, user_id, 0)->0]
                },
                None => find_user_by_id_at(self@.users, user_id, 0) is None,
            },
    {
        let n = self.users.len();
        let mut i: usize = 0;
        while i < n
            invariant
                0 <= i <= n,
                n == self.users.len(),
                find_user_by_id_at(self@.users, user_id, 0) == find_user_by_id_at(
                    self@.users,
                    user_id,
                    i as int,
                ),
            decreases n - i,
        {
            if self.users[i].id == user_id {
                return Some(self.users[i].duplicate());
            }
            i += 1;
        }
        None
    }

    /// Whether this enrollment token was already consumed.
    pub fn enrollment_token_exists(&self, token: &str) -> (r: bool)
        ensures
            r == token_used_at(self@.used_tokens, token@, 0),
    {
        let n = self.used_tokens.len();
        let mut i: usize = 0;
        while i < n
            invariant
                0 <= i <= n,
                n == self.used_tokens.len(),
                token_used_at(self@.used_tokens, token@, 0) == token_used_at(
                    self@.used_tokens,
                    token@,
                    i as int,
                ),
            decreases n - i,
        {
            if str_eq(self.used_tokens[i].as_str(), token) {
                return true;
            }
            i += 1;
        }
        false
    }

    /// Record a consumed token; inserting a duplicate is a no-op, as the
    /// store's on-conflict clause makes it.
    pub fn add_used_token(&mut self, token: &str)
        requires
            old(self)@.wf(),
        ensures
            final(self)@.wf(),
            token_used_at(old(self)@.used_tokens, token@, 0) ==> final(self)@ == old(self)@,
            !token_used_at(old(self)@.used_tokens, token@, 0) ==> final(self)@ == (SpecState {
                used_tokens: old(self)@.used_tokens.push(token@),
                ..old(self)@
            }),
            token_used_at(final(self)@.used_tokens, token@, 0),
    {
        if self.enrollment_token_exists(token) {
            return ;
        }
        let ghost pre = self@;
        self.used_tokens.push(token.to_owned());
        proof {
            assert(self@.used_tokens =~= pre.used_tokens.push(token@));
            assert(self@ == SpecState { used_tokens: pre.used_tokens.push(token@), ..pre });
            lemma_token_used_none(pre.used_tokens, token@, 0);
            assert(tokens_wf(self@.used_tokens)) by {
                assert(forall|k: int|
                    0 <= k < pre.used_tokens.len() ==> self@.used_tokens[k]
                        == pre.used_tokens[k]);
            }
            lemma_token_used_extend(self@.used_tokens, token@);
        }
    }
}

// ---------------------------------------------------------------------------
// Device directory
// ---------------------------------------------------------------------------

/// The devices belonging to one user, in stored order.
pub open spec fn devices_of_user(devices: Seq<SpecDevice>, uid: u64) -> Seq<SpecDevice>
    decreases devices.len(),
{
    if devices.len() == 0 {
        Seq::empty()
    } else {
        let init = devices_of_user(devices.drop_last(), uid);
        if devices.last().user_id == uid {
            init.push(devices.last())
        } else {
            init
        }
    }
}

/// The prekey bundle a device hands out.
pub open spec fn bundle_of(d: SpecDevice) -> SpecDeviceBundle {
    SpecDeviceBundle {
        device_id: d.id,
        identity_pubkey: d.identity_pubkey,
        signed_prekey_pub: d.signed_prekey_pub,
        signed_prekey_sig: d.signed_prekey_sig,
        one_time_prekeys: d.one_time_prekeys,
    }
}

/// The user reached by following a device's owner reference.
pub open spec fn find_user_by_pubkey_spec(s: SpecState, key: Seq<char>) -> Option<SpecUser> {
    match find_device_by_key_at(s.devices, key, 0) {
        None => None,
        Some(di) => match find_user_by_id_at(s.users, s.devices[di].user_id, 0) {
            None => None,
            Some(ui) => Some(s.users[ui]),
        },
    }
}

impl RelayState {
    /// First device row holding this identity key; the key is unique, so
    /// first match is the match.
    pub fn get_device_by_identity_key(&self, id_key: &str) -> (r: Option<Devices>)
        ensures
            match r {
                Some(d) => {
                    &&& find_device_by_key_at(self@.devices, id_key@, 0) is Some
                    &&& d@ == self@.devices[find_device_by_key_at(self@.devices, id_key@, 0)->0]
                },
                None => find_device_by_key_at(self@.devices, id_key@, 0) is None,
            },
    {
        let n = self.devices.len();
        let mut i: usize = 0;
        while i < n
            invariant
                0 <= i <= n,
                n == self.devices.len(),
                find_device_by_key_at(self@.devices, id_key@, 0) == find_device_by_key_at(
                    self@.devices,
                    id_key@,
                    i as int,
                ),
            decreases n - i,
        {
            if str_eq(self.devices[i].identity_pubkey.as_str(), id_key) {
                return Some(self.devices[i].duplicate());
            }
            i += 1;
        }
        None
    }

    /// First device row with this id.
    pub fn get_device_by_id(&self, device_id: u64) -> (r: Option<Devices>)
        ensures
            match r {
                Some(d) => {
                    &&& find_device_by_id_at(self@.devices, device_id, 0) is Some
                    &&& d@ == self@.devices[find_device_by_id_at(self@.devices, device_id, 0)->0]
                },
                None => find_device_by_id_at(self@.devices, device_id, 0) is None,
            },
    {
        let n = self.devices.len();
        let mut i: usize = 0;
        while i < n
            invariant
                0 <= i <= n,
                n == self.devices.len(),
                find_device_by_id_at(self@.devices, device_id, 0) == find_device_by_id_at(
                    self@.devices,
                    device_id,
                    i as int,
                ),
            decreases n - i,
        {
            if self.devices[i].id == device_id {
                return Some(self.devices[i].duplicate());
            }
            i += 1;
        }
        None
    }

    /// All devices of one user, in stored order.
    pub fn get_devices_by_user_id(&self, user_id: u64) -> (r: Vec<Devices>)
        ensures
            r@.map_values(|d: Devices| d@) == devices_of_user(self@.devices, user_id),
    {
        let n = self.devices.len();
        let mut out: Vec<Devices> = Vec::new();
        let mut i: usize = 0;
        while i < n
            invariant
                0 <= i <= n,
                n == self.devices.len(),
                out@.map_values(|d: Devices| d@) == devices_of_user(
                    self@.devices.subrange(0, i as int),
                    user_id,
                ),
            decreases n - i,
        {
            let ghost pre = self@.devices.subrange(0, i as int);
            let ghost ext = self@.devices.subrange(0, i as int + 1);
            proof {
                assert(ext.drop_last() =~= pre);
                assert(ext.last() == self@.devices[i as int]);
            }
            if self.devices[i].user_id == user_id {
                out.push(self.devices[i].duplicate());
            }
            proof {
                assert(out@.map_values(|d: Devices| d@) =~= devices_of_user(ext, user_id));
            }
            i += 1;
        }
        proof {
            assert(self@.devices.subrange(0, n as int) =~= self@.devices);
        }
        out
    }

    /// The prekey bundles of all of one user's devices.
    pub fn get_device_bundle(&self, user_id: u64) -> (r: Vec<DeviceBundle>)
        ensures
            r@.map_values(|b: DeviceBundle| b@) == devices_of_user(
                self@.devices,
                user_id,
            ).map_values(|d: SpecDevice| bundle_of(d)),
    {
        let rows = self.get_devices_by_user_id(user_id);
        let mut out: Vec<DeviceBundle> = Vec::new();
        let mut i: usize = 0;
        while i < rows.len()
            invariant
                0 <= i <= rows@.len(),
                rows@.map_values(|d: Devices| d@) == devices_of_user(self@.devices, user_id),
                out@.len() == i,
                forall|k: int|
                    0 <= k < i ==> (#[trigger] out@[k])@ == bundle_of(rows@[k]@),
            decreases rows@.len() - i,
        {
            let d = &rows[i];
            out.push(
                DeviceBundle {
                    device_id: d.id,
                    identity_pubkey: d.identity_pubkey.clone(),
                    signed_prekey_pub: d.signed_prekey_pub.clone(),
                    signed_prekey_sig: d.signed_prekey_sig.clone(),
                    one_time_prekeys: clone_string_vec(&d.one_time_prekeys),
                },
            );
            i += 1;
        }
        proof {
            assert(out@.map_values(|b: DeviceBundle| b@) =~= devices_of_user(
                self@.devices,
                user_id,
            ).map_values(|d: SpecDevice| bundle_of(d)));
        }
        out
    }

    /// The user owning a device: absent device is an error, an orphaned
    /// owner reference is an empty result.
    pub fn get_user_for_device(&self, device_id: u64) -> (r: Result<Option<User>, LookupError>)
        ensures
            match r {
                Ok(u) => {
                    &&& find_device_by_id_at(self@.devices, device_id, 0) is Some
                    &&& ({
                        let owner = self@.devices[find_device_by_id_at(
                            self@.devices,
                            device_id,
                            0,
                        )->0].user_id;
                        match u {
                            Some(uu) => find_user_by_id_at(self@.users, owner, 0) is Some
                                && uu@ == self@.users[find_user_by_id_at(
                                self@.users,
                                owner,
                                0,
                            )->0],
                            None => find_user_by_id_at(self@.users, owner, 0) is None,
                        }
                    })
                },
                Err(LookupError::DeviceNotFound) => find_device_by_id_at(
                    self@.devices,
                    device_id,
                    0,
                ) is None,
            },
    {
        let device = match self.get_device_by_id(device_id) {
            Some(d) => d,
            None => return Err(LookupError::DeviceNotFound),
        };
        Ok(self.find_user_by_id(device.user_id))
    }

    /// The user owning the device that holds this identity key.
    pub fn find_user_by_pubkey(&self, pubkey_b64: &str) -> (r: Option<User>)
        ensures
            match r {
                Some(u) => find_user_by_pubkey_spec(self@, pubkey_b64@) == Some(u@),
                None => find_user_by_pubkey_spec(self@, pubkey_b64@) is None,
            },
    {
        let device = match self.get_device_by_identity_key(pubkey_b64) {
            Some(d) => d,
            None => return None,
        };
        self.find_user_by_id(device.user_id)
    }
}

// ---------------------------------------------------------------------------
// Device registration and login
// ---------------------------------------------------------------------------

/// Outcome of registering a device: the enrollment token must be fresh,
/// the signed prekey must verify under the identity key, the token must
/// not name a different user, the user must exist, and the identity key
/// must be new. On success the device row and the consumed token are
/// recorded together.
pub open spec fn create_device_spec(
    s: SpecState,
    body: SpecCreateDeviceBody,
    token_user: Option<u64>,
    now: i64,
) -> (SpecState, Result<SpecDevice, CreateDeviceError>) {
    if token_used_at(s.used_tokens, body.enrollment_token, 0) {
        (s, Err(CreateDeviceError::TokenAlreadyUsed))
    } else if prekey_check_spec(
        body.identity_pubkey,
        body.signed_prekey.key,
        body.signed_prekey.signature,
    ) is Err {
        (s, Err(CreateDeviceError::SignatureCheckFailed))
    } else if (match token_user {
        Some(id) => id != body.user_id,
        None => false,
    }) {
        (s, Err(CreateDeviceError::WrongTokenUser))
    } else if find_user_by_id_at(s.users, body.user_id, 0) is None {
        (s, Err(CreateDeviceError::UnknownUser))
    } else if find_device_by_key_at(s.devices, body.identity_pubkey, 0) is Some {
        (s, Err(CreateDeviceError::DuplicateIdentityKey))
    } else {
        let d = SpecDevice {
            id: s.next_id,
            user_id: body.user_id,
            identity_pubkey: body.identity_pubkey,
            signed_prekey_pub: body.signed_prekey.key,
            signed_prekey_sig: body.signed_prekey.signature,
            one_time_prekeys: body.one_time_prekeys,
            device_label: Some(body.device_label),
            push_token: Some(body.push_token),
            last_seen: None,
            created_at: Some(now),
        };
        (
            SpecState {
                devices: s.devices.push(d),
                used_tokens: s.used_tokens.push(body.enrollment_token),
                next_id: (s.next_id + 1) as u64,
                ..s
            },
            Ok(d),
        )
    }
}

impl RelayState {
    /// Register a device under an enrollment token: the checks run in the
    /// order the registration endpoint makes them, and a successful
    /// registration consumes the token in the same step. `token_user` is
    /// what the external token verifier resolved the token to, `None` when
    /// it could not; a token naming a different user is refused, an
    /// unverifiable one is tolerated, as the registration endpoint
    /// tolerates it.
    pub fn create_device(
        &mut self,
        body: &CreateDeviceBody,
        token_user: Option<u64>,
        now: i64,
    ) -> (r: Result<Devices, CreateDeviceError>)
        requires
            old(self)@.wf(),
            old(self)@.next_id < u64::MAX,
        ensures
            final(self)@.wf(),
            match r {
                Ok(d) => (final(self)@, Ok::<SpecDevice, CreateDeviceError>(d@)) == create_device_spec(
                    old(self)@,
                    body@,
                    token_user,
                    now,
                ),
                Err(e) => {
                    &&& (final(self)@, Err::<SpecDevice, CreateDeviceError>(e))
                        == create_device_spec(old(self)@, body@, token_user, now)
                    &&& final(self)@ == old(self)@
                },
            },
    {
        if self.enrollment_token_exists(body.enrollment_token.as_str()) {
            return Err(CreateDeviceError::TokenAlreadyUsed);
        }
        match verify_signed_prekey_signature(
            body.identity_pubkey.as_str(),
            body.signed_prekey.key.as_str(),
            body.signed_prekey.signature.as_str(),
        ) {
            Ok(()) => (),
            Err(_) => {
                return Err(CreateDeviceError::SignatureCheckFailed);
            },
        }
        match token_user {
            Some(id) => {
                if id != body.user_id {
                    return Err(CreateDeviceError::WrongTokenUser);
                }
            },
            None => (),
        }
        if self.find_user_by_id(body.user_id).is_none() {
            return Err(CreateDeviceError::UnknownUser);
        }
        if self.get_device_by_identity_key(body.identity_pubkey.as_str()).is_some() {
            return Err(CreateDeviceError::DuplicateIdentityKey);
        }
        let mut prekeys: Vec<String> = Vec::new();
        let m = body.one_time_prekeys.len();
        let mut k: usize = 0;
        while k < m
            invariant
                0 <= k <= m,
                m == body.one_time_prekeys@.len(),
                prekeys@.len() == k,
                forall|a: int|
                    0 <= a < k ==> (#[trigger] prekeys@[a])@ == body.one_time_prekeys@[a]@,
            decreases m - k,
        {
            prekeys.push(body.one_time_prekeys[k].key.clone());
            k += 1;
        }
        proof {
            assert(prekeys@.map_values(|x: String| x@) =~= body@.one_time_prekeys);
        }
        let device = Devices {
            id: self.next_id,
            user_id: body.user_id,
            identity_pubkey: body.identity_pubkey.clone(),
            signed_prekey_pub: body.signed_prekey.key.clone(),
            signed_prekey_sig: body.signed_prekey.signature.clone(),
            one_time_prekeys: prekeys,
            device_label: Some(body.device_label.clone()),
            push_token: Some(body.push_token.clone()),
            last_seen: None,
            created_at: Some(now),
        };
        let result = device.duplicate();
        let ghost pre = self@;
        let ghost devv = device@;
        self.devices.push(device);
        self.used_tokens.push(body.enrollment_token.clone());
        self.next_id = self.next_id + 1;
        proof {
            assert(self@.devices =~= pre.devices.push(devv));
            assert(self@.used_tokens =~= pre.used_tokens.push(body@.enrollment_token));
            assert(self@ == create_device_spec(pre, body@, token_user, now).0);
            lemma_find_device_by_key_none(pre.devices, body@.identity_pubkey, 0);
            lemma_token_used_none(pre.used_tokens, body@.enrollment_token, 0);
            lemma_find_user_by_id_some(pre.users, body@.user_id, 0);
            assert(self@.wf()) by {
                assert(forall|a: int|
                    0 <= a < pre.devices.len() ==> self@.devices[a] == pre.devices[a]);
                assert(forall|a: int|
                    0 <= a < pre.used_tokens.len() ==> self@.used_tokens[a]
                        == pre.used_tokens[a]);
                assert(user_id_exists(pre.users, devv.user_id));
                assert(forall|a: int|
                    0 <= a < pre.devices.len() ==> user_id_exists(
                        pre.users,
                        (#[trigger] pre.devices[a]).user_id,
                    ) ==> user_id_exists(self@.users, pre.devices[a].user_id));
            }
        }
        Ok(result)
    }

    /// Log a user in: the caller proves control of an identity key by
    /// signing `message`; a valid proof resolves to the owning user, and
    /// an unknown key resolves to nobody.
    pub fn login_user(&self, body: &LoginUserBody) -> (r: Result<Option<User>, SignatureCheckError>)
        ensures
            match r {
                Ok(u) => {
                    &&& message_check_spec(
                        body.identity_pubkey@,
                        encode_utf8(body.message@),
                        body.signature@,
                    ) is Ok
                    &&& (match u {
                        Some(uu) => find_user_by_pubkey_spec(self@, body.identity_pubkey@)
                            == Some(uu@),
                        None => find_user_by_pubkey_spec(self@, body.identity_pubkey@) is None,
                    })
                },
                Err(e) => message_check_spec(
                    body.identity_pubkey@,
                    encode_utf8(body.message@),
                    body.signature@,
                ) == Err::<(), SignatureCheckError>(e),
            },
    {
        match verify_message_signature(
            body.identity_pubkey.as_str(),
            body.message.as_str(),
            body.signature.as_str(),
        ) {
            Ok(()) => (),
            Err(e) => {
                return Err(e);
            },
        }
        Ok(self.find_user_by_pubkey(body.identity_pubkey.as_str()))
    }
}

// ---------------------------------------------------------------------------
// Chats of a user
// ---------------------------------------------------------------------------

/// The direct chats one user takes part in, in stored order.
pub open spec fn chats_of_user(chats: Seq<SpecChat>, uid: u64) -> Seq<SpecChat>
    decreases chats.len(),
{
    if chats.len() == 0 {
        Seq::empty()
    } else {
        let init = chats_of_user(chats.drop_last(), uid);
        if chats.last().user_a == uid || chats.last().user_b == uid {
            init.push(chats.last())
        } else {
            init
        }
    }
}

/// What one chat looks like to one of its participants: the other user of
/// the pair, with that user's name when the row still exists.
pub open spec fn chat_view_spec(users: Seq<SpecUser>, uid: u64, c: SpecChat) -> SpecChatView {
    let partner = if c.user_a == uid {
        c.user_b
    } else {
        c.user_a
    };
    SpecChatView {
        id: c.id,
        partner_user_id: partner,
        partner_username: match find_user_by_id_at(users, partner, 0) {
            Some(ui) => Some(users[ui].username),
            None => None,
        },
        name: c.name,
        last_message_id: c.last_message_id,
        updated_at: c.updated_at,
    }
}

impl RelayState {
    /// The chats of the calling device's user, each with the partner's
    /// name, in stored order.
    pub fn get_chats_for_device(&self, device: &AuthenticatedDevice) -> (r: Vec<ChatView>)
        ensures
            r@.map_values(|v: ChatView| v@) == chats_of_user(
                self@.chats,
                device.0@.user_id,
            ).map_values(|c: SpecChat| chat_view_spec(self@.users, device.0@.user_id, c)),
    {
        let uid = device.0.user_id;
        let n = self.chats.len();
        let mut out: Vec<ChatView> = Vec::new();
        let mut i: usize = 0;
        while i < n
            invariant
                0 <= i <= n,
                n == self.chats.len(),
                uid == device.0@.user_id,
                out@.len() == chats_of_user(self@.chats.subrange(0, i as int), uid).len(),
                forall|a: int|
                    0 <= a < out@.len() ==> (#[trigger] out@[a])@ == chat_view_spec(
                        self@.users,
                        uid,
                        chats_of_user(self@.chats.subrange(0, i as int), uid)[a],
                    ),
            decreases n - i,
        {
            let ghost pre = self@.chats.subrange(0, i as int);
            let ghost ext = self@.chats.subrange(0, i as int + 1);
            proof {
                assert(ext.drop_last() =~= pre);
                assert(ext.last() == self@.chats[i as int]);
            }
            let c = &self.chats[i];
            if c.user_a == uid || c.user_b == uid {
                let partner: u64 = if c.user_a == uid {
                    c.user_b
                } else {
                    c.user_a
                };
                let partner_username = match self.find_user_by_id(partner) {
                    Some(u) => Some(u.username),
                    None => None,
                };
                out.push(
                    ChatView {
                        id: c.id,
                        partner_user_id: partner,
                        partner_username: partner_username,
                        name: clone_opt_string(&c.name),
                        last_message_id: c.last_message_id,
                        updated_at: c.updated_at,
                    },
                );
            }
            i += 1;
        }
        proof {
            assert(self@.chats.subrange(0, n as int) =~= self@.chats);
            assert(out@.map_values(|v: ChatView| v@) =~= chats_of_user(
                self@.chats,
                uid,
            ).map_values(|c: SpecChat| chat_view_spec(self@.users, uid, c)));
        }
        out
    }
}

pub proof fn lemma_find_user_by_name_none(users: Seq<SpecUser>, name: Seq<char>, i: int)
    requires
        0 <= i,
        find_user_by_name_at(users, name, i) is None,
    ensures
        forall|j: int| i <= j < users.len() ==> (#[trigger] users[j]).username != name,
    decreases users.len() - i,
{
    if 0 <= i < users.len() {
        lemma_find_user_by_name_none(users, name, i + 1);
    }
}

pub proof fn lemma_token_used_none(tokens: Seq<Seq<char>>, token: Seq<char>, i: int)
    requires
        0 <= i,
        !token_used_at(tokens, token, i),
    ensures
        forall|j: int| i <= j < tokens.len() ==> (#[trigger] tokens[j]) != token,
    decreases tokens.len() - i,
{
    if 0 <= i < tokens.len() {
        lemma_token_used_none(tokens, token, i + 1);
    }
}

/// A row that is present is found.
pub proof fn lemma_token_used_extend(tokens: Seq<Seq<char>>, token: Seq<char>)
    requires
        tokens.len() > 0,
        tokens.last() == token,
    ensures
        token_used_at(tokens, token, 0),
{
    lemma_token_used_from(tokens, token, 0);
}

proof fn lemma_token_used_from(tokens: Seq<Seq<char>>, token: Seq<char>, i: int)
    requires
        0 <= i < tokens.len(),
        tokens.last() == token,
    ensures
        token_used_at(tokens, token, i),
    decreases tokens.len() - i,
{
    if i < tokens.len() - 1 {
        lemma_token_used_from(tokens, token, i + 1);
    }
}

} // verus!
