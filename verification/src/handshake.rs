//! The key-exchange handshake: a sender device leaves a pending offer for a
//! recipient device; the recipient lists its offers and confirms one, which
//! materialises the session row and the canonical conversation, and
//! consumes the offer — all in one transition, so no partial confirmation
//! is ever observable.

use vstd::prelude::*;

use crate::errors::{ConfirmError, CreateSessionError};
use crate::models::{
    AuthenticatedDevice, Chat, ConfirmSessionBody, CreateSessionBody, PendingSession, Session,
    SessionInit, SpecChat, SpecOffer, SpecSession, SpecSessionInit,
};
use crate::store::{
    chat_id_exists, find_device_by_id_at, lemma_find_device_by_id_some, RelayState, SpecState,
};

verus! {

// ---------------------------------------------------------------------------
// Spec-level lookups
// ---------------------------------------------------------------------------

/// First offer with this id addressed to this recipient device.
pub open spec fn find_offer_at(offers: Seq<SpecOffer>, id: u64, recipient: u64, i: int) -> Option<
    int,
>
    decreases offers.len() - i,
{
    if i < 0 || i >= offers.len() {
        None
    } else if offers[i].id == id && offers[i].recipient_device_id == recipient {
        Some(i)
    } else {
        find_offer_at(offers, id, recipient, i + 1)
    }
}

/// First offer with this id, whoever it is addressed to.
pub open spec fn find_offer_by_id_at(offers: Seq<SpecOffer>, id: u64, i: int) -> Option<int>
    decreases offers.len() - i,
{
    if i < 0 || i >= offers.len() {
        None
    } else if offers[i].id == id {
        Some(i)
    } else {
        find_offer_by_id_at(offers, id, i + 1)
    }
}

/// Whether an offer repeats this natural key: same sender, same recipient,
/// and the same payload fields.
pub open spec fn offer_matches(
    o: SpecOffer,
    sender: u64,
    recipient: u64,
    init: SpecSessionInit,
) -> bool {
    &&& o.sender_device_id == sender
    &&& o.recipient_device_id == recipient
    &&& o.ephemeral_pubkey == init.ephemeral_pubkey
    &&& o.sender_prekey_pub == init.sender_prekey_pub
    &&& o.otpk_used == init.otpk_used
    &&& o.ciphertext == init.ciphertext
}

/// First offer that duplicates this natural key.
pub open spec fn find_dup_offer_at(
    offers: Seq<SpecOffer>,
    sender: u64,
    recipient: u64,
    init: SpecSessionInit,
    i: int,
) -> Option<int>
    decreases offers.len() - i,
{
    if i < 0 || i >= offers.len() {
        None
    } else if offer_matches(offers[i], sender, recipient, init) {
        Some(i)
    } else {
        find_dup_offer_at(offers, sender, recipient, init, i + 1)
    }
}

/// The offers addressed to one device, in stored (insertion) order.
pub open spec fn offers_for_recipient(offers: Seq<SpecOffer>, device: u64) -> Seq<SpecOffer>
    decreases offers.len(),
{
    if offers.len() == 0 {
        Seq::empty()
    } else {
        let init = offers_for_recipient(offers.drop_last(), device);
        if offers.last().recipient_device_id == device {
            init.push(offers.last())
        } else {
            init
        }
    }
}

/// First chat holding exactly this canonical user pair.
pub open spec fn find_chat_by_pair_at(chats: Seq<SpecChat>, ua: u64, ub: u64, i: int) -> Option<
    int,
>
    decreases chats.len() - i,
{
    if i < 0 || i >= chats.len() {
        None
    } else if chats[i].user_a == ua && chats[i].user_b == ub {
        Some(i)
    } else {
        find_chat_by_pair_at(chats, ua, ub, i + 1)
    }
}

/// First session keyed by this ordered device pair.
pub open spec fn find_session_by_pair_at(
    sessions: Seq<SpecSession>,
    sender: u64,
    receiver: u64,
    i: int,
) -> Option<int>
    decreases sessions.len() - i,
{
    if i < 0 || i >= sessions.len() {
        None
    } else if sessions[i].sender_device_id == sender && sessions[i].receiver_device_id
        == receiver {
        Some(i)
    } else {
        find_session_by_pair_at(sessions, sender, receiver, i + 1)
    }
}

/// The canonical form of an unordered user pair: smaller id first.
pub open spec fn canonical_pair(u1: u64, u2: u64) -> (u64, u64) {
    if u1 <= u2 {
        (u1, u2)
    } else {
        (u2, u1)
    }
}

// ---------------------------------------------------------------------------
// Spec-level transitions
// ---------------------------------------------------------------------------

/// Enqueue one offer; a duplicate of the natural key leaves the store
/// untouched.
pub open spec fn offer_create_spec(
    s: SpecState,
    sender: u64,
    recipient: u64,
    init: SpecSessionInit,
    now: i64,
) -> SpecState {
    if find_dup_offer_at(s.offers, sender, recipient, init, 0) is Some {
        s
    } else {
        SpecState {
            offers: s.offers.push(
                SpecOffer {
                    id: s.next_id,
                    sender_device_id: sender,
                    recipient_device_id: recipient,
                    ephemeral_pubkey: init.ephemeral_pubkey,
                    sender_prekey_pub: init.sender_prekey_pub,
                    otpk_used: init.otpk_used,
                    ciphertext: init.ciphertext,
                    created_at: Some(now),
                },
            ),
            next_id: (s.next_id + 1) as u64,
            ..s
        }
    }
}

/// Enqueue a batch of offers for one sender, first to last.
pub open spec fn offers_create_all_spec(
    s: SpecState,
    sender: u64,
    inits: Seq<SpecSessionInit>,
    now: i64,
) -> SpecState
    decreases inits.len(),
{
    if inits.len() == 0 {
        s
    } else {
        let prev = offers_create_all_spec(s, sender, inits.drop_last(), now);
        let last = inits.last();
        offer_create_spec(prev, sender, last.recipient_device_id, last, now)
    }
}

/// Resolve the two devices to their owning users and look the canonical
/// conversation up, creating it if it is not there yet.
pub open spec fn chat_get_or_create_spec(s: SpecState, sd: u64, rd: u64, now: i64) -> (
    SpecState,
    Result<u64, ConfirmError>,
) {
    match (find_device_by_id_at(s.devices, sd, 0), find_device_by_id_at(s.devices, rd, 0)) {
        (Some(si), Some(ri)) => {
            let pair = canonical_pair(s.devices[si].user_id, s.devices[ri].user_id);
            match find_chat_by_pair_at(s.chats, pair.0, pair.1, 0) {
                Some(ci) => (s, Ok(s.chats[ci].id)),
                None => (
                    SpecState {
                        chats: s.chats.push(
                            SpecChat {
                                id: s.next_id,
                                user_a: pair.0,
                                user_b: pair.1,
                                name: None,
                                last_message_id: None,
                                created_at: now,
                                updated_at: now,
                            },
                        ),
                        next_id: (s.next_id + 1) as u64,
                        ..s
                    },
                    Ok(s.next_id),
                ),
            }
        },
        _ => (s, Err(ConfirmError::DeviceNotFound)),
    }
}

/// Insert the session row for this device pair, or only refresh its update
/// time when it is already there — the ratchet fields the caller keeps are
/// never overwritten here.
pub open spec fn session_upsert_spec(
    s: SpecState,
    chat_id: u64,
    sd: u64,
    rd: u64,
    now: i64,
) -> SpecState {
    match find_session_by_pair_at(s.sessions, sd, rd, 0) {
        Some(si) => SpecState {
            sessions: s.sessions.update(
                si,
                SpecSession { updated_at: now, ..s.sessions[si] },
            ),
            ..s
        },
        None => SpecState {
            sessions: s.sessions.push(
                SpecSession {
                    id: s.next_id,
                    chat_id: chat_id,
                    sender_device_id: sd,
                    receiver_device_id: rd,
                    created_at: now,
                    updated_at: now,
                },
            ),
            next_id: (s.next_id + 1) as u64,
            ..s
        },
    }
}

/// Delete the offer with this id, when it is there.
pub open spec fn offer_delete_spec(s: SpecState, id: u64) -> SpecState {
    match find_offer_by_id_at(s.offers, id, 0) {
        Some(i) => SpecState { offers: s.offers.remove(i), ..s },
        None => s,
    }
}

/// The whole confirmation: check the offer is addressed to the caller,
/// resolve or create the canonical conversation, upsert the session, and
/// consume the offer.
pub open spec fn confirm_spec(
    s: SpecState,
    caller: u64,
    pending_id: u64,
    sd: u64,
    rd: u64,
    now: i64,
) -> (SpecState, Result<u64, ConfirmError>) {
    if find_offer_at(s.offers, pending_id, caller, 0) is None {
        (s, Err(ConfirmError::OfferNotFound))
    } else {
        let step = chat_get_or_create_spec(s, sd, rd, now);
        match step.1 {
            Err(e) => (step.0, Err(e)),
            Ok(chat_id) => {
                let s2 = session_upsert_spec(step.0, chat_id, sd, rd, now);
                let s3 = offer_delete_spec(s2, pending_id);
                (s3, Ok(chat_id))
            },
        }
    }
}

// ---------------------------------------------------------------------------
// Operations
// ---------------------------------------------------------------------------

impl PendingSession {
    /// A field-for-field copy of the row.
    pub fn duplicate(&self) -> (r: PendingSession)
        ensures
            r@ == self@,
    {
        PendingSession {
            id: self.id,
            sender_device_id: self.sender_device_id,
            recipient_device_id: self.recipient_device_id,
            ephemeral_pubkey: self.ephemeral_pubkey.clone(),
            sender_prekey_pub: self.sender_prekey_pub.clone(),
            otpk_used: self.otpk_used.clone(),
            ciphertext: self.ciphertext.clone(),
            created_at: self.created_at,
        }
    }
}

impl RelayState {
    /// Enqueue one handshake offer; re-submitting an identical offer is a
    /// silent no-op, as the store's on-conflict clause makes it.
    pub fn create_pending_session(
        &mut self,
        sender_device_id: u64,
        recipient_device_id: u64,
        init: &SessionInit,
        now: i64,
    )
        requires
            old(self)@.wf(),
            old(self)@.next_id < u64::MAX,
        ensures
            final(self)@.wf(),
            final(self)@ == offer_create_spec(
                old(self)@,
                sender_device_id,
                recipient_device_id,
                init@,
                now,
            ),
            final(self)@.next_id <= old(self)@.next_id + 1,
    {
        let n = self.offers.len();
        let mut i: usize = 0;
        while i < n
            invariant
                0 <= i <= n,
                n == self.offers.len(),
                self@ == old(self)@,
                self@.wf(),
                find_dup_offer_at(self@.offers, sender_device_id, recipient_device_id, init@, 0)
                    == find_dup_offer_at(
                    self@.offers,
                    sender_device_id,
                    recipient_device_id,
                    init@,
                    i as int,
                ),
            decreases n - i,
        {
            let o = &self.offers[i];
            if o.sender_device_id == sender_device_id && o.recipient_device_id
                == recipient_device_id && o.ephemeral_pubkey == init.ephemeral_pubkey
                && o.sender_prekey_pub == init.sender_prekey_pub && o.otpk_used == init.otpk_used
                && o.ciphertext == init.ciphertext {
                return ;
            }
            i += 1;
        }
        let ghost pre = self@;
        let row = PendingSession {
            id: self.next_id,
            sender_device_id: sender_device_id,
            recipient_device_id: recipient_device_id,
            ephemeral_pubkey: init.ephemeral_pubkey.clone(),
            sender_prekey_pub: init.sender_prekey_pub.clone(),
            otpk_used: init.otpk_used.clone(),
            ciphertext: init.ciphertext.clone(),
            created_at: Some(now),
        };
        let ghost rowv = row@;
        self.offers.push(row);
        self.next_id = self.next_id + 1;
        proof {
            assert(self@.offers =~= pre.offers.push(rowv));
            assert(self@ == offer_create_spec(
                pre,
                sender_device_id,
                recipient_device_id,
                init@,
                now,
            ));
            assert(self@.wf()) by {
                assert(forall|k: int|
                    0 <= k < pre.offers.len() ==> self@.offers[k] == pre.offers[k]);
            }
        }
    }

    /// Enqueue a logical batch of offers, one per recipient device, after
    /// refusing a handshake the caller addresses to its own user.
    pub fn create_session(
        &mut self,
        sender: &AuthenticatedDevice,
        body: &CreateSessionBody,
        now: i64,
    ) -> (r: Result<(), CreateSessionError>)
        requires
            old(self)@.wf(),
            old(self)@.next_id + body.sessions_init@.len() < u64::MAX,
        ensures
            final(self)@.wf(),
            match r {
                Ok(()) => {
                    &&& sender.0@.user_id != body.recipient_user_id
                    &&& final(self)@ == offers_create_all_spec(
                        old(self)@,
                        sender.0@.id,
                        body.sessions_init@.map_values(|x: SessionInit| x@),
                        now,
                    )
                },
                Err(CreateSessionError::SelfSession) => {
                    &&& sender.0@.user_id == body.recipient_user_id
                    &&& final(self)@ == old(self)@
                },
            },
    {
        if sender.0.user_id == body.recipient_user_id {
            return Err(CreateSessionError::SelfSession);
        }
        let sender_id = sender.0.id;
        let n = body.sessions_init.len();
        let ghost inits = body.sessions_init@.map_values(|x: SessionInit| x@);
        let mut i: usize = 0;
        while i < n
            invariant
                0 <= i <= n,
                n == body.sessions_init@.len(),
                inits == body.sessions_init@.map_values(|x: SessionInit| x@),
                self@.wf(),
                self@ == offers_create_all_spec(
                    old(self)@,
                    sender_id,
                    inits.subrange(0, i as int),
                    now,
                ),
                self@.next_id <= old(self)@.next_id + i,
                old(self)@.next_id + n < u64::MAX,
                sender_id == sender.0@.id,
            decreases n - i,
        {
            let ghost pre_sub = inits.subrange(0, i as int);
            let ghost ext_sub = inits.subrange(0, i as int + 1);
            proof {
                assert(ext_sub.drop_last() =~= pre_sub);
                assert(ext_sub.last() == inits[i as int]);
            }
            let init = &body.sessions_init[i];
            self.create_pending_session(sender_id, init.recipient_device_id, init, now);
            i += 1;
        }
        proof {
            assert(inits.subrange(0, n as int) =~= inits);
        }
        Ok(())
    }

    /// All pending offers addressed to the calling device, in insertion
    /// order; an empty list is an ordinary result.
    pub fn get_pending_sessions(&self, device: &AuthenticatedDevice) -> (r: Vec<PendingSession>)
        ensures
            r@.map_values(|o: PendingSession| o@) == offers_for_recipient(
                self@.offers,
                device.0@.id,
            ),
    {
        let target = device.0.id;
        let n = self.offers.len();
        let mut out: Vec<PendingSession> = Vec::new();
        let mut i: usize = 0;
        while i < n
            invariant
                0 <= i <= n,
                n == self.offers.len(),
                target == device.0@.id,
                out@.map_values(|o: PendingSession| o@) == offers_for_recipient(
                    self@.offers.subrange(0, i as int),
                    target,
                ),
            decreases n - i,
        {
            let ghost pre = self@.offers.subrange(0, i as int);
            let ghost ext = self@.offers.subrange(0, i as int + 1);
            proof {
                assert(ext.drop_last() =~= pre);
                assert(ext.last() == self@.offers[i as int]);
            }
            if self.offers[i].recipient_device_id == target {
                out.push(self.offers[i].duplicate());
            }
            proof {
                assert(out@.map_values(|o: PendingSession| o@) =~= offers_for_recipient(
                    ext,
                    target,
                ));
            }
            i += 1;
        }
        proof {
            assert(self@.offers.subrange(0, n as int) =~= self@.offers);
        }
        out
    }

    /// The offer with this id, scoped to the calling device as recipient:
    /// another device's offer is as good as absent.
    pub fn get_pending_session_by_id(&self, pending_id: u64, recipient_device_id: u64) -> (r:
        Option<PendingSession>)
        ensures
            match r {
                Some(o) => {
                    &&& find_offer_at(self@.offers, pending_id, recipient_device_id, 0) is Some
                    &&& o@ == self@.offers[find_offer_at(
                        self@.offers,
                        pending_id,
                        recipient_device_id,
                        0,
                    )->0]
                },
                None => find_offer_at(self@.offers, pending_id, recipient_device_id, 0) is None,
            },
    {
        let n = self.offers.len();
        let mut i: usize = 0;
        while i < n
            invariant
                0 <= i <= n,
                n == self.offers.len(),
                find_offer_at(self@.offers, pending_id, recipient_device_id, 0) == find_offer_at(
                    self@.offers,
                    pending_id,
                    recipient_device_id,
                    i as int,
                ),
            decreases n - i,
        {
            if self.offers[i].id == pending_id && self.offers[i].recipient_device_id
                == recipient_device_id {
                return Some(self.offers[i].duplicate());
            }
            i += 1;
        }
        None
    }

    /// Resolve both devices to their users and find the canonical direct
    /// conversation, creating it if the pair has none yet.
    pub fn get_or_create_chat_id(&mut self, sender_device_id: u64, receiver_device_id: u64,
        now: i64) -> (r: Result<u64, ConfirmError>)
        requires
            old(self)@.wf(),
            old(self)@.next_id < u64::MAX,
        ensures
            final(self)@.wf(),
            (final(self)@, r) == chat_get_or_create_spec(
                old(self)@,
                sender_device_id,
                receiver_device_id,
                now,
            ),
            final(self)@.next_id <= old(self)@.next_id + 1,
            r is Ok ==> chat_id_exists(final(self)@.chats, r->Ok_0),
            r is Err ==> final(self)@ == old(self)@,
    {
        let sdev = match self.get_device_by_id(sender_device_id) {
            Some(d) => d,
            None => return Err(ConfirmError::DeviceNotFound),
        };
        let rdev = match self.get_device_by_id(receiver_device_id) {
            Some(d) => d,
            None => return Err(ConfirmError::DeviceNotFound),
        };
        proof {
            lemma_find_device_by_id_some(self@.devices, sender_device_id, 0);
            lemma_find_device_by_id_some(self@.devices, receiver_device_id, 0);
        }
        let ua: u64 = if sdev.user_id <= rdev.user_id {
            sdev.user_id
        } else {
            rdev.user_id
        };
        let ub: u64 = if sdev.user_id <= rdev.user_id {
            rdev.user_id
        } else {
            sdev.user_id
        };
        let n = self.chats.len();
        let mut i: usize = 0;
        while i < n
            invariant
                0 <= i <= n,
                n == self.chats.len(),
                self@ == old(self)@,
                self@.wf(),
                find_device_by_id_at(self@.devices, sender_device_id, 0) is Some,
                find_device_by_id_at(self@.devices, receiver_device_id, 0) is Some,
                (ua, ub) == canonical_pair(
                    self@.devices[find_device_by_id_at(
                        self@.devices,
                        sender_device_id,
                        0,
                    )->0].user_id,
                    self@.devices[find_device_by_id_at(
                        self@.devices,
                        receiver_device_id,
                        0,
                    )->0].user_id,
                ),
                find_chat_by_pair_at(self@.chats, ua, ub, 0) == find_chat_by_pair_at(
                    self@.chats,
                    ua,
                    ub,
                    i as int,
                ),
            decreases n - i,
        {
            if self.chats[i].user_a == ua && self.chats[i].user_b == ub {
                return Ok(self.chats[i].id);
            }
            i += 1;
        }
        let ghost pre = self@;
        let chat = Chat {
            id: self.next_id,
            user_a: ua,
            user_b: ub,
            name: None,
            last_message_id: None,
            created_at: now,
            updated_at: now,
        };
        let chat_id = chat.id;
        let ghost chatv = chat@;
        self.chats.push(chat);
        self.next_id = self.next_id + 1;
        proof {
            assert(self@.chats =~= pre.chats.push(chatv));
            lemma_find_chat_by_pair_none(pre.chats, ua, ub, 0);
            assert(self@ == chat_get_or_create_spec(
                pre,
                sender_device_id,
                receiver_device_id,
                now,
            ).0);
            assert(self@.wf()) by {
                assert(forall|k: int|
                    0 <= k < pre.chats.len() ==> self@.chats[k] == pre.chats[k]);
                assert(forall|k: int|
                    0 <= k < pre.sessions.len() ==> chat_id_exists(
                        pre.chats,
                        (#[trigger] pre.sessions[k]).chat_id,
                    ) ==> chat_id_exists(self@.chats, pre.sessions[k].chat_id));
            }
            assert(self@.chats.last().id == chat_id);
            assert(chat_id_exists(self@.chats, chat_id));
        }
        Ok(chat_id)
    }

    /// Upsert the session row for this ordered device pair; an existing
    /// row only gets its update time refreshed.
    pub fn insert_or_update_session(
        &mut self,
        chat_id: u64,
        sender_device_id: u64,
        receiver_device_id: u64,
        now: i64,
    )
        requires
            old(self)@.wf(),
            old(self)@.next_id < u64::MAX,
            chat_id_exists(old(self)@.chats, chat_id),
        ensures
            final(self)@.wf(),
            final(self)@ == session_upsert_spec(
                old(self)@,
                chat_id,
                sender_device_id,
                receiver_device_id,
                now,
            ),
            final(self)@.next_id <= old(self)@.next_id + 1,
    {
        let n = self.sessions.len();
        let mut i: usize = 0;
        while i < n
            invariant
                0 <= i <= n,
                n == self.sessions.len(),
                self@ == old(self)@,
                self@.wf(),
                chat_id_exists(self@.chats, chat_id),
                find_session_by_pair_at(self@.sessions, sender_device_id, receiver_device_id, 0)
                    == find_session_by_pair_at(
                    self@.sessions,
                    sender_device_id,
                    receiver_device_id,
                    i as int,
                ),
            decreases n - i,
        {
            if self.sessions[i].sender_device_id == sender_device_id
                && self.sessions[i].receiver_device_id == receiver_device_id {
                let ghost pre = self@;
                let mut row = self.sessions[i];
                row.updated_at = now;
                self.sessions[i] = row;
                proof {
                    assert(self@.sessions =~= pre.sessions.update(
                        i as int,
                        SpecSession { updated_at: now, ..pre.sessions[i as int] },
                    ));
                    assert(self@ == session_upsert_spec(
                        pre,
                        chat_id,
                        sender_device_id,
                        receiver_device_id,
                        now,
                    ));
                    assert(self@.wf()) by {
                        assert(forall|k: int|
                            0 <= k < pre.sessions.len() ==> #[trigger] self@.sessions[k].id
                                == pre.sessions[k].id && self@.sessions[k].sender_device_id
                                == pre.sessions[k].sender_device_id
                                && self@.sessions[k].receiver_device_id
                                == pre.sessions[k].receiver_device_id && self@.sessions[k].chat_id
                                == pre.sessions[k].chat_id);
                    }
                }
                return ;
            }
            i += 1;
        }
        let ghost pre = self@;
        let row = Session {
            id: self.next_id,
            chat_id: chat_id,
            sender_device_id: sender_device_id,
            receiver_device_id: receiver_device_id,
            created_at: now,
            updated_at: now,
        };
        let ghost rowv = row@;
        self.sessions.push(row);
        self.next_id = self.next_id + 1;
        proof {
            assert(self@.sessions =~= pre.sessions.push(rowv));
            lemma_find_session_by_pair_none(pre.sessions, sender_device_id, receiver_device_id, 0);
            assert(self@ == session_upsert_spec(
                pre,
                chat_id,
                sender_device_id,
                receiver_device_id,
                now,
            ));
            assert(self@.wf()) by {
                assert(forall|k: int|
                    0 <= k < pre.sessions.len() ==> self@.sessions[k] == pre.sessions[k]);
                assert(forall|k: int|
                    0 <= k < pre.sessions.len() ==> chat_id_exists(
                        pre.chats,
                        (#[trigger] pre.sessions[k]).chat_id,
                    ) ==> chat_id_exists(self@.chats, pre.sessions[k].chat_id));
            }
        }
    }

    /// Delete the offer with this id; deleting an absent offer is a no-op.
    pub fn delete_pending_session(&mut self, pending_id: u64)
        requires
            old(self)@.wf(),
        ensures
            final(self)@.wf(),
            final(self)@ == offer_delete_spec(old(self)@, pending_id),
            final(self)@.next_id == old(self)@.next_id,
    {
        let n = self.offers.len();
        let mut i: usize = 0;
        while i < n
            invariant
                0 <= i <= n,
                n == self.offers.len(),
                self@ == old(self)@,
                self@.wf(),
                find_offer_by_id_at(self@.offers, pending_id, 0) == find_offer_by_id_at(
                    self@.offers,
                    pending_id,
                    i as int,
                ),
            decreases n - i,
        {
            if self.offers[i].id == pending_id {
                let ghost pre = self@;
                self.offers.remove(i);
                proof {
                    assert(self@.offers =~= pre.offers.remove(i as int));
                    assert(self@ == offer_delete_spec(pre, pending_id));
                    lemma_offers_wf_remove(pre, i as int);
                }
                return ;
            }
            i += 1;
        }
    }

    /// Confirm a handshake: the caller must be the offer's recipient; the
    /// canonical conversation and the session row are materialised and the
    /// offer is consumed, atomically.
    pub fn confirm_session(
        &mut self,
        device: &AuthenticatedDevice,
        body: &ConfirmSessionBody,
        now: i64,
    ) -> (r: Result<u64, ConfirmError>)
        requires
            old(self)@.wf(),
            old(self)@.next_id + 2 < u64::MAX,
        ensures
            final(self)@.wf(),
            (final(self)@, r) == confirm_spec(
                old(self)@,
                device.0@.id,
                body.pending_session_id,
                body.sender_device_id,
                body.receiver_device_id,
                now,
            ),
            r is Err ==> final(self)@ == old(self)@,
    {
        match self.get_pending_session_by_id(body.pending_session_id, device.0.id) {
            Some(_) => (),
            None => {
                return Err(ConfirmError::OfferNotFound);
            },
        }
        let chat_id = match self.get_or_create_chat_id(
            body.sender_device_id,
            body.receiver_device_id,
            now,
        ) {
            Ok(id) => id,
            Err(e) => {
                return Err(e);
            },
        };
        self.insert_or_update_session(
            chat_id,
            body.sender_device_id,
            body.receiver_device_id,
            now,
        );
        self.delete_pending_session(body.pending_session_id);
        Ok(chat_id)
    }
}

// ---------------------------------------------------------------------------
// Laws of the handshake
// ---------------------------------------------------------------------------

/// The canonical form of a user pair ignores the order the two arrive in.
pub proof fn lemma_canonical_pair_symmetric(u1: u64, u2: u64)
    ensures
        canonical_pair(u1, u2) == canonical_pair(u2, u1),
{
}

/// A matching offer makes the duplicate search succeed.
proof fn lemma_find_dup_offer_present(
    offers: Seq<SpecOffer>,
    sender: u64,
    recipient: u64,
    init: SpecSessionInit,
    i: int,
    k: int,
)
    requires
        0 <= i <= k < offers.len(),
        offer_matches(offers[k], sender, recipient, init),
    ensures
        find_dup_offer_at(offers, sender, recipient, init, i) is Some,
    decreases k - i,
{
    if !offer_matches(offers[i], sender, recipient, init) {
        lemma_find_dup_offer_present(offers, sender, recipient, init, i + 1, k);
    }
}

/// Re-submitting an identical offer — same sender, same recipient, same
/// payload — before confirmation is a no-op: no duplicate row appears and
/// nothing fails.
pub proof fn lemma_offer_create_idempotent(
    s: SpecState,
    sender: u64,
    recipient: u64,
    init: SpecSessionInit,
    now: i64,
    now2: i64,
)
    ensures
        offer_create_spec(
            offer_create_spec(s, sender, recipient, init, now),
            sender,
            recipient,
            init,
            now2,
        ) == offer_create_spec(s, sender, recipient, init, now),
{
    let s1 = offer_create_spec(s, sender, recipient, init, now);
    if find_dup_offer_at(s.offers, sender, recipient, init, 0) is None {
        assert(s1.offers.last() == SpecOffer {
            id: s.next_id,
            sender_device_id: sender,
            recipient_device_id: recipient,
            ephemeral_pubkey: init.ephemeral_pubkey,
            sender_prekey_pub: init.sender_prekey_pub,
            otpk_used: init.otpk_used,
            ciphertext: init.ciphertext,
            created_at: Some(now),
        });
        assert(offer_matches(s1.offers[s1.offers.len() - 1], sender, recipient, init));
        lemma_find_dup_offer_present(
            s1.offers,
            sender,
            recipient,
            init,
            0,
            s1.offers.len() - 1,
        );
    }
}

/// A matching chat makes the pair search succeed with its first match.
proof fn lemma_find_chat_by_pair_present(chats: Seq<SpecChat>, ua: u64, ub: u64, i: int, k: int)
    requires
        0 <= i <= k < chats.len(),
        chats[k].user_a == ua && chats[k].user_b == ub,
    ensures
        find_chat_by_pair_at(chats, ua, ub, i) is Some,
    decreases k - i,
{
    if !(chats[i].user_a == ua && chats[i].user_b == ub) {
        lemma_find_chat_by_pair_present(chats, ua, ub, i + 1, k);
    }
}

/// Confirming a handshake from one side and then from the other resolves
/// both to the same conversation row: deriving the chat for the reverse
/// direction reuses what the first direction made, and makes nothing new.
pub proof fn lemma_chat_canonical_pair(s: SpecState, sd: u64, rd: u64, now: i64, now2: i64)
    ensures
        ({
            let step1 = chat_get_or_create_spec(s, sd, rd, now);
            let step2 = chat_get_or_create_spec(step1.0, rd, sd, now2);
            step1.1 is Ok ==> step2 == (step1.0, step1.1)
        }),
{
    let step1 = chat_get_or_create_spec(s, sd, rd, now);
    if step1.1 is Ok {
        let si = find_device_by_id_at(s.devices, sd, 0)->0;
        let ri = find_device_by_id_at(s.devices, rd, 0)->0;
        let pair = canonical_pair(s.devices[si].user_id, s.devices[ri].user_id);
        lemma_canonical_pair_symmetric(s.devices[si].user_id, s.devices[ri].user_id);
        match find_chat_by_pair_at(s.chats, pair.0, pair.1, 0) {
            Some(ci) => {
                assert(step1.0 == s);
            },
            None => {
                let s1 = step1.0;
                assert(s1.devices == s.devices);
                assert(s1.chats.last().user_a == pair.0 && s1.chats.last().user_b == pair.1);
                lemma_find_chat_none_push(s.chats, pair.0, pair.1, s1.chats.last());
                assert(find_chat_by_pair_at(s1.chats, pair.0, pair.1, 0) == Some(
                    s.chats.len() as int,
                ));
                assert(s1.chats[s.chats.len() as int].id == s.next_id);
            },
        }
    }
}

/// Pushing the first chat matching a pair makes the pair search find
/// exactly it.
proof fn lemma_find_chat_none_push(chats: Seq<SpecChat>, ua: u64, ub: u64, c: SpecChat)
    requires
        find_chat_by_pair_at(chats, ua, ub, 0) is None,
        c.user_a == ua && c.user_b == ub,
    ensures
        find_chat_by_pair_at(chats.push(c), ua, ub, 0) == Some(chats.len() as int),
{
    lemma_find_chat_push_step(chats, ua, ub, c, 0);
}

proof fn lemma_find_chat_push_step(chats: Seq<SpecChat>, ua: u64, ub: u64, c: SpecChat, i: int)
    requires
        0 <= i <= chats.len(),
        find_chat_by_pair_at(chats, ua, ub, i) is None,
        c.user_a == ua && c.user_b == ub,
    ensures
        find_chat_by_pair_at(chats.push(c), ua, ub, i) == Some(chats.len() as int),
    decreases chats.len() - i,
{
    let ext = chats.push(c);
    if i < chats.len() {
        assert(ext[i] == chats[i]);
        lemma_find_chat_push_step(chats, ua, ub, c, i + 1);
    } else {
        assert(ext[i] == c);
    }
}

/// A found offer really is at the returned index.
pub proof fn lemma_find_offer_some(offers: Seq<SpecOffer>, id: u64, recipient: u64, i: int)
    requires
        find_offer_at(offers, id, recipient, i) is Some,
    ensures
        ({
            let k = find_offer_at(offers, id, recipient, i)->0;
            i <= k < offers.len() && offers[k].id == id && offers[k].recipient_device_id
                == recipient
        }),
    decreases offers.len() - i,
{
    if 0 <= i < offers.len() && !(offers[i].id == id && offers[i].recipient_device_id
        == recipient) {
        lemma_find_offer_some(offers, id, recipient, i + 1);
    }
}

/// A found offer id really is at the returned index.
pub proof fn lemma_find_offer_by_id_some(offers: Seq<SpecOffer>, id: u64, i: int)
    requires
        find_offer_by_id_at(offers, id, i) is Some,
    ensures
        ({
            let k = find_offer_by_id_at(offers, id, i)->0;
            i <= k < offers.len() && offers[k].id == id
        }),
    decreases offers.len() - i,
{
    if 0 <= i < offers.len() && offers[i].id != id {
        lemma_find_offer_by_id_some(offers, id, i + 1);
    }
}

/// An offer with the id makes the id search succeed.
proof fn lemma_find_offer_by_id_present(offers: Seq<SpecOffer>, id: u64, i: int, k: int)
    requires
        0 <= i <= k < offers.len(),
        offers[k].id == id,
    ensures
        find_offer_by_id_at(offers, id, i) is Some,
    decreases k - i,
{
    if offers[i].id != id {
        lemma_find_offer_by_id_present(offers, id, i + 1, k);
    }
}

/// When no offer carries the id, the scoped search fails too.
proof fn lemma_find_offer_none_of_id(offers: Seq<SpecOffer>, id: u64, recipient: u64, i: int)
    requires
        0 <= i,
        forall|j: int| i <= j < offers.len() ==> (#[trigger] offers[j]).id != id,
    ensures
        find_offer_at(offers, id, recipient, i) is None,
        find_offer_by_id_at(offers, id, i) is None,
    decreases offers.len() - i,
{
    if i < offers.len() {
        lemma_find_offer_none_of_id(offers, id, recipient, i + 1);
    }
}

/// After a successful confirmation the pending offer is gone: it can no
/// longer be retrieved, and a retry of the same confirmation — with any
/// device pair — answers not-found and changes nothing.
pub proof fn lemma_confirm_consumes_offer(
    s: SpecState,
    caller: u64,
    pending_id: u64,
    sd: u64,
    rd: u64,
    now: i64,
    sd2: u64,
    rd2: u64,
    now2: i64,
)
    requires
        s.wf(),
        confirm_spec(s, caller, pending_id, sd, rd, now).1 is Ok,
    ensures
        ({
            let s1 = confirm_spec(s, caller, pending_id, sd, rd, now).0;
            &&& find_offer_by_id_at(s1.offers, pending_id, 0) is None
            &&& find_offer_at(s1.offers, pending_id, caller, 0) is None
            &&& confirm_spec(s1, caller, pending_id, sd2, rd2, now2) == (
                s1,
                Err::<u64, ConfirmError>(ConfirmError::OfferNotFound),
            )
        }),
{
    let found = find_offer_at(s.offers, pending_id, caller, 0);
    lemma_find_offer_some(s.offers, pending_id, caller, 0);
    let step = chat_get_or_create_spec(s, sd, rd, now);
    let chat_id = step.1->Ok_0;
    let s2 = session_upsert_spec(step.0, chat_id, sd, rd, now);
    assert(s2.offers == s.offers);
    lemma_find_offer_by_id_present(s.offers, pending_id, 0, found->0);
    let del = find_offer_by_id_at(s2.offers, pending_id, 0);
    lemma_find_offer_by_id_some(s2.offers, pending_id, 0);
    let s3 = offer_delete_spec(s2, pending_id);
    assert(s3.offers == s.offers.remove(del->0));
    assert forall|j: int| 0 <= j < s3.offers.len() implies (#[trigger] s3.offers[j]).id
        != pending_id by {
        let oj = if j < del->0 {
            j
        } else {
            j + 1
        };
        assert(s3.offers[j] == s.offers[oj]);
    }
    lemma_find_offer_none_of_id(s3.offers, pending_id, caller, 0);
}

/// A failed pair search means no chat holds the pair.
pub proof fn lemma_find_chat_by_pair_none(chats: Seq<SpecChat>, ua: u64, ub: u64, i: int)
    requires
        0 <= i,
        find_chat_by_pair_at(chats, ua, ub, i) is None,
    ensures
        forall|j: int|
            i <= j < chats.len() ==> !((#[trigger] chats[j]).user_a == ua && chats[j].user_b
                == ub),
    decreases chats.len() - i,
{
    if 0 <= i < chats.len() {
        lemma_find_chat_by_pair_none(chats, ua, ub, i + 1);
    }
}

/// A failed pair search means no session holds the pair.
pub proof fn lemma_find_session_by_pair_none(
    sessions: Seq<SpecSession>,
    sd: u64,
    rd: u64,
    i: int,
)
    requires
        0 <= i,
        find_session_by_pair_at(sessions, sd, rd, i) is None,
    ensures
        forall|j: int|
            i <= j < sessions.len() ==> !((#[trigger] sessions[j]).sender_device_id == sd
                && sessions[j].receiver_device_id == rd),
    decreases sessions.len() - i,
{
    if 0 <= i < sessions.len() {
        lemma_find_session_by_pair_none(sessions, sd, rd, i + 1);
    }
}

/// Removing one offer keeps the offer table well formed.
proof fn lemma_offers_wf_remove(s: SpecState, i: int)
    requires
        s.wf(),
        0 <= i < s.offers.len(),
    ensures
        (SpecState { offers: s.offers.remove(i), ..s }).wf(),
{
    let post = s.offers.remove(i);
    assert forall|a: int, b: int|
        #![trigger post[a], post[b]]
        0 <= a < b < post.len() implies post[a].id != post[b].id by {
        let oa = if a < i {
            a
        } else {
            a + 1
        };
        let ob = if b < i {
            b
        } else {
            b + 1
        };
        assert(post[a] == s.offers[oa]);
        assert(post[b] == s.offers[ob]);
    }
    assert forall|a: int| 0 <= a < post.len() implies (#[trigger] post[a]).id < s.next_id by {
        let oa = if a < i {
            a
        } else {
            a + 1
        };
        assert(post[a] == s.offers[oa]);
    }
}

} // verus!
