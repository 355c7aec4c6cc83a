//! The mailbox: a logical message fans out to one stored row per recipient
//! device; a device fetches its pending rows in creation order, and the
//! fetch itself marks them delivered — reading implies acknowledging, so a
//! second fetch returns nothing.

use vstd::prelude::*;

use crate::models::{
    AuthenticatedDevice, Message, MessageView, OutgoingMessage, OutgoingMessagePayload,
    SpecMessage, SpecMessageView, SpecOutgoingMessage, SpecOutgoingMessagePayload,
};
use crate::store::{RelayState, SpecState};

verus! {

// ---------------------------------------------------------------------------
// Spec-level views and transitions
// ---------------------------------------------------------------------------

/// The rows addressed to one device and not yet delivered, in stored
/// (creation) order.
pub open spec fn pending_for_device(messages: Seq<SpecMessage>, device: u64) -> Seq<SpecMessage>
    decreases messages.len(),
{
    if messages.len() == 0 {
        Seq::empty()
    } else {
        let init = pending_for_device(messages.drop_last(), device);
        if messages.last().to_device_id == device && messages.last().delivered_at is None {
            init.push(messages.last())
        } else {
            init
        }
    }
}

/// What a recipient sees of one row.
pub open spec fn view_of_message(m: SpecMessage) -> SpecMessageView {
    SpecMessageView {
        id: m.id,
        logical_msg_id: m.logical_msg_id,
        chat_id: m.chat_id,
        from_user_id: m.from_user_id,
        from_device_id: m.from_device_id,
        header: m.header,
        ciphertext: m.ciphertext,
        created_at: m.created_at,
    }
}

/// The row one payload of a logical message fans out to.
pub open spec fn row_of_payload(
    s: SpecState,
    from_device: u64,
    from_user: u64,
    msg: SpecOutgoingMessage,
    p: SpecOutgoingMessagePayload,
    now: i64,
) -> SpecMessage {
    SpecMessage {
        id: s.next_id,
        logical_msg_id: msg.logical_msg_id,
        chat_id: msg.chat_id,
        from_user_id: from_user,
        from_device_id: from_device,
        to_user_id: msg.to_user_id,
        to_device_id: p.to_device_id,
        header: p.header,
        ciphertext: p.ciphertext,
        delivered_at: None,
        read_at: None,
        created_at: now,
    }
}

/// Fan a logical message out: one appended row per payload, first to last.
pub open spec fn send_spec(
    s: SpecState,
    from_device: u64,
    from_user: u64,
    msg: SpecOutgoingMessage,
    payloads: Seq<SpecOutgoingMessagePayload>,
    now: i64,
) -> SpecState
    decreases payloads.len(),
{
    if payloads.len() == 0 {
        s
    } else {
        let prev = send_spec(s, from_device, from_user, msg, payloads.drop_last(), now);
        SpecState {
            messages: prev.messages.push(
                row_of_payload(prev, from_device, from_user, msg, payloads.last(), now),
            ),
            next_id: (prev.next_id + 1) as u64,
            ..prev
        }
    }
}

/// A row after a fetch by `device`: delivered rows and rows for other
/// devices are untouched.
pub open spec fn mark_one(m: SpecMessage, device: u64, now: i64) -> SpecMessage {
    if m.to_device_id == device && m.delivered_at is None {
        SpecMessage { delivered_at: Some(now), ..m }
    } else {
        m
    }
}

/// The message table with the first `k` rows run through a fetch by
/// `device`.
pub open spec fn mark_upto(messages: Seq<SpecMessage>, device: u64, now: i64, k: int) -> Seq<
    SpecMessage,
> {
    Seq::new(messages.len(), |j: int| if j < k {
        mark_one(messages[j], device, now)
    } else {
        messages[j]
    })
}

/// The message table after a fetch by `device` marked everything it
/// returned as delivered.
pub open spec fn mark_delivered_spec(messages: Seq<SpecMessage>, device: u64, now: i64) -> Seq<
    SpecMessage,
> {
    messages.map_values(|m: SpecMessage| mark_one(m, device, now))
}

// ---------------------------------------------------------------------------
// Operations
// ---------------------------------------------------------------------------

impl Message {
    /// A field-for-field copy of the row.
    pub fn duplicate(&self) -> (r: Message)
        ensures
            r@ == self@,
    {
        Message {
            id: self.id,
            logical_msg_id: self.logical_msg_id.clone(),
            chat_id: self.chat_id,
            from_user_id: self.from_user_id,
            from_device_id: self.from_device_id,
            to_user_id: self.to_user_id,
            to_device_id: self.to_device_id,
            header: self.header.clone(),
            ciphertext: self.ciphertext.clone(),
            delivered_at: self.delivered_at,
            read_at: self.read_at,
            created_at: self.created_at,
        }
    }
}

impl RelayState {
    /// Fan one logical message out to its recipient devices: one row per
    /// payload entry, in payload order.
    pub fn insert_message(
        &mut self,
        from_device_id: u64,
        from_user_id: u64,
        msg: &OutgoingMessage,
        now: i64,
    )
        requires
            old(self)@.wf(),
            old(self)@.next_id + msg.payloads@.len() < u64::MAX,
        ensures
            final(self)@.wf(),
            final(self)@ == send_spec(
                old(self)@,
                from_device_id,
                from_user_id,
                msg@,
                msg@.payloads,
                now,
            ),
    {
        let n = msg.payloads.len();
        let ghost payloads = msg@.payloads;
        let mut i: usize = 0;
        while i < n
            invariant
                0 <= i <= n,
                n == msg.payloads@.len(),
                payloads == msg@.payloads,
                self@.wf(),
                self@ == send_spec(
                    old(self)@,
                    from_device_id,
                    from_user_id,
                    msg@,
                    payloads.subrange(0, i as int),
                    now,
                ),
                self@.next_id <= old(self)@.next_id + i,
                old(self)@.next_id + n < u64::MAX,
            decreases n - i,
        {
            let ghost pre_sub = payloads.subrange(0, i as int);
            let ghost ext_sub = payloads.subrange(0, i as int + 1);
            proof {
                assert(ext_sub.drop_last() =~= pre_sub);
                assert(ext_sub.last() == payloads[i as int]);
            }
            let ghost pre = self@;
            let p = &msg.payloads[i];
            let row = Message {
                id: self.next_id,
                logical_msg_id: msg.logical_msg_id.clone(),
                chat_id: msg.chat_id,
                from_user_id: from_user_id,
                from_device_id: from_device_id,
                to_user_id: msg.to_user_id,
                to_device_id: p.to_device_id,
                header: p.header.clone(),
                ciphertext: p.ciphertext.clone(),
                delivered_at: None,
                read_at: None,
                created_at: now,
            };
            let ghost rowv = row@;
            self.messages.push(row);
            self.next_id = self.next_id + 1;
            proof {
                assert(self@.messages =~= pre.messages.push(rowv));
                assert(rowv == row_of_payload(
                    pre,
                    from_device_id,
                    from_user_id,
                    msg@,
                    payloads[i as int],
                    now,
                ));
                assert(self@ == send_spec(
                    old(self)@,
                    from_device_id,
                    from_user_id,
                    msg@,
                    ext_sub,
                    now,
                ));
                assert(self@.wf()) by {
                    assert(forall|k: int|
                        0 <= k < pre.messages.len() ==> self@.messages[k] == pre.messages[k]);
                }
            }
            i += 1;
        }
        proof {
            assert(payloads.subrange(0, n as int) =~= payloads);
        }
    }

    /// Accept a logical message from an authenticated sender device.
    pub fn send_message(
        &mut self,
        device: &AuthenticatedDevice,
        msg: &OutgoingMessage,
        now: i64,
    )
        requires
            old(self)@.wf(),
            old(self)@.next_id + msg.payloads@.len() < u64::MAX,
        ensures
            final(self)@.wf(),
            final(self)@ == send_spec(
                old(self)@,
                device.0@.id,
                device.0@.user_id,
                msg@,
                msg@.payloads,
                now,
            ),
    {
        let from_device_id = device.0.id;
        let from_user_id = device.0.user_id;
        self.insert_message(from_device_id, from_user_id, msg, now);
    }

    /// Return every undelivered row addressed to this device, oldest
    /// first, and mark all of them delivered in the same step. A caller
    /// that crashes after this call has lost those rows: read implies
    /// acknowledge.
    pub fn fetch_pending_messages(&mut self, device: &AuthenticatedDevice, now: i64) -> (r: Vec<
        MessageView,
    >)
        requires
            old(self)@.wf(),
        ensures
            final(self)@.wf(),
            r@.map_values(|v: MessageView| v@) == pending_for_device(
                old(self)@.messages,
                device.0@.id,
            ).map_values(|m: SpecMessage| view_of_message(m)),
            final(self)@ == (SpecState {
                messages: mark_delivered_spec(old(self)@.messages, device.0@.id, now),
                ..old(self)@
            }),
    {
        let target = device.0.id;
        let n = self.messages.len();
        let mut out: Vec<MessageView> = Vec::new();
        let mut i: usize = 0;
        while i < n
            invariant
                0 <= i <= n,
                n == self.messages.len(),
                self@ == old(self)@,
                target == device.0@.id,
                out@.len() == pending_for_device(self@.messages.subrange(0, i as int), target).len(),
                forall|k: int|
                    0 <= k < out@.len() ==> (#[trigger] out@[k])@ == view_of_message(
                        pending_for_device(self@.messages.subrange(0, i as int), target)[k],
                    ),
            decreases n - i,
        {
            let ghost pre = self@.messages.subrange(0, i as int);
            let ghost ext = self@.messages.subrange(0, i as int + 1);
            proof {
                assert(ext.drop_last() =~= pre);
                assert(ext.last() == self@.messages[i as int]);
            }
            let m = &self.messages[i];
            if m.to_device_id == target && m.delivered_at.is_none() {
                out.push(
                    MessageView {
                        id: m.id,
                        logical_msg_id: m.logical_msg_id.clone(),
                        chat_id: m.chat_id,
                        from_user_id: m.from_user_id,
                        from_device_id: m.from_device_id,
                        header: m.header.clone(),
                        ciphertext: m.ciphertext.clone(),
                        created_at: m.created_at,
                    },
                );
            }
            proof {
                assert(pending_for_device(ext, target) == if ext.last().to_device_id == target
                    && ext.last().delivered_at is None {
                    pending_for_device(pre, target).push(ext.last())
                } else {
                    pending_for_device(pre, target)
                });
            }
            i += 1;
        }
        proof {
            assert(self@.messages.subrange(0, n as int) =~= self@.messages);
            assert(out@.map_values(|v: MessageView| v@) =~= pending_for_device(
                self@.messages,
                target,
            ).map_values(|m0: SpecMessage| view_of_message(m0)));
        }
        let mut j: usize = 0;
        while j < n
            invariant
                0 <= j <= n,
                n == self.messages@.len(),
                n == old(self)@.messages.len(),
                target == device.0@.id,
                self@.users == old(self)@.users,
                self@.devices == old(self)@.devices,
                self@.offers == old(self)@.offers,
                self@.chats == old(self)@.chats,
                self@.sessions == old(self)@.sessions,
                self@.used_tokens == old(self)@.used_tokens,
                self@.next_id == old(self)@.next_id,
                forall|k: int|
                    0 <= k < n ==> (#[trigger] self@.messages[k]) == (if k < j {
                        mark_one(old(self)@.messages[k], target, now)
                    } else {
                        old(self)@.messages[k]
                    }),
                old(self)@.wf(),
            decreases n - j,
        {
            let ghost pre = self@;
            let ghost vecpre = self.messages@;
            let needs_mark = self.messages[j].to_device_id == target
                && self.messages[j].delivered_at.is_none();
            if needs_mark {
                let mut row = self.messages[j].duplicate();
                row.delivered_at = Some(now);
                self.messages[j] = row;
            }
            proof {
                assert forall|k: int| 0 <= k < n implies (#[trigger] self@.messages[k]) == (if k
                    < j + 1 {
                    mark_one(old(self)@.messages[k], target, now)
                } else {
                    old(self)@.messages[k]
                }) by {
                    assert(self@.messages[k] == self.messages@[k]@);
                    if k != j {
                        assert(self.messages@[k] == vecpre[k]);
                    }
                    assert(pre.messages[k] == vecpre[k]@);
                    assert(pre.messages[k] == (if k < j {
                        mark_one(old(self)@.messages[k], target, now)
                    } else {
                        old(self)@.messages[k]
                    }));
                }
            }
            j += 1;
        }
        proof {
            assert forall|k: int| 0 <= k < n implies (#[trigger] self@.messages[k])
                == mark_delivered_spec(old(self)@.messages, target, now)[k] by {
                assert(self@.messages[k] == mark_one(old(self)@.messages[k], target, now));
            }
            assert(self@.messages =~= mark_delivered_spec(old(self)@.messages, target, now));
            assert(self@ == (SpecState {
                messages: mark_delivered_spec(old(self)@.messages, target, now),
                ..old(self)@
            }));
            lemma_mark_preserves_wf(old(self)@, target, now);
        }
        out
    }

    /// Fetch the caller's pending rows; the controller-level name for the
    /// fetch-and-acknowledge step.
    pub fn get_pending_messages(&mut self, device: &AuthenticatedDevice, now: i64) -> (r: Vec<
        MessageView,
    >)
        requires
            old(self)@.wf(),
        ensures
            final(self)@.wf(),
            r@.map_values(|v: MessageView| v@) == pending_for_device(
                old(self)@.messages,
                device.0@.id,
            ).map_values(|m: SpecMessage| view_of_message(m)),
            final(self)@ == (SpecState {
                messages: mark_delivered_spec(old(self)@.messages, device.0@.id, now),
                ..old(self)@
            }),
    {
        self.fetch_pending_messages(device, now)
    }
}

// ---------------------------------------------------------------------------
// Laws of the mailbox
// ---------------------------------------------------------------------------

/// Fanning a logical message out adds exactly one row per payload, leaves
/// every earlier row alone, and addresses the k-th new row to the k-th
/// payload's device, undelivered — so each copy is fetchable exactly by
/// its targeted device.
pub proof fn lemma_send_fan_out(
    s: SpecState,
    from_device: u64,
    from_user: u64,
    msg: SpecOutgoingMessage,
    payloads: Seq<SpecOutgoingMessagePayload>,
    now: i64,
)
    ensures
        ({
            let s2 = send_spec(s, from_device, from_user, msg, payloads, now);
            &&& s2.messages.len() == s.messages.len() + payloads.len()
            &&& forall|k: int|
                0 <= k < s.messages.len() ==> (#[trigger] s2.messages[k]) == s.messages[k]
            &&& forall|k: int|
                0 <= k < payloads.len() ==> ({
                    let row = #[trigger] s2.messages[s.messages.len() + k];
                    &&& row.to_device_id == payloads[k].to_device_id
                    &&& row.to_user_id == msg.to_user_id
                    &&& row.header == payloads[k].header
                    &&& row.ciphertext == payloads[k].ciphertext
                    &&& row.logical_msg_id == msg.logical_msg_id
                    &&& row.chat_id == msg.chat_id
                    &&& row.from_device_id == from_device
                    &&& row.from_user_id == from_user
                    &&& row.delivered_at is None
                    &&& row.created_at == now
                })
        }),
    decreases payloads.len(),
{
    if payloads.len() > 0 {
        lemma_send_fan_out(s, from_device, from_user, msg, payloads.drop_last(), now);
        let prev = send_spec(s, from_device, from_user, msg, payloads.drop_last(), now);
        let s2 = send_spec(s, from_device, from_user, msg, payloads, now);
        assert(s2.messages == prev.messages.push(
            row_of_payload(prev, from_device, from_user, msg, payloads.last(), now),
        ));
    }
}

/// What the pending view of a device holds is exactly its undelivered
/// rows: every entry is addressed to the device and undelivered, and every
/// such row appears in it.
pub proof fn lemma_pending_exactly(messages: Seq<SpecMessage>, device: u64)
    ensures
        forall|k: int|
            0 <= k < pending_for_device(messages, device).len() ==> ({
                let row = #[trigger] pending_for_device(messages, device)[k];
                row.to_device_id == device && row.delivered_at is None
            }),
        forall|i: int|
            0 <= i < messages.len() && (#[trigger] messages[i]).to_device_id == device
                && messages[i].delivered_at is None ==> pending_for_device(
                messages,
                device,
            ).contains(messages[i]),
    decreases messages.len(),
{
    if messages.len() > 0 {
        lemma_pending_exactly(messages.drop_last(), device);
        let init = pending_for_device(messages.drop_last(), device);
        let whole = pending_for_device(messages, device);
        assert forall|i: int|
            0 <= i < messages.len() && (#[trigger] messages[i]).to_device_id == device
                && messages[i].delivered_at is None implies whole.contains(messages[i]) by {
            if i < messages.len() - 1 {
                assert(messages.drop_last()[i] == messages[i]);
                assert(init.contains(messages[i]));
                let w = choose|w: int| 0 <= w < init.len() && init[w] == messages[i];
                assert(whole[w] == messages[i]);
            } else {
                assert(whole.last() == messages[i]);
            }
        }
    }
}

/// A second fetch right after a first one finds nothing: the first fetch
/// marked everything it returned as delivered.
pub proof fn lemma_fetch_pending_twice(messages: Seq<SpecMessage>, device: u64, now: i64)
    ensures
        pending_for_device(mark_delivered_spec(messages, device, now), device) == Seq::<
            SpecMessage,
        >::empty(),
    decreases messages.len(),
{
    let marked = mark_delivered_spec(messages, device, now);
    if messages.len() == 0 {
        assert(marked =~= Seq::<SpecMessage>::empty());
    } else {
        lemma_fetch_pending_twice(messages.drop_last(), device, now);
        assert(marked.drop_last() =~= mark_delivered_spec(messages.drop_last(), device, now));
        assert(marked.last() == mark_one(messages.last(), device, now));
        assert(!(marked.last().to_device_id == device && marked.last().delivered_at is None));
        assert(pending_for_device(marked, device) == pending_for_device(
            marked.drop_last(),
            device,
        ));
    }
}

/// Marking rows delivered changes no id, so the table stays well formed.
proof fn lemma_mark_preserves_wf(s: SpecState, device: u64, now: i64)
    requires
        s.wf(),
    ensures
        (SpecState { messages: mark_delivered_spec(s.messages, device, now), ..s }).wf(),
{
    let post = mark_delivered_spec(s.messages, device, now);
    assert(post.len() == s.messages.len());
    assert(forall|k: int|
        0 <= k < s.messages.len() ==> (#[trigger] post[k]).id == s.messages[k].id);
}

} // verus!
