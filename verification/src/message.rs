//! The lifecycle of messages in a queue.
//!
//! A message's status is derived from what is stored for it: the instant
//! until which it is hidden from receives, how many times it was received,
//! and the queue's delivery-attempt cap. A receive claims the oldest
//! available messages, hides them for the visibility timeout, counts the
//! attempt and issues a fresh receipt handle; acknowledgement goes by that
//! handle, so a handle replaced by a later receive acknowledges nothing.

use crate::error::Error;
use crate::numeric::{decimal, u64_to_decimal};
use crate::sqs::limits::MAX_DELAY_SECONDS;
use crate::sqs::types::SqsMessageAttribute;
use base64::Engine;
use crate::text::str_eq;
use vstd::prelude::*;

verus! {

/// The derived status of a message.
#[derive(Debug, Clone, Copy, PartialEq, Eq, Structural)]
pub enum MessageStatus {
    /// Available for receives.
    Pending,
    /// Received and still hidden (in flight).
    Delivered,
    /// Received as many times as the queue allows; never delivered again.
    Failed,
}

/// Whether a delivered message's visibility window is still open at `now`.
pub open spec fn in_flight(delivered_at: Option<u64>, invisible_until: Option<u64>, now: u64) -> bool {
    delivered_at is Some && (invisible_until matches Some(t) && t > now)
}

/// The status of a message delivered at `delivered_at` (if ever), hidden
/// until `invisible_until` (if ever), received `tries` times, in a queue
/// capping attempts at `max_retries`, at the instant `now`: in flight while
/// a delivery's window is open, failed once the attempts are used up,
/// pending otherwise. A delayed message that was never received is pending.
pub open spec fn status_of(
    delivered_at: Option<u64>,
    invisible_until: Option<u64>,
    tries: u64,
    max_retries: u64,
    now: u64,
) -> MessageStatus {
    if in_flight(delivered_at, invisible_until, now) {
        MessageStatus::Delivered
    } else if tries >= max_retries {
        MessageStatus::Failed
    } else {
        MessageStatus::Pending
    }
}

/// The status of a message (see [`status_of`]).
pub fn message_status(
    delivered_at: Option<u64>,
    invisible_until: Option<u64>,
    tries: u64,
    max_retries: u64,
    now: u64,
) -> (r: MessageStatus)
    ensures
        r == status_of(delivered_at, invisible_until, tries, max_retries, now),
{
    if delivered_at.is_some() {
        match invisible_until {
            Some(t) => {
                if t > now {
                    return MessageStatus::Delivered;
                }
            },
            None => {},
        }
    }
    if tries >= max_retries {
        MessageStatus::Failed
    } else {
        MessageStatus::Pending
    }
}

/// A stored message.
#[derive(Debug, Clone)]
pub struct Message {
    pub id: u64,
    pub body: String,
    pub tries: u64,
    pub delivered_at: Option<u64>,
    pub invisible_until: Option<u64>,
    pub receipt_handle: Option<String>,
}

/// A stored message viewed with its texts as character sequences.
pub struct MessageView {
    pub id: u64,
    pub body: Seq<char>,
    pub tries: u64,
    pub delivered_at: Option<u64>,
    pub invisible_until: Option<u64>,
    pub receipt_handle: Option<Seq<char>>,
}

impl View for Message {
    type V = MessageView;

    open spec fn view(&self) -> MessageView {
        MessageView {
            id: self.id,
            body: self.body@,
            tries: self.tries,
            delivered_at: self.delivered_at,
            invisible_until: self.invisible_until,
            receipt_handle: match self.receipt_handle {
                Some(h) => Some(h@),
                None => None,
            },
        }
    }
}

/// Whether a receive at `now` may claim the message: it is not hidden and
/// has attempts left.
pub open spec fn claimable(m: MessageView, max_retries: u64, now: u64) -> bool {
    &&& (m.invisible_until matches Some(t) ==> t <= now)
    &&& m.tries < max_retries
}

/// The number of claimable messages among `ms`.
pub open spec fn count_claimable(ms: Seq<MessageView>, max_retries: u64, now: u64) -> nat
    decreases ms.len(),
{
    if ms.len() == 0 {
        0
    } else {
        count_claimable(ms.drop_last(), max_retries, now) + if claimable(
            ms.last(),
            max_retries,
            now,
        ) {
            1nat
        } else {
            0nat
        }
    }
}

/// Whether a receive at `now` of at most `max` messages claims the message
/// at index `j`: it is claimable and fewer than `max` claimable messages
/// precede it.
pub open spec fn claims(ms: Seq<MessageView>, j: int, max: u64, max_retries: u64, now: u64) -> bool {
    &&& claimable(ms[j], max_retries, now)
    &&& count_claimable(ms.take(j), max_retries, now) < max
}

/// The receipt handle issued to the message `id` by a receive using
/// `token`: the id in decimal, a colon, and the token.
pub open spec fn handle_of(id: u64, token: Seq<char>) -> Seq<char> {
    decimal(id as nat) + seq![':'] + token
}

/// A message as a receive at `now` leaves it: one more attempt, delivered
/// now, hidden for `visibility` seconds, under a fresh handle.
pub open spec fn claimed(m: MessageView, now: u64, visibility: u64, token: Seq<char>) -> MessageView {
    MessageView {
        tries: (m.tries + 1) as u64,
        delivered_at: Some(now),
        invisible_until: Some((now + visibility) as u64),
        receipt_handle: Some(handle_of(m.id, token)),
        ..m
    }
}

/// The messages a receive claims, as it leaves them, in queue order.
pub open spec fn claimed_messages(
    ms: Seq<MessageView>,
    max: u64,
    max_retries: u64,
    now: u64,
    visibility: u64,
    token: Seq<char>,
) -> Seq<MessageView>
    decreases ms.len(),
{
    if ms.len() == 0 {
        seq![]
    } else {
        let rest = claimed_messages(ms.drop_last(), max, max_retries, now, visibility, token);
        if claims(ms, ms.len() - 1, max, max_retries, now) {
            rest.push(claimed(ms.last(), now, visibility, token))
        } else {
            rest
        }
    }
}

/// Until when a message sent at `now` with `delay` seconds of delay is
/// hidden: `now + delay` when the delay is positive, never otherwise.
pub open spec fn deadline_of(delay: u64, now: u64) -> Option<u64> {
    if delay > 0 {
        Some((now + delay) as u64)
    } else {
        None
    }
}

/// Until when a delayed message is hidden (see [`deadline_of`]).
pub fn delay_deadline(delay: u64, now: u64) -> (r: Option<u64>)
    requires
        now + delay <= u64::MAX,
    ensures
        r == deadline_of(delay, now),
{
    if delay > 0 {
        Some(now + delay)
    } else {
        None
    }
}

/// The messages of a queue, in the order they were sent, with ids that
/// increase in that order and stay below the next id to assign.
pub struct MessageQueue {
    messages: Vec<Message>,
    next_id: u64,
    max_retries: u64,
}

/// The abstract state of a queue: its messages in order, the next id, and
/// the delivery-attempt cap.
pub struct QueueState {
    pub messages: Seq<MessageView>,
    pub next_id: u64,
    pub max_retries: u64,
}

/// Messages viewed in order.
pub open spec fn messages_view(v: Seq<Message>) -> Seq<MessageView> {
    v.map_values(|m: Message| m@)
}

/// Ids strictly increase along the queue and stay below `next_id`.
pub open spec fn well_ordered(ms: Seq<MessageView>, next_id: u64) -> bool {
    &&& forall|i: int, j: int| 0 <= i < j < ms.len() ==> ms[i].id < ms[j].id
    &&& forall|i: int| 0 <= i < ms.len() ==> ms[i].id < next_id
}

impl View for MessageQueue {
    type V = QueueState;

    closed spec fn view(&self) -> QueueState {
        QueueState {
            messages: messages_view(self.messages@),
            next_id: self.next_id,
            max_retries: self.max_retries,
        }
    }
}

impl MessageQueue {
    /// The queue's invariant: ids increase in queue order.
    pub closed spec fn wf(&self) -> bool {
        well_ordered(messages_view(self.messages@), self.next_id)
    }

    /// An empty queue capping delivery attempts at `max_retries`.
    pub fn new(max_retries: u64) -> (r: MessageQueue)
        ensures
            r.wf(),
            r@.messages.len() == 0,
            r@.next_id == 1,
            r@.max_retries == max_retries,
    {
        MessageQueue { messages: Vec::new(), next_id: 1, max_retries }
    }

    /// The queue holding `messages` as stored, in order, capping attempts
    /// at `max_retries`: none unless their ids strictly increase and the
    /// last is below `u64::MAX`. The next id follows the last one.
    pub fn from_messages(messages: Vec<Message>, max_retries: u64) -> (r: Option<MessageQueue>)
        ensures
            r is Some <==> (forall|i: int, j: int|
                0 <= i < j < messages@.len() ==> messages@[i].id < messages@[j].id) && (
            messages@.len() > 0 ==> messages@.last().id < u64::MAX),
            r matches Some(q) ==> {
                &&& q.wf()
                &&& q@.messages == messages_view(messages@)
                &&& q@.max_retries == max_retries
            },
    {
        let n = messages.len();
        let mut i: usize = 1;
        while i < n
            invariant
                1 <= i,
                n == messages@.len(),
                n > 0 ==> i <= n,
                forall|a: int, b: int| 0 <= a < b < i && b < n ==> messages@[a].id < messages@[b].id,
            decreases n - i,
        {
            if messages[i - 1].id >= messages[i].id {
                return None;
            }
            proof {
                assert forall|a: int, b: int|
                    0 <= a < b < i + 1 && b < n implies messages@[a].id < messages@[b].id by {
                    if b == i && a < i - 1 {
                        assert(messages@[a].id < messages@[i - 1].id);
                    }
                }
            }
            i += 1;
        }
        let next_id = if n == 0 {
            1
        } else {
            let last = messages[n - 1].id;
            if last == u64::MAX {
                return None;
            }
            last + 1
        };
        let ghost mv = messages_view(messages@);
        proof {
            assert forall|a: int| 0 <= a < mv.len() implies mv[a].id < next_id by {
                if a < n - 1 {
                    assert(messages@[a].id < messages@[n - 1].id);
                }
            }
        }
        Some(MessageQueue { messages, next_id, max_retries })
    }

    /// The number of messages in the queue.
    pub fn len(&self) -> (r: usize)
        ensures
            r == self@.messages.len(),
    {
        self.messages.len()
    }

    /// The message at a position in the queue.
    pub fn get(&self, i: usize) -> (r: &Message)
        requires
            i < self@.messages.len(),
        ensures
            r@ == self@.messages[i as int],
    {
        &self.messages[i]
    }

    /// Appends a message sent at `now`, hidden for `delay` seconds when
    /// `delay` is positive, under the next id; answers that id. A delay
    /// longer than [`MAX_DELAY_SECONDS`] is an invalid parameter and
    /// stores nothing.
    pub fn send(&mut self, body: String, delay: u64, now: u64) -> (r: Result<u64, Error>)
        requires
            old(self).wf(),
            old(self)@.next_id < u64::MAX,
            delay > MAX_DELAY_SECONDS || now + delay <= u64::MAX,
        ensures
            final(self).wf(),
            final(self)@.max_retries == old(self)@.max_retries,
            r is Err <==> delay > MAX_DELAY_SECONDS,
            match r {
                Ok(id) => {
                    &&& id == old(self)@.next_id
                    &&& final(self)@.next_id == id + 1
                    &&& final(self)@.messages == old(self)@.messages.push(
                        MessageView {
                            id,
                            body: body@,
                            tries: 0,
                            delivered_at: None,
                            invisible_until: if delay > 0 {
                                Some((now + delay) as u64)
                            } else {
                                None
                            },
                            receipt_handle: None,
                        },
                    )
                },
                Err(e) => e is InvalidParameter && final(self)@ == old(self)@,
            },
    {
        if delay > MAX_DELAY_SECONDS {
            return Err(
                Error::invalid_parameter(String::from_str("DelaySeconds must not exceed 900 seconds")),
            );
        }
        let id = self.next_id;
        let invisible_until = delay_deadline(delay, now);
        let ghost before = messages_view(self.messages@);
        self.messages.push(
            Message {
                id,
                body,
                tries: 0,
                delivered_at: None,
                invisible_until,
                receipt_handle: None,
            },
        );
        self.next_id = id + 1;
        assert(messages_view(self.messages@) =~= before.push(self.messages@.last()@));
        Ok(id)
    }

    /// Claims, at `now`, up to `max` of the oldest claimable messages (see
    /// [`claims`]): each gets one more attempt, is hidden for `visibility`
    /// seconds and is issued the handle `<id>:<token>`. Answers the claimed
    /// messages in queue order; the other messages are left as they were.
    pub fn receive(&mut self, max: u64, visibility: u64, now: u64, token: &str) -> (r: Vec<Message>)
        requires
            old(self).wf(),
            now + visibility <= u64::MAX,
        ensures
            final(self).wf(),
            final(self)@.next_id == old(self)@.next_id,
            final(self)@.max_retries == old(self)@.max_retries,
            final(self)@.messages.len() == old(self)@.messages.len(),
            forall|j: int|
                0 <= j < old(self)@.messages.len() ==> #[trigger] final(self)@.messages[j] == if claims(
                    old(self)@.messages,
                    j,
                    max,
                    old(self)@.max_retries,
                    now,
                ) {
                    claimed(old(self)@.messages[j], now, visibility, token@)
                } else {
                    old(self)@.messages[j]
                },
            messages_view(r@) == claimed_messages(
                old(self)@.messages,
                max,
                old(self)@.max_retries,
                now,
                visibility,
                token@,
            ),
    {
        let ghost ms = messages_view(self.messages@);
        let ghost nid = self.next_id;
        let mr = self.max_retries;
        let mut out: Vec<Message> = Vec::new();
        let mut count: u64 = 0;
        let mut i: usize = 0;
        while i < self.messages.len()
            invariant
                0 <= i <= self.messages@.len(),
                self.messages@.len() == ms.len(),
                mr == self.max_retries,
                nid == self.next_id,
                now + visibility <= u64::MAX,
                well_ordered(ms, self.next_id),
                count <= max,
                count == (if count_claimable(ms.take(i as int), mr, now) < max {
                    count_claimable(ms.take(i as int), mr, now)
                } else {
                    max as nat
                }),
                forall|j: int|
                    0 <= j < ms.len() ==> #[trigger] messages_view(self.messages@)[j] == if j < i
                        && claims(ms, j, max, mr, now) {
                        claimed(ms[j], now, visibility, token@)
                    } else {
                        ms[j]
                    },
                messages_view(out@) == claimed_messages(
                    ms.take(i as int),
                    max,
                    mr,
                    now,
                    visibility,
                    token@,
                ),
            decreases self.messages@.len() - i,
        {
            let ghost before_msgs = messages_view(self.messages@);
            let ghost before_out = messages_view(out@);
            proof {
                assert(ms.take(i + 1).drop_last() =~= ms.take(i as int));
                assert(ms.take(i + 1).last() == ms[i as int]);
                assert(messages_view(self.messages@)[i as int] == ms[i as int]);
                lemma_claimed_ids_prefix(ms, i as int, max, mr, now);
            }
            let m = &self.messages[i];
            let available = match m.invisible_until {
                Some(t) => t <= now,
                None => true,
            };
            let take = available && m.tries < mr && count < max;
            assert(take == claims(ms, i as int, max, mr, now));
            if take {
                let id = m.id;
                let mut handle = u64_to_decimal(id);
                crate::text::push_char(&mut handle, ':');
                handle.append(token);
                let updated = Message {
                    id,
                    body: m.body.clone(),
                    tries: m.tries + 1,
                    delivered_at: Some(now),
                    invisible_until: Some(now + visibility),
                    receipt_handle: Some(handle),
                };
                let copy = Message {
                    id,
                    body: m.body.clone(),
                    tries: m.tries + 1,
                    delivered_at: Some(now),
                    invisible_until: Some(now + visibility),
                    receipt_handle: updated.receipt_handle.clone(),
                };
                assert(updated.receipt_handle.unwrap()@ == handle_of(id, token@));
                assert(updated.body@ == ms[i as int].body);
                assert(updated@ == claimed(ms[i as int], now, visibility, token@));
                self.messages.set(i, updated);
                out.push(copy);
                count = count + 1;
                proof {
                    assert(messages_view(self.messages@) =~= before_msgs.update(
                        i as int,
                        claimed(ms[i as int], now, visibility, token@),
                    ));
                    assert(messages_view(out@) =~= before_out.push(
                        claimed(ms[i as int], now, visibility, token@),
                    ));
                }
            }
            i += 1;
        }
        proof {
            assert(ms.take(ms.len() as int) =~= ms);
            assert forall|a: int, b: int|
                0 <= a < b < messages_view(self.messages@).len() implies messages_view(
                self.messages@,
            )[a].id < messages_view(self.messages@)[b].id by {
                assert(messages_view(self.messages@)[a].id == ms[a].id);
                assert(messages_view(self.messages@)[b].id == ms[b].id);
            }
            assert forall|a: int| 0 <= a < messages_view(self.messages@).len() implies messages_view(
                self.messages@,
            )[a].id < self.next_id by {
                assert(messages_view(self.messages@)[a].id == ms[a].id);
            }
        }
        out
    }

    /// Acknowledges the message whose current receipt handle is `handle`
    /// by removing it; a handle no message currently holds is not found.
    pub fn delete(&mut self, handle: &str) -> (r: Result<u64, Error>)
        requires
            old(self).wf(),
        ensures
            final(self).wf(),
            final(self)@.next_id == old(self)@.next_id,
            final(self)@.max_retries == old(self)@.max_retries,
            match r {
                Ok(id) => exists|j: int|
                    0 <= j < old(self)@.messages.len() && old(self)@.messages[j].id == id
                        && old(self)@.messages[j].receipt_handle == Some(handle@)
                        && final(self)@.messages == old(self)@.messages.remove(j),
                Err(e) => e is NotFound && final(self)@.messages == old(self)@.messages && forall|
                    j: int,
                |
                    0 <= j < old(self)@.messages.len() ==> (#[trigger] old(
                        self,
                    )@.messages[j]).receipt_handle != Some(handle@),
            },
    {
        let ghost ms = messages_view(self.messages@);
        let ghost nid = self.next_id;
        let ghost mr = self.max_retries;
        let mut i: usize = 0;
        while i < self.messages.len()
            invariant
                0 <= i <= self.messages@.len(),
                ms == messages_view(self.messages@),
                nid == self.next_id,
                mr == self.max_retries,
                nid == old(self).next_id,
                mr == old(self).max_retries,
                ms == messages_view(old(self).messages@),
                well_ordered(ms, self.next_id),
                forall|j: int| 0 <= j < i ==> (#[trigger] ms[j]).receipt_handle != Some(handle@),
            decreases self.messages@.len() - i,
        {
            let matches = match &self.messages[i].receipt_handle {
                Some(h) => str_eq(h.as_str(), handle),
                None => false,
            };
            assert(ms[i as int] == self.messages@[i as int]@);
            if matches {
                let removed = self.messages.remove(i);
                proof {
                    assert(messages_view(self.messages@) =~= ms.remove(i as int));
                    let rest = ms.remove(i as int);
                    assert forall|a: int, b: int| 0 <= a < b < rest.len() implies rest[a].id
                        < rest[b].id by {
                        if a >= i {
                            assert(rest[a] == ms[a + 1]);
                        }
                        if b >= i {
                            assert(rest[b] == ms[b + 1]);
                        }
                    }
                    assert forall|a: int| 0 <= a < rest.len() implies rest[a].id < self.next_id by {
                        if a >= i {
                            assert(rest[a] == ms[a + 1]);
                        }
                    }
                }
                return Ok(removed.id);
            }
            i += 1;
        }
        let mut message = String::from_str("receipt handle invalid or expired: ");
        message.append(handle);
        Err(Error::not_found(message))
    }

    /// Re-stamps, from `now`, the visibility window of the in-flight message
    /// whose current receipt handle is `handle`: it is hidden for `timeout`
    /// more seconds (released at once for 0). A handle no message holds, or
    /// whose window has lapsed, is not found and changes nothing.
    pub fn change_visibility(&mut self, handle: &str, timeout: u64, now: u64) -> (r: Result<
        u64,
        Error,
    >)
        requires
            old(self).wf(),
            now + timeout <= u64::MAX,
        ensures
            final(self).wf(),
            final(self)@.next_id == old(self)@.next_id,
            final(self)@.max_retries == old(self)@.max_retries,
            match r {
                Ok(id) => exists|j: int|
                    0 <= j < old(self)@.messages.len() && old(self)@.messages[j].id == id
                        && old(self)@.messages[j].receipt_handle == Some(handle@) && (old(
                        self,
                    )@.messages[j].invisible_until matches Some(t) && t > now)
                        && final(self)@.messages == old(self)@.messages.update(
                        j,
                        MessageView {
                            invisible_until: Some((now + timeout) as u64),
                            ..old(self)@.messages[j]
                        },
                    ),
                Err(e) => e is NotFound && final(self)@.messages == old(self)@.messages && forall|
                    j: int,
                |
                    0 <= j < old(self)@.messages.len() && (#[trigger] old(
                        self,
                    )@.messages[j]).receipt_handle == Some(handle@) ==> !(
                    old(self)@.messages[j].invisible_until matches Some(t) && t > now),
            },
    {
        let ghost ms = messages_view(self.messages@);
        let ghost nid = self.next_id;
        let ghost mr = self.max_retries;
        let mut i: usize = 0;
        while i < self.messages.len()
            invariant
                0 <= i <= self.messages@.len(),
                ms == messages_view(self.messages@),
                nid == self.next_id,
                mr == self.max_retries,
                nid == old(self).next_id,
                mr == old(self).max_retries,
                ms == messages_view(old(self).messages@),
                well_ordered(ms, self.next_id),
                now + timeout <= u64::MAX,
                forall|j: int|
                    0 <= j < i && (#[trigger] ms[j]).receipt_handle == Some(handle@) ==> !(
                    ms[j].invisible_until matches Some(t) && t > now),
            decreases self.messages@.len() - i,
        {
            assert(ms[i as int] == self.messages@[i as int]@);
            let matches = match &self.messages[i].receipt_handle {
                Some(h) => str_eq(h.as_str(), handle),
                None => false,
            };
            let in_window = match self.messages[i].invisible_until {
                Some(t) => t > now,
                None => false,
            };
            if matches && in_window {
                let m = &self.messages[i];
                let updated = Message {
                    id: m.id,
                    body: m.body.clone(),
                    tries: m.tries,
                    delivered_at: m.delivered_at,
                    invisible_until: Some(now + timeout),
                    receipt_handle: m.receipt_handle.clone(),
                };
                let id = m.id;
                self.messages.set(i, updated);
                proof {
                    assert(messages_view(self.messages@) =~= ms.update(
                        i as int,
                        MessageView { invisible_until: Some((now + timeout) as u64), ..ms[i as int] },
                    ));
                    let now_ms = messages_view(self.messages@);
                    assert forall|a: int, b: int| 0 <= a < b < now_ms.len() implies now_ms[a].id
                        < now_ms[b].id by {
                        assert(now_ms[a].id == ms[a].id && now_ms[b].id == ms[b].id);
                    }
                    assert forall|a: int| 0 <= a < now_ms.len() implies now_ms[a].id
                        < self.next_id by {
                        assert(now_ms[a].id == ms[a].id);
                    }
                }
                return Ok(id);
            }
            i += 1;
        }
        let mut message = String::from_str("message not in flight: ");
        message.append(handle);
        Err(Error::not_found(message))
    }

    /// Makes a message immediately deliverable again by id, clearing its
    /// visibility window and attempt count (its receipt handle is kept).
    pub fn requeue(&mut self, id: u64) -> (r: bool)
        requires
            old(self).wf(),
        ensures
            final(self).wf(),
            final(self)@.next_id == old(self)@.next_id,
            final(self)@.max_retries == old(self)@.max_retries,
            final(self)@.messages.len() == old(self)@.messages.len(),
            r == exists|j: int| 0 <= j < old(self)@.messages.len() && old(self)@.messages[j].id == id,
            forall|j: int|
                0 <= j < old(self)@.messages.len() ==> #[trigger] final(self)@.messages[j] == if old(
                    self,
                )@.messages[j].id == id {
                    MessageView { tries: 0, invisible_until: None, ..old(self)@.messages[j] }
                } else {
                    old(self)@.messages[j]
                },
    {
        let ghost ms = messages_view(self.messages@);
        let ghost nid = self.next_id;
        let ghost mr = self.max_retries;
        let mut i: usize = 0;
        while i < self.messages.len()
            invariant
                0 <= i <= self.messages@.len(),
                ms == messages_view(self.messages@),
                nid == self.next_id,
                mr == self.max_retries,
                nid == old(self).next_id,
                mr == old(self).max_retries,
                ms == messages_view(old(self).messages@),
                well_ordered(ms, self.next_id),
                forall|j: int| 0 <= j < i ==> (#[trigger] ms[j]).id != id,
            decreases self.messages@.len() - i,
        {
            assert(ms[i as int] == self.messages@[i as int]@);
            if self.messages[i].id == id {
                let m = &self.messages[i];
                let updated = Message {
                    id: m.id,
                    body: m.body.clone(),
                    tries: 0,
                    delivered_at: m.delivered_at,
                    invisible_until: None,
                    receipt_handle: m.receipt_handle.clone(),
                };
                self.messages.set(i, updated);
                proof {
                    assert forall|j: int| 0 <= j < ms.len() && j != i implies ms[j].id != id by {}
                    assert(messages_view(self.messages@) =~= ms.update(
                        i as int,
                        MessageView { tries: 0, invisible_until: None, ..ms[i as int] },
                    ));
                }
                return true;
            }
            i += 1;
        }
        assert(messages_view(self.messages@) =~= ms);
        false
    }

    /// An administrator's status change of the message `id`: `Pending`
    /// makes it immediately deliverable with fresh attempts (as
    /// [`MessageQueue::requeue`]), `Failed` uses up its attempts so it is
    /// never delivered again; `Delivered` only results from a receive and is
    /// an invalid parameter. An unknown id is not found. The receipt handle
    /// is kept.
    pub fn set_status(&mut self, id: u64, status: MessageStatus) -> (r: Result<(), Error>)
        requires
            old(self).wf(),
        ensures
            final(self).wf(),
            final(self)@.next_id == old(self)@.next_id,
            final(self)@.max_retries == old(self)@.max_retries,
            final(self)@.messages.len() == old(self)@.messages.len(),
            status == MessageStatus::Delivered ==> (r matches Err(Error::InvalidParameter { .. }))
                && final(self)@ == old(self)@,
            status != MessageStatus::Delivered ==> (r is Ok <==> exists|j: int|
                0 <= j < old(self)@.messages.len() && old(self)@.messages[j].id == id),
            r matches Err(Error::NotFound { .. }) ==> final(self)@ == old(self)@,
            status != MessageStatus::Delivered ==> forall|j: int|
                0 <= j < old(self)@.messages.len() ==> #[trigger] final(self)@.messages[j] == if old(
                    self,
                )@.messages[j].id == id {
                    if status == MessageStatus::Pending {
                        MessageView { tries: 0, invisible_until: None, ..old(self)@.messages[j] }
                    } else {
                        MessageView { tries: old(self)@.max_retries, ..old(self)@.messages[j] }
                    }
                } else {
                    old(self)@.messages[j]
                },
    {
        if status == MessageStatus::Delivered {
            return Err(
                Error::invalid_parameter(
                    String::from_str("a message becomes delivered only through a receive"),
                ),
            );
        }
        let ghost ms = messages_view(self.messages@);
        let ghost nid = self.next_id;
        let mr = self.max_retries;
        let mut i: usize = 0;
        while i < self.messages.len()
            invariant
                0 <= i <= self.messages@.len(),
                ms == messages_view(self.messages@),
                nid == self.next_id,
                mr == self.max_retries,
                nid == old(self).next_id,
                mr == old(self).max_retries,
                ms == messages_view(old(self).messages@),
                well_ordered(ms, self.next_id),
                status != MessageStatus::Delivered,
                forall|j: int| 0 <= j < i ==> (#[trigger] ms[j]).id != id,
            decreases self.messages@.len() - i,
        {
            assert(ms[i as int] == self.messages@[i as int]@);
            if self.messages[i].id == id {
                let m = &self.messages[i];
                let pending = status == MessageStatus::Pending;
                let updated = Message {
                    id: m.id,
                    body: m.body.clone(),
                    tries: if pending {
                        0
                    } else {
                        mr
                    },
                    delivered_at: m.delivered_at,
                    invisible_until: if pending {
                        None
                    } else {
                        m.invisible_until
                    },
                    receipt_handle: m.receipt_handle.clone(),
                };
                let ghost new_view = if pending {
                    MessageView { tries: 0, invisible_until: None, ..ms[i as int] }
                } else {
                    MessageView { tries: mr, ..ms[i as int] }
                };
                assert(updated@ == new_view);
                self.messages.set(i, updated);
                proof {
                    assert forall|j: int| 0 <= j < ms.len() && j != i implies ms[j].id != id by {}
                    assert(messages_view(self.messages@) =~= ms.update(i as int, new_view));
                    let now_ms = messages_view(self.messages@);
                    assert forall|a: int, b: int| 0 <= a < b < now_ms.len() implies now_ms[a].id
                        < now_ms[b].id by {
                        assert(now_ms[a].id == ms[a].id && now_ms[b].id == ms[b].id);
                    }
                    assert forall|a: int| 0 <= a < now_ms.len() implies now_ms[a].id
                        < self.next_id by {
                        assert(now_ms[a].id == ms[a].id);
                    }
                }
                return Ok(());
            }
            i += 1;
        }
        assert(messages_view(self.messages@) =~= ms);
        let mut message = String::from_str("message ");
        message.append(u64_to_decimal(id).as_str());
        Err(Error::not_found(message))
    }
}

/// The claims of a prefix are the claims of the whole queue up to that
/// point.
proof fn lemma_claimed_ids_prefix(ms: Seq<MessageView>, i: int, max: u64, mr: u64, now: u64)
    requires
        0 <= i < ms.len(),
    ensures
        claims(ms.take(i + 1), i, max, mr, now) == claims(ms, i, max, mr, now),
{
    assert(ms.take(i + 1).take(i) =~= ms.take(i));
}

// ---------------------------------------------------------------------------
// Queue statistics
// ---------------------------------------------------------------------------

/// Whether a message counts as failed in the statistics: its window (if
/// any) has lapsed and its attempts are used up.
pub open spec fn exhausted(m: MessageView, max_retries: u64, now: u64) -> bool {
    &&& (m.invisible_until matches Some(t) ==> t <= now)
    &&& m.tries >= max_retries
}

/// The number of messages among `ms` a delivery holds in flight.
pub open spec fn count_in_flight(ms: Seq<MessageView>, now: u64) -> nat
    decreases ms.len(),
{
    if ms.len() == 0 {
        0
    } else {
        count_in_flight(ms.drop_last(), now) + if in_flight(
            ms.last().delivered_at,
            ms.last().invisible_until,
            now,
        ) {
            1nat
        } else {
            0nat
        }
    }
}

/// The number of messages among `ms` that count as failed.
pub open spec fn count_exhausted(ms: Seq<MessageView>, max_retries: u64, now: u64) -> nat
    decreases ms.len(),
{
    if ms.len() == 0 {
        0
    } else {
        count_exhausted(ms.drop_last(), max_retries, now) + if exhausted(
            ms.last(),
            max_retries,
            now,
        ) {
            1nat
        } else {
            0nat
        }
    }
}

/// The failed bucket counts exactly the messages that are not hidden (no
/// window, or one that has lapsed) and whose attempts are used up (at
/// least the queue's cap): appending a message adds one exactly then.
pub proof fn lemma_failed_bucket_counts_used_up_messages(
    ms: Seq<MessageView>,
    m: MessageView,
    max_retries: u64,
    now: u64,
)
    ensures
        count_exhausted(ms.push(m), max_retries, now) == count_exhausted(ms, max_retries, now) + if (
        m.invisible_until is None || m.invisible_until->0 <= now) && m.tries >= max_retries {
            1nat
        } else {
            0nat
        },
{
    assert(ms.push(m).drop_last() =~= ms);
}

/// A message whose status is failed and that is not hidden counts in the
/// failed bucket.
pub proof fn lemma_failed_status_is_counted(m: MessageView, max_retries: u64, now: u64)
    requires
        status_of(m.delivered_at, m.invisible_until, m.tries, max_retries, now)
            == MessageStatus::Failed,
        m.invisible_until is None || m.invisible_until->0 <= now,
    ensures
        exhausted(m, max_retries, now),
        count_exhausted(seq![m], max_retries, now) == 1,
{
    assert(seq![m].drop_last() =~= Seq::<MessageView>::empty());
    reveal_with_fuel(count_exhausted, 2);
}

/// The message counts of a queue at an instant.
#[derive(Debug, Clone, Copy)]
pub struct QueueStatistics {
    /// Every stored message.
    pub message_count: usize,
    /// Messages a receive could claim now.
    pub pending: usize,
    /// Messages a delivery holds in flight.
    pub delivered: usize,
    /// Messages whose window lapsed with their attempts used up.
    pub failed: usize,
}

/// The statistics of a queue's messages at `now`, in a queue capping
/// attempts at `max_retries`: every message, the pending ones (claimable),
/// the ones in flight after a delivery, and the failed ones. A delayed
/// message never received is counted in the total but in no bucket.
pub fn queue_statistics(messages: &Vec<Message>, max_retries: u64, now: u64) -> (r: QueueStatistics)
    ensures
        r.message_count == messages@.len(),
        r.pending == count_claimable(messages_view(messages@), max_retries, now),
        r.delivered == count_in_flight(messages_view(messages@), now),
        r.failed == count_exhausted(messages_view(messages@), max_retries, now),
{
    let ghost ms = messages_view(messages@);
    let mut pending: usize = 0;
    let mut delivered: usize = 0;
    let mut failed: usize = 0;
    let mut i: usize = 0;
    while i < messages.len()
        invariant
            0 <= i <= messages@.len(),
            ms == messages_view(messages@),
            pending == count_claimable(ms.take(i as int), max_retries, now),
            delivered == count_in_flight(ms.take(i as int), now),
            failed == count_exhausted(ms.take(i as int), max_retries, now),
            pending <= i,
            delivered <= i,
            failed <= i,
        decreases messages@.len() - i,
    {
        proof {
            assert(ms.take(i + 1).drop_last() =~= ms.take(i as int));
            assert(ms.take(i + 1).last() == ms[i as int]);
            assert(ms[i as int] == messages@[i as int]@);
        }
        let m = &messages[i];
        let available = match m.invisible_until {
            Some(t) => t <= now,
            None => true,
        };
        let open = m.delivered_at.is_some() && match m.invisible_until {
            Some(t) => t > now,
            None => false,
        };
        if available && m.tries < max_retries {
            pending = pending + 1;
        }
        if open {
            delivered = delivered + 1;
        }
        if available && m.tries >= max_retries {
            failed = failed + 1;
        }
        i += 1;
    }
    assert(ms.take(messages@.len() as int) =~= ms);
    QueueStatistics { message_count: messages.len(), pending, delivered, failed }
}

/// A message counts in at most one bucket of the statistics, and a delayed
/// message never received counts in none.
pub proof fn lemma_statistics_buckets(m: MessageView, max_retries: u64, now: u64)
    ensures
        !(claimable(m, max_retries, now) && in_flight(m.delivered_at, m.invisible_until, now)),
        !(claimable(m, max_retries, now) && exhausted(m, max_retries, now)),
        !(in_flight(m.delivered_at, m.invisible_until, now) && exhausted(m, max_retries, now)),
        m.delivered_at is None && (m.invisible_until matches Some(t) && t > now) ==> !claimable(
            m,
            max_retries,
            now,
        ) && !in_flight(m.delivered_at, m.invisible_until, now) && !exhausted(
            m,
            max_retries,
            now,
        ),
{
}

// ---------------------------------------------------------------------------
// Message details for display
// ---------------------------------------------------------------------------

/// The base64 digit of a value below 64 (standard alphabet).
pub open spec fn base64_digit(v: int) -> char {
    if v < 26 {
        (('A' as int) + v) as char
    } else if v < 52 {
        (('a' as int) + v - 26) as char
    } else if v < 62 {
        (('0' as int) + v - 52) as char
    } else if v == 62 {
        '+'
    } else {
        '/'
    }
}

/// Standard base64 with padding: each group of three bytes becomes four
/// digits; a final group of one or two bytes is padded with `=`.
pub open spec fn base64_standard(b: Seq<u8>) -> Seq<char>
    decreases b.len(),
{
    if b.len() == 0 {
        seq![]
    } else if b.len() == 1 {
        seq![base64_digit((b[0] / 4) as int), base64_digit((b[0] % 4) * 16), '=', '=']
    } else if b.len() == 2 {
        seq![
            base64_digit((b[0] / 4) as int),
            base64_digit((b[0] % 4) * 16 + b[1] / 16),
            base64_digit((b[1] % 16) * 4),
            '=',
        ]
    } else {
        seq![
            base64_digit((b[0] / 4) as int),
            base64_digit((b[0] % 4) * 16 + b[1] / 16),
            base64_digit((b[1] % 16) * 4 + b[2] / 64),
            base64_digit((b[2] % 64) as int),
        ] + base64_standard(b.skip(3))
    }
}

/// `base64::prelude::BASE64_STANDARD.encode`: standard base64 with
/// padding. The output length must fit in memory.
#[verifier::external_body]
fn base64_encode(bytes: &[u8]) -> (r: String)
    requires
        bytes@.len() <= usize::MAX / 2,
    ensures
        r@ == base64_standard(bytes@),
{
    base64::prelude::BASE64_STANDARD.encode(bytes)
}

/// A message attribute as shown to administrators.
#[derive(Debug, Clone)]
pub enum AttributeDetail {
    /// A string attribute's text, or a binary attribute's bytes in base64.
    Text(String),
    /// A number attribute's text, shown as a number.
    Number(String),
}

/// Whether an attribute's base64 rendering fits in memory.
pub open spec fn displayable(attr: SqsMessageAttribute) -> bool {
    attr matches SqsMessageAttribute::Binary { binary_value } ==> binary_value@.len() <= usize::MAX
        / 2
}

/// Whether `d` shows `attr`: strings as text, numbers as numbers, and
/// binary values as base64 text.
pub open spec fn shows(attr: SqsMessageAttribute, d: AttributeDetail) -> bool {
    match attr {
        SqsMessageAttribute::String { string_value } => d matches AttributeDetail::Text(t) && t@
            == string_value@,
        SqsMessageAttribute::Number { string_value } => d matches AttributeDetail::Number(n) && n@
            == string_value@,
        SqsMessageAttribute::Binary { binary_value } => d matches AttributeDetail::Text(t) && t@
            == base64_standard(binary_value@),
    }
}

/// How an attribute is shown (see [`shows`]).
pub fn attribute_detail(attr: SqsMessageAttribute) -> (r: AttributeDetail)
    requires
        displayable(attr),
    ensures
        shows(attr, r),
{
    match attr {
        SqsMessageAttribute::String { string_value } => AttributeDetail::Text(string_value),
        SqsMessageAttribute::Number { string_value } => AttributeDetail::Number(string_value),
        SqsMessageAttribute::Binary { binary_value } => AttributeDetail::Text(
            base64_encode(binary_value.as_slice()),
        ),
    }
}

/// A stored message as shown to administrators.
#[derive(Debug, Clone)]
pub struct MessageDetails {
    pub id: u64,
    pub queue: String,
    pub delivered_at: Option<u64>,
    pub sent_by: Option<u64>,
    pub body: String,
    pub tries: u64,
    pub status: MessageStatus,
    pub message_attributes: Vec<(String, AttributeDetail)>,
}

/// The details of a stored message of `queue` at `now`, in a queue capping
/// attempts at `max_retries`: its fields, its derived status, and each of
/// its attributes as shown (see [`attribute_detail`]), in the given order.
pub fn message_details(
    m: Message,
    queue: String,
    sent_by: Option<u64>,
    max_retries: u64,
    now: u64,
    attributes: Vec<(String, SqsMessageAttribute)>,
) -> (r: MessageDetails)
    requires
        forall|k: int| 0 <= k < attributes@.len() ==> displayable((#[trigger] attributes@[k]).1),
    ensures
        r.id == m.id,
        r.queue@ == queue@,
        r.delivered_at == m.delivered_at,
        r.sent_by == sent_by,
        r.body@ == m.body@,
        r.tries == m.tries,
        r.status == status_of(m.delivered_at, m.invisible_until, m.tries, max_retries, now),
        r.message_attributes@.len() == attributes@.len(),
        forall|k: int|
            0 <= k < attributes@.len() ==> (#[trigger] r.message_attributes@[k]).0@
                == attributes@[k].0@ && shows(attributes@[k].1, r.message_attributes@[k].1),
{
    let status = message_status(m.delivered_at, m.invisible_until, m.tries, max_retries, now);
    let ghost input = attributes@;
    let mut rest = attributes;
    let mut shown: Vec<(String, AttributeDetail)> = Vec::new();
    let ghost n = rest.len();
    let mut done: usize = 0;
    while rest.len() > 0
        invariant
            done + rest.len() == n,
            n == input.len(),
            forall|j: int| 0 <= j < rest.len() ==> #[trigger] rest@[j] == input[done + j],
            forall|k: int| 0 <= k < input.len() ==> displayable((#[trigger] input[k]).1),
            shown@.len() == done,
            forall|k: int|
                0 <= k < done ==> (#[trigger] shown@[k]).0@ == input[k].0@ && shows(
                    input[k].1,
                    shown@[k].1,
                ),
        decreases rest.len(),
    {
        let (name, attr) = rest.remove(0);
        assert(input[done as int] == (name, attr));
        shown.push((name, attribute_detail(attr)));
        done += 1;
    }
    MessageDetails {
        id: m.id,
        queue,
        delivered_at: m.delivered_at,
        sent_by,
        body: m.body,
        tries: m.tries,
        status,
        message_attributes: shown,
    }
}

// ---------------------------------------------------------------------------
// Laws of the lifecycle
// ---------------------------------------------------------------------------

/// A message whose attempts are used up is never claimed again, whatever
/// the time: it shows in flight while a delivery's window is open and
/// failed otherwise.
pub proof fn lemma_exhausted_never_claimable(m: MessageView, max_retries: u64, now: u64)
    requires
        m.tries >= max_retries,
    ensures
        !claimable(m, max_retries, now),
        in_flight(m.delivered_at, m.invisible_until, now) ==> status_of(
            m.delivered_at,
            m.invisible_until,
            m.tries,
            max_retries,
            now,
        ) == MessageStatus::Delivered,
        !in_flight(m.delivered_at, m.invisible_until, now) ==> status_of(
            m.delivered_at,
            m.invisible_until,
            m.tries,
            max_retries,
            now,
        ) == MessageStatus::Failed,
{
}

/// A message sent with a delay and never received is hidden from receives
/// until the delay lapses, yet shows as pending, not in flight.
pub proof fn lemma_delayed_is_pending(m: MessageView, max_retries: u64, now: u64)
    requires
        m.delivered_at is None,
        m.tries == 0,
        max_retries > 0,
        m.invisible_until matches Some(t) && t > now,
    ensures
        !claimable(m, max_retries, now),
        status_of(m.delivered_at, m.invisible_until, m.tries, max_retries, now)
            == MessageStatus::Pending,
{
}

/// A message claimed at `now` with a positive visibility timeout stays
/// hidden, and is reported in flight, until the timeout lapses; it is
/// claimable again afterwards only while attempts remain.
pub proof fn lemma_claimed_is_invisible_until_timeout(
    m: MessageView,
    now: u64,
    visibility: u64,
    token: Seq<char>,
    max_retries: u64,
    t: u64,
)
    requires
        now + visibility <= u64::MAX,
        m.tries < max_retries,
    ensures
        now <= t < now + visibility ==> !claimable(claimed(m, now, visibility, token), max_retries, t),
        now <= t < now + visibility ==> status_of(
            claimed(m, now, visibility, token).delivered_at,
            claimed(m, now, visibility, token).invisible_until,
            claimed(m, now, visibility, token).tries,
            max_retries,
            t,
        ) == MessageStatus::Delivered,
        t >= now + visibility ==> (claimable(claimed(m, now, visibility, token), max_retries, t)
            <==> m.tries + 1 < max_retries),
{
}

/// A receive claims the oldest claimable messages first: a claimable
/// message it leaves unclaimed has at least `max` claimable messages before
/// it, and no message after an unclaimed claimable one is claimed.
pub proof fn lemma_receive_is_fifo(ms: Seq<MessageView>, i: int, j: int, max: u64, mr: u64, now: u64)
    requires
        0 <= i < j < ms.len(),
        claimable(ms[i], mr, now),
        !claims(ms, i, max, mr, now),
    ensures
        !claims(ms, j, max, mr, now),
{
    lemma_count_claimable_monotone(ms, i + 1, j, mr, now);
    assert(ms.take(i + 1).drop_last() =~= ms.take(i));
}

/// Counting claimable messages over a longer prefix counts at least as
/// many.
pub proof fn lemma_count_claimable_monotone(ms: Seq<MessageView>, a: int, b: int, mr: u64, now: u64)
    requires
        0 <= a <= b <= ms.len(),
    ensures
        count_claimable(ms.take(a), mr, now) <= count_claimable(ms.take(b), mr, now),
    decreases b - a,
{
    if a < b {
        lemma_count_claimable_monotone(ms, a, b - 1, mr, now);
        assert(ms.take(b).drop_last() =~= ms.take(b - 1));
    }
}

/// A receive claims as many messages as are claimable, but never more
/// than it asked for.
pub proof fn lemma_receive_claims_at_most_max(
    ms: Seq<MessageView>,
    max: u64,
    mr: u64,
    now: u64,
    visibility: u64,
    token: Seq<char>,
)
    ensures
        claimed_messages(ms, max, mr, now, visibility, token).len() == if count_claimable(
            ms,
            mr,
            now,
        ) < max {
            count_claimable(ms, mr, now)
        } else {
            max as nat
        },
    decreases ms.len(),
{
    if ms.len() > 0 {
        lemma_receive_claims_at_most_max(ms.drop_last(), max, mr, now, visibility, token);
        assert(ms.take(ms.len() - 1) =~= ms.drop_last());
    }
}

/// Once a later receive has issued a message a handle with a different
/// token, the handle of the earlier receive no longer matches it.
pub proof fn lemma_redelivery_replaces_the_handle(
    m: MessageView,
    now: u64,
    visibility: u64,
    token: Seq<char>,
    later: u64,
    later_visibility: u64,
    later_token: Seq<char>,
)
    requires
        token != later_token,
    ensures
        claimed(claimed(m, now, visibility, token), later, later_visibility, later_token).receipt_handle
            != Some(handle_of(m.id, token)),
{
    let a = handle_of(m.id, token);
    let b = handle_of(m.id, later_token);
    let p = decimal(m.id as nat) + seq![':'];
    assert(a =~= p + token);
    assert(b =~= p + later_token);
    if a == b {
        assert(token =~= a.subrange(p.len() as int, a.len() as int));
        assert(later_token =~= b.subrange(p.len() as int, b.len() as int));
    }
}

} // verus!
