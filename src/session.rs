//! One connection's rules: which incoming messages are forwarded to the
//! registry, and when the session ends.

use vstd::prelude::*;
use crate::codec::ChatMessage;

verus! {

/// Largest body, in bytes, that a session forwards by default.
pub const MAX_MESSAGE_SIZE: usize = 512;

/// Least time, in milliseconds, between two accepted messages of one session by default.
pub const COOLDOWN_MS: u64 = 5000;

/// Why an incoming message was dropped.
#[derive(PartialEq, Eq, Structural, Clone, Copy, Debug)]
pub enum Rejection {
    TooLarge,
    TooSoon,
}

/// What happens on a connection, as the session is told of it.
pub enum Event {
    /// A frame was decoded from the connection at the given time, in milliseconds.
    Received(ChatMessage, u64),
    /// Bytes that do not form a message arrived.
    DecodeFailed,
    /// Reading from the connection failed or reached its end.
    ReadFailed,
    /// The registry delivered a message for this connection.
    Delivered(ChatMessage),
    /// Writing to the connection failed.
    WriteFailed,
    /// The session is being shut down.
    Closed,
}

/// What the session asks to be done in answer to an event.
pub enum Action {
    /// Hand the message to the registry for broadcast.
    Forward(ChatMessage),
    /// The incoming message is dropped without a word to the peer.
    Drop(Rejection),
    /// Write the message to this connection.
    Write(ChatMessage),
    /// Remove this session from the registry and stop both halves.
    Leave,
    /// Nothing to do.
    Continue,
}

/// The state of one connected client on the server.
pub struct ChatSession {
    /// The handle by which the registry knows this session.
    pub id: u64,
    /// Largest body, in bytes, that is forwarded.
    pub max_size: usize,
    /// Least time, in milliseconds, between two accepted messages.
    pub cooldown_ms: u64,
    /// When the last message was accepted; `None` until the first one.
    pub last_accepted: Option<u64>,
    /// Whether the session is still live.
    pub active: bool,
}

impl ChatSession {
    /// Whether the cooldown allows a message at `now`.
    pub open spec fn cooled_down(&self, now: u64) -> bool {
        match self.last_accepted {
            None => true,
            Some(t) => now >= t + self.cooldown_ms,
        }
    }

    /// Whether a message whose body has `len` bytes, arriving at `now`, is forwarded.
    pub open spec fn admits(&self, len: nat, now: u64) -> bool {
        len <= self.max_size && self.cooled_down(now)
    }

    /// An active session with the given limits that has accepted nothing yet.
    pub open spec fn fresh(&self, id: u64, max_size: usize, cooldown_ms: u64) -> bool {
        self.id == id && self.max_size == max_size && self.cooldown_ms == cooldown_ms
            && self.last_accepted is None && self.active
    }

    /// A session with the default limits.
    pub fn new(id: u64) -> (r: ChatSession)
        ensures
            r.fresh(id, MAX_MESSAGE_SIZE, COOLDOWN_MS),
    {
        ChatSession::with_limits(id, MAX_MESSAGE_SIZE, COOLDOWN_MS)
    }

    /// A session with the given size limit and cooldown.
    pub fn with_limits(id: u64, max_size: usize, cooldown_ms: u64) -> (r: ChatSession)
        ensures
            r.fresh(id, max_size, cooldown_ms),
    {
        ChatSession { id, max_size, cooldown_ms, last_accepted: None, active: true }
    }

    /// Validates a message that arrived at `now`. An accepted message sets the
    /// time of the last acceptance to `now`; a rejected one changes nothing.
    pub fn validate(&mut self, msg: &ChatMessage, now: u64) -> (r: Result<(), Rejection>)
        ensures
            r is Ok == old(self).admits(msg.body@.len(), now),
            msg.body@.len() > old(self).max_size ==> r == Err::<(), Rejection>(Rejection::TooLarge),
            msg.body@.len() <= old(self).max_size && !old(self).cooled_down(now) ==> r == Err::<
                (),
                Rejection,
            >(Rejection::TooSoon),
            r is Ok ==> *final(self) == (ChatSession { last_accepted: Some(now), ..*old(self) }),
            r is Err ==> *final(self) == *old(self),
    {
        if msg.body.len() > self.max_size {
            return Err(Rejection::TooLarge);
        }
        let ready = match self.last_accepted {
            None => true,
            Some(t) => now >= t && now - t >= self.cooldown_ms,
        };
        if !ready {
            return Err(Rejection::TooSoon);
        }
        self.last_accepted = Some(now);
        Ok(())
    }

    /// Takes one event and says what is to be done. A read or write failure,
    /// or a shutdown, ends the session and asks for `Leave` exactly once; an
    /// ended session ignores every later event.
    pub fn handle(&mut self, event: Event) -> (r: Action)
        ensures
            !old(self).active ==> r is Continue && *final(self) == *old(self),
            old(self).active ==> match event {
                Event::Received(m, now) => if old(self).admits(m.body@.len(), now) {
                    r is Forward && r->Forward_0 == m && *final(self) == (ChatSession {
                        last_accepted: Some(now),
                        ..*old(self)
                    })
                } else {
                    r is Drop && *final(self) == *old(self)
                },
                Event::DecodeFailed => r is Continue && *final(self) == *old(self),
                Event::Delivered(m) => r is Write && r->Write_0 == m && *final(self) == *old(self),
                _ => r is Leave && *final(self) == (ChatSession { active: false, ..*old(self) }),
            },
    {
        if !self.active {
            return Action::Continue;
        }
        match event {
            Event::Received(m, now) => match self.validate(&m, now) {
                Ok(()) => Action::Forward(m),
                Err(why) => Action::Drop(why),
            },
            Event::DecodeFailed => Action::Continue,
            Event::Delivered(m) => Action::Write(m),
            Event::ReadFailed | Event::WriteFailed | Event::Closed => {
                self.active = false;
                Action::Leave
            },
        }
    }
}

/// A message whose body is longer than the session's size limit is never
/// admitted, whenever it arrives.
pub proof fn lemma_oversized_never_forwarded(s: ChatSession, len: nat, now: u64)
    requires
        len > s.max_size,
    ensures
        !s.admits(len, now),
{
}

/// Once a message has been accepted at `t1`, a second one arriving less than
/// the cooldown later is dropped, whatever its size.
pub proof fn lemma_second_within_cooldown_dropped(
    s: ChatSession,
    len1: nat,
    t1: u64,
    len2: nat,
    t2: u64,
)
    requires
        s.admits(len1, t1),
        t1 <= t2,
        t2 - t1 < s.cooldown_ms,
    ensures
        !(ChatSession { last_accepted: Some(t1), ..s }).admits(len2, t2),
{
}

/// The first message of a session that has accepted nothing is never held
/// back by the cooldown, however long the session has existed.
pub proof fn lemma_first_message_not_rate_limited(s: ChatSession, len: nat, now: u64)
    requires
        s.last_accepted is None,
    ensures
        s.cooled_down(now),
        s.admits(len, now) == (len <= s.max_size),
{
}

} // verus!
