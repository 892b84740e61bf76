//! The client side: what a user's send turns into on the wire, and how a
//! received message is shown in the feed.

use vstd::prelude::*;
use vstd::string::*;
use vstd::utf8::{decode_utf8, encode_utf8, valid_utf8};
use crate::codec::{frame, ChatMessage};
use crate::session::{COOLDOWN_MS, MAX_MESSAGE_SIZE};

verus! {

/// What `str::trim` leaves of a string.
pub uninterp spec fn trimmed(s: Seq<char>) -> Seq<char>;

/// Relies on `str::trim`: the string without leading and trailing whitespace.
#[verifier::external_body]
fn trim_str(s: &str) -> (r: &str)
    ensures
        r@ == trimmed(s@),
{
    s.trim()
}

/// Relies on `String::from_utf8`: the string that the bytes encode, or
/// nothing when they are not valid UTF-8.
#[verifier::external_body]
fn string_from_utf8(v: Vec<u8>) -> (r: Option<String>)
    ensures
        r.is_some() == valid_utf8(v@),
        r.is_some() ==> r.unwrap()@ == decode_utf8(v@),
{
    String::from_utf8(v).ok()
}

/// The feed line for a message from `name` with `message`, as given.
pub open spec fn line_of(name: Seq<char>, message: Seq<char>) -> Seq<char> {
    name + seq![':', ' '] + message + seq!['\n']
}

/// The UTF-8 bytes of a string.
pub open spec fn utf8_of(s: Seq<char>) -> Seq<u8> {
    encode_utf8(s)
}

/// A message as the client shows it.
pub struct PeereyMessage {
    pub name: String,
    pub message: String,
}

impl From<[String; 2]> for PeereyMessage {
    /// The first string is the sender's name, the second the message.
    fn from(src: [String; 2]) -> (r: PeereyMessage) {
        PeereyMessage { name: src[0].clone(), message: src[1].clone() }
    }
}

impl vstd::std_specs::convert::FromSpecImpl<[String; 2]> for PeereyMessage {
    open spec fn obeys_from_spec() -> bool {
        true
    }

    open spec fn from_spec(src: [String; 2]) -> PeereyMessage {
        PeereyMessage { name: src@[0], message: src@[1] }
    }
}

/// Joins a name and a message into one feed line: `name: message` and a newline.
pub fn format_line(name: &str, message: &str) -> (r: String)
    ensures
        r@ == line_of(name@, message@),
{
    let mut out = String::from_str(name);
    proof {
        reveal_strlit(": ");
        reveal_strlit("\n");
    }
    out.append(": ");
    out.append(message);
    out.append("\n");
    out
}

impl PeereyMessage {
    /// The message that a received frame carries, or `None` when its name or
    /// body is not valid UTF-8.
    pub fn from_frame(m: ChatMessage) -> (r: Option<PeereyMessage>)
        ensures
            r.is_some() == (valid_utf8(m.name@) && valid_utf8(m.body@)),
            r.is_some() ==> r.unwrap().name@ == decode_utf8(m.name@) && r.unwrap().message@
                == decode_utf8(m.body@),
    {
        let ChatMessage { name, body } = m;
        let name = match string_from_utf8(name) {
            Some(s) => s,
            None => return None,
        };
        let message = match string_from_utf8(body) {
            Some(s) => s,
            None => return None,
        };
        Some(PeereyMessage { name, message })
    }

    /// The feed line for this message, with surrounding whitespace trimmed off
    /// the name and the message.
    pub fn to_line(&self) -> (r: String)
        ensures
            r@ == line_of(trimmed(self.name@), trimmed(self.message@)),
    {
        format_line(trim_str(self.name.as_str()), trim_str(self.message.as_str()))
    }
}

/// Why a send was refused on the client.
#[derive(PartialEq, Eq, Structural, Clone, Copy, Debug)]
pub enum SendError {
    TooLarge,
    TooSoon,
}

/// Copies the bytes of `s` onto the end of `dst`.
fn push_bytes(dst: &mut Vec<u8>, s: &str)
    ensures
        final(dst)@ == old(dst)@ + utf8_of(s@),
{
    let b = s.as_bytes();
    let ghost start = dst@;
    let mut i: usize = 0;
    while i < b.len()
        invariant
            i <= b@.len(),
            b@ == utf8_of(s@),
            dst@ == start + b@.subrange(0, i as int),
        decreases b@.len() - i,
    {
        dst.push(b[i]);
        assert(b@.subrange(0, i as int + 1) =~= b@.subrange(0, i as int).push(b@[i as int]));
        i = i + 1;
    }
    assert(b@.subrange(0, i as int) =~= b@);
}

/// The client's state: who it speaks as, the feed, the text being typed and
/// when it last sent, in milliseconds.
pub struct ClientState {
    pub name: String,
    pub messages: String,
    pub current_message: String,
    pub last_sent: Option<u64>,
}

impl ClientState {
    /// Whether the cooldown allows a send at `now`.
    pub open spec fn may_send_at(&self, now: u64) -> bool {
        match self.last_sent {
            None => true,
            Some(t) => now >= t + COOLDOWN_MS,
        }
    }

    /// A client speaking as `name` that has sent nothing yet.
    pub fn new(name: String) -> (r: ClientState)
        ensures
            r.name@ == name@,
            r.messages@ == Seq::<char>::empty(),
            r.current_message@ == Seq::<char>::empty(),
            r.last_sent is None,
    {
        ClientState { name, messages: String::new(), current_message: String::new(), last_sent: None }
    }

    /// Sends the text being typed at `now`: returns the frame to write and
    /// clears the text. A text over the size limit, or a send within the
    /// cooldown, is refused and nothing changes.
    pub fn send(&mut self, now: u64) -> (r: Result<Vec<u8>, SendError>)
        ensures
            utf8_of(old(self).current_message@).len() > MAX_MESSAGE_SIZE ==> r == Err::<
                Vec<u8>,
                SendError,
            >(SendError::TooLarge),
            utf8_of(old(self).current_message@).len() <= MAX_MESSAGE_SIZE
                && !old(self).may_send_at(now) ==> r == Err::<Vec<u8>, SendError>(
                SendError::TooSoon,
            ),
            r is Err ==> *final(self) == *old(self),
            utf8_of(old(self).current_message@).len() <= MAX_MESSAGE_SIZE && old(self).may_send_at(
                now,
            ) ==> r is Ok && r->Ok_0@ == frame(
                utf8_of(old(self).name@),
                utf8_of(old(self).current_message@),
            ) && final(self).name == old(self).name && final(self).messages == old(self).messages
                && final(self).current_message@ == Seq::<char>::empty() && final(self).last_sent
                == Some(now),
    {
        if self.current_message.as_str().as_bytes().len() > MAX_MESSAGE_SIZE {
            return Err(SendError::TooLarge);
        }
        let ready = match self.last_sent {
            None => true,
            Some(t) => now >= t && now - t >= COOLDOWN_MS,
        };
        if !ready {
            return Err(SendError::TooSoon);
        }
        let mut out: Vec<u8> = Vec::new();
        push_bytes(&mut out, self.name.as_str());
        out.push(0);
        push_bytes(&mut out, self.current_message.as_str());
        out.push(0);
        assert(out@ =~= frame(utf8_of(self.name@), utf8_of(self.current_message@)));
        self.current_message = String::new();
        self.last_sent = Some(now);
        Ok(out)
    }

    /// Appends a received message to the feed.
    pub fn receive(&mut self, msg: &PeereyMessage)
        ensures
            final(self).messages@ == old(self).messages@ + line_of(
                trimmed(msg.name@),
                trimmed(msg.message@),
            ),
            final(self).name == old(self).name,
            final(self).current_message == old(self).current_message,
            final(self).last_sent == old(self).last_sent,
    {
        let line = msg.to_line();
        self.messages.append(line.as_str());
    }
}

} // verus!
