//! NUL-delimited framing: each frame is the sender's name, a zero byte, the
//! message body and a zero byte.

use vstd::prelude::*;
use bytes::BytesMut;

verus! {

/// No byte of `s` is zero.
pub open spec fn zero_free(s: Seq<u8>) -> bool {
    forall|i: int| 0 <= i < s.len() ==> s[i] != 0
}

/// The bytes of one frame carrying `name` and `body`.
pub open spec fn frame(name: Seq<u8>, body: Seq<u8>) -> Seq<u8> {
    name + seq![0u8] + body + seq![0u8]
}

/// `s` is a frame carrying `name` and `body`, followed by the bytes `rest`.
pub open spec fn splits_as(s: Seq<u8>, name: Seq<u8>, body: Seq<u8>, rest: Seq<u8>) -> bool {
    zero_free(name) && zero_free(body) && s == frame(name, body) + rest
}

/// `s` begins with a complete frame.
pub open spec fn has_frame(s: Seq<u8>) -> bool {
    exists|name: Seq<u8>, body: Seq<u8>, rest: Seq<u8>| #[trigger] splits_as(s, name, body, rest)
}

/// What decoding `s` yields: the name, the body and the bytes left over, or
/// nothing while no complete frame has arrived.
pub open spec fn decoded(s: Seq<u8>) -> Option<(Seq<u8>, Seq<u8>, Seq<u8>)> {
    if has_frame(s) {
        Some(choose|t: (Seq<u8>, Seq<u8>, Seq<u8>)| splits_as(s, t.0, t.1, t.2))
    } else {
        None
    }
}

/// A buffer splits into a leading frame and the rest in at most one way.
pub proof fn lemma_split_unique(
    s: Seq<u8>,
    n1: Seq<u8>,
    b1: Seq<u8>,
    r1: Seq<u8>,
    n2: Seq<u8>,
    b2: Seq<u8>,
    r2: Seq<u8>,
)
    requires
        splits_as(s, n1, b1, r1),
        splits_as(s, n2, b2, r2),
    ensures
        n1 == n2,
        b1 == b2,
        r1 == r2,
{
    assert(s[n1.len() as int] == 0);
    assert(s[n2.len() as int] == 0);
    if n1.len() < n2.len() {
        assert(s[n1.len() as int] == n2[n1.len() as int]);
    }
    if n2.len() < n1.len() {
        assert(s[n2.len() as int] == n1[n2.len() as int]);
    }
    assert(n1.len() == n2.len());
    assert(n1 =~= s.subrange(0, n1.len() as int));
    assert(n2 =~= s.subrange(0, n2.len() as int));
    let k: int = n1.len() as int + 1;
    assert(s[k + b1.len()] == 0);
    assert(s[k + b2.len()] == 0);
    if b1.len() < b2.len() {
        assert(s[k + b1.len()] == b2[b1.len() as int]);
    }
    if b2.len() < b1.len() {
        assert(s[k + b2.len()] == b1[b2.len() as int]);
    }
    assert(b1.len() == b2.len());
    assert(b1 =~= s.subrange(k, k + b1.len()));
    assert(b2 =~= s.subrange(k, k + b2.len()));
    assert(r1 =~= s.subrange(k + b1.len() + 1, s.len() as int));
    assert(r2 =~= s.subrange(k + b2.len() + 1, s.len() as int));
}

/// Decoding a buffer that splits as a frame and a rest yields exactly that split.
pub proof fn lemma_decoded_of_split(s: Seq<u8>, name: Seq<u8>, body: Seq<u8>, rest: Seq<u8>)
    requires
        splits_as(s, name, body, rest),
    ensures
        decoded(s) == Some((name, body, rest)),
{
    assert(has_frame(s));
    let t = choose|t: (Seq<u8>, Seq<u8>, Seq<u8>)| splits_as(s, t.0, t.1, t.2);
    assert(splits_as(s, (name, body, rest).0, (name, body, rest).1, (name, body, rest).2));
    lemma_split_unique(s, name, body, rest, t.0, t.1, t.2);
}

/// Encoding then decoding gives back the name and body, and leaves whatever
/// followed the frame, for every name and body without a zero byte.
pub proof fn lemma_round_trip(name: Seq<u8>, body: Seq<u8>, rest: Seq<u8>)
    requires
        zero_free(name),
        zero_free(body),
    ensures
        decoded(frame(name, body) + rest) == Some((name, body, rest)),
{
    lemma_decoded_of_split(frame(name, body) + rest, name, body, rest);
}

/// One message as it travels between a client and the server. The name is
/// asserted by the client and never checked.
pub struct ChatMessage {
    pub name: Vec<u8>,
    pub body: Vec<u8>,
}

impl ChatMessage {
    /// Neither field holds a zero byte, so the message can be framed.
    pub open spec fn wf(&self) -> bool {
        zero_free(self.name@) && zero_free(self.body@)
    }

    /// A message from `name` with `body`, or `None` where either holds a zero byte.
    pub fn new(name: Vec<u8>, body: Vec<u8>) -> (r: Option<ChatMessage>)
        ensures
            r.is_some() == (zero_free(name@) && zero_free(body@)),
            r.is_some() ==> r.unwrap().name@ == name@ && r.unwrap().body@ == body@,
    {
        if has_zero(&name) || has_zero(&body) {
            None
        } else {
            Some(ChatMessage { name, body })
        }
    }

    /// A copy of this message with the same bytes.
    pub fn duplicate(&self) -> (r: ChatMessage)
        ensures
            r.name@ == self.name@,
            r.body@ == self.body@,
    {
        ChatMessage { name: self.name.clone(), body: self.body.clone() }
    }
}

/// Whether some byte of `v` is zero.
pub fn has_zero(v: &Vec<u8>) -> (r: bool)
    ensures
        r == !zero_free(v@),
{
    let mut i: usize = 0;
    while i < v.len()
        invariant
            i <= v.len(),
            zero_free(v@.subrange(0, i as int)),
        decreases v.len() - i,
    {
        if v[i] == 0 {
            return true;
        }
        assert(v@.subrange(0, i as int + 1) =~= v@.subrange(0, i as int).push(v@[i as int]));
        i = i + 1;
    }
    assert(v@.subrange(0, i as int) =~= v@);
    false
}

#[verifier::external_type_specification]
#[verifier::external_body]
pub struct ExBytesMut(bytes::BytesMut);

/// The bytes that a buffer holds, in order.
pub uninterp spec fn buffer_bytes(b: BytesMut) -> Seq<u8>;

/// Relies on `BytesMut::len`: the number of bytes held.
#[verifier::external_body]
fn buf_len(b: &BytesMut) -> (r: usize)
    ensures
        r == buffer_bytes(*b).len(),
{
    b.len()
}

/// Relies on indexing a `BytesMut` through its `Deref` to `[u8]`: the byte at `i`.
#[verifier::external_body]
fn buf_byte(b: &BytesMut, i: usize) -> (r: u8)
    requires
        i < buffer_bytes(*b).len(),
    ensures
        r == buffer_bytes(*b)[i as int],
{
    b[i]
}

/// Relies on `BytesMut::split_to`: hands back the first `at` bytes and keeps
/// the rest; it panics when `at` exceeds the length.
#[verifier::external_body]
fn buf_split_to(b: &mut BytesMut, at: usize) -> (r: BytesMut)
    requires
        at <= buffer_bytes(*old(b)).len(),
    ensures
        buffer_bytes(r) == buffer_bytes(*old(b)).subrange(0, at as int),
        buffer_bytes(*final(b)) == buffer_bytes(*old(b)).subrange(
            at as int,
            buffer_bytes(*old(b)).len() as int,
        ),
{
    b.split_to(at)
}

/// Relies on `to_vec` of the `[u8]` that a `BytesMut` derefs to: a copy of its bytes.
#[verifier::external_body]
fn buf_to_vec(b: &BytesMut) -> (r: Vec<u8>)
    ensures
        r@ == buffer_bytes(*b),
{
    b.to_vec()
}

/// Relies on `BytesMut::extend_from_slice`: appends the bytes of `s`, growing
/// the buffer first where it must.
#[verifier::external_body]
fn buf_extend(b: &mut BytesMut, s: &[u8])
    requires
        buffer_bytes(*old(b)).len() + s@.len() <= isize::MAX,
    ensures
        buffer_bytes(*final(b)) == buffer_bytes(*old(b)) + s@,
{
    b.extend_from_slice(s)
}

/// The position of the first zero byte of `b` at or after `from`, if any.
fn find_zero(b: &BytesMut, from: usize) -> (r: Option<usize>)
    requires
        from <= buffer_bytes(*b).len(),
    ensures
        match r {
            Some(i) => from <= i < buffer_bytes(*b).len() && buffer_bytes(*b)[i as int] == 0
                && forall|k: int| from <= k < i ==> buffer_bytes(*b)[k] != 0,
            None => forall|k: int| from <= k < buffer_bytes(*b).len() ==> buffer_bytes(*b)[k] != 0,
        },
{
    let n = buf_len(b);
    let mut i: usize = from;
    while i < n
        invariant
            n == buffer_bytes(*b).len(),
            from <= i <= n,
            forall|k: int| from <= k < i ==> buffer_bytes(*b)[k] != 0,
        decreases n - i,
    {
        if buf_byte(b, i) == 0 {
            return Some(i);
        }
        i = i + 1;
    }
    None
}

/// The bytes of one frame carrying the message's name and body.
pub fn frame_bytes(msg: &ChatMessage) -> (r: Vec<u8>)
    ensures
        r@ == frame(msg.name@, msg.body@),
{
    let mut out: Vec<u8> = Vec::new();
    let mut i: usize = 0;
    while i < msg.name.len()
        invariant
            i <= msg.name.len(),
            out@ == msg.name@.subrange(0, i as int),
        decreases msg.name.len() - i,
    {
        out.push(msg.name[i]);
        assert(msg.name@.subrange(0, i as int + 1) =~= msg.name@.subrange(0, i as int).push(
            msg.name@[i as int],
        ));
        i = i + 1;
    }
    assert(msg.name@.subrange(0, i as int) =~= msg.name@);
    out.push(0);
    let ghost mid = out@;
    let mut j: usize = 0;
    while j < msg.body.len()
        invariant
            j <= msg.body.len(),
            out@ == mid + msg.body@.subrange(0, j as int),
        decreases msg.body.len() - j,
    {
        out.push(msg.body[j]);
        assert(msg.body@.subrange(0, j as int + 1) =~= msg.body@.subrange(0, j as int).push(
            msg.body@[j as int],
        ));
        j = j + 1;
    }
    assert(msg.body@.subrange(0, j as int) =~= msg.body@);
    out.push(0);
    assert(out@ =~= frame(msg.name@, msg.body@));
    out
}

/// The framing codec. It keeps no state between calls: bytes of a frame that
/// has not fully arrived stay in the caller's buffer.
pub struct Codec;

impl Codec {
    /// Appends the frame of `msg` to `dst`.
    pub fn encode(&mut self, msg: &ChatMessage, dst: &mut BytesMut)
        requires
            msg.wf(),
            buffer_bytes(*old(dst)).len() + msg.name@.len() + msg.body@.len() + 2 <= isize::MAX,
        ensures
            buffer_bytes(*final(dst)) == buffer_bytes(*old(dst)) + frame(msg.name@, msg.body@),
    {
        let out = frame_bytes(msg);
        buf_extend(dst, out.as_slice());
    }

    /// Takes the first complete frame off the front of `src`. While no complete
    /// frame has arrived, returns `None` and leaves `src` as it was.
    pub fn decode(&mut self, src: &mut BytesMut) -> (r: Option<ChatMessage>)
        ensures
            r.is_some() == decoded(buffer_bytes(*old(src))).is_some(),
            r.is_some() ==> r.unwrap().wf() && decoded(buffer_bytes(*old(src))) == Some(
                (r.unwrap().name@, r.unwrap().body@, buffer_bytes(*final(src))),
            ),
            r.is_none() ==> buffer_bytes(*final(src)) == buffer_bytes(*old(src)),
    {
        let ghost s = buffer_bytes(*src);
        // Every position in the buffer fits in a usize.
        let _len = buf_len(src);
        let first = find_zero(src, 0);
        let i = match first {
            Some(i) => i,
            None => {
                proof {
                    if has_frame(s) {
                        let (n, b, t) = choose|n: Seq<u8>, b: Seq<u8>, t: Seq<u8>|
                            splits_as(s, n, b, t);
                        assert(s[n.len() as int] == 0);
                    }
                }
                return None;
            },
        };
        let second = find_zero(src, i + 1);
        let j = match second {
            Some(j) => j,
            None => {
                proof {
                    if has_frame(s) {
                        let (n, b, t) = choose|n: Seq<u8>, b: Seq<u8>, t: Seq<u8>|
                            splits_as(s, n, b, t);
                        assert(s[n.len() as int] == 0);
                        if (i as int) < n.len() {
                            assert(s[i as int] == n[i as int]);
                        }
                        assert(s[n.len() + 1 + b.len() as int] == 0);
                    }
                }
                return None;
            },
        };
        let head = buf_split_to(src, j + 1);
        let mut name = buf_to_vec(&head);
        let mut body = name.split_off(i + 1);
        name.pop();
        body.pop();
        proof {
            let rest = buffer_bytes(*src);
            assert(name@ =~= s.subrange(0, i as int));
            assert(body@ =~= s.subrange(i as int + 1, j as int));
            assert(rest =~= s.subrange(j as int + 1, s.len() as int));
            assert forall|k: int| 0 <= k < name@.len() implies name@[k] != 0 by {
                assert(name@[k] == s[k]);
            }
            assert forall|k: int| 0 <= k < body@.len() implies body@[k] != 0 by {
                assert(body@[k] == s[i + 1 + k]);
            }
            assert(s =~= frame(name@, body@) + rest);
            lemma_decoded_of_split(s, name@, body@, rest);
        }
        Some(ChatMessage { name, body })
    }
}

} // verus!
