//! The registry of live sessions and the fan-out of accepted messages.

use vstd::prelude::*;
use crate::codec::ChatMessage;

verus! {

/// The handles of the sessions that have joined and not yet left, each at most once.
pub struct ChatServer {
    sessions: Vec<u64>,
}

impl View for ChatServer {
    type V = Seq<u64>;

    closed spec fn view(&self) -> Seq<u64> {
        self.sessions@
    }
}

/// The handles to which a list of deliveries goes, in order.
pub open spec fn recipients(d: Seq<(u64, ChatMessage)>) -> Seq<u64> {
    d.map_values(|p: (u64, ChatMessage)| p.0)
}

impl ChatServer {
    /// No handle is listed twice.
    pub open spec fn wf(&self) -> bool {
        self@.no_duplicates()
    }

    /// The set of live handles.
    pub open spec fn live(&self) -> Set<u64> {
        Set::new(|id: u64| self@.contains(id))
    }

    /// A registry with no sessions.
    pub fn new() -> (r: ChatServer)
        ensures
            r.wf(),
            r@ == Seq::<u64>::empty(),
            r.live() == Set::<u64>::empty(),
    {
        let r = ChatServer { sessions: Vec::new() };
        assert(r.live() =~= Set::<u64>::empty());
        r
    }

    /// Whether `id` is live.
    pub fn contains(&self, id: u64) -> (r: bool)
        ensures
            r == self.live().contains(id),
    {
        self.position(id).is_some()
    }

    /// The number of live sessions.
    pub fn len(&self) -> (r: usize)
        ensures
            r == self@.len(),
    {
        self.sessions.len()
    }

    /// The live handles, in the registry's order.
    pub fn handles(&self) -> (r: Vec<u64>)
        ensures
            r@ == self@,
    {
        self.sessions.clone()
    }

    /// Where `id` stands in the list, if it is there.
    fn position(&self, id: u64) -> (r: Option<usize>)
        ensures
            match r {
                Some(i) => i < self@.len() && self@[i as int] == id,
                None => !self@.contains(id),
            },
    {
        let mut i: usize = 0;
        while i < self.sessions.len()
            invariant
                i <= self.sessions@.len(),
                forall|k: int| 0 <= k < i ==> self.sessions@[k] != id,
            decreases self.sessions@.len() - i,
        {
            if self.sessions[i] == id {
                return Some(i);
            }
            i = i + 1;
        }
        None
    }

    /// Adds a session that has just connected. Each session joins once.
    pub fn join(&mut self, id: u64)
        requires
            old(self).wf(),
            !old(self).live().contains(id),
        ensures
            final(self).wf(),
            final(self)@ == old(self)@.push(id),
            final(self).live() == old(self).live().insert(id),
    {
        self.sessions.push(id);
        assert(final(self).live() =~= old(self).live().insert(id)) by {
            assert forall|x: u64| #[trigger] self@.contains(x) == (old(self)@.contains(x) || x == id) by {
                if self@.contains(x) {
                    let k = choose|k: int| 0 <= k < self@.len() && self@[k] == x;
                    if k < old(self)@.len() {
                        assert(old(self)@[k] == x);
                    }
                }
                if old(self)@.contains(x) {
                    let k = choose|k: int| 0 <= k < old(self)@.len() && old(self)@[k] == x;
                    assert(self@[k] == x);
                }
                if x == id {
                    assert(self@[old(self)@.len() as int] == x);
                }
            }
        }
    }

    /// Removes a session that has ended. Returns whether it was live; leaving
    /// twice, or without joining, changes nothing and returns `false`.
    pub fn leave(&mut self, id: u64) -> (r: bool)
        requires
            old(self).wf(),
        ensures
            r == old(self).live().contains(id),
            final(self).wf(),
            final(self).live() == old(self).live().remove(id),
            !r ==> final(self)@ == old(self)@,
    {
        match self.position(id) {
            Some(i) => {
                let ghost s = self@;
                self.sessions.swap_remove(i);
                proof {
                    let n = s.len() - 1;
                    let t = self@;
                    assert(t.len() == n);
                    assert forall|a: int, b: int| 0 <= a < t.len() && 0 <= b < t.len() && a != b
                        implies t[a] != t[b] by {
                        let pa = if a == i { n } else { a };
                        let pb = if b == i { n } else { b };
                        assert(t[a] == s[pa]);
                        assert(t[b] == s[pb]);
                    }
                    assert forall|x: u64| #[trigger] t.contains(x) == (s.contains(x) && x != id) by {
                        if t.contains(x) {
                            let k = choose|k: int| 0 <= k < t.len() && t[k] == x;
                            let pk = if k == i { n } else { k };
                            assert(s[pk] == x);
                            assert(pk != i);
                        }
                        if s.contains(x) && x != id {
                            let k = choose|k: int| 0 <= k < s.len() && s[k] == x;
                            assert(k != i);
                            if k == n {
                                assert(t[i as int] == x);
                            } else {
                                assert(t[k] == x);
                            }
                        }
                    }
                    assert(final(self).live() =~= old(self).live().remove(id));
                }
                true
            },
            None => {
                assert(old(self).live().remove(id) =~= old(self).live());
                false
            },
        }
    }

    /// Hands `msg` to every live session, the sender included: one delivery per
    /// live handle, in the registry's order, each carrying the same bytes.
    pub fn broadcast(&self, msg: &ChatMessage) -> (r: Vec<(u64, ChatMessage)>)
        ensures
            recipients(r@) == self@,
            forall|i: int| 0 <= i < r@.len() ==> (#[trigger] r@[i]).1.name@ == msg.name@
                && r@[i].1.body@ == msg.body@,
    {
        let mut out: Vec<(u64, ChatMessage)> = Vec::new();
        let mut i: usize = 0;
        while i < self.sessions.len()
            invariant
                i <= self.sessions@.len(),
                recipients(out@) == self.sessions@.subrange(0, i as int),
                forall|k: int| 0 <= k < out@.len() ==> (#[trigger] out@[k]).1.name@ == msg.name@
                    && out@[k].1.body@ == msg.body@,
            decreases self.sessions@.len() - i,
        {
            let ghost prev = out@;
            assert(recipients(prev).len() == prev.len());
            assert(prev.len() == i);
            out.push((self.sessions[i], msg.duplicate()));
            assert(recipients(out@).len() == i + 1);
            assert forall|k: int| 0 <= k < out@.len() implies #[trigger] recipients(out@)[k]
                == self.sessions@.subrange(0, i as int + 1)[k] by {
                assert(recipients(out@)[k] == out@[k].0);
                if k < prev.len() {
                    assert(out@[k] == prev[k]);
                    assert(recipients(prev)[k] == prev[k].0);
                    assert(self.sessions@.subrange(0, i as int)[k] == self.sessions@[k]);
                }
            }
            assert(recipients(out@) =~= self.sessions@.subrange(0, i as int + 1));
            i = i + 1;
        }
        assert(self.sessions@.subrange(0, i as int) =~= self.sessions@);
        out
    }
}

impl Default for ChatServer {
    /// A registry with no sessions.
    fn default() -> (r: ChatServer)
        ensures
            r.wf(),
            r@ == Seq::<u64>::empty(),
    {
        ChatServer::new()
    }
}

/// A broadcast on a well-formed registry reaches each live session exactly
/// once, and nothing that is not live.
pub proof fn lemma_broadcast_exactly_once(g: ChatServer, d: Seq<(u64, ChatMessage)>, id: u64)
    requires
        g.wf(),
        recipients(d) == g@,
    ensures
        g.live().contains(id) ==> exists|i: int|
            0 <= i < d.len() && d[i].0 == id && forall|j: int|
                0 <= j < d.len() && #[trigger] d[j].0 == id ==> j == i,
        !g.live().contains(id) ==> forall|j: int| 0 <= j < d.len() ==> #[trigger] d[j].0 != id,
{
    if g.live().contains(id) {
        let i = choose|i: int| 0 <= i < g@.len() && g@[i] == id;
        assert(d[i].0 == recipients(d)[i]);
        assert forall|j: int| 0 <= j < d.len() && #[trigger] d[j].0 == id implies j == i by {
            assert(recipients(d)[j] == d[j].0);
        }
    } else {
        assert forall|j: int| 0 <= j < d.len() implies #[trigger] d[j].0 != id by {
            assert(recipients(d)[j] == d[j].0);
            assert(g@[j] == d[j].0);
        }
    }
}

/// After a session leaves, no later broadcast reaches it, and leaving again
/// changes nothing.
pub proof fn lemma_left_session_not_reached(
    before: ChatServer,
    after: ChatServer,
    again: ChatServer,
    id: u64,
    d: Seq<(u64, ChatMessage)>,
)
    requires
        before.wf(),
        after.live() == before.live().remove(id),
        again.live() == after.live().remove(id),
        after.wf(),
        recipients(d) == after@,
    ensures
        forall|j: int| 0 <= j < d.len() ==> #[trigger] d[j].0 != id,
        again.live() == after.live(),
{
    assert(!after.live().contains(id));
    lemma_broadcast_exactly_once(after, d, id);
    assert(again.live() =~= after.live());
}

} // verus!
