//! The window's pane bookkeeping: pane ids, pane lifecycle events waiting to
//! be polled, and the pane each pane was split from.

use std::collections::VecDeque;
use vstd::prelude::*;
use crate::protocol::types::{PaneEvent, PaneId};

verus! {

/// How many pane events the window keeps; when the buffer is full, the
/// oldest event is dropped to make room.
pub const MAX_PANE_EVENTS: usize = 10000;

/// The parent recorded last for `child` in a list of (child, parent) pairs.
pub open spec fn lookup(s: Seq<(u64, u64)>, child: u64) -> Option<u64>
    decreases s.len(),
{
    if s.len() == 0 {
        None
    } else if s.last().0 == child {
        Some(s.last().1)
    } else {
        lookup(s.drop_last(), child)
    }
}

/// The pairs of `s` whose child is not `child`, in order.
pub open spec fn without(s: Seq<(u64, u64)>, child: u64) -> Seq<(u64, u64)>
    decreases s.len(),
{
    if s.len() == 0 {
        s
    } else if s.last().0 == child {
        without(s.drop_last(), child)
    } else {
        without(s.drop_last(), child).push(s.last())
    }
}

/// The buffered events after `event` is pushed onto `events`: the oldest
/// is dropped first when the buffer is full.
pub open spec fn buffered_after(events: Seq<PaneEvent>, event: PaneEvent) -> Seq<PaneEvent> {
    if events.len() >= MAX_PANE_EVENTS {
        events.drop_first().push(event)
    } else {
        events.push(event)
    }
}

/// The event buffer never holds more than `MAX_PANE_EVENTS` events; a
/// pushed event is always the newest one kept; while there is room nothing
/// is dropped, and when the buffer is full exactly the oldest event goes.
pub proof fn lemma_event_buffer(events: Seq<PaneEvent>, event: PaneEvent)
    requires
        events.len() <= MAX_PANE_EVENTS,
    ensures
        buffered_after(events, event).len() <= MAX_PANE_EVENTS,
        buffered_after(events, event).last() == event,
        events.len() < MAX_PANE_EVENTS ==> buffered_after(events, event) == events.push(event),
        events.len() == MAX_PANE_EVENTS ==> buffered_after(events, event) == events.subrange(
            1,
            events.len() as int,
        ).push(event),
{
}

/// No child occurs twice.
pub open spec fn unique_children(s: Seq<(u64, u64)>) -> bool {
    forall|i: int, j: int| 0 <= i < j < s.len() ==> #[trigger] s[i].0 != #[trigger] s[j].0
}

/// The map from child to parent that a list of pairs holds.
pub open spec fn parent_map(s: Seq<(u64, u64)>) -> Map<u64, u64> {
    Map::new(|c: u64| lookup(s, c) is Some, |c: u64| lookup(s, c)->0)
}

proof fn lemma_lookup_without(s: Seq<(u64, u64)>, child: u64, x: u64)
    ensures
        lookup(without(s, child), x) == if x == child {
            None
        } else {
            lookup(s, x)
        },
    decreases s.len(),
{
    if s.len() > 0 {
        lemma_lookup_without(s.drop_last(), child, x);
        if s.last().0 != child {
            assert(without(s, child).drop_last() =~= without(s.drop_last(), child));
        }
    }
}

proof fn lemma_lookup_push(s: Seq<(u64, u64)>, child: u64, parent: u64, x: u64)
    ensures
        lookup(s.push((child, parent)), x) == if x == child {
            Some(parent)
        } else {
            lookup(s, x)
        },
{
    assert(s.push((child, parent)).drop_last() =~= s);
}

/// `lookup` finds the pair of a child that occurs.
proof fn lemma_lookup_index(s: Seq<(u64, u64)>, i: int)
    requires
        unique_children(s),
        0 <= i < s.len(),
    ensures
        lookup(s, s[i].0) == Some(s[i].1),
    decreases s.len(),
{
    if i < s.len() - 1 {
        lemma_lookup_index(s.drop_last(), i);
    }
}

/// A child that occurs nowhere has no parent.
proof fn lemma_lookup_absent(s: Seq<(u64, u64)>, x: u64)
    requires
        forall|i: int| 0 <= i < s.len() ==> #[trigger] s[i].0 != x,
    ensures
        lookup(s, x) is None,
    decreases s.len(),
{
    if s.len() > 0 {
        lemma_lookup_absent(s.drop_last(), x);
    }
}

/// Pushing a pair records its parent.
proof fn lemma_parent_map_push(s: Seq<(u64, u64)>, child: u64, parent: u64)
    ensures
        parent_map(s.push((child, parent))) == parent_map(s).insert(child, parent),
{
    let t = s.push((child, parent));
    assert forall|x: u64| #[trigger] lookup(t, x) == if x == child {
        Some(parent)
    } else {
        lookup(s, x)
    } by {
        lemma_lookup_push(s, child, parent, x);
    }
    assert(parent_map(t) =~= parent_map(s).insert(child, parent));
}

/// A child with a parent occurs in the list.
proof fn lemma_lookup_found(s: Seq<(u64, u64)>, x: u64) -> (i: int)
    requires
        lookup(s, x) is Some,
    ensures
        0 <= i < s.len(),
        s[i].0 == x,
    decreases s.len(),
{
    if s.last().0 == x {
        s.len() - 1
    } else {
        lemma_lookup_found(s.drop_last(), x)
    }
}

/// `without` keeps a subsequence of the pairs.
proof fn lemma_without_from(s: Seq<(u64, u64)>, child: u64)
    ensures
        forall|j: int|
            0 <= j < without(s, child).len() ==> exists|i: int|
                0 <= i < s.len() && s[i] == #[trigger] without(s, child)[j] && s[i].0 != child,
        unique_children(s) ==> unique_children(without(s, child)),
    decreases s.len(),
{
    if s.len() > 0 {
        let d = s.drop_last();
        lemma_without_from(d, child);
        assert forall|j: int| 0 <= j < without(s, child).len() implies exists|i: int|
            0 <= i < s.len() && s[i] == #[trigger] without(s, child)[j] && s[i].0 != child by {
            if s.last().0 != child && j == without(d, child).len() {
                assert(s[s.len() - 1] == without(s, child)[j]);
            } else {
                let i = choose|i: int|
                    0 <= i < d.len() && d[i] == #[trigger] without(d, child)[j] && d[i].0 != child;
                assert(s[i] == without(s, child)[j]);
            }
        }
        if unique_children(s) {
            assert(unique_children(d));
            if s.last().0 != child {
                let w = without(s, child);
                assert forall|a: int, b: int| 0 <= a < b < w.len() implies #[trigger] w[a].0
                    != #[trigger] w[b].0 by {
                    if b == w.len() - 1 {
                        let i = choose|i: int|
                            0 <= i < d.len() && d[i] == #[trigger] without(d, child)[a] && d[i].0
                                != child;
                        assert(s[i] == d[i]);
                    } else {
                        assert(w[a] == without(d, child)[a]);
                        assert(w[b] == without(d, child)[b]);
                    }
                }
            }
        }
    }
}

/// The window's pane bookkeeping.
pub struct PaneBook {
    next_pane_id: u64,
    pane_events: VecDeque<PaneEvent>,
    pane_parents: Vec<(u64, u64)>,
}

impl PaneBook {
    /// The id the next allocation hands out.
    pub closed spec fn next_id(&self) -> u64 {
        self.next_pane_id
    }

    /// The buffered events, oldest first.
    pub closed spec fn events(&self) -> Seq<PaneEvent> {
        self.pane_events@
    }

    /// The pane each pane was split from, by pane id.
    pub closed spec fn parents(&self) -> Map<u64, u64> {
        parent_map(self.pane_parents@)
    }

    /// The buffer holds at most `MAX_PANE_EVENTS` events, and each pane has
    /// one recorded parent at most.
    #[verifier::type_invariant]
    closed spec fn wf(&self) -> bool {
        &&& self.pane_events@.len() <= MAX_PANE_EVENTS
        &&& unique_children(self.pane_parents@)
    }

    /// The bookkeeping of a fresh window, whose first pane is pane 0: the
    /// next id is 1, and there are no events and no parents.
    pub fn new() -> (r: Self)
        ensures
            r.next_id() == 1,
            r.events() == Seq::<PaneEvent>::empty(),
            r.parents() == Map::<u64, u64>::empty(),
    {
        let r = PaneBook { next_pane_id: 1, pane_events: VecDeque::new(), pane_parents: Vec::new() };
        proof {
            assert(r.parents() =~= Map::<u64, u64>::empty());
        }
        r
    }

    /// Hands out the next pane id; the counter wraps as an atomic counter does.
    pub fn allocate_pane_id(&mut self) -> (r: PaneId)
        ensures
            r == PaneId(old(self).next_id()),
            final(self).next_id() == if old(self).next_id() == u64::MAX {
                0
            } else {
                (old(self).next_id() + 1) as u64
            },
            final(self).events() == old(self).events(),
            final(self).parents() == old(self).parents(),
    {
        proof {
            use_type_invariant(&*self);
        }
        let id = self.next_pane_id;
        self.next_pane_id = id.wrapping_add(1);
        PaneId(id)
    }

    /// Pushes an event, dropping the oldest one first when the buffer is full.
    pub fn emit_pane_event(&mut self, event: PaneEvent)
        ensures
            final(self).events() == buffered_after(old(self).events(), event),
            final(self).events().len() <= MAX_PANE_EVENTS,
            final(self).next_id() == old(self).next_id(),
            final(self).parents() == old(self).parents(),
    {
        broadcast use vstd::std_specs::vecdeque::group_vec_dequeue_axioms;

        proof {
            use_type_invariant(&*self);
        }
        let mut events: VecDeque<PaneEvent> = VecDeque::new();
        std::mem::swap(&mut events, &mut self.pane_events);
        if events.len() >= MAX_PANE_EVENTS {
            let _ = events.pop_front();
        }
        events.push_back(event);
        self.pane_events = events;
    }

    /// Takes all buffered events, oldest first, leaving the buffer empty.
    pub fn drain_pane_events(&mut self) -> (r: Vec<PaneEvent>)
        ensures
            r@ == old(self).events(),
            final(self).events() == Seq::<PaneEvent>::empty(),
            final(self).next_id() == old(self).next_id(),
            final(self).parents() == old(self).parents(),
    {
        proof {
            use_type_invariant(&*self);
        }
        let mut out: Vec<PaneEvent> = Vec::new();
        let mut events: VecDeque<PaneEvent> = VecDeque::new();
        std::mem::swap(&mut events, &mut self.pane_events);
        let ghost all = events@;
        loop
            invariant
                all == out@ + events@,
            ensures
                out@ == all,
            decreases events@.len(),
        {
            match events.pop_front() {
                Some(e) => {
                    out.push(e);
                    proof {
                        assert(all =~= out@ + events@);
                    }
                },
                None => {
                    proof {
                        assert(all =~= out@);
                    }
                    break ;
                },
            }
        }
        out
    }

    /// The bookkeeping of a new pane: it gets the next id, is recorded as
    /// split from `parent` when there is one, and its creation is announced.
    pub fn open_pane(&mut self, parent: Option<PaneId>) -> (r: PaneId)
        ensures
            r == PaneId(old(self).next_id()),
            final(self).next_id() == if old(self).next_id() == u64::MAX {
                0
            } else {
                (old(self).next_id() + 1) as u64
            },
            final(self).parents() == match parent {
                Some(p) => old(self).parents().insert(r.0, p.0),
                None => old(self).parents(),
            },
            final(self).events() == buffered_after(old(self).events(), PaneEvent::Created { pane_id: r }),
    {
        let pane_id = self.allocate_pane_id();
        match parent {
            Some(p) => self.set_parent(pane_id, p),
            None => {},
        }
        self.emit_pane_event(PaneEvent::Created { pane_id });
        pane_id
    }

    /// The bookkeeping of a closed pane: its parent is forgotten and its
    /// closing is announced.
    pub fn close_pane(&mut self, pane: PaneId)
        ensures
            final(self).next_id() == old(self).next_id(),
            final(self).parents() == old(self).parents().remove(pane.0),
            final(self).events() == buffered_after(old(self).events(), PaneEvent::Closed { pane_id: pane }),
    {
        self.forget_parent(pane);
        self.emit_pane_event(PaneEvent::Closed { pane_id: pane });
    }

    /// Records that `child` was split from `parent`, replacing what was
    /// recorded for `child` before.
    pub fn set_parent(&mut self, child: PaneId, parent: PaneId)
        ensures
            final(self).parents() == old(self).parents().insert(child.0, parent.0),
            final(self).next_id() == old(self).next_id(),
            final(self).events() == old(self).events(),
    {
        let ghost before = self.parents();
        self.forget_parent(child);
        proof {
            use_type_invariant(&*self);
        }
        let ghost s = self.pane_parents@;
        proof {
            assert(parent_map(s) == before.remove(child.0));
            assert(!parent_map(s).dom().contains(child.0));
            assert forall|i: int| 0 <= i < s.len() implies #[trigger] s[i].0 != child.0 by {
                if s[i].0 == child.0 {
                    lemma_lookup_index(s, i);
                    assert(parent_map(s).dom().contains(child.0));
                }
            }
        }
        let mut pairs: Vec<(u64, u64)> = Vec::new();
        std::mem::swap(&mut pairs, &mut self.pane_parents);
        pairs.push((child.0, parent.0));
        proof {
            let t = pairs@;
            assert(t =~= s.push((child.0, parent.0)));
            assert forall|x: u64| #[trigger] lookup(t, x) == if x == child.0 {
                Some(parent.0)
            } else {
                lookup(s, x)
            } by {
                lemma_lookup_push(s, child.0, parent.0, x);
            }
            lemma_parent_map_push(s, child.0, parent.0);
            assert(before.remove(child.0).insert(child.0, parent.0) =~= before.insert(
                child.0,
                parent.0,
            ));
            assert forall|i: int, j: int| 0 <= i < j < t.len() implies #[trigger] t[i].0
                != #[trigger] t[j].0 by {
                if j == t.len() - 1 {
                    assert(t[i] == s[i]);
                } else {
                    assert(t[i] == s[i] && t[j] == s[j]);
                }
            }
        }
        self.pane_parents = pairs;
    }

    /// Forgets the parent of `pane` (when the pane closes).
    pub fn forget_parent(&mut self, pane: PaneId)
        ensures
            final(self).parents() == old(self).parents().remove(pane.0),
            final(self).next_id() == old(self).next_id(),
            final(self).events() == old(self).events(),
    {
        let ghost s = self.pane_parents@;
        let mut kept: Vec<(u64, u64)> = Vec::new();
        proof {
            use_type_invariant(&*self);
        }
        let mut i: usize = 0;
        while i < self.pane_parents.len()
            invariant
                s == self.pane_parents@,
                i <= s.len(),
                kept@ == without(s.take(i as int), pane.0),
            decreases s.len() - i,
        {
            let pair = self.pane_parents[i];
            proof {
                assert(s.take(i + 1).drop_last() =~= s.take(i as int));
                assert(s.take(i + 1).last() == pair);
            }
            if pair.0 != pane.0 {
                kept.push(pair);
            }
            i += 1;
        }
        proof {
            assert(s.take(s.len() as int) =~= s);
            lemma_without_from(s, pane.0);
            assert forall|x: u64| #[trigger] lookup(kept@, x) == if x == pane.0 {
                None
            } else {
                lookup(s, x)
            } by {
                lemma_lookup_without(s, pane.0, x);
            }
            assert(parent_map(kept@) =~= parent_map(s).remove(pane.0));
        }
        self.pane_parents = kept;
    }

    /// Forgets every recorded parent.
    pub fn clear_parents(&mut self)
        ensures
            final(self).parents() == Map::<u64, u64>::empty(),
            final(self).next_id() == old(self).next_id(),
            final(self).events() == old(self).events(),
    {
        proof {
            use_type_invariant(&*self);
        }
        self.pane_parents = Vec::new();
        proof {
            assert(self.parents() =~= Map::<u64, u64>::empty());
        }
    }

    /// The pane that `pane` was split from, if one is recorded.
    pub fn pane_parent(&self, pane: PaneId) -> (r: Option<PaneId>)
        ensures
            r == if self.parents().dom().contains(pane.0) {
                Some(PaneId(self.parents()[pane.0]))
            } else {
                None
            },
    {
        proof {
            use_type_invariant(self);
        }
        let ghost s = self.pane_parents@;
        let mut i: usize = 0;
        while i < self.pane_parents.len()
            invariant
                s == self.pane_parents@,
                unique_children(s),
                i <= s.len(),
                forall|k: int| 0 <= k < i ==> #[trigger] s[k].0 != pane.0,
            decreases s.len() - i,
        {
            let pair = self.pane_parents[i];
            if pair.0 == pane.0 {
                proof {
                    lemma_lookup_index(s, i as int);
                }
                return Some(PaneId(pair.1));
            }
            i += 1;
        }
        proof {
            lemma_lookup_absent(s, pane.0);
        }
        None
    }

    /// The panes split from `parent`, each once.
    pub fn pane_children(&self, parent: PaneId) -> (r: Vec<PaneId>)
        ensures
            forall|c: u64|
                r@.contains(PaneId(c)) <==> (self.parents().dom().contains(c) && self.parents()[c]
                    == parent.0),
            forall|i: int, j: int| 0 <= i < j < r@.len() ==> r@[i] != r@[j],
    {
        let ghost s = self.pane_parents@;
        let ghost mut from: Seq<int> = Seq::empty();
        proof {
            use_type_invariant(self);
        }
        let mut out: Vec<PaneId> = Vec::new();
        let mut i: usize = 0;
        while i < self.pane_parents.len()
            invariant
                s == self.pane_parents@,
                unique_children(s),
                i <= s.len(),
                from.len() == out@.len(),
                forall|k: int|
                    0 <= k < out@.len() ==> 0 <= #[trigger] from[k] < i && s[from[k]].1 == parent.0
                        && out@[k] == PaneId(s[from[k]].0),
                forall|m: int|
                    0 <= m < i && #[trigger] s[m].1 == parent.0 ==> out@.contains(PaneId(s[m].0)),
                forall|a: int, b: int| 0 <= a < b < out@.len() ==> out@[a] != out@[b],
            decreases s.len() - i,
        {
            let pair = self.pane_parents[i];
            if pair.1 == parent.0 {
                proof {
                    assert forall|k: int| 0 <= k < out@.len() implies out@[k] != PaneId(pair.0) by {
                        assert(from[k] != i);
                        assert(s[from[k]].0 != s[i as int].0);
                    }
                }
                let ghost before_out = out@;
                out.push(PaneId(pair.0));
                proof {
                    from = from.push(i as int);
                    assert(out@ == before_out.push(PaneId(s[i as int].0)));
                    assert forall|m: int|
                        0 <= m < i + 1 && #[trigger] s[m].1 == parent.0 implies out@.contains(
                        PaneId(s[m].0),
                    ) by {
                        if m == i {
                            assert(out@[out@.len() - 1] == PaneId(s[m].0));
                        } else {
                            assert(before_out.contains(PaneId(s[m].0)));
                            let k = choose|k: int|
                                0 <= k < before_out.len() && before_out[k] == PaneId(s[m].0);
                            assert(out@[k] == PaneId(s[m].0));
                        }
                    }
                    assert forall|k: int| 0 <= k < out@.len() implies 0 <= #[trigger] from[k] < i
                        + 1 && s[from[k]].1 == parent.0 && out@[k] == PaneId(s[from[k]].0) by {
                        if k < out@.len() - 1 {
                            assert(out@[k] == before_out[k]);
                        }
                    }
                }
            }
            i += 1;
        }
        proof {
            assert forall|c: u64|
                #![trigger out@.contains(PaneId(c))]
                #![trigger self.parents().dom().contains(c)]
                out@.contains(PaneId(c)) <==> (self.parents().dom().contains(c)
                    && self.parents()[c] == parent.0) by {
                if out@.contains(PaneId(c)) {
                    let k = choose|k: int| 0 <= k < out@.len() && out@[k] == PaneId(c);
                    let m = from[k];
                    assert(out@[k] == PaneId(s[m].0));
                    assert(s[m].0 == c);
                    lemma_lookup_index(s, m);
                    assert(lookup(s, c) == Some(parent.0));
                    assert(parent_map(s).dom().contains(c));
                }
                if self.parents().dom().contains(c) && self.parents()[c] == parent.0 {
                    assert(lookup(s, c) == Some(parent.0));
                    let m = lemma_lookup_found(s, c);
                    lemma_lookup_index(s, m);
                    assert(s[m].1 == parent.0);
                    assert(out@.contains(PaneId(s[m].0)));
                }
            }
        }
        out
    }
}

} // verus!
