use vstd::prelude::*;
use vstd::multiset::Multiset;
use vstd::seq_lib::*;
use crate::request::Request;

verus! {

/// What an event does to the system when its time comes.
#[derive(Debug, Clone, Copy, PartialEq, Eq, Structural)]
pub enum EventType {
    /// A request reaches the system.
    Arrival,
    /// A request in service leaves its node.
    Departure,
}

/// Something scheduled to happen at a tick of virtual time.
#[derive(Debug, Clone, Copy, PartialEq, Eq)]
pub struct Event {
    /// Tick at which the event fires.
    pub time: u64,
    /// The request that arrives or departs.
    pub request: Request,
    /// Whether the request arrives or departs.
    pub kind: EventType,
}

/// Position `child` is one of the two positions below position `parent`.
spec fn is_child(parent: int, child: int) -> bool {
    child == 2 * parent + 1 || child == 2 * parent + 2
}

/// No element is earlier than the element one position above it.
spec fn heap_ordered(s: Seq<Event>) -> bool {
    forall|p: int, c: int|
        0 <= p < c < s.len() && is_child(p, c) ==> (#[trigger] s[p]).time <= (#[trigger] s[c]).time
}

/// The heap order holds everywhere but between `hole` and the position above
/// it, and what lies below `hole` is no earlier than what lies above it.
spec fn ordered_above(s: Seq<Event>, hole: int) -> bool {
    &&& forall|p: int, c: int|
        0 <= p < c < s.len() && is_child(p, c) && c != hole ==> (#[trigger] s[p]).time <= (
        #[trigger] s[c]).time
    &&& forall|g: int, c: int|
        0 <= g < hole < c < s.len() && is_child(g, hole) && is_child(hole, c) ==> (
        #[trigger] s[g]).time <= (#[trigger] s[c]).time
}

/// The heap order holds everywhere but between `hole` and the positions
/// below it, and what lies below `hole` is no earlier than what lies above it.
spec fn ordered_below(s: Seq<Event>, hole: int) -> bool {
    &&& forall|p: int, c: int|
        0 <= p < c < s.len() && is_child(p, c) && p != hole ==> (#[trigger] s[p]).time <= (
        #[trigger] s[c]).time
    &&& forall|g: int, c: int|
        0 <= g < hole < c < s.len() && is_child(g, hole) && is_child(hole, c) ==> (
        #[trigger] s[g]).time <= (#[trigger] s[c]).time
}

/// In a heap-ordered sequence no element is earlier than the root.
proof fn lemma_root_is_earliest(s: Seq<Event>, i: int)
    requires
        heap_ordered(s),
        0 <= i < s.len(),
    ensures
        s[0].time <= s[i].time,
    decreases i,
{
    if i > 0 {
        let parent: int = (i - 1) / 2;
        lemma_root_is_earliest(s, parent);
        assert(is_child(parent, i));
        assert(s[parent].time <= s[i].time);
    }
}

/// Exchanging two elements keeps the multiset of elements.
proof fn lemma_exchange_keeps_elements(s: Seq<Event>, i: int, j: int)
    requires
        0 <= i < s.len(),
        0 <= j < s.len(),
    ensures
        s.update(i, s[j]).update(j, s[i]).to_multiset() == s.to_multiset(),
{
    broadcast use vstd::multiset::group_multiset_axioms;

    let mid = s.update(i, s[j]);
    to_multiset_update(s, i, s[j]);
    to_multiset_update(mid, j, s[i]);
    s.to_multiset_ensures();
    assert(s.contains(s[i]));
    assert(s.contains(s[j]));
    assert(mid[j] == s[j]);
    assert(mid.update(j, s[i]).to_multiset() =~= s.to_multiset());
}

fn exchange(v: &mut Vec<Event>, i: usize, j: usize)
    requires
        i < old(v).len(),
        j < old(v).len(),
    ensures
        final(v)@ == old(v)@.update(i as int, old(v)@[j as int]).update(j as int, old(v)@[i as int]),
        final(v)@.to_multiset() == old(v)@.to_multiset(),
{
    let a = v[i];
    let b = v[j];
    v.set(i, b);
    v.set(j, a);
    proof {
        lemma_exchange_keeps_elements(old(v)@, i as int, j as int);
    }
}

/// Moves the element at `start` towards the root until its parent is no later.
fn sift_up(v: &mut Vec<Event>, start: usize)
    requires
        start < old(v).len(),
        ordered_above(old(v)@, start as int),
    ensures
        heap_ordered(final(v)@),
        final(v)@.to_multiset() == old(v)@.to_multiset(),
{
    let mut i: usize = start;
    while i > 0
        invariant
            i < v.len(),
            ordered_above(v@, i as int),
            v@.to_multiset() == old(v)@.to_multiset(),
        ensures
            heap_ordered(v@),
            v@.to_multiset() == old(v)@.to_multiset(),
        decreases i,
    {
        let parent: usize = (i - 1) / 2;
        if v[parent].time <= v[i].time {
            break ;
        }
        exchange(v, parent, i);
        i = parent;
    }
}

/// Moves the element at the root away from it until no child is earlier.
fn sift_down(v: &mut Vec<Event>)
    requires
        ordered_below(old(v)@, 0),
    ensures
        heap_ordered(final(v)@),
        final(v)@.to_multiset() == old(v)@.to_multiset(),
{
    let len: usize = v.len();
    let mut i: usize = 0;
    while i < len / 2
        invariant
            len == v.len(),
            ordered_below(v@, i as int),
            v@.to_multiset() == old(v)@.to_multiset(),
        ensures
            heap_ordered(v@),
            v@.to_multiset() == old(v)@.to_multiset(),
        decreases len - i,
    {
        let left: usize = 2 * i + 1;
        let right: usize = left + 1;
        let child: usize = if right < len && v[right].time < v[left].time {
            right
        } else {
            left
        };
        if v[i].time <= v[child].time {
            break ;
        }
        exchange(v, i, child);
        i = child;
    }
}

/// `event` is among `pending` and nothing in `pending` comes before it.
pub open spec fn is_earliest(pending: Multiset<Event>, event: Event) -> bool {
    &&& pending.contains(event)
    &&& forall|other: Event| #[trigger] pending.contains(other) ==> event.time <= other.time
}

/// A pop never hands out an event earlier than the one popped before it,
/// as long as nothing earlier than that one was pushed in between: if
/// `first` was popped from `pending`, the events `pushed` since are all no
/// earlier than `first`, and `second` is popped next, then `second` is no
/// earlier than `first`.
pub proof fn lemma_pops_in_order(
    pending: Multiset<Event>,
    first: Event,
    pushed: Multiset<Event>,
    second: Event,
)
    requires
        is_earliest(pending, first),
        forall|event: Event| #[trigger] pushed.contains(event) ==> first.time <= event.time,
        is_earliest(pending.remove(first).add(pushed), second),
    ensures
        first.time <= second.time,
{
    broadcast use vstd::multiset::group_multiset_axioms;

    if !pushed.contains(second) {
        assert(pending.remove(first).contains(second));
        assert(pending.contains(second));
    }
}

/// The pending events of a system, handed out earliest first.
///
/// Events with equal times leave in an order that depends only on the
/// pushes and pops made so far.
#[derive(Debug)]
pub struct EventsQueue {
    heap: Vec<Event>,
}

impl View for EventsQueue {
    type V = Multiset<Event>;

    /// The pending events, without any order.
    closed spec fn view(&self) -> Multiset<Event> {
        self.heap@.to_multiset()
    }
}

impl EventsQueue {
    #[verifier::type_invariant]
    spec fn ordered(&self) -> bool {
        heap_ordered(self.heap@)
    }

    /// A queue with no pending event.
    pub fn new() -> (queue: Self)
        ensures
            queue@ == Multiset::<Event>::empty(),
    {
        let queue = EventsQueue { heap: Vec::new() };
        assert(queue.heap@.to_multiset() =~= Multiset::<Event>::empty()) by {
            queue.heap@.to_multiset_ensures();
        }
        queue
    }

    /// Adds `event` to the pending events.
    pub fn push(&mut self, event: Event)
        ensures
            final(self)@ == old(self)@.insert(event),
    {
        proof {
            use_type_invariant(&*self);
        }
        let mut heap: Vec<Event> = Vec::new();
        std::mem::swap(&mut heap, &mut self.heap);
        let ghost before = heap@;
        heap.push(event);
        proof {
            before.to_multiset_ensures();
            assert(heap@ == before.push(event));
        }
        let last: usize = heap.len() - 1;
        sift_up(&mut heap, last);
        self.heap = heap;
    }

    /// Takes out a pending event that no other pending event precedes, or
    /// returns `None` when nothing is pending.
    pub fn pop(&mut self) -> (earliest: Option<Event>)
        ensures
            match earliest {
                Some(event) => {
                    &&& is_earliest(old(self)@, event)
                    &&& final(self)@ == old(self)@.remove(event)
                },
                None => {
                    &&& old(self)@.len() == 0
                    &&& final(self)@ == old(self)@
                },
            },
    {
        proof {
            use_type_invariant(&*self);
            self.heap@.to_multiset_ensures();
        }
        let len: usize = self.heap.len();
        if len == 0 {
            return None;
        }
        let mut heap: Vec<Event> = Vec::new();
        std::mem::swap(&mut heap, &mut self.heap);
        let ghost before = heap@;
        exchange(&mut heap, 0, len - 1);
        let ghost exchanged = heap@;
        let popped = heap.pop();
        let event = popped.unwrap();
        proof {
            assert(event == before[0]);
            assert forall|other: Event| #[trigger] before.to_multiset().contains(other) implies event.time
                <= other.time by {
                let k: int = choose|k: int| 0 <= k < before.len() && before[k] == other;
                lemma_root_is_earliest(before, k);
            }
            assert(heap@ =~= exchanged.remove(len - 1));
            to_multiset_remove(exchanged, len - 1);
            assert(ordered_below(heap@, 0)) by {
                assert forall|p: int, c: int|
                    0 <= p < c < heap@.len() && is_child(p, c) && p != 0 implies (
                #[trigger] heap@[p]).time <= (#[trigger] heap@[c]).time by {
                    assert(heap@[p] == before[p]);
                    assert(heap@[c] == before[c]);
                }
            }
        }
        sift_down(&mut heap);
        self.heap = heap;
        Some(event)
    }

    /// Whether nothing is pending.
    pub fn is_empty(&self) -> (empty: bool)
        ensures
            empty == (self@.len() == 0),
    {
        proof {
            self.heap@.to_multiset_ensures();
        }
        self.heap.len() == 0
    }

    /// Number of pending events.
    pub fn len(&self) -> (count: usize)
        ensures
            count == self@.len(),
    {
        proof {
            self.heap@.to_multiset_ensures();
        }
        self.heap.len()
    }
}

impl Default for EventsQueue {
    fn default() -> (queue: Self)
        ensures
            queue@ == Multiset::<Event>::empty(),
    {
        EventsQueue::new()
    }
}

} // verus!
