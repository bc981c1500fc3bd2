use vstd::prelude::*;
use vstd::multiset::Multiset;
use crate::distributions::{ConsumingDistribution, Draw, ProducingDistribution};
use crate::events::{is_earliest, Event, EventType, EventsQueue};
use crate::queue::Queue;
use crate::request::Request;

verus! {

/// `a + b`, held at the largest tick where the sum would pass it.
pub open spec fn capped_sum(a: u64, b: u64) -> u64 {
    if a + b > u64::MAX {
        u64::MAX
    } else {
        (a + b) as u64
    }
}

/// The identifier handed out after `id`; the count starts over after the
/// largest one.
pub open spec fn following_id(id: u64) -> u64 {
    if id == u64::MAX {
        0
    } else {
        (id + 1) as u64
    }
}

/// How many of the pending events are of the given kind.
pub open spec fn count_kind(pending: Multiset<Event>, kind: EventType) -> nat {
    pending.filter(|e: Event| e.kind == kind).len()
}

/// The timestamps of the event's request fit its kind: a request that is yet
/// to arrive carries none, one that is in service carries both, in order.
pub open spec fn well_timed(event: Event) -> bool {
    match event.kind {
        EventType::Arrival => event.request.is_fresh(),
        EventType::Departure => event.request.is_served(),
    }
}

/// The event that ends the service of `request`, taken by a node at `now`.
pub open spec fn departure_event(now: u64, request: Request) -> Event {
    Event {
        time: capped_sum(now, request.time_to_finish),
        request: Request { started_at: Some(now), ..request },
        kind: EventType::Departure,
    }
}

/// The state of a system as the contracts see it.
pub struct SystemView {
    /// The tick the clock stands at.
    pub now: u64,
    /// Number of service nodes.
    pub nodes_total: nat,
    /// Number of nodes at work.
    pub nodes_busy: nat,
    /// Most requests the waiting line holds between steps.
    pub capacity: nat,
    /// The waiting line, head first.
    pub waiting: Seq<Request>,
    /// The scheduled events.
    pub pending: Multiset<Event>,
    /// Requests served so far, held at the largest count.
    pub finished: u64,
    /// Identifier of the next request.
    pub next_id: u64,
    /// Where service times come from.
    pub service: ConsumingDistribution,
    /// Where gaps between arrivals come from.
    pub arrival: ProducingDistribution,
}

impl SystemView {
    /// The state before the first step: clock at zero, nothing waiting,
    /// nothing scheduled, every node idle.
    pub open spec fn initial(
        nodes_total: nat,
        capacity: nat,
        service: ConsumingDistribution,
        arrival: ProducingDistribution,
    ) -> Self {
        SystemView {
            now: 0,
            nodes_total,
            nodes_busy: 0,
            capacity,
            waiting: Seq::empty(),
            pending: Multiset::empty(),
            finished: 0,
            next_id: 0,
            service,
            arrival,
        }
    }

    /// Requests in the system: in service or waiting.
    pub open spec fn population(self) -> nat {
        self.nodes_busy + self.waiting.len()
    }

    /// What holds of a system between steps.
    pub open spec fn valid(self) -> bool {
        &&& self.nodes_busy <= self.nodes_total
        &&& self.waiting.len() <= self.capacity
        &&& self.nodes_total + self.capacity <= usize::MAX
        &&& self.nodes_busy < self.nodes_total ==> self.waiting.len() == 0
        &&& forall|i: int|
            0 <= i < self.waiting.len() ==> (#[trigger] self.waiting[i]).is_waiting(self.now)
        &&& count_kind(self.pending, EventType::Departure) == self.nodes_busy
        &&& self.pending.len() == 0 || count_kind(self.pending, EventType::Arrival) == 1
        &&& forall|e: Event| #[trigger]
            self.pending.contains(e) ==> self.now <= e.time && well_timed(e)
    }

    /// The arrival that `draw` schedules: a new request, due one gap from now.
    pub open spec fn arrival_event(self, draw: Draw) -> Event {
        Event {
            time: capped_sum(self.now, self.arrival.duration(draw.inter_arrival)),
            request: Request {
                id: self.next_id,
                time_to_finish: self.service.duration(draw.service),
                created_at: None,
                started_at: None,
            },
            kind: EventType::Arrival,
        }
    }

    /// The state with the arrival scheduled that `draw` stands for.
    pub open spec fn with_arrival(self, draw: Draw) -> Self {
        SystemView {
            pending: self.pending.insert(self.arrival_event(draw)),
            next_id: following_id(self.next_id),
            ..self
        }
    }

    /// The state a step starts from: where nothing is scheduled, the first
    /// arrival is.
    pub open spec fn opened(self, opening: Draw) -> Self {
        if self.pending.len() == 0 {
            self.with_arrival(opening)
        } else {
            self
        }
    }

    /// The state with one occurrence of `event` taken off the schedule.
    pub open spec fn without(self, event: Event) -> Self {
        SystemView { pending: self.pending.remove(event), ..self }
    }

    /// An arriving request is let in: a node is idle or the waiting line has
    /// room.
    pub open spec fn admits(self) -> bool {
        self.nodes_busy < self.nodes_total || self.waiting.len() < self.capacity
    }

    /// The state once `event` has fired. An arrival schedules its successor
    /// from `following` and joins the waiting line if it is let in; a
    /// departure frees its node.
    pub open spec fn handled(self, event: Event, following: Draw) -> Self {
        let at = SystemView { now: event.time, ..self };
        match event.kind {
            EventType::Arrival => {
                let seeded = at.with_arrival(following);
                if seeded.admits() {
                    SystemView {
                        waiting: seeded.waiting.push(
                            Request { created_at: Some(event.time), ..event.request },
                        ),
                        ..seeded
                    }
                } else {
                    seeded
                }
            },
            EventType::Departure => SystemView {
                nodes_busy: (at.nodes_busy - 1) as nat,
                finished: capped_sum(at.finished, 1),
                ..at
            },
        }
    }

    /// The state once idle nodes have taken requests from the head of the
    /// waiting line until no node is idle or nobody waits.
    pub open spec fn dispatched(self) -> Self
        decreases self.waiting.len(),
    {
        if self.nodes_busy < self.nodes_total && self.waiting.len() > 0 {
            SystemView {
                nodes_busy: self.nodes_busy + 1,
                waiting: self.waiting.drop_first(),
                pending: self.pending.insert(departure_event(self.now, self.waiting[0])),
                ..self
            }.dispatched()
        } else {
            self
        }
    }

    /// The state after the step in which `event` fires.
    pub open spec fn after(self, event: Event, opening: Draw, following: Draw) -> Self {
        self.opened(opening).without(event).handled(event, following).dispatched()
    }
}

/// Scheduling one more event raises the count of its kind by one and leaves
/// the count of the other kind alone.
pub proof fn lemma_count_insert(pending: Multiset<Event>, event: Event, kind: EventType)
    ensures
        count_kind(pending.insert(event), kind) == count_kind(pending, kind) + if event.kind
            == kind {
            1nat
        } else {
            0nat
        },
{
    broadcast use vstd::multiset::group_multiset_axioms;

    let f = |e: Event| e.kind == kind;
    if event.kind == kind {
        assert(pending.insert(event).filter(f) =~= pending.filter(f).insert(event));
    } else {
        assert(pending.insert(event).filter(f) =~= pending.filter(f));
    }
}

/// Taking a scheduled event off lowers the count of its kind by one and
/// leaves the count of the other kind alone.
pub proof fn lemma_count_remove(pending: Multiset<Event>, event: Event, kind: EventType)
    requires
        pending.contains(event),
    ensures
        count_kind(pending, kind) == count_kind(pending.remove(event), kind) + if event.kind
            == kind {
            1nat
        } else {
            0nat
        },
{
    broadcast use vstd::multiset::group_multiset_axioms;

    assert(pending.remove(event).insert(event) =~= pending);
    lemma_count_insert(pending.remove(event), event, kind);
}

/// An empty schedule holds no event of any kind.
pub proof fn lemma_count_empty(pending: Multiset<Event>, kind: EventType)
    requires
        pending.len() == 0,
    ensures
        count_kind(pending, kind) == 0,
{
    broadcast use vstd::multiset::group_multiset_axioms;

    let f = |e: Event| e.kind == kind;
    assert(pending =~= Multiset::<Event>::empty());
    assert(pending.filter(f) =~= Multiset::<Event>::empty());
}

impl SystemView {
    /// What holds in the middle of a step, once the event has fired and
    /// before idle nodes take requests: as between steps, but a node may be
    /// idle while requests wait. Then either a single node is idle, or a
    /// single request waits, which may stand beyond the line's capacity.
    spec fn settling(self) -> bool {
        &&& self.nodes_busy <= self.nodes_total
        &&& self.nodes_total + self.capacity <= usize::MAX
        &&& self.waiting.len() <= self.capacity || (self.nodes_busy < self.nodes_total
            && self.waiting.len() == 1)
        &&& self.nodes_busy + 1 < self.nodes_total ==> self.waiting.len() <= 1
        &&& forall|i: int|
            0 <= i < self.waiting.len() ==> (#[trigger] self.waiting[i]).is_waiting(self.now)
        &&& count_kind(self.pending, EventType::Departure) == self.nodes_busy
        &&& count_kind(self.pending, EventType::Arrival) == 1
        &&& forall|e: Event| #[trigger]
            self.pending.contains(e) ==> self.now <= e.time && well_timed(e)
    }
}

/// Where nothing is scheduled, scheduling the first arrival keeps the state
/// valid; either way a step starts with exactly one arrival scheduled.
proof fn lemma_opened_valid(v: SystemView, opening: Draw)
    requires
        v.valid(),
    ensures
        v.opened(opening).valid(),
        count_kind(v.opened(opening).pending, EventType::Arrival) == 1,
        v.opened(opening).pending.len() > 0,
{
    broadcast use vstd::multiset::group_multiset_axioms;

    if v.pending.len() == 0 {
        let event = v.arrival_event(opening);
        lemma_count_empty(v.pending, EventType::Arrival);
        lemma_count_empty(v.pending, EventType::Departure);
        lemma_count_insert(v.pending, event, EventType::Arrival);
        lemma_count_insert(v.pending, event, EventType::Departure);
        assert(v.pending =~= Multiset::<Event>::empty());
        let o = v.opened(opening);
        assert forall|e: Event| #[trigger] o.pending.contains(e) implies o.now <= e.time
            && well_timed(e) by {
            assert(e == event);
        }
    }
}

/// Once the earliest scheduled event of a valid state has fired, the state
/// is ready for idle nodes to take requests.
proof fn lemma_handled_settling(o: SystemView, event: Event, following: Draw)
    requires
        o.valid(),
        count_kind(o.pending, EventType::Arrival) == 1,
        is_earliest(o.pending, event),
    ensures
        event.kind == EventType::Departure ==> o.nodes_busy > 0,
        o.without(event).handled(event, following).settling(),
        o.without(event).handled(event, following).now == event.time,
        o.now <= event.time,
        well_timed(event),
{
    broadcast use vstd::multiset::group_multiset_axioms;

    let w = o.without(event);
    let h = w.handled(event, following);
    assert(o.pending.contains(event));
    assert(o.now <= event.time && well_timed(event));
    lemma_count_remove(o.pending, event, EventType::Arrival);
    lemma_count_remove(o.pending, event, EventType::Departure);
    assert forall|e: Event| #[trigger] w.pending.contains(e) implies event.time <= e.time
        && well_timed(e) by {
        assert(o.pending.contains(e));
    }
    match event.kind {
        EventType::Arrival => {
            let at = SystemView { now: event.time, ..w };
            let next = at.arrival_event(following);
            lemma_count_insert(w.pending, next, EventType::Arrival);
            lemma_count_insert(w.pending, next, EventType::Departure);
            assert forall|e: Event| #[trigger] h.pending.contains(e) implies h.now <= e.time
                && well_timed(e) by {
                if e != next {
                    assert(w.pending.contains(e));
                }
            }
            assert forall|i: int| 0 <= i < h.waiting.len() implies (#[trigger] h.waiting[i]).is_waiting(
                h.now,
            ) by {
                if i < o.waiting.len() {
                    assert(h.waiting[i] == o.waiting[i]);
                    assert(o.waiting[i].is_waiting(o.now));
                } else {
                    assert(h.waiting[i] == Request {
                        created_at: Some(event.time),
                        ..event.request
                    });
                    assert(event.request.is_fresh());
                }
            }
            assert(h.settling());
        },
        EventType::Departure => {
            assert forall|i: int| 0 <= i < h.waiting.len() implies (#[trigger] h.waiting[i]).is_waiting(
                h.now,
            ) by {
                assert(o.waiting[i].is_waiting(o.now));
            }
        },
    }
}

/// From a state that is ready for it, the idle nodes' taking of requests
/// ends in a valid state.
proof fn lemma_dispatched_valid(s: SystemView)
    requires
        s.settling(),
    ensures
        s.dispatched().valid(),
        count_kind(s.dispatched().pending, EventType::Arrival) == 1,
        s.dispatched().now == s.now,
        s.dispatched().nodes_total == s.nodes_total,
        s.dispatched().capacity == s.capacity,
{
    broadcast use vstd::multiset::group_multiset_axioms;

    reveal_with_fuel(SystemView::dispatched, 3);
    if s.nodes_busy < s.nodes_total && s.waiting.len() > 0 {
        let head = s.waiting[0];
        let leaving = departure_event(s.now, head);
        let one = SystemView {
            nodes_busy: s.nodes_busy + 1,
            waiting: s.waiting.drop_first(),
            pending: s.pending.insert(leaving),
            ..s
        };
        assert(one.dispatched() == one);
        assert(s.dispatched() == one);
        lemma_count_insert(s.pending, leaving, EventType::Arrival);
        lemma_count_insert(s.pending, leaving, EventType::Departure);
        assert(head.is_waiting(s.now));
        assert forall|e: Event| #[trigger] one.pending.contains(e) implies one.now <= e.time
            && well_timed(e) by {
            if e != leaving {
                assert(s.pending.contains(e));
            }
        }
    } else {
        assert(s.dispatched() == s);
    }
}

/// A step keeps a valid state valid. In particular, after every step: at
/// most as many requests are in the system as there are nodes and places in
/// the waiting line; as many departures are scheduled as nodes are busy; the
/// clock has not gone back; and a request whose departure fired began its
/// service no earlier than it joined the waiting line.
pub proof fn lemma_step_keeps_valid(v: SystemView, event: Event, opening: Draw, following: Draw)
    requires
        v.valid(),
        is_earliest(v.opened(opening).pending, event),
    ensures
        v.after(event, opening, following).valid(),
        v.after(event, opening, following).population() <= v.nodes_total + v.capacity,
        count_kind(v.after(event, opening, following).pending, EventType::Departure) == v.after(
            event,
            opening,
            following,
        ).nodes_busy,
        count_kind(v.after(event, opening, following).pending, EventType::Arrival) == 1,
        v.now <= v.after(event, opening, following).now,
        v.after(event, opening, following).now == event.time,
        v.after(event, opening, following).nodes_total == v.nodes_total,
        v.after(event, opening, following).capacity == v.capacity,
        event.kind == EventType::Departure ==> event.request.is_served(),
{
    let o = v.opened(opening);
    lemma_opened_valid(v, opening);
    lemma_handled_settling(o, event, following);
    let h = o.without(event).handled(event, following);
    lemma_dispatched_valid(h);
}

/// Without places in the waiting line nobody waits between steps: an
/// arrival that finds a node idle is in service when its step ends, one
/// that finds every node busy is lost, and no more requests are in the
/// system than there are nodes.
pub proof fn lemma_no_waiting_room(v: SystemView, event: Event, opening: Draw, following: Draw)
    requires
        v.valid(),
        v.capacity == 0,
        is_earliest(v.opened(opening).pending, event),
    ensures
        v.after(event, opening, following).waiting.len() == 0,
        v.after(event, opening, following).population() <= v.nodes_total,
        event.kind == EventType::Arrival ==> v.after(event, opening, following).nodes_busy == if v.nodes_busy
            < v.nodes_total {
            v.nodes_busy + 1
        } else {
            v.nodes_busy
        },
{
    lemma_step_keeps_valid(v, event, opening, following);
    reveal_with_fuel(SystemView::dispatched, 3);
    let h = v.opened(opening).without(event).handled(event, following);
    if event.kind == EventType::Arrival && v.nodes_busy < v.nodes_total {
        assert(h.waiting.len() == 1);
        assert(h.waiting.drop_first().len() == 0);
    }
}

/// A system without nodes serves nobody: every event that fires is an
/// arrival, no departure is ever scheduled, and no request finishes.
pub proof fn lemma_no_nodes(v: SystemView, event: Event, opening: Draw, following: Draw)
    requires
        v.valid(),
        v.nodes_total == 0,
        is_earliest(v.opened(opening).pending, event),
    ensures
        event.kind == EventType::Arrival,
        finished_by(event) is None,
        v.after(event, opening, following).nodes_busy == 0,
        v.after(event, opening, following).finished == v.finished,
        count_kind(v.after(event, opening, following).pending, EventType::Departure) == 0,
{
    lemma_step_keeps_valid(v, event, opening, following);
    lemma_opened_valid(v, opening);
    lemma_handled_settling(v.opened(opening), event, following);
    reveal_with_fuel(SystemView::dispatched, 2);
}

/// What the step in which `event` fires reports as finished: the request
/// of a departure, nothing for an arrival.
pub open spec fn finished_by(event: Event) -> Option<Request> {
    match event.kind {
        EventType::Arrival => None,
        EventType::Departure => Some(event.request),
    }
}

/// What a step reports.
#[derive(Debug, Clone, Copy, PartialEq, Eq)]
pub struct Stats {
    /// The tick the clock stands at after the step.
    pub current_tick: u64,
    /// Requests in service or waiting after the step.
    pub requests_in_system: usize,
    /// The request that left in this step, if one did.
    pub last_finished: Option<Request>,
}

impl Default for Stats {
    fn default() -> (stats: Self)
        ensures
            stats == (Stats { current_tick: 0, requests_in_system: 0, last_finished: None }),
    {
        Stats { current_tick: 0, requests_in_system: 0, last_finished: None }
    }
}

/// A pool of service nodes behind a bounded waiting line.
///
/// Requests are let in through the waiting line: an arrival joins it when a
/// node is idle or the line has room, and is lost otherwise. At the end of
/// each step idle nodes take requests from the head of the line, so a
/// request that finds a node idle is in service when the step returns, also
/// where the line has no room at all.
#[derive(Debug)]
pub struct System {
    current_tick: u64,
    nodes_number: usize,
    nodes_busy: usize,
    events_queue: EventsQueue,
    queue: Queue,
    request_finish_dsrt: ConsumingDistribution,
    request_arrival_dsrt: ProducingDistribution,
    finished_count: u64,
    next_id: u64,
}

impl View for System {
    type V = SystemView;

    closed spec fn view(&self) -> SystemView {
        SystemView {
            now: self.current_tick,
            nodes_total: self.nodes_number as nat,
            nodes_busy: self.nodes_busy as nat,
            capacity: self.queue.capacity(),
            waiting: self.queue@,
            pending: self.events_queue@,
            finished: self.finished_count,
            next_id: self.next_id,
            service: self.request_finish_dsrt,
            arrival: self.request_arrival_dsrt,
        }
    }
}

impl System {
    /// The system is in a state that steps keep.
    pub open spec fn wf(&self) -> bool {
        self@.valid()
    }

    /// A system of `nodes_number` idle nodes and an empty waiting line of
    /// `queue_capacity` places, with the clock at zero and nothing scheduled.
    pub fn new(
        nodes_number: usize,
        queue_capacity: usize,
        request_finish_dsrt: ConsumingDistribution,
        request_arrival_dsrt: ProducingDistribution,
    ) -> (system: Self)
        requires
            nodes_number + queue_capacity <= usize::MAX,
        ensures
            system.wf(),
            system@ == SystemView::initial(
                nodes_number as nat,
                queue_capacity as nat,
                request_finish_dsrt,
                request_arrival_dsrt,
            ),
    {
        let system = System {
            current_tick: 0,
            nodes_number,
            nodes_busy: 0,
            events_queue: EventsQueue::new(),
            queue: Queue::with_capacity(queue_capacity),
            request_finish_dsrt,
            request_arrival_dsrt,
            finished_count: 0,
            next_id: 0,
        };
        proof {
            lemma_count_empty(system@.pending, EventType::Departure);
            assert(system@.waiting =~= Seq::<Request>::empty());
        }
        system
    }

    /// The tick the clock stands at.
    pub fn current_tick(&self) -> (tick: u64)
        ensures
            tick == self@.now,
    {
        self.current_tick
    }

    /// Number of nodes at work.
    pub fn nodes_busy(&self) -> (busy: usize)
        ensures
            busy == self@.nodes_busy,
    {
        self.nodes_busy
    }

    /// Number of requests in the waiting line.
    pub fn queue_len(&self) -> (waiting: usize)
        ensures
            waiting == self@.waiting.len(),
    {
        self.queue.len()
    }

    /// Number of scheduled events.
    pub fn pending_events(&self) -> (pending: usize)
        ensures
            pending == self@.pending.len(),
    {
        self.events_queue.len()
    }

    /// Number of requests served so far, held at the largest count.
    pub fn finished_count(&self) -> (finished: u64)
        ensures
            finished == self@.finished,
    {
        self.finished_count
    }

    /// Advances the clock to the earliest scheduled event and lets it fire.
    ///
    /// Where nothing is scheduled yet, the first arrival is scheduled from
    /// `opening` beforehand. Should the event that fires be an arrival, its
    /// successor is scheduled from `following`. A draw that is not needed is
    /// left unused.
    pub fn next(&mut self, opening: Draw, following: Draw) -> (stats: Stats)
        requires
            old(self).wf(),
        ensures
            final(self).wf(),
            exists|event: Event|
                {
                    &&& #[trigger] is_earliest(old(self)@.opened(opening).pending, event)
                    &&& final(self)@ == old(self)@.after(event, opening, following)
                    &&& stats.last_finished == finished_by(event)
                    &&& stats.current_tick == event.time
                },
            stats.current_tick == final(self)@.now,
            stats.requests_in_system == final(self)@.population(),
            final(self)@.nodes_total == old(self)@.nodes_total,
            final(self)@.capacity == old(self)@.capacity,
            stats.requests_in_system <= old(self)@.nodes_total + old(self)@.capacity,
            old(self)@.now <= stats.current_tick,
            count_kind(final(self)@.pending, EventType::Departure) == final(self)@.nodes_busy,
            count_kind(final(self)@.pending, EventType::Arrival) == 1,
            stats.last_finished matches Some(request) ==> request.is_served(),
    {
        proof {
            lemma_opened_valid(self@, opening);
        }
        if self.events_queue.is_empty() {
            self.produce_arrival(opening);
        }
        assert(self@ == old(self)@.opened(opening));
        let popped = self.events_queue.pop();
        let event = popped.unwrap();
        proof {
            lemma_handled_settling(old(self)@.opened(opening), event, following);
            lemma_step_keeps_valid(old(self)@, event, opening, following);
        }
        assert(self@ == old(self)@.opened(opening).without(event));
        let last_finished = self.handle_event(event, following);
        self.dispatch();
        Stats {
            current_tick: self.current_tick,
            requests_in_system: self.queue.len() + self.nodes_busy,
            last_finished,
        }
    }

    /// Lets `event` fire: the clock moves to its time; an arrival schedules
    /// its successor and joins the waiting line or is lost; a departure
    /// frees its node and hands back its request.
    fn handle_event(&mut self, event: Event, following: Draw) -> (finished: Option<Request>)
        requires
            event.kind == EventType::Departure ==> old(self)@.nodes_busy > 0,
        ensures
            final(self)@ == old(self)@.handled(event, following),
            finished == finished_by(event),
    {
        let Event { time, request, kind } = event;
        let mut request = request;
        match kind {
            EventType::Arrival => {
                self.current_tick = time;
                self.produce_arrival(following);
                if self.nodes_busy >= self.nodes_number && !self.queue.has_space() {
                    return None;
                }
                request.created_at = Some(self.current_tick);
                self.queue.push(request);
                None
            },
            EventType::Departure => {
                self.current_tick = time;
                self.finished_count = self.finished_count.saturating_add(1);
                self.nodes_busy -= 1;
                Some(request)
            },
        }
    }

    /// Idle nodes take requests from the head of the waiting line, each
    /// starting its service now, until no node is idle or nobody waits.
    fn dispatch(&mut self)
        requires
            old(self)@.nodes_busy <= old(self)@.nodes_total,
        ensures
            final(self)@ == old(self)@.dispatched(),
    {
        while self.nodes_busy < self.nodes_number && self.queue.len() > 0
            invariant
                self@.dispatched() == old(self)@.dispatched(),
            decreases self.queue@.len(),
        {
            let ghost before = self@;
            let mut request = self.queue.pop().unwrap();
            self.nodes_busy += 1;
            request.started_at = Some(self.current_tick);
            self.produce_departure(request);
            proof {
                assert(before.dispatched() == self@.dispatched());
            }
        }
    }

    /// Schedules the next arrival one gap from now, with a new request.
    fn produce_arrival(&mut self, draw: Draw)
        ensures
            final(self)@ == old(self)@.with_arrival(draw),
    {
        let gap: u64 = self.request_arrival_dsrt.sample(draw.inter_arrival);
        let request_arrival: u64 = self.current_tick.saturating_add(gap);
        let request = self.new_request(draw.service);
        self.events_queue.push(Event { time: request_arrival, request, kind: EventType::Arrival });
    }

    /// Makes the next request, with the service time that `variate` stands
    /// for.
    fn new_request(&mut self, variate: u64) -> (request: Request)
        ensures
            request == (Request {
                id: old(self)@.next_id,
                time_to_finish: old(self)@.service.duration(variate),
                created_at: None,
                started_at: None,
            }),
            final(self)@ == (SystemView { next_id: following_id(old(self)@.next_id), ..old(self)@ }),
    {
        let time_to_finish: u64 = self.request_finish_dsrt.sample(variate);
        let id: u64 = self.next_id;
        self.next_id = if id == u64::MAX {
            0
        } else {
            id + 1
        };
        Request::new(id, time_to_finish)
    }

    /// Schedules the departure of `request`, whose service starts now.
    fn produce_departure(&mut self, request: Request)
        ensures
            final(self)@ == (SystemView {
                pending: old(self)@.pending.insert(
                    Event {
                        time: capped_sum(old(self)@.now, request.time_to_finish),
                        request,
                        kind: EventType::Departure,
                    },
                ),
                ..old(self)@
            }),
    {
        self.events_queue.push(
            Event {
                time: self.current_tick.saturating_add(request.time_to_finish),
                request,
                kind: EventType::Departure,
            },
        );
    }
}

} // verus!
