use queuing_system_modeling::distributions::{ConsumingDistribution, Draw, ProducingDistribution};
use queuing_system_modeling::system::{Stats, System};

const UNUSED: Draw = Draw { inter_arrival: 0, service: 0 };

fn fixed(nodes: usize, capacity: usize, gap: u64, service: u64) -> System {
    System::new(
        nodes,
        capacity,
        ConsumingDistribution::Degenerate { value: service },
        ProducingDistribution::Degenerate { value: gap },
    )
}

#[test]
fn new_system_is_idle() {
    let system = fixed(2, 10, 1, 2);
    assert_eq!(system.current_tick(), 0);
    assert_eq!(system.nodes_busy(), 0);
    assert_eq!(system.queue_len(), 0);
    assert_eq!(system.pending_events(), 0);
    assert_eq!(system.finished_count(), 0);
    assert_eq!(
        Stats::default(),
        Stats { current_tick: 0, requests_in_system: 0, last_finished: None }
    );
}

/// Arrivals come every tick and each service takes two ticks.
#[test]
fn test_system_next() {
    let mut system = fixed(2, 10, 1, 2);

    let stats = system.next(UNUSED, UNUSED);
    assert_eq!(stats, Stats { current_tick: 1, requests_in_system: 1, last_finished: None });
    assert_eq!(system.current_tick(), 1);
    assert_eq!(system.queue_len(), 0);
    assert_eq!(system.nodes_busy(), 1);
    assert_eq!(system.pending_events(), 2);
    assert_eq!(system.finished_count(), 0);

    let stats = system.next(UNUSED, UNUSED);
    assert_eq!(stats, Stats { current_tick: 2, requests_in_system: 2, last_finished: None });
    assert_eq!(system.queue_len(), 0);
    assert_eq!(system.nodes_busy(), 2);
    assert_eq!(system.pending_events(), 3);
    assert_eq!(system.finished_count(), 0);

    // The first departure and the third arrival are both due at tick 3.
    let third = system.next(UNUSED, UNUSED);
    assert_eq!(third.current_tick, 3);
    let fourth = system.next(UNUSED, UNUSED);
    assert_eq!(fourth.current_tick, 3);
    assert_eq!(system.nodes_busy(), 2);
    assert_eq!(system.queue_len(), 0);
    assert_eq!(system.finished_count(), 1);
    assert_eq!(system.pending_events(), 3);
    assert_eq!(fourth.requests_in_system, 2);

    let finished = third.last_finished.or(fourth.last_finished).unwrap();
    assert_eq!(finished.id, 0);
    assert_eq!(finished.time_to_finish, 2);
    assert_eq!(finished.created_at, Some(1));
    assert_eq!(finished.started_at, Some(1));
    assert!(third.last_finished.is_none() || fourth.last_finished.is_none());
}

/// Arrivals come every tick and each service takes ten ticks.
#[test]
fn test_sysmtem_queue_filled() {
    let mut system = fixed(2, 3, 1, 10);
    let expected: [(u64, usize, usize, usize); 7] = [
        (1, 0, 1, 2),
        (2, 0, 2, 3),
        (3, 1, 2, 3),
        (4, 2, 2, 3),
        (5, 3, 2, 3),
        (6, 3, 2, 3),
        (7, 3, 2, 3),
    ];
    for (tick, waiting, busy, pending) in expected {
        let stats = system.next(UNUSED, UNUSED);
        assert_eq!(stats.current_tick, tick);
        assert_eq!(system.queue_len(), waiting);
        assert_eq!(system.nodes_busy(), busy);
        assert_eq!(system.pending_events(), pending);
        assert_eq!(stats.requests_in_system, waiting + busy);
        assert_eq!(stats.last_finished, None);
    }
}

/// Arrivals come every tick and each service takes five ticks.
#[test]
fn test_system_all_busy_nodes() {
    let mut system = fixed(5, 10, 1, 5);
    for step in 1..=5usize {
        let stats = system.next(UNUSED, UNUSED);
        assert_eq!(stats.current_tick, step as u64);
        assert_eq!(system.queue_len(), 0);
        assert_eq!(system.nodes_busy(), step);
        assert_eq!(system.pending_events(), step + 1);
    }
    let sixth = system.next(UNUSED, UNUSED);
    let seventh = system.next(UNUSED, UNUSED);
    assert_eq!(sixth.current_tick, 6);
    assert_eq!(seventh.current_tick, 6);
    assert_eq!(system.finished_count(), 1);
    assert_eq!(system.nodes_busy(), 5);
    assert_eq!(system.queue_len(), 0);
}

#[test]
fn exponential_draws_set_the_times() {
    let mut system = System::new(
        1,
        4,
        ConsumingDistribution::Exponential { mean: 3 },
        ProducingDistribution::Exponential { mean: 2 },
    );
    // First arrival at 7 with 5 ticks of service; its successor 4 ticks later.
    let stats = system.next(
        Draw { inter_arrival: 7, service: 5 },
        Draw { inter_arrival: 4, service: 9 },
    );
    assert_eq!(stats, Stats { current_tick: 7, requests_in_system: 1, last_finished: None });
    // Arrival at 11 waits; the opening draw is left unused.
    let stats = system.next(
        Draw { inter_arrival: 100, service: 100 },
        Draw { inter_arrival: 10, service: 1 },
    );
    assert_eq!(stats, Stats { current_tick: 11, requests_in_system: 2, last_finished: None });
    assert_eq!(system.queue_len(), 1);
    // Departure of the first request at 7 + 5 = 12; the second starts then.
    let stats = system.next(UNUSED, UNUSED);
    assert_eq!(stats.current_tick, 12);
    assert_eq!(stats.requests_in_system, 1);
    let first = stats.last_finished.unwrap();
    assert_eq!((first.id, first.time_to_finish), (0, 5));
    assert_eq!((first.created_at, first.started_at), (Some(7), Some(7)));
    // The second request needs 9 ticks from 12, the third arrives at 21.
    let stats = system.next(UNUSED, Draw { inter_arrival: 1, service: 1 });
    assert_eq!(stats.current_tick, 21);
    let mut seen = vec![stats];
    seen.push(system.next(UNUSED, Draw { inter_arrival: 50, service: 1 }));
    assert_eq!(seen[1].current_tick, 21);
    let second = seen[0].last_finished.or(seen[1].last_finished).unwrap();
    assert_eq!((second.id, second.time_to_finish), (1, 9));
    assert_eq!((second.created_at, second.started_at), (Some(11), Some(12)));
    assert_eq!(second.waiting_time(), Some(1));
}

#[test]
fn population_stays_within_nodes_and_places() {
    let mut system = fixed(2, 3, 1, 7);
    for _ in 0..200 {
        let stats = system.next(UNUSED, UNUSED);
        assert!(stats.requests_in_system <= 2 + 3);
        assert_eq!(stats.requests_in_system, system.nodes_busy() + system.queue_len());
        assert!(system.nodes_busy() <= 2);
        assert!(system.queue_len() <= 3);
    }
}

#[test]
fn clock_never_goes_back() {
    let mut system = System::new(
        2,
        2,
        ConsumingDistribution::Exponential { mean: 5 },
        ProducingDistribution::Exponential { mean: 5 },
    );
    let mut seed: u64 = 99;
    let mut last = 0u64;
    for _ in 0..500 {
        seed = seed.wrapping_mul(6364136223846793005).wrapping_add(1442695040888963407);
        let opening = Draw { inter_arrival: (seed >> 60) + 1, service: (seed >> 56) & 15 };
        let following = Draw { inter_arrival: (seed >> 50) & 7, service: (seed >> 40) & 31 };
        let stats = system.next(opening, following);
        assert!(stats.current_tick >= last);
        last = stats.current_tick;
        if let Some(request) = stats.last_finished {
            assert!(request.started_at.unwrap() >= request.created_at.unwrap());
            assert!(request.started_at.unwrap() <= stats.current_tick);
        }
    }
}

#[test]
fn departures_scheduled_match_busy_nodes() {
    let mut system = fixed(3, 2, 2, 9);
    for _ in 0..100 {
        system.next(UNUSED, UNUSED);
        // One arrival is always scheduled; the rest are departures.
        assert_eq!(system.pending_events(), system.nodes_busy() + 1);
    }
}

#[test]
fn no_waiting_room_serves_or_drops() {
    let mut system = fixed(2, 0, 1, 10);
    let mut fired = Vec::new();
    for _ in 0..40 {
        let stats = system.next(UNUSED, UNUSED);
        assert!(stats.requests_in_system <= 2);
        assert_eq!(system.queue_len(), 0);
        fired.push(stats);
    }
    assert_eq!(fired[0].requests_in_system, 1);
    assert_eq!(fired[1].requests_in_system, 2);
    // Arrivals at ticks 3 to 10 find both nodes busy and are lost.
    assert_eq!(fired[2].requests_in_system, 2);
    assert_eq!(fired[9].current_tick, 10);
    assert_eq!(fired[9].requests_in_system, 2);
    assert!(system.finished_count() > 0);
}

#[test]
fn without_nodes_nothing_departs() {
    let mut system = fixed(0, 3, 2, 1);
    for step in 1..=20u64 {
        let stats = system.next(UNUSED, UNUSED);
        assert_eq!(stats.current_tick, 2 * step);
        assert_eq!(stats.last_finished, None);
        assert_eq!(stats.requests_in_system as u64, step.min(3));
        assert_eq!(system.nodes_busy(), 0);
        assert_eq!(system.pending_events(), 1);
    }
    assert_eq!(system.finished_count(), 0);
}

#[test]
fn times_stop_at_the_largest_tick() {
    let mut system = fixed(1, 1, u64::MAX, 5);
    let stats = system.next(UNUSED, UNUSED);
    assert_eq!(stats.current_tick, u64::MAX);
    assert_eq!(stats.requests_in_system, 1);
    let stats = system.next(UNUSED, UNUSED);
    assert_eq!(stats.current_tick, u64::MAX);
}
