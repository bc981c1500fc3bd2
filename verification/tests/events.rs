use queuing_system_modeling::events::{Event, EventType, EventsQueue};
use queuing_system_modeling::request::Request;

fn event(time: u64, id: u64, kind: EventType) -> Event {
    Event { time, request: Request::new(id, 10), kind }
}

#[test]
fn test_events_queue_push_pop() {
    let mut events = EventsQueue::new();
    assert_eq!(events.pop(), None);
    assert!(events.is_empty());

    let event1 = event(5, 0, EventType::Arrival);
    let event2 = event(6, 1, EventType::Departure);
    let event3 = event(10, 2, EventType::Departure);
    let event4 = event(11, 3, EventType::Arrival);

    events.push(event3);
    events.push(event1);
    events.push(event4);
    events.push(event2);

    assert!(!events.is_empty());
    assert_eq!(events.len(), 4);
    assert_eq!(events.pop(), Some(event1));
    assert_eq!(events.pop(), Some(event2));
    assert_eq!(events.pop(), Some(event3));
    assert_eq!(events.pop(), Some(event4));
    assert_eq!(events.pop(), None);
    assert!(events.is_empty());
}

#[test]
fn pops_never_go_back_in_time() {
    let mut events = EventsQueue::new();
    let mut seed: u64 = 12345;
    for id in 0..2000u64 {
        seed = seed.wrapping_mul(6364136223846793005).wrapping_add(1442695040888963407);
        events.push(event(seed >> 40, id, EventType::Arrival));
    }
    let mut last = 0u64;
    let mut popped = 0usize;
    while let Some(next) = events.pop() {
        assert!(next.time >= last);
        last = next.time;
        popped += 1;
    }
    assert_eq!(popped, 2000);
}

#[test]
fn interleaved_pushes_and_pops_keep_every_event() {
    let mut events = EventsQueue::new();
    let mut ids = Vec::new();
    for round in 0..50u64 {
        events.push(event(100 - round, 2 * round, EventType::Arrival));
        events.push(event(100 + round, 2 * round + 1, EventType::Departure));
        let first = events.pop().unwrap();
        assert_eq!(first.time, 100 - round);
        ids.push(first.request.id);
    }
    assert_eq!(events.len(), 50);
    while let Some(next) = events.pop() {
        ids.push(next.request.id);
    }
    ids.sort();
    assert_eq!(ids, (0..100u64).collect::<Vec<u64>>());
}

#[test]
fn equal_times_all_come_out() {
    let mut events = EventsQueue::default();
    for id in 0..10u64 {
        events.push(event(7, id, EventType::Departure));
    }
    let mut seen = Vec::new();
    while let Some(next) = events.pop() {
        assert_eq!(next.time, 7);
        seen.push(next.request.id);
    }
    seen.sort();
    assert_eq!(seen, (0..10u64).collect::<Vec<u64>>());
}

#[test]
fn request_waiting_time() {
    let mut request = Request::new(3, 20);
    assert_eq!(request.id, 3);
    assert_eq!(request.time_to_finish, 20);
    assert_eq!(request.created_at, None);
    assert_eq!(request.started_at, None);
    assert_eq!(request.waiting_time(), None);
    request.created_at = Some(4);
    assert_eq!(request.waiting_time(), None);
    request.started_at = Some(9);
    assert_eq!(request.waiting_time(), Some(5));
    request.started_at = Some(3);
    assert_eq!(request.waiting_time(), None);
}
