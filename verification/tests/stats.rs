use queuing_system_modeling::request::Request;
use queuing_system_modeling::stats::SysState;

fn served(id: u64, created: u64, started: u64) -> Request {
    let mut request = Request::new(id, 1);
    request.created_at = Some(created);
    request.started_at = Some(started);
    request
}

#[test]
fn no_observation_no_means() {
    let state = SysState::new();
    assert_eq!(state, SysState::default());
    assert_eq!(state.time(), 0);
    assert_eq!(state.requests_in_system(), 0);
    assert_eq!(state.waiting_total(), 0);
    assert_eq!(state.finished_requests(), 0);
    assert_eq!(state.population_total(), 0);
    assert_eq!(state.iterations(), 0);
    assert_eq!(state.waiting_mean(), 0);
}

#[test]
fn means_are_sums_over_counts() {
    let samples: [usize; 6] = [1, 2, 3, 2, 7, 0];
    let mut state = SysState::new();
    let mut sum = 0u128;
    for (i, sample) in samples.iter().enumerate() {
        state.update(10 * i as u64, *sample, None);
        sum += *sample as u128;
        assert_eq!(state.population_total(), sum);
        assert_eq!(state.iterations(), i as u64 + 1);
        assert_eq!(state.requests_in_system(), *sample);
        assert_eq!(state.time(), 10 * i as u64);
    }
    assert_eq!(state.population_total(), 15);
    assert_eq!(state.iterations(), 6);
    assert_eq!(state.finished_requests(), 0);
    let mean = state.population_total() as f64 / state.iterations() as f64;
    assert!((mean - 2.5).abs() < 1e-12);
}

#[test]
fn running_mean_formula() {
    // mean_n = (mean_(n-1) * (n - 1) + x_n) / n, in floating point, stays
    // within rounding of the exact fraction.
    let mut state = SysState::new();
    let mut running = 0.0f64;
    let mut seed: u64 = 7;
    for n in 1..=1000u64 {
        seed = seed.wrapping_mul(6364136223846793005).wrapping_add(1442695040888963407);
        let sample = (seed >> 58) as usize;
        state.update(n, sample, None);
        running = (running * (n - 1) as f64 + sample as f64) / n as f64;
        let exact = state.population_total() as f64 / state.iterations() as f64;
        assert!((running - exact).abs() < 1e-9);
    }
}

#[test]
fn waits_of_finished_requests() {
    let mut state = SysState::new();
    state.update(5, 1, Some(served(0, 2, 5)));
    assert_eq!(state.waiting_total(), 3);
    assert_eq!(state.finished_requests(), 1);
    assert_eq!(state.waiting_mean(), 3);
    state.update(14, 2, Some(served(1, 10, 14)));
    assert_eq!(state.waiting_total(), 7);
    assert_eq!(state.finished_requests(), 2);
    assert_eq!(state.waiting_mean(), 3);
    state.update(15, 2, None);
    assert_eq!(state.waiting_total(), 7);
    assert_eq!(state.finished_requests(), 2);
    state.update(20, 0, Some(served(2, 20, 20)));
    assert_eq!(state.waiting_total(), 7);
    assert_eq!(state.finished_requests(), 3);
    assert_eq!(state.waiting_mean(), 2);
    assert_eq!(state.iterations(), 4);
    assert_eq!(state.population_total(), 5);
    assert_eq!(state.time(), 20);
}

#[test]
fn largest_samples_fit() {
    let mut state = SysState::new();
    for _ in 0..3 {
        state.update(u64::MAX, usize::MAX, Some(served(0, 0, u64::MAX)));
    }
    assert_eq!(state.waiting_total(), 3 * u64::MAX as u128);
    assert_eq!(state.population_total(), 3 * usize::MAX as u128);
    assert_eq!(state.waiting_mean(), u64::MAX);
}
