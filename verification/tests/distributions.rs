use queuing_system_modeling::distributions::{ConsumingDistribution, ProducingDistribution};
use rand_distr::{Distribution, Exp};

const TICKS_PER_SECOND: f64 = 1_000_000.0;

#[test]
fn test_check_distribution() {
    let mut rng = rand::thread_rng();
    let lambda = 100.0;

    let dstr = ConsumingDistribution::Exponential { mean: (TICKS_PER_SECOND / lambda) as u64 };
    let exp = Exp::new(lambda).unwrap();
    let samples_number = 1000;

    let sum = (0..samples_number)
        .map(|_| {
            let variate: f64 = exp.sample(&mut rng);
            dstr.sample((variate * TICKS_PER_SECOND) as u64) as f64 / TICKS_PER_SECOND
        })
        .fold(0.0, |acc, x| acc + x);

    let avg = sum / samples_number as f64;
    let expected = 1.0 / lambda;

    assert!(
        (avg - expected).abs() < 1.0,
        "average should be nearly equal to expected, avg = {}, expected = {}",
        avg,
        expected
    );
    assert!((avg - expected).abs() < 0.005);
}

#[test]
fn degenerate_ignores_the_variate() {
    let service = ConsumingDistribution::Degenerate { value: 20 };
    assert_eq!(service.sample(0), 20);
    assert_eq!(service.sample(7), 20);
    assert_eq!(service.sample(u64::MAX), 20);
    let arrival = ProducingDistribution::Degenerate { value: 1 };
    assert_eq!(arrival.sample(0), 1);
    assert_eq!(arrival.sample(12345), 1);
}

#[test]
fn exponential_hands_the_variate_on() {
    let service = ConsumingDistribution::Exponential { mean: 20 };
    assert_eq!(service.sample(0), 0);
    assert_eq!(service.sample(7), 7);
    assert_eq!(service.sample(u64::MAX), u64::MAX);
    let arrival = ProducingDistribution::Exponential { mean: 3 };
    assert_eq!(arrival.sample(1), 1);
    assert_eq!(arrival.sample(99), 99);
}

#[test]
fn parameters_must_be_positive() {
    assert!(ConsumingDistribution::Exponential { mean: 1 }.is_well_formed());
    assert!(!ConsumingDistribution::Exponential { mean: 0 }.is_well_formed());
    assert!(ConsumingDistribution::Degenerate { value: 9 }.is_well_formed());
    assert!(!ConsumingDistribution::Degenerate { value: 0 }.is_well_formed());
    assert!(ProducingDistribution::Exponential { mean: 1 }.is_well_formed());
    assert!(!ProducingDistribution::Exponential { mean: 0 }.is_well_formed());
    assert!(ProducingDistribution::Degenerate { value: 9 }.is_well_formed());
    assert!(!ProducingDistribution::Degenerate { value: 0 }.is_well_formed());
}
