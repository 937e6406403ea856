use ycsb_core::generator::acknowledge::AcknowledgedUsizeCounter;
use ycsb_core::generator::constant::ConstantUsizeGenerator;
use ycsb_core::generator::counter::UsizeCounter;
use ycsb_core::generator::sequential::SequentialUsizeGenerator;
use ycsb_core::generator::uniform::UniformUsizeGenerator;
use ycsb_core::generator::{AcknowledgedCounter, Counter, Generator};

#[test]
fn constant_generator_always_returns_its_value() {
    let mut g = ConstantUsizeGenerator::new(42);
    for _ in 0..100 {
        assert_eq!(g.next(), 42);
    }
}

#[test]
fn uniform_generator_stays_in_bounds() {
    let mut g = UniformUsizeGenerator::new(3, 9);
    for _ in 0..1000 {
        let v = g.next();
        assert!(v >= 3, "draw {v} below lower bound");
        assert!(v <= 9, "draw {v} above upper bound");
    }
}

#[test]
fn uniform_generator_degenerate_range_is_constant() {
    let mut g = UniformUsizeGenerator::new(5, 5);
    for _ in 0..50 {
        assert_eq!(g.next(), 5);
    }
}

#[test]
fn uniform_generator_mean_converges() {
    // Empirical mean over many draws approaches (lower + upper) / 2.
    let mut g = UniformUsizeGenerator::new(0, 100);
    let mut sum: f64 = 0.0;
    let n = 20000;
    for _ in 0..n {
        sum += g.next() as f64;
    }
    let mean = sum / n as f64;
    assert!((mean - 50.0).abs() < 3.0, "empirical mean {mean} far from 50");
}

#[test]
fn sequential_generator_follows_formula() {
    let start = 3usize;
    let end = 7usize;
    let range = end - start + 1;
    let mut g = SequentialUsizeGenerator::new(start, end);
    // The tally begins at `start` itself.
    for i in 0..20usize {
        let expected = start + ((start + i) % range);
        assert_eq!(g.next(), expected, "draw {i}");
    }
}

#[test]
fn sequential_values_distinct_within_period() {
    let mut g = SequentialUsizeGenerator::new(10, 14);
    let mut seen = Vec::new();
    for _ in 0..5 {
        let v = g.next();
        assert!(!seen.contains(&v), "value {v} repeated within one period");
        seen.push(v);
    }
}

#[test]
fn counter_issues_consecutive_distinct_values() {
    let mut c = UsizeCounter::new(10);
    let mut prev = None;
    for i in 0..10usize {
        let v = c.next();
        assert_eq!(v, 10 + i);
        if let Some(p) = prev {
            assert_ne!(v, p);
        }
        prev = Some(v);
    }
    assert_eq!(c.last(), 19);
}

#[test]
fn counter_last_tracks_latest_draw() {
    let mut c = UsizeCounter::new(0);
    for i in 0..5usize {
        let v = c.next();
        assert_eq!(v, i);
        assert_eq!(c.last(), v);
    }
}

#[test]
fn acknowledged_counter_issues_increasing_numbers() {
    let mut c = AcknowledgedUsizeCounter::new(100);
    let mut prev = c.next();
    for _ in 0..20 {
        let v = c.next();
        assert!(v > prev);
        prev = v;
    }
}
