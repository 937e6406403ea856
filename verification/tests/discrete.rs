use ycsb_core::generator::discrete::{Choice, DiscreteGenerator};
use ycsb_core::generator::Generator;

#[test]
fn single_choice_is_always_returned() {
    let mut g = DiscreteGenerator::new(vec![Choice { val: 7u64, weight: 9 }]);
    for _ in 0..200 {
        assert_eq!(g.next(), 7);
    }
}

#[test]
fn zero_weight_choice_is_never_drawn() {
    let mut g = DiscreteGenerator::new(vec![
        Choice { val: 1u64, weight: 0 },
        Choice { val: 2u64, weight: 5 },
        Choice { val: 3u64, weight: 0 },
    ]);
    for _ in 0..200 {
        assert_eq!(g.next(), 2);
    }
}

#[test]
fn weighted_draws_approach_configured_ratio() {
    // Weights 3:1 should give a draw ratio near 3:1 over many draws.
    let mut g = DiscreteGenerator::new(vec![
        Choice { val: 'a', weight: 3 },
        Choice { val: 'b', weight: 1 },
    ]);
    let mut a = 0u64;
    let mut b = 0u64;
    for _ in 0..40000 {
        match g.next() {
            'a' => a += 1,
            'b' => b += 1,
            other => panic!("unexpected outcome {other}"),
        }
    }
    let ratio = a as f64 / b as f64;
    assert!(ratio > 2.6 && ratio < 3.5, "ratio {ratio} far from 3.0");
}

#[test]
fn first_choice_wins_at_boundary_order_kept() {
    // Drawing from two equally weighted outcomes returns only those
    // outcomes.
    let mut g = DiscreteGenerator::new(vec![
        Choice { val: 10u64, weight: 2 },
        Choice { val: 20u64, weight: 2 },
    ]);
    for _ in 0..100 {
        let v = g.next();
        assert!(v == 10 || v == 20);
    }
}
