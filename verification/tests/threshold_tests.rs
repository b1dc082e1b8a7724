//! Supermajority threshold arithmetic: the smallest weight strictly
//! greater than two thirds of the total, never rounded down to zero.

use hashgraph::registry::ValidatorRegistry;

#[test]
fn total_weight_three_gives_threshold_three() {
    let mut reg = ValidatorRegistry::new();
    reg.register(0);
    reg.register(1);
    reg.register(2);
    assert_eq!(reg.total_weight(), 3);
    assert_eq!(reg.supermajority_threshold(), 3);
}

#[test]
fn total_weight_ten_gives_threshold_seven() {
    let mut reg = ValidatorRegistry::new();
    for c in 0..10u32 {
        reg.register(c);
    }
    assert_eq!(reg.total_weight(), 10);
    assert_eq!(reg.supermajority_threshold(), 7);
}

#[test]
fn weighted_total_ten_gives_threshold_seven() {
    let mut reg = ValidatorRegistry::new();
    reg.register_with_weight(0, 3);
    reg.register_with_weight(1, 3);
    reg.register_with_weight(2, 4);
    assert_eq!(reg.total_weight(), 10);
    assert_eq!(reg.supermajority_threshold(), 7);
}

#[test]
fn small_populations_never_get_a_zero_threshold() {
    let mut reg = ValidatorRegistry::new();
    assert_eq!(reg.supermajority_threshold(), 1);
    reg.register(0);
    assert_eq!(reg.total_weight(), 1);
    assert_eq!(reg.supermajority_threshold(), 1);
    reg.register(1);
    assert_eq!(reg.supermajority_threshold(), 2);
    reg.register(2);
    assert_eq!(reg.supermajority_threshold(), 3);
    reg.register(3);
    assert_eq!(reg.total_weight(), 4);
    assert_eq!(reg.supermajority_threshold(), 3);
}

#[test]
fn registration_is_idempotent() {
    let mut reg = ValidatorRegistry::new();
    reg.register_with_weight(5, 9);
    reg.register_with_weight(5, 2);
    reg.register(5);
    assert_eq!(reg.total_weight(), 9);
    assert_eq!(reg.weight_of(5), Some(9));
    assert_eq!(reg.weight_of(4), None);
    assert!(reg.is_registered(5));
    assert!(!reg.is_registered(6));
}

#[test]
fn validators_listing_is_ascending() {
    let mut reg = ValidatorRegistry::new();
    reg.register_with_weight(9, 2);
    reg.register(3);
    reg.register_with_weight(6, 5);
    assert_eq!(reg.validators(), vec![(3, 1), (6, 5), (9, 2)]);
}

#[test]
fn graph_level_registration_before_consensus() {
    let mut g = hashgraph::graph::Graph::new();
    g.register_validator(0, 3);
    g.register_validator(1, 3);
    g.register_validator(2, 4);
    // Insertion keeps already-registered weights.
    g.add_event(0, None, None, Vec::new()).unwrap();
    assert_eq!(g.validators(), vec![(0, 3), (1, 3), (2, 4)]);
}
