//! Virtual-voting scenarios with four equal-weight validators
//! (total weight 4, supermajority threshold 3).

use hashgraph::graph::Graph;
use hashgraph::model::FameStatus;

fn push_event(g: &mut Graph, creator: u32, sp: usize, op: usize) -> usize {
    g.add_event(creator, Some(sp), Some(op), Vec::new())
        .expect("event should be accepted")
}

/// Builds a graph where creators 0, 1, 2 gossip among themselves and
/// creator 3's genesis is never referenced.  Identifiers:
/// 1..=4 genesis (creators 0..=3); 5..=12 round-0 fill events;
/// 13 (creator 2), 14 (creator 0), 15 (creator 1) are round-1 witnesses.
fn build_four_validator_graph() -> Graph {
    let mut g = Graph::new();
    for c in 0..4u32 {
        let id = g.add_event(c, None, None, Vec::new()).unwrap();
        assert_eq!(id, (c + 1) as usize);
    }
    assert_eq!(push_event(&mut g, 0, 1, 2), 5);
    assert_eq!(push_event(&mut g, 1, 2, 3), 6);
    assert_eq!(push_event(&mut g, 2, 3, 1), 7);
    assert_eq!(push_event(&mut g, 0, 5, 6), 8);
    assert_eq!(push_event(&mut g, 1, 6, 7), 9);
    assert_eq!(push_event(&mut g, 2, 7, 5), 10);
    assert_eq!(push_event(&mut g, 0, 8, 9), 11);
    assert_eq!(push_event(&mut g, 1, 9, 10), 12);
    g
}

#[test]
fn genesis_events_are_round_zero_witnesses() {
    let g = build_four_validator_graph();
    for id in 1..=4usize {
        assert_eq!(g.round(id).unwrap(), 0);
        assert!(g.is_witness(id).unwrap());
        assert_eq!(g.fame(id).unwrap(), FameStatus::Undetermined);
    }
}

#[test]
fn fill_events_stay_round_zero_non_witnesses() {
    let g = build_four_validator_graph();
    for id in 5..=12usize {
        assert_eq!(g.round(id).unwrap(), 0);
        assert!(!g.is_witness(id).unwrap());
        assert_eq!(g.fame(id).unwrap(), FameStatus::Undetermined);
    }
}

#[test]
fn round_one_witnesses_arise_from_supermajority_strongly_seeing() {
    let mut g = build_four_validator_graph();
    let w13 = push_event(&mut g, 2, 10, 11);
    assert_eq!(w13, 13);
    assert_eq!(g.round(13).unwrap(), 1);
    assert!(g.is_witness(13).unwrap());
    // The new witness strongly sees the well-connected geneses but not the
    // isolated one.
    assert!(g.strongly_sees(13, 1).unwrap());
    assert!(g.strongly_sees(13, 2).unwrap());
    assert!(g.strongly_sees(13, 3).unwrap());
    assert!(!g.strongly_sees(13, 4).unwrap());
}

#[test]
fn two_next_round_witnesses_do_not_decide_fame() {
    let mut g = build_four_validator_graph();
    push_event(&mut g, 2, 10, 11);
    let w14 = push_event(&mut g, 0, 11, 12);
    assert_eq!(w14, 14);
    assert_eq!(g.round(14).unwrap(), 1);
    assert!(g.is_witness(14).unwrap());
    // Only two distinct-creator round-1 witnesses so far: weight 2 < 3.
    for id in 1..=4usize {
        assert_eq!(g.fame(id).unwrap(), FameStatus::Undetermined);
        assert!(!g.is_famous(id).unwrap());
    }
}

#[test]
fn witness_becomes_famous_at_three_seeing_votes() {
    let mut g = build_four_validator_graph();
    push_event(&mut g, 2, 10, 11);
    push_event(&mut g, 0, 11, 12);
    let w15 = push_event(&mut g, 1, 12, 11);
    assert_eq!(w15, 15);
    assert_eq!(g.round(15).unwrap(), 1);
    assert!(g.is_witness(15).unwrap());
    // Three distinct-creator round-1 witnesses strongly see geneses 1-3.
    for id in 1..=3usize {
        assert_eq!(g.fame(id).unwrap(), FameStatus::Famous);
        assert!(g.is_famous(id).unwrap());
    }
}

#[test]
fn witness_becomes_not_famous_at_three_not_seeing_votes() {
    let mut g = build_four_validator_graph();
    push_event(&mut g, 2, 10, 11);
    push_event(&mut g, 0, 11, 12);
    push_event(&mut g, 1, 12, 11);
    // All three round-1 witnesses definitively fail to strongly see the
    // isolated genesis of creator 3: the weight-based not-see tally
    // reaches the threshold.
    assert_eq!(g.fame(4).unwrap(), FameStatus::NotFamous);
    assert!(!g.is_famous(4).unwrap());
}

#[test]
fn decided_fame_never_changes() {
    let mut g = build_four_validator_graph();
    push_event(&mut g, 2, 10, 11);
    push_event(&mut g, 0, 11, 12);
    push_event(&mut g, 1, 12, 11);
    let famous_before: Vec<FameStatus> = (1..=4).map(|id| g.fame(id).unwrap()).collect();
    assert_eq!(famous_before[0], FameStatus::Famous);
    assert_eq!(famous_before[3], FameStatus::NotFamous);
    // Grow the graph further; decided verdicts must be permanent.
    push_event(&mut g, 2, 13, 14);
    push_event(&mut g, 0, 14, 15);
    push_event(&mut g, 1, 15, 13);
    for id in 1..=4usize {
        assert_eq!(g.fame(id).unwrap(), famous_before[id - 1]);
    }
}

#[test]
fn fame_verdict_recomputation_matches_stored_fame() {
    let mut g = build_four_validator_graph();
    push_event(&mut g, 2, 10, 11);
    push_event(&mut g, 0, 11, 12);
    push_event(&mut g, 1, 12, 11);
    for id in 1..=4usize {
        assert_eq!(g.fame_verdict(id).unwrap(), g.fame(id).unwrap());
    }
}

#[test]
fn witness_flag_matches_round_characterization() {
    let mut g = build_four_validator_graph();
    push_event(&mut g, 2, 10, 11);
    push_event(&mut g, 0, 11, 12);
    push_event(&mut g, 1, 12, 11);
    for id in 1..=g.event_count() {
        let rec = g.get(id).unwrap();
        let witness = g.is_witness(id).unwrap();
        if rec.genesis {
            assert!(witness);
        } else {
            let mut base = g.round(rec.self_parent.unwrap()).unwrap();
            if let Some(op) = rec.other_parent {
                base = base.max(g.round(op).unwrap());
            }
            assert_eq!(witness, g.round(id).unwrap() > base);
        }
    }
}
