//! Ancestry maintenance: the expected ancestor relation of a small graph,
//! the irreflexivity and transitivity of ancestry on concrete data, and
//! the explicit failure of queries against unknown identifiers.

use hashgraph::graph::Graph;
use hashgraph::model::ConsensusError;

/// Two genesis events from creators 0 and 1 (identifiers 1, 2); an event
/// from creator 2 with self-parent 1 and other-parent 2 (identifier 3);
/// an event from creator 1 with self-parent 2 and other-parent 3
/// (identifier 4).
fn build_small_graph() -> Graph {
    let mut g = Graph::new();
    assert_eq!(g.add_event(0, None, None, Vec::new()).unwrap(), 1);
    assert_eq!(g.add_event(1, None, None, Vec::new()).unwrap(), 2);
    assert_eq!(g.add_event(2, Some(1), Some(2), Vec::new()).unwrap(), 3);
    assert_eq!(g.add_event(1, Some(2), Some(3), Vec::new()).unwrap(), 4);
    g
}

#[test]
fn expected_ancestor_relation() {
    let g = build_small_graph();
    assert_eq!(g.ancestors(1).unwrap(), Vec::<usize>::new());
    assert_eq!(g.ancestors(2).unwrap(), Vec::<usize>::new());
    assert_eq!(g.ancestors(3).unwrap(), vec![1, 2]);
    assert_eq!(g.ancestors(4).unwrap(), vec![1, 2, 3]);
}

#[test]
fn no_event_is_its_own_ancestor() {
    let g = build_small_graph();
    for id in 1..=4usize {
        assert!(!g.is_ancestor(id, id).unwrap());
    }
}

#[test]
fn ancestry_is_transitive_on_concrete_events() {
    let g = build_small_graph();
    // 3 is an ancestor of 4 and 1 is an ancestor of 3, so 1 is an
    // ancestor of 4.
    assert!(g.is_ancestor(4, 3).unwrap());
    assert!(g.is_ancestor(3, 1).unwrap());
    assert!(g.is_ancestor(4, 1).unwrap());
}

#[test]
fn ancestor_bit_test_matches_listing() {
    let g = build_small_graph();
    for x in 1..=4usize {
        let listed = g.ancestors(x).unwrap();
        for y in 1..=4usize {
            assert_eq!(g.is_ancestor(x, y).unwrap(), listed.contains(&y));
        }
    }
}

#[test]
fn queries_fail_explicitly_for_unknown_ids() {
    let g = build_small_graph();
    assert_eq!(g.ancestors(0).unwrap_err(), ConsensusError::UnknownEvent);
    assert_eq!(g.ancestors(5).unwrap_err(), ConsensusError::UnknownEvent);
    assert_eq!(g.is_ancestor(0, 1).unwrap_err(), ConsensusError::UnknownEvent);
    assert_eq!(g.is_ancestor(1, 5).unwrap_err(), ConsensusError::UnknownEvent);
    assert_eq!(g.round(5).unwrap_err(), ConsensusError::UnknownEvent);
    assert_eq!(g.is_witness(5).unwrap_err(), ConsensusError::UnknownEvent);
    assert_eq!(g.fame(5).unwrap_err(), ConsensusError::UnknownEvent);
    assert_eq!(g.is_famous(5).unwrap_err(), ConsensusError::UnknownEvent);
    assert_eq!(g.strongly_sees(5, 1).unwrap_err(), ConsensusError::UnknownEvent);
    assert_eq!(g.fame_verdict(5).unwrap_err(), ConsensusError::UnknownEvent);
    assert_eq!(g.creator_of(5).unwrap_err(), ConsensusError::UnknownEvent);
}

#[test]
fn rounds_never_decrease_along_parent_edges() {
    let g = build_small_graph();
    // Event 3 has parents 1 and 2; event 4 has parents 2 and 3.
    assert!(g.round(3).unwrap() >= g.round(1).unwrap());
    assert!(g.round(3).unwrap() >= g.round(2).unwrap());
    assert!(g.round(4).unwrap() >= g.round(2).unwrap());
    assert!(g.round(4).unwrap() >= g.round(3).unwrap());
}

#[test]
fn creators_are_recorded() {
    let g = build_small_graph();
    assert_eq!(g.creator_of(1).unwrap(), 0);
    assert_eq!(g.creator_of(2).unwrap(), 1);
    assert_eq!(g.creator_of(3).unwrap(), 2);
    assert_eq!(g.creator_of(4).unwrap(), 1);
}
