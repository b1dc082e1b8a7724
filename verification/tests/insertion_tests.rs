//! Insertion validation: rejected parent references, duplicate genesis
//! events, atomicity of failures, and deterministic replay.

use hashgraph::graph::Graph;
use hashgraph::model::ConsensusError;

#[test]
fn self_parent_at_or_after_prospective_id_is_rejected() {
    let mut g = Graph::new();
    g.add_event(0, None, None, Vec::new()).unwrap();
    g.add_event(1, None, None, Vec::new()).unwrap();
    let size_before = g.event_count();
    // The prospective identifier is 3; a self-parent of 3 (or more) is not
    // causally prior.
    let r = g.add_event(2, Some(3), None, Vec::new());
    assert_eq!(r.unwrap_err(), ConsensusError::InvalidParent);
    assert_eq!(g.event_count(), size_before);
    let r = g.add_event(2, Some(7), None, Vec::new());
    assert_eq!(r.unwrap_err(), ConsensusError::InvalidParent);
    assert_eq!(g.event_count(), size_before);
}

#[test]
fn zero_and_unknown_parents_are_rejected() {
    let mut g = Graph::new();
    g.add_event(0, None, None, Vec::new()).unwrap();
    assert_eq!(
        g.add_event(1, Some(0), None, Vec::new()).unwrap_err(),
        ConsensusError::InvalidParent
    );
    assert_eq!(
        g.add_event(1, Some(1), Some(2), Vec::new()).unwrap_err(),
        ConsensusError::InvalidParent
    );
    assert_eq!(g.event_count(), 1);
}

#[test]
fn genesis_with_other_parent_is_rejected() {
    let mut g = Graph::new();
    g.add_event(0, None, None, Vec::new()).unwrap();
    assert_eq!(
        g.add_event(1, None, Some(1), Vec::new()).unwrap_err(),
        ConsensusError::InvalidParent
    );
    assert_eq!(g.event_count(), 1);
}

#[test]
fn second_genesis_from_same_creator_is_rejected() {
    let mut g = Graph::new();
    g.add_event(7, None, None, Vec::new()).unwrap();
    assert_eq!(
        g.add_event(7, None, None, Vec::new()).unwrap_err(),
        ConsensusError::DuplicateGenesis
    );
    assert_eq!(g.event_count(), 1);
    // A different creator is still welcome.
    assert_eq!(g.add_event(8, None, None, Vec::new()).unwrap(), 2);
}

#[test]
fn identifiers_are_sequential_from_one() {
    let mut g = Graph::new();
    assert_eq!(g.add_event(0, None, None, Vec::new()).unwrap(), 1);
    assert_eq!(g.add_event(1, None, None, Vec::new()).unwrap(), 2);
    assert_eq!(g.add_event(0, Some(1), Some(2), Vec::new()).unwrap(), 3);
    assert_eq!(g.event_count(), 3);
}

#[test]
fn replay_is_deterministic() {
    let build = || {
        let mut g = Graph::new();
        g.add_event(0, None, None, vec![1, 2, 3]).unwrap();
        g.add_event(1, None, None, Vec::new()).unwrap();
        g.add_event(2, None, None, vec![9]).unwrap();
        g.add_event(0, Some(1), Some(2), Vec::new()).unwrap();
        g.add_event(1, Some(2), Some(4), vec![5]).unwrap();
        g.add_event(2, Some(3), Some(5), Vec::new()).unwrap();
        g
    };
    let a = build();
    let b = build();
    assert_eq!(a.event_count(), b.event_count());
    for id in 1..=a.event_count() {
        assert_eq!(a.round(id).unwrap(), b.round(id).unwrap());
        assert_eq!(a.is_witness(id).unwrap(), b.is_witness(id).unwrap());
        assert_eq!(a.fame(id).unwrap(), b.fame(id).unwrap());
        assert_eq!(a.ancestors(id).unwrap(), b.ancestors(id).unwrap());
        assert_eq!(a.creator_of(id).unwrap(), b.creator_of(id).unwrap());
    }
    assert_eq!(a.validators(), b.validators());
}

#[test]
fn validators_are_registered_on_insertion() {
    let mut g = Graph::new();
    g.add_event(3, None, None, Vec::new()).unwrap();
    g.add_event(1, None, None, Vec::new()).unwrap();
    g.add_event(1, Some(1), Some(2), Vec::new()).unwrap();
    let vs = g.validators();
    assert_eq!(vs, vec![(1, 1), (3, 1)]);
}

#[test]
fn stored_records_are_retrievable() {
    let mut g = Graph::new();
    g.add_event(4, None, None, vec![10, 20]).unwrap();
    g.add_event(5, None, None, Vec::new()).unwrap();
    g.add_event(4, Some(1), Some(2), vec![7]).unwrap();
    let rec = g.get(1).unwrap();
    assert_eq!(rec.creator, 4);
    assert_eq!(rec.self_parent, None);
    assert_eq!(rec.other_parent, None);
    assert_eq!(rec.payload, vec![10, 20]);
    assert!(rec.genesis);
    let rec = g.get(3).unwrap();
    assert_eq!(rec.creator, 4);
    assert_eq!(rec.self_parent, Some(1));
    assert_eq!(rec.other_parent, Some(2));
    assert_eq!(rec.payload, vec![7]);
    assert!(!rec.genesis);
    assert_eq!(g.get(4).unwrap_err(), ConsensusError::UnknownEvent);
    assert_eq!(g.get(0).unwrap_err(), ConsensusError::UnknownEvent);
}
