//! Laws of the consensus graph, stated over the graph model and proved
//! from the well-formedness invariant that every operation of the library
//! establishes and preserves.

use vstd::prelude::*;
use crate::model::GraphView;

verus! {

/// No event is its own causal ancestor: every ancestor of an event was
/// assigned a strictly smaller identifier.
pub proof fn lemma_no_self_ancestor(g: GraphView, e: int)
    requires
        g.wf(),
        g.valid_id(e),
    ensures
        !g.is_ancestor(e, e),
{
    assert(g.event_wf(e));
}

/// Ancestor membership is transitive: an ancestor of an ancestor of `x` is
/// an ancestor of `x`.
pub proof fn lemma_ancestor_transitive(g: GraphView, x: int, y: int, z: int)
    requires
        g.wf(),
        g.valid_id(x),
        g.is_ancestor(x, y),
        g.is_ancestor(y, z),
    ensures
        g.is_ancestor(x, z),
{
    assert(g.event_wf(x));
    assert(g.event(y).ancestors.subset_of(g.event(x).ancestors));
}

/// Rounds never decrease along parent edges: an event's round is at least
/// the round of each of its parents.
pub proof fn lemma_round_monotone(g: GraphView, e: int, p: int)
    requires
        g.wf(),
        g.valid_id(e),
        g.event(e).self_parent == Some(p) || g.event(e).other_parent == Some(p),
    ensures
        g.event(e).round >= g.event(p).round,
{
    assert(g.event_wf(e));
}

/// Witness characterization: an event is a witness exactly when it is a
/// genesis event or its round exceeds the maximum round of its parents.
pub proof fn lemma_witness_characterization(g: GraphView, e: int)
    requires
        g.wf(),
        g.valid_id(e),
    ensures
        g.event(e).witness <==> (g.event(e).genesis || (!g.event(e).genesis && g.event(e).round
            > g.parent_round_base(e))),
{
    assert(g.event_wf(e));
}

} // verus!
