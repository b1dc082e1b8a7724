//! Mathematical model of the consensus DAG: the per-event record, the view
//! of the whole graph, and the spec-level definitions of ancestry, the
//! stake-weighted strongly-see relation, witness support, and fame.
//!
//! Event identifiers are the positive integers, assigned sequentially from 1
//! at insertion; a parent's identifier is always strictly smaller than its
//! child's.

use vstd::prelude::*;
use crate::registry::{sum_if, threshold_of, total_weight_of, registered};

verus! {

/// Finality verdict of a witness, decided by virtual voting.  It is
/// meaningful only for witnesses and transitions at most once, from
/// `Undetermined` to a decided value.
#[derive(Clone, Copy, Debug, PartialEq, Eq, Structural)]
pub enum FameStatus {
    Undetermined,
    Famous,
    NotFamous,
}

/// The error taxonomy of the core.  Insertion failures are atomic and
/// queries never substitute defaults for missing identifiers.
#[derive(Clone, Copy, Debug, PartialEq, Eq, Structural)]
pub enum ConsensusError {
    /// A referenced parent identifier is unknown or not causally prior.
    InvalidParent,
    /// A second genesis event from the same creator.
    DuplicateGenesis,
    /// A query against a nonexistent event identifier.
    UnknownEvent,
}

/// One immutable event record together with its derived consensus state.
pub ghost struct EventView {
    pub genesis: bool,
    pub creator: u32,
    /// Identifier of the self-parent; `None` exactly for genesis events.
    pub self_parent: Option<int>,
    /// Identifier of the optional other-parent.
    pub other_parent: Option<int>,
    /// Opaque ordered payload of transactions.
    pub payload: Seq<u32>,
    /// Round assigned at insertion.
    pub round: int,
    /// Witness flag assigned at insertion.
    pub witness: bool,
    /// Current fame verdict.
    pub fame: FameStatus,
    /// The set of identifiers of all causal ancestors, fixed at insertion.
    pub ancestors: Set<int>,
}

/// The whole consensus state: the event arena (index `k` holds the event
/// with identifier `k + 1`) and the validator registry slots.
pub ghost struct GraphView {
    pub events: Seq<EventView>,
    pub weights: Seq<Option<u32>>,
}

impl GraphView {
    /// Number of events stored so far.
    pub open spec fn event_count(self) -> int {
        self.events.len() as int
    }

    /// `id` names an event stored in the arena.
    pub open spec fn valid_id(self, id: int) -> bool {
        1 <= id <= self.events.len()
    }

    /// The event with identifier `id`.
    pub open spec fn event(self, id: int) -> EventView {
        self.events[id - 1]
    }

    /// `y` is a causal ancestor of `x`.
    pub open spec fn is_ancestor(self, x: int, y: int) -> bool {
        self.event(x).ancestors.contains(y)
    }

    pub open spec fn total_weight(self) -> int {
        total_weight_of(self.weights)
    }

    /// The supermajority threshold of the current validator population.
    pub open spec fn threshold(self) -> int {
        threshold_of(self.weights)
    }

    /// The maximum round among the parents of the non-genesis event `id`.
    pub open spec fn parent_round_base(self, id: int) -> int {
        let e = self.event(id);
        let sp_round = self.event(e.self_parent->0).round;
        match e.other_parent {
            Some(op) => if self.event(op).round > sp_round {
                self.event(op).round
            } else {
                sp_round
            },
            None => sp_round,
        }
    }

    /// The ancestor set dictated by the parents of the non-genesis event
    /// `id`: both parents' ancestor sets plus the parents themselves.
    pub open spec fn parent_ancestors(self, id: int) -> Set<int> {
        let e = self.event(id);
        let sp = e.self_parent->0;
        let from_sp = self.event(sp).ancestors.insert(sp);
        match e.other_parent {
            Some(op) => from_sp.union(self.event(op).ancestors.insert(op)),
            None => from_sp,
        }
    }

    /// Validator `c` has, among the events with identifier at most `hi`,
    /// some event on a path from `x` back to `y` through its own lineage.
    pub open spec fn links_within(self, x: int, y: int, c: int, hi: int) -> bool {
        exists|a: int|
            #![trigger self.event(a)]
            1 <= a <= hi && (a == x || self.is_ancestor(x, a)) && (a == y || self.is_ancestor(
                a,
                y,
            )) && self.event(a).creator as int == c
    }

    /// Validator `c` has some event on a path from `x` back to `y` through
    /// its own lineage: an event `a` in `ancestors(x) + {x}` of creator `c`
    /// with `y` in `ancestors(a) + {a}`.
    pub open spec fn links(self, x: int, y: int, c: int) -> bool {
        self.links_within(x, y, c, self.event_count())
    }

    /// Combined stake weight of the validators with a route from `x` to `y`.
    pub open spec fn sees_weight(self, x: int, y: int) -> int {
        sum_if(self.weights, |c: int| self.links(x, y, c))
    }

    /// A supermajority of stake lies on ancestor paths from `x` back to `y`.
    pub open spec fn strongly_sees(self, x: int, y: int) -> bool {
        self.sees_weight(x, y) >= self.threshold()
    }

    /// Validator `c` created, among the events with identifier at most
    /// `hi`, a witness of round `base` that `x` strongly sees.
    pub open spec fn witness_vote_within(self, x: int, base: int, c: int, hi: int) -> bool {
        exists|w: int|
            #![trigger self.event(w)]
            1 <= w <= hi && self.event(w).witness && self.event(w).round == base && self.event(
                w,
            ).creator as int == c && self.strongly_sees(x, w)
    }

    /// Validator `c` created a witness of round `base` that `x` strongly
    /// sees.
    pub open spec fn witness_vote(self, x: int, base: int, c: int) -> bool {
        self.witness_vote_within(x, base, c, self.event_count())
    }

    /// Combined stake weight behind the round-`base` witnesses that `x`
    /// strongly sees, counted once per distinct creator.
    pub open spec fn witness_support(self, x: int, base: int) -> int {
        sum_if(self.weights, |c: int| self.witness_vote(x, base, c))
    }

    /// Validator `c` created, among the events with identifier at most
    /// `hi`, a witness of the round after `w`'s that casts a "see" vote for
    /// `w`.
    pub open spec fn sees_vote_within(self, w: int, c: int, hi: int) -> bool {
        exists|v: int|
            #![trigger self.event(v)]
            1 <= v <= hi && self.event(v).witness && self.event(v).round == self.event(w).round
                + 1 && self.event(v).creator as int == c && self.strongly_sees(v, w)
    }

    /// Validator `c` created a witness of the round after `w`'s that casts a
    /// "see" vote for `w`.
    pub open spec fn sees_vote(self, w: int, c: int) -> bool {
        self.sees_vote_within(w, c, self.event_count())
    }

    /// Validator `c` created, among the events with identifier at most
    /// `hi`, a witness of the round after `w`'s that casts a "not-see" vote
    /// for `w`.
    pub open spec fn not_sees_vote_within(self, w: int, c: int, hi: int) -> bool {
        exists|v: int|
            #![trigger self.event(v)]
            1 <= v <= hi && self.event(v).witness && self.event(v).round == self.event(w).round
                + 1 && self.event(v).creator as int == c && !self.strongly_sees(v, w)
    }

    /// Validator `c` created a witness of the round after `w`'s that casts a
    /// "not-see" vote for `w`.
    pub open spec fn not_sees_vote(self, w: int, c: int) -> bool {
        self.not_sees_vote_within(w, c, self.event_count())
    }

    /// Stake weight of the "see" side of the virtual vote on `w`.
    pub open spec fn see_weight(self, w: int) -> int {
        sum_if(self.weights, |c: int| self.sees_vote(w, c))
    }

    /// Stake weight of the "not-see" side of the virtual vote on `w`.
    pub open spec fn not_see_weight(self, w: int) -> int {
        sum_if(self.weights, |c: int| self.not_sees_vote(w, c))
    }

    /// The virtual-voting verdict on the witness `w`, from the votes of the
    /// witnesses one round later: Famous when a supermajority of stake casts
    /// "see", NotFamous when a supermajority casts "not-see", otherwise
    /// still undetermined.
    pub open spec fn fame_verdict(self, w: int) -> FameStatus {
        if self.see_weight(w) >= self.threshold() {
            FameStatus::Famous
        } else if self.not_see_weight(w) >= self.threshold() {
            FameStatus::NotFamous
        } else {
            FameStatus::Undetermined
        }
    }

    /// Everything that holds of a single stored event.
    pub open spec fn event_wf(self, id: int) -> bool {
        let e = self.event(id);
        &&& (e.genesis <==> e.self_parent is None)
        &&& (e.genesis ==> e.other_parent is None)
        &&& (e.genesis ==> e.round == 0 && e.witness && e.ancestors == Set::<int>::empty())
        &&& (e.self_parent matches Some(sp) ==> 1 <= sp < id)
        &&& (e.other_parent matches Some(op) ==> 1 <= op < id)
        &&& (!e.genesis ==> e.ancestors == self.parent_ancestors(id))
        &&& (!e.genesis ==> e.round == self.parent_round_base(id) + if e.witness {
            1int
        } else {
            0int
        })
        &&& 0 <= e.round < id
        &&& (!e.witness ==> e.fame is Undetermined)
        &&& registered(self.weights, e.creator as int)
        &&& forall|j: int| #[trigger] e.ancestors.contains(j) ==> 1 <= j < id
        &&& forall|j: int|
            #[trigger] e.ancestors.contains(j) ==> self.event(j).ancestors.subset_of(e.ancestors)
    }

    /// Well-formedness of the whole graph.
    pub open spec fn wf(self) -> bool {
        forall|id: int| self.valid_id(id) ==> #[trigger] self.event_wf(id)
    }

    /// The parent references of a submitted event are rejected: a
    /// parentless (genesis) event may not carry an other-parent, and every
    /// referenced parent must already be stored (and hence causally prior
    /// to the identifier about to be assigned).
    pub open spec fn parents_invalid(self, sp: Option<usize>, op: Option<usize>) -> bool {
        match sp {
            None => op is Some,
            Some(s) => !self.valid_id(s as int) || (op matches Some(o) && !self.valid_id(
                o as int,
            )),
        }
    }

    /// Some stored event with identifier at most `hi` is a genesis event
    /// from `creator`.
    pub open spec fn has_genesis_from_within(self, creator: u32, hi: int) -> bool {
        exists|k: int|
            #![trigger self.event(k)]
            1 <= k <= hi && self.event(k).genesis && self.event(k).creator == creator
    }

    /// Some stored genesis event was created by `creator`.
    pub open spec fn has_genesis_from(self, creator: u32) -> bool {
        self.has_genesis_from_within(creator, self.event_count())
    }
}

/// Optional exec identifier as a model identifier.
pub open spec fn opt_id(o: Option<usize>) -> Option<int> {
    match o {
        Some(p) => Some(p as int),
        None => None,
    }
}

/// The two records agree on everything except possibly the fame verdict.
pub open spec fn same_record(e1: EventView, e2: EventView) -> bool {
    &&& e1.genesis == e2.genesis
    &&& e1.creator == e2.creator
    &&& e1.self_parent == e2.self_parent
    &&& e1.other_parent == e2.other_parent
    &&& e1.payload == e2.payload
    &&& e1.round == e2.round
    &&& e1.witness == e2.witness
    &&& e1.ancestors == e2.ancestors
}

/// The two records agree on creator and ancestry.
pub open spec fn same_lineage(e1: EventView, e2: EventView) -> bool {
    e1.creator == e2.creator && e1.ancestors == e2.ancestors
}

/// The two records agree on creator, ancestry, round, and witness flag.
pub open spec fn same_consensus(e1: EventView, e2: EventView) -> bool {
    same_lineage(e1, e2) && e1.round == e2.round && e1.witness == e2.witness
}

/// `links` depends only on each event's creator and ancestor set.
pub proof fn lemma_links_same(g1: GraphView, g2: GraphView, x: int, y: int, c: int)
    requires
        g1.events.len() == g2.events.len(),
        g1.valid_id(x),
        forall|k: int| g1.valid_id(k) ==> same_lineage(#[trigger] g1.event(k), g2.event(k)),
    ensures
        g1.links(x, y, c) == g2.links(x, y, c),
{
    if g1.links(x, y, c) {
        let a = choose|a: int|
            #![trigger g1.event(a)]
            1 <= a <= g1.event_count() && (a == x || g1.is_ancestor(x, a)) && (a == y
                || g1.is_ancestor(a, y)) && g1.event(a).creator as int == c;
        assert(g2.event(a).creator as int == c);
        assert(g2.links(x, y, c));
    }
    if g2.links(x, y, c) {
        let a = choose|a: int|
            #![trigger g2.event(a)]
            1 <= a <= g2.event_count() && (a == x || g2.is_ancestor(x, a)) && (a == y
                || g2.is_ancestor(a, y)) && g2.event(a).creator as int == c;
        assert(g1.event(a).creator as int == c);
        assert(g1.links(x, y, c));
    }
}

/// `strongly_sees` depends only on creators, ancestor sets, and weights.
pub proof fn lemma_strongly_sees_same(g1: GraphView, g2: GraphView, x: int, y: int)
    requires
        g1.events.len() == g2.events.len(),
        g1.weights == g2.weights,
        g1.valid_id(x),
        forall|k: int| g1.valid_id(k) ==> same_lineage(#[trigger] g1.event(k), g2.event(k)),
    ensures
        g1.strongly_sees(x, y) == g2.strongly_sees(x, y),
{
    assert forall|c: int| 0 <= c < g1.weights.len() implies (#[trigger] g1.links(x, y, c)
        <==> #[trigger] g2.links(x, y, c)) by {
        lemma_links_same(g1, g2, x, y, c);
    }
    crate::registry::lemma_sum_if_congruent(
        g1.weights,
        |c: int| g1.links(x, y, c),
        |c: int| g2.links(x, y, c),
    );
}

/// Appending one well-formed event to a well-formed graph keeps the graph
/// well-formed: no stored event ever refers to a later one.
pub proof fn lemma_wf_extend(g1: GraphView, g2: GraphView)
    requires
        g1.wf(),
        g2.weights == g1.weights,
        g2.events.len() == g1.events.len() + 1,
        forall|k: int| g1.valid_id(k) ==> #[trigger] g2.event(k) == g1.event(k),
        g2.event_wf(g2.event_count()),
    ensures
        g2.wf(),
{
    assert forall|j: int| g2.valid_id(j) implies #[trigger] g2.event_wf(j) by {
        if j <= g1.event_count() {
            assert(g1.event_wf(j));
            assert(g2.event(j) == g1.event(j));
            let e = g1.event(j);
            if e.self_parent is Some {
                assert(g2.event(e.self_parent->0) == g1.event(e.self_parent->0));
            }
            if e.other_parent is Some {
                assert(g2.event(e.other_parent->0) == g1.event(e.other_parent->0));
            }
            assert forall|y: int| #[trigger] e.ancestors.contains(y) implies g2.event(
                y,
            ).ancestors.subset_of(e.ancestors) by {
                assert(1 <= y < j);
                assert(g2.event(y) == g1.event(y));
            }
        }
    }
}

/// Changing one event in a well-formed graph keeps the graph well-formed,
/// provided the changed event is itself still well-formed, keeps its
/// ancestor set, and keeps its round unless it is the newest event (which
/// nothing else refers to).
pub proof fn lemma_wf_update(g1: GraphView, g2: GraphView, t: int)
    requires
        g1.wf(),
        g2.weights == g1.weights,
        g2.events.len() == g1.events.len(),
        g1.valid_id(t),
        forall|k: int| g1.valid_id(k) && k != t ==> #[trigger] g2.event(k) == g1.event(k),
        g2.event_wf(t),
        g2.event(t).ancestors == g1.event(t).ancestors,
        g2.event(t).round == g1.event(t).round || t == g1.event_count(),
    ensures
        g2.wf(),
{
    assert forall|j: int| g2.valid_id(j) implies #[trigger] g2.event_wf(j) by {
        if j != t {
            assert(g1.event_wf(j));
            assert(g2.event(j) == g1.event(j));
            let e = g1.event(j);
            if e.self_parent is Some {
                let sp = e.self_parent->0;
                if sp != t {
                    assert(g2.event(sp) == g1.event(sp));
                } else {
                    assert(sp < j <= g1.event_count());
                    assert(g2.event(sp).round == g1.event(sp).round);
                }
            }
            if e.other_parent is Some {
                let op = e.other_parent->0;
                if op != t {
                    assert(g2.event(op) == g1.event(op));
                } else {
                    assert(op < j <= g1.event_count());
                    assert(g2.event(op).round == g1.event(op).round);
                }
            }
            assert forall|y: int| #[trigger] e.ancestors.contains(y) implies g2.event(
                y,
            ).ancestors.subset_of(e.ancestors) by {
                assert(1 <= y < j);
                if y != t {
                    assert(g2.event(y) == g1.event(y));
                }
            }
            if !e.genesis {
                assert(g2.parent_ancestors(j) =~= g1.parent_ancestors(j));
                assert(g2.parent_round_base(j) == g1.parent_round_base(j));
            }
        }
    }
}

/// The witness-support weight depends only on creators, ancestor sets,
/// rounds, witness flags, and weights; never on any stored fame value.
pub proof fn lemma_witness_support_same(g1: GraphView, g2: GraphView, x: int, base: int)
    requires
        g1.events.len() == g2.events.len(),
        g1.weights == g2.weights,
        g1.valid_id(x),
        forall|k: int| g1.valid_id(k) ==> same_consensus(#[trigger] g1.event(k), g2.event(k)),
    ensures
        g1.witness_support(x, base) == g2.witness_support(x, base),
{
    assert forall|c: int| 0 <= c < g1.weights.len() implies (#[trigger] g1.witness_vote(
        x,
        base,
        c,
    ) <==> #[trigger] g2.witness_vote(x, base, c)) by {
        if g1.witness_vote(x, base, c) {
            let w = choose|w: int|
                #![trigger g1.event(w)]
                1 <= w <= g1.event_count() && g1.event(w).witness && g1.event(w).round == base
                    && g1.event(w).creator as int == c && g1.strongly_sees(x, w);
            lemma_strongly_sees_same(g1, g2, x, w);
            assert(g2.event(w).creator as int == c);
            assert(g2.witness_vote(x, base, c));
        }
        if g2.witness_vote(x, base, c) {
            let w = choose|w: int|
                #![trigger g2.event(w)]
                1 <= w <= g2.event_count() && g2.event(w).witness && g2.event(w).round == base
                    && g2.event(w).creator as int == c && g2.strongly_sees(x, w);
            lemma_strongly_sees_same(g1, g2, x, w);
            assert(g1.event(w).creator as int == c);
            assert(g1.witness_vote(x, base, c));
        }
    }
    crate::registry::lemma_sum_if_congruent(
        g1.weights,
        |c: int| g1.witness_vote(x, base, c),
        |c: int| g2.witness_vote(x, base, c),
    );
}

/// The fame verdict depends only on creators, ancestor sets, rounds,
/// witness flags, and weights; never on any stored fame value.
pub proof fn lemma_fame_verdict_same(g1: GraphView, g2: GraphView, w: int)
    requires
        g1.events.len() == g2.events.len(),
        g1.weights == g2.weights,
        g1.valid_id(w),
        forall|k: int| g1.valid_id(k) ==> same_consensus(#[trigger] g1.event(k), g2.event(k)),
    ensures
        g1.fame_verdict(w) == g2.fame_verdict(w),
{
    assert forall|c: int| 0 <= c < g1.weights.len() implies (#[trigger] g1.sees_vote(w, c)
        <==> #[trigger] g2.sees_vote(w, c)) by {
        if g1.sees_vote(w, c) {
            let v = choose|v: int|
                #![trigger g1.event(v)]
                1 <= v <= g1.event_count() && g1.event(v).witness && g1.event(v).round
                    == g1.event(w).round + 1 && g1.event(v).creator as int == c
                    && g1.strongly_sees(v, w);
            lemma_strongly_sees_same(g1, g2, v, w);
            assert(g2.event(v).creator as int == c);
            assert(g2.sees_vote(w, c));
        }
        if g2.sees_vote(w, c) {
            let v = choose|v: int|
                #![trigger g2.event(v)]
                1 <= v <= g2.event_count() && g2.event(v).witness && g2.event(v).round
                    == g2.event(w).round + 1 && g2.event(v).creator as int == c
                    && g2.strongly_sees(v, w);
            lemma_strongly_sees_same(g1, g2, v, w);
            assert(g1.event(v).creator as int == c);
            assert(g1.sees_vote(w, c));
        }
    }
    assert forall|c: int| 0 <= c < g1.weights.len() implies (#[trigger] g1.not_sees_vote(w, c)
        <==> #[trigger] g2.not_sees_vote(w, c)) by {
        if g1.not_sees_vote(w, c) {
            let v = choose|v: int|
                #![trigger g1.event(v)]
                1 <= v <= g1.event_count() && g1.event(v).witness && g1.event(v).round
                    == g1.event(w).round + 1 && g1.event(v).creator as int == c
                    && !g1.strongly_sees(v, w);
            lemma_strongly_sees_same(g1, g2, v, w);
            assert(g2.event(v).creator as int == c);
            assert(g2.not_sees_vote(w, c));
        }
        if g2.not_sees_vote(w, c) {
            let v = choose|v: int|
                #![trigger g2.event(v)]
                1 <= v <= g2.event_count() && g2.event(v).witness && g2.event(v).round
                    == g2.event(w).round + 1 && g2.event(v).creator as int == c
                    && !g2.strongly_sees(v, w);
            lemma_strongly_sees_same(g1, g2, v, w);
            assert(g1.event(v).creator as int == c);
            assert(g1.not_sees_vote(w, c));
        }
    }
    crate::registry::lemma_sum_if_congruent(
        g1.weights,
        |c: int| g1.sees_vote(w, c),
        |c: int| g2.sees_vote(w, c),
    );
    crate::registry::lemma_sum_if_congruent(
        g1.weights,
        |c: int| g1.not_sees_vote(w, c),
        |c: int| g2.not_sees_vote(w, c),
    );
}

} // verus!
