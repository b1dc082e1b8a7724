//! Event ingestion.  `add_event` orchestrates validation, storage,
//! incremental ancestry, round and witness assignment, and the
//! re-evaluation of undetermined witnesses whose voting round now includes
//! the new witness.  Any validation failure aborts the whole operation with
//! no state change.

use vstd::prelude::*;
use crate::graph::Graph;
use crate::model::{
    lemma_fame_verdict_same, lemma_strongly_sees_same, lemma_wf_extend, lemma_wf_update,
    lemma_witness_support_same, opt_id, same_consensus, same_record, ConsensusError, FameStatus,
};
use crate::registry::{
    lemma_register_effect_preserves, lemma_sum_if_congruent, register_effect,
};

verus! {

impl Graph {
    /// Stores one genesis event: round 0, witness, fame undetermined, no
    /// ancestors.  The creator is registered with the default weight.
    fn insert_genesis(&mut self, creator: u32, payload: Vec<u32>) -> (id: usize)
        requires
            old(self).wf(),
            old(self)@.event_count() < 0xFFFF_FFFF,
        ensures
            final(self).wf(),
            id as int == old(self)@.event_count() + 1,
            final(self)@.event_count() == old(self)@.event_count() + 1,
            final(self)@.weights == register_effect(old(self)@.weights, creator as int, 1),
            forall|k: int|
                1 <= k <= old(self)@.event_count() ==> #[trigger] final(self)@.event(k) == old(
                    self,
                )@.event(k),
            final(self)@.event(id as int).genesis,
            final(self)@.event(id as int).creator == creator,
            final(self)@.event(id as int).self_parent is None,
            final(self)@.event(id as int).other_parent is None,
            final(self)@.event(id as int).payload == payload@,
            final(self)@.event(id as int).round == 0,
            final(self)@.event(id as int).witness,
            final(self)@.event(id as int).fame is Undetermined,
            final(self)@.event(id as int).ancestors == Set::<int>::empty(),
    {
        let n = self.genesis.len();
        let ghost gold = self@;
        self.registry.register(creator);
        proof {
            lemma_register_effect_preserves(gold.weights, creator as int, 1);
            assert(self@.events =~= gold.events);
            assert forall|j: int| self@.valid_id(j) implies #[trigger] self@.event_wf(j) by {
                assert(gold.event_wf(j));
            }
        }
        let ghost g1 = self@;
        let eid = self.allocator.allocate();
        self.genesis.push(true);
        self.self_parent.push(None);
        self.other_parent.push(None);
        self.txs.push(payload);
        self.creator.push(creator);
        self.round.push(0);
        self.reachable.push(Vec::new());
        self.witness.push(true);
        self.famous.push(FameStatus::Undetermined);
        proof {
            assert(self@.event_count() == g1.event_count() + 1);
            assert forall|j: int| g1.valid_id(j) implies #[trigger] self@.event(j) == g1.event(
                j,
            ) by {}
            assert(self@.event(n as int + 1).ancestors =~= Set::<int>::empty());
            assert(self@.event_wf(n as int + 1));
            lemma_wf_extend(g1, self@);
        }
        eid + 1
    }

    /// Stores one non-genesis event with its ancestry row and the
    /// provisional round `max(round(self-parent), round(other-parent))`,
    /// witness flag down, fame undetermined.  The creator is registered
    /// with the default weight.
    fn insert_update_record(
        &mut self,
        creator: u32,
        sp: usize,
        other_parent: Option<usize>,
        payload: Vec<u32>,
    ) -> (id: usize)
        requires
            old(self).wf(),
            old(self)@.event_count() < 0xFFFF_FFFF,
            1 <= sp <= old(self)@.event_count(),
            (other_parent matches Some(op) ==> 1 <= op <= old(self)@.event_count()),
        ensures
            final(self).wf(),
            id as int == old(self)@.event_count() + 1,
            final(self)@.event_count() == old(self)@.event_count() + 1,
            final(self)@.weights == register_effect(old(self)@.weights, creator as int, 1),
            forall|k: int|
                1 <= k <= old(self)@.event_count() ==> #[trigger] final(self)@.event(k) == old(
                    self,
                )@.event(k),
            !final(self)@.event(id as int).genesis,
            final(self)@.event(id as int).creator == creator,
            final(self)@.event(id as int).self_parent == Some(sp as int),
            final(self)@.event(id as int).other_parent == opt_id(other_parent),
            final(self)@.event(id as int).payload == payload@,
            final(self)@.event(id as int).round == final(self)@.parent_round_base(id as int),
            !final(self)@.event(id as int).witness,
            final(self)@.event(id as int).fame is Undetermined,
            final(self)@.event(id as int).ancestors == final(self)@.parent_ancestors(
                id as int,
            ),
    {
        let n = self.genesis.len();
        let row = self.reachable_from(sp, other_parent);
        let base = match other_parent {
            Some(op) => {
                let r1 = self.round[sp - 1];
                let r2 = self.round[op - 1];
                if r2 > r1 {
                    r2
                } else {
                    r1
                }
            },
            None => self.round[sp - 1],
        };
        proof {
            assert(self@.event_wf(sp as int));
            if other_parent is Some {
                assert(self@.event_wf(other_parent->0 as int));
            }
            assert(base as int <= n - 1);
        }
        let ghost gold = self@;
        self.registry.register(creator);
        proof {
            lemma_register_effect_preserves(gold.weights, creator as int, 1);
            assert(self@.events =~= gold.events);
            assert forall|j: int| self@.valid_id(j) implies #[trigger] self@.event_wf(j) by {
                assert(gold.event_wf(j));
            }
        }
        let ghost g1 = self@;
        let eid = self.allocator.allocate();
        self.genesis.push(false);
        self.self_parent.push(Some(sp));
        self.other_parent.push(other_parent);
        self.txs.push(payload);
        self.creator.push(creator);
        self.round.push(base);
        self.reachable.push(row);
        self.witness.push(false);
        self.famous.push(FameStatus::Undetermined);
        proof {
            assert(self@.event_count() == g1.event_count() + 1);
            assert forall|j: int| g1.valid_id(j) implies #[trigger] self@.event(j) == g1.event(
                j,
            ) by {}
            let nid = n as int + 1;
            let e = self@.event(nid);
            assert(e.ancestors =~= self@.parent_ancestors(nid)) by {
                assert forall|j: int| e.ancestors.contains(j) implies self@.parent_ancestors(
                    nid,
                ).contains(j) by {
                    assert(1 <= j <= n);
                }
                assert forall|j: int| self@.parent_ancestors(nid).contains(j) implies
                    e.ancestors.contains(j) by {
                    assert(gold.event_wf(sp as int));
                    if other_parent is Some {
                        assert(gold.event_wf(other_parent->0 as int));
                    }
                    assert(1 <= j <= n);
                }
            }
            assert(self@.parent_round_base(nid) == base as int);
            assert forall|y: int| #[trigger] e.ancestors.contains(y) implies self@.event(
                y,
            ).ancestors.subset_of(e.ancestors) by {
                assert(1 <= y <= n);
                assert(gold.event_wf(sp as int));
                assert(gold.event_wf(y));
                if other_parent is Some {
                    assert(gold.event_wf(other_parent->0 as int));
                }
                assert forall|z: int| #[trigger] self@.event(y).ancestors.contains(z) implies
                    e.ancestors.contains(z) by {
                    assert(1 <= z < y);
                }
            }
            assert(self@.event_wf(nid));
            lemma_wf_extend(g1, self@);
        }
        eid + 1
    }

    /// Round and witness assignment for the newest, non-genesis event,
    /// stored with its provisional round: collects the stake weight behind
    /// the distinct creators of the provisional-round witnesses that the
    /// event strongly sees, and on a supermajority raises the round by one
    /// and marks the event a witness.
    fn assign_round(&mut self, id: usize)
        requires
            old(self).wf(),
            id >= 1,
            id as int == old(self)@.event_count(),
            old(self)@.event_count() <= 0xFFFF_FFFF,
            !old(self)@.event(id as int).genesis,
            !old(self)@.event(id as int).witness,
            old(self)@.event(id as int).round == old(self)@.parent_round_base(id as int),
        ensures
            final(self).wf(),
            final(self)@.event_count() == old(self)@.event_count(),
            final(self)@.weights == old(self)@.weights,
            forall|k: int|
                1 <= k < old(self)@.event_count() ==> #[trigger] final(self)@.event(k) == old(
                    self,
                )@.event(k),
            same_record(final(self)@.event(id as int), old(self)@.event(id as int)) || (
            final(self)@.event(id as int).witness && final(self)@.event(id as int).round == old(
                self,
            )@.event(id as int).round + 1),
            final(self)@.event(id as int).genesis == old(self)@.event(id as int).genesis,
            final(self)@.event(id as int).creator == old(self)@.event(id as int).creator,
            final(self)@.event(id as int).self_parent == old(self)@.event(
                id as int,
            ).self_parent,
            final(self)@.event(id as int).other_parent == old(self)@.event(
                id as int,
            ).other_parent,
            final(self)@.event(id as int).payload == old(self)@.event(id as int).payload,
            final(self)@.event(id as int).ancestors == old(self)@.event(id as int).ancestors,
            final(self)@.event(id as int).fame == old(self)@.event(id as int).fame,
            final(self)@.event(id as int).witness == (final(self)@.witness_support(
                id as int,
                final(self)@.parent_round_base(id as int),
            ) >= final(self)@.threshold()),
            final(self)@.event(id as int).round == final(self)@.parent_round_base(id as int)
                + (if final(self)@.event(id as int).witness {
                1int
            } else {
                0int
            }),
    {
        let eid = id - 1;
        let base = self.round[eid];
        proof {
            assert(self@.event_wf(id as int));
            let e = self@.event(id as int);
            let spv = e.self_parent->0;
            assert(self@.event_wf(spv));
            if e.other_parent is Some {
                assert(self@.event_wf(e.other_parent->0));
            }
            assert(base as int <= id - 2);
        }
        let ghost g2 = self@;
        let support = self.witness_support_weight(id, base);
        let threshold = self.registry.supermajority_threshold();
        let is_wit = support >= threshold;
        if is_wit {
            self.round.set(eid, base + 1);
            self.witness.set(eid, true);
            proof {
                let nid = id as int;
                assert forall|j: int| g2.valid_id(j) && j != nid implies #[trigger] self@.event(
                    j,
                ) == g2.event(j) by {}
                assert(self@.event(nid).ancestors == g2.event(nid).ancestors);
                assert(self@.parent_round_base(nid) == base as int);
                assert(self@.event_wf(nid));
                lemma_wf_update(g2, self@, nid);
            }
        }
        proof {
            let nid = id as int;
            let g3 = self@;
            assert forall|c: int| 0 <= c < g3.weights.len() implies (#[trigger] g3.witness_vote(
                nid,
                base as int,
                c,
            ) <==> #[trigger] g2.witness_vote(nid, base as int, c)) by {
                if g3.witness_vote(nid, base as int, c) {
                    let w = choose|w: int|
                        #![trigger g3.event(w)]
                        1 <= w <= g3.event_count() && g3.event(w).witness && g3.event(w).round
                            == base as int && g3.event(w).creator as int == c
                            && g3.strongly_sees(nid, w);
                    assert(w != nid);
                    lemma_strongly_sees_same(g3, g2, nid, w);
                    assert(g2.event(w).creator as int == c);
                    assert(g2.witness_vote(nid, base as int, c));
                }
                if g2.witness_vote(nid, base as int, c) {
                    let w = choose|w: int|
                        #![trigger g2.event(w)]
                        1 <= w <= g2.event_count() && g2.event(w).witness && g2.event(w).round
                            == base as int && g2.event(w).creator as int == c
                            && g2.strongly_sees(nid, w);
                    assert(w != nid);
                    lemma_strongly_sees_same(g3, g2, nid, w);
                    assert(g3.event(w).creator as int == c);
                    assert(g3.witness_vote(nid, base as int, c));
                }
            }
            lemma_sum_if_congruent(
                g3.weights,
                |c: int| g3.witness_vote(nid, base as int, c),
                |c: int| g2.witness_vote(nid, base as int, c),
            );
            assert(g3.witness_support(nid, base as int) == g2.witness_support(
                nid,
                base as int,
            ));
            assert(g3.parent_round_base(nid) == base as int);
        }
    }

    /// Fame re-evaluation after a new witness with round `r_new` arrived:
    /// every undetermined witness of round `r_new - 1` receives the current
    /// virtual-voting verdict.  Verdicts already decided are never touched.
    fn refresh_fame(&mut self, r_new: u32)
        requires
            old(self).wf(),
        ensures
            final(self).wf(),
            final(self)@.event_count() == old(self)@.event_count(),
            final(self)@.weights == old(self)@.weights,
            forall|j: int|
                1 <= j <= old(self)@.event_count() ==> same_record(
                    #[trigger] final(self)@.event(j),
                    old(self)@.event(j),
                ),
            forall|j: int|
                1 <= j <= old(self)@.event_count() ==> #[trigger] final(self)@.event(j).fame
                    == (if !(old(self)@.event(j).fame is Undetermined) {
                    old(self)@.event(j).fame
                } else if old(self)@.event(j).witness && old(self)@.event(j).round + 1
                    == r_new as int {
                    final(self)@.fame_verdict(j)
                } else {
                    old(self)@.event(j).fame
                }),
    {
        let n = self.genesis.len();
        let ghost gfix = self@;
        let mut k: usize = 0;
        while k < n
            invariant
                self.wf(),
                gfix.wf(),
                n == self@.event_count(),
                self@.event_count() == gfix.event_count(),
                self@.weights == gfix.weights,
                k <= n,
                forall|j: int|
                    1 <= j <= n ==> same_record(#[trigger] self@.event(j), gfix.event(j)),
                forall|j: int|
                    1 <= j <= k ==> #[trigger] self@.event(j).fame == (if !(gfix.event(
                        j,
                    ).fame is Undetermined) {
                        gfix.event(j).fame
                    } else if gfix.event(j).witness && gfix.event(j).round + 1 == r_new as int {
                        gfix.fame_verdict(j)
                    } else {
                        gfix.event(j).fame
                    }),
                forall|j: int|
                    k < j <= n ==> #[trigger] self@.event(j).fame == gfix.event(j).fame,
            decreases n - k,
        {
            let id2 = k + 1;
            if self.witness[k] && self.famous[k] == FameStatus::Undetermined && (
            self.round[k] as u64) + 1 == (r_new as u64) {
                let vr = self.fame_verdict(id2);
                proof {
                    assert(vr is Ok);
                    assert forall|j: int| self@.valid_id(j) implies same_consensus(
                        #[trigger] self@.event(j),
                        gfix.event(j),
                    ) by {}
                    lemma_fame_verdict_same(self@, gfix, id2 as int);
                }
                let verdict = match vr {
                    Ok(f) => f,
                    Err(_) => FameStatus::Undetermined,
                };
                let ghost gpre = self@;
                self.famous.set(k, verdict);
                proof {
                    assert forall|j: int| gpre.valid_id(j) && j != id2 as int implies
                        #[trigger] self@.event(j) == gpre.event(j) by {}
                    assert(gpre.event_wf(id2 as int));
                    assert(self@.event_wf(id2 as int));
                    lemma_wf_update(gpre, self@, id2 as int);
                }
            }
            k = k + 1;
        }
        proof {
            assert forall|j: int| self@.valid_id(j) implies same_consensus(
                #[trigger] self@.event(j),
                gfix.event(j),
            ) by {}
            assert forall|j: int|
                1 <= j <= n && gfix.event(j).fame is Undetermined && gfix.event(j).witness
                    && gfix.event(j).round + 1 == r_new as int implies #[trigger] self@.event(
                j,
            ).fame == self@.fame_verdict(j) by {
                lemma_fame_verdict_same(self@, gfix, j);
            }
        }
    }

    /// Validates and stores one new event, assigns its ancestry, round, and
    /// witness flag, and re-evaluates the fame of the undetermined
    /// witnesses of the previous round when the new event is a witness.
    ///
    /// The new event's identifier is the next sequential one.  A parentless
    /// submission is a genesis event; it may not carry an other-parent, and
    /// at most one genesis event is accepted per creator.  Parent
    /// identifiers must already be stored, hence strictly smaller than the
    /// assigned identifier.  On any failure, no event, ancestry, round,
    /// fame, or registry state changes.
    #[verifier::rlimit(100)]
    pub fn add_event(
        &mut self,
        creator: u32,
        self_parent: Option<usize>,
        other_parent: Option<usize>,
        payload: Vec<u32>,
    ) -> (r: Result<usize, ConsensusError>)
        requires
            old(self).wf(),
            old(self)@.event_count() < 0xFFFF_FFFF,
        ensures
            final(self).wf(),
            (r is Err ==> final(self)@ == old(self)@),
            (r == Err::<usize, ConsensusError>(ConsensusError::InvalidParent) <==> old(
                self,
            )@.parents_invalid(self_parent, other_parent)),
            (r == Err::<usize, ConsensusError>(ConsensusError::DuplicateGenesis) <==> (!old(
                self,
            )@.parents_invalid(self_parent, other_parent) && self_parent is None && old(
                self,
            )@.has_genesis_from(creator))),
            (r is Ok <==> (!old(self)@.parents_invalid(self_parent, other_parent) && !(
            self_parent is None && old(self)@.has_genesis_from(creator)))),
            (r matches Ok(id) ==> id as int == old(self)@.event_count() + 1),
            (r is Ok ==> final(self)@.event_count() == old(self)@.event_count() + 1),
            (r is Ok ==> final(self)@.weights == register_effect(
                old(self)@.weights,
                creator as int,
                1,
            )),
            (r is Ok ==> forall|k: int|
                1 <= k <= old(self)@.event_count() ==> same_record(
                    #[trigger] final(self)@.event(k),
                    old(self)@.event(k),
                )),
            (r matches Ok(id) ==> final(self)@.event(id as int).genesis == (
            self_parent is None)),
            (r matches Ok(id) ==> final(self)@.event(id as int).creator == creator),
            (r matches Ok(id) ==> final(self)@.event(id as int).self_parent == opt_id(
                self_parent,
            )),
            (r matches Ok(id) ==> final(self)@.event(id as int).other_parent == opt_id(
                other_parent,
            )),
            (r matches Ok(id) ==> final(self)@.event(id as int).payload == payload@),
            (r matches Ok(id) ==> final(self)@.event(id as int).fame is Undetermined),
            (r matches Ok(id) ==> (self_parent is None ==> final(self)@.event(
                id as int,
            ).round == 0 && final(self)@.event(id as int).witness && final(self)@.event(
                id as int,
            ).ancestors == Set::<int>::empty())),
            (r matches Ok(id) ==> (self_parent is Some ==> final(self)@.event(
                id as int,
            ).ancestors == final(self)@.parent_ancestors(id as int))),
            (r matches Ok(id) ==> (self_parent is Some ==> final(self)@.event(
                id as int,
            ).witness == (final(self)@.witness_support(
                id as int,
                final(self)@.parent_round_base(id as int),
            ) >= final(self)@.threshold()))),
            (r matches Ok(id) ==> (self_parent is Some ==> final(self)@.event(id as int).round
                == final(self)@.parent_round_base(id as int) + (if final(self)@.event(
                id as int,
            ).witness {
                1int
            } else {
                0int
            }))),
            (r is Ok ==> forall|k: int|
                1 <= k <= old(self)@.event_count() && !(old(self)@.event(k).fame is Undetermined)
                    ==> #[trigger] final(self)@.event(k).fame == old(self)@.event(k).fame),
            (r matches Ok(id) ==> forall|k: int|
                1 <= k <= old(self)@.event_count() && old(self)@.event(k).fame is Undetermined
                    ==> #[trigger] final(self)@.event(k).fame == (if final(self)@.event(
                    id as int,
                ).witness && old(self)@.event(k).witness && old(self)@.event(k).round + 1
                    == final(self)@.event(id as int).round {
                    final(self)@.fame_verdict(k)
                } else {
                    FameStatus::Undetermined
                })),
    {
        let n = self.genesis.len();
        match self_parent {
            None => {
                if other_parent.is_some() {
                    return Err(ConsensusError::InvalidParent);
                }
                let mut dup = false;
                let mut k: usize = 0;
                while k < n
                    invariant
                        self.wf(),
                        n == self@.event_count(),
                        k <= n,
                        dup == self@.has_genesis_from_within(creator, k as int),
                    decreases n - k,
                {
                    let ghost pre = dup;
                    if self.genesis[k] && self.creator[k] == creator {
                        dup = true;
                    }
                    proof {
                        if dup {
                            if pre {
                                let w = choose|w: int|
                                    #![trigger self@.event(w)]
                                    1 <= w <= k as int && self@.event(w).genesis && self@.event(
                                        w,
                                    ).creator == creator;
                                assert(self@.event(w).genesis);
                            } else {
                                assert(self@.event(k as int + 1).genesis);
                            }
                            assert(self@.has_genesis_from_within(creator, k as int + 1));
                        } else {
                            if self@.has_genesis_from_within(creator, k as int + 1) {
                                let w = choose|w: int|
                                    #![trigger self@.event(w)]
                                    1 <= w <= k as int + 1 && self@.event(w).genesis
                                        && self@.event(w).creator == creator;
                                if w <= k as int {
                                    assert(self@.has_genesis_from_within(creator, k as int));
                                }
                                assert(false);
                            }
                        }
                    }
                    k = k + 1;
                }
                if dup {
                    return Err(ConsensusError::DuplicateGenesis);
                }
                let id = self.insert_genesis(creator, payload);
                proof {
                    assert forall|k3: int|
                        1 <= k3 <= n && old(self)@.event(k3).fame is Undetermined implies
                        #[trigger] self@.event(k3).fame == FameStatus::Undetermined by {
                        assert(old(self)@.event_wf(k3));
                    }
                }
                Ok(id)
            },
            Some(sp) => {
                if sp < 1 || sp > n {
                    return Err(ConsensusError::InvalidParent);
                }
                if let Some(op) = other_parent {
                    if op < 1 || op > n {
                        return Err(ConsensusError::InvalidParent);
                    }
                }
                let ghost gold = self@;
                let id = self.insert_update_record(creator, sp, other_parent, payload);
                let ghost g2 = self@;
                self.assign_round(id);
                let ghost g3 = self@;
                let r_new = self.round[id - 1];
                let new_wit = self.witness[id - 1];
                if new_wit {
                    self.refresh_fame(r_new);
                }
                proof {
                    let nid = id as int;
                    let gf = self@;
                    assert forall|j: int| gf.valid_id(j) implies same_consensus(
                        #[trigger] gf.event(j),
                        g3.event(j),
                    ) by {
                        if !new_wit {
                            assert(gf.event(j) == g3.event(j));
                        }
                    }
                    lemma_witness_support_same(gf, g3, nid, g3.parent_round_base(nid));
                    assert(gf.parent_round_base(nid) == g3.parent_round_base(nid));
                    assert(gf.event(nid).witness == (gf.witness_support(
                        nid,
                        gf.parent_round_base(nid),
                    ) >= gf.threshold()));
                    assert forall|k3: int|
                        1 <= k3 <= n && gold.event(k3).fame is Undetermined implies
                        #[trigger] gf.event(k3).fame == (if gf.event(nid).witness && gold.event(
                        k3,
                    ).witness && gold.event(k3).round + 1 == gf.event(nid).round {
                        gf.fame_verdict(k3)
                    } else {
                        FameStatus::Undetermined
                    }) by {
                        assert(g3.event(k3).fame == gold.event(k3).fame);
                        assert(same_record(g3.event(k3), gold.event(k3)));
                        if !new_wit {
                            assert(gf.event(k3) == g3.event(k3));
                        }
                    }
                    assert forall|k3: int|
                        1 <= k3 <= n && !(gold.event(k3).fame is Undetermined) implies
                        #[trigger] gf.event(k3).fame == gold.event(k3).fame by {
                        assert(g3.event(k3).fame == gold.event(k3).fame);
                        if !new_wit {
                            assert(gf.event(k3) == g3.event(k3));
                        }
                    }
                }
                Ok(id)
            },
        }
    }
}

} // verus!
