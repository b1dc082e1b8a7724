//! Virtual-voting fame determination: the witnesses of the round after a
//! witness `w`'s round each cast a "see" or "not-see" vote on `w`; a
//! supermajority of stake on either side decides `w`'s fame.  The negative
//! verdict is required for the finality rule to terminate.

use vstd::prelude::*;
use crate::graph::Graph;
use crate::model::{ConsensusError, FameStatus};
use crate::registry::lemma_sum_if_congruent;

verus! {

impl Graph {
    /// The verdict that the current graph casts on the event `w` by virtual
    /// voting, computed afresh from the stored rounds, witness flags, and
    /// ancestry: `Famous` when the "see" side reaches the supermajority
    /// threshold, `NotFamous` when the "not-see" side does, otherwise
    /// `Undetermined`.  Fails with `UnknownEvent` exactly when `w` is not
    /// stored.
    pub fn fame_verdict(&self, w: usize) -> (r: Result<FameStatus, ConsensusError>)
        requires
            self.wf(),
        ensures
            r is Ok <==> self@.valid_id(w as int),
            (r matches Err(e) ==> e == ConsensusError::UnknownEvent),
            (r matches Ok(f) ==> f == self@.fame_verdict(w as int)),
    {
        let n = self.genesis.len();
        if w < 1 || w > n {
            return Err(ConsensusError::UnknownEvent);
        }
        let target = self.round[w - 1];
        let mut see = self.blank_marks();
        let mut notsee = self.blank_marks();
        let mut idx: usize = 0;
        while idx < n
            invariant
                self.wf(),
                self@.valid_id(w as int),
                n == self@.event_count(),
                idx <= n,
                target as int == self@.event(w as int).round,
                see@.len() == self.registry@.len(),
                notsee@.len() == self.registry@.len(),
                forall|c: int|
                    0 <= c < see@.len() ==> (#[trigger] see@[c] <==> self@.sees_vote_within(
                        w as int,
                        c,
                        idx as int,
                    )),
                forall|c: int|
                    0 <= c < notsee@.len() ==> (#[trigger] notsee@[c]
                        <==> self@.not_sees_vote_within(w as int, c, idx as int)),
            decreases n - idx,
        {
            let a = idx + 1;
            let ghost prev_see = see@;
            let ghost prev_not = notsee@;
            if self.witness[a - 1] && (self.round[a - 1] as u64) == (target as u64) + 1 {
                proof {
                    assert(self@.event_wf(a as int));
                }
                let cr = self.creator[a - 1];
                if self.strongly_sees_bit(a, w) {
                    see.set(cr as usize, true);
                } else {
                    notsee.set(cr as usize, true);
                }
            }
            proof {
                assert forall|c: int| 0 <= c < see@.len() implies (#[trigger] see@[c]
                    <==> self@.sees_vote_within(w as int, c, a as int)) by {
                    if see@[c] {
                        if prev_see[c] {
                            let v = choose|v: int|
                                #![trigger self@.event(v)]
                                1 <= v <= idx as int && self@.event(v).witness && self@.event(
                                    v,
                                ).round == self@.event(w as int).round + 1 && self@.event(
                                    v,
                                ).creator as int == c && self@.strongly_sees(v, w as int);
                            assert(self@.event(v).creator as int == c);
                        } else {
                            assert(self@.event(a as int).creator as int == c);
                        }
                    } else {
                        assert(!self@.sees_vote_within(w as int, c, idx as int));
                    }
                }
                assert forall|c: int| 0 <= c < notsee@.len() implies (#[trigger] notsee@[c]
                    <==> self@.not_sees_vote_within(w as int, c, a as int)) by {
                    if notsee@[c] {
                        if prev_not[c] {
                            let v = choose|v: int|
                                #![trigger self@.event(v)]
                                1 <= v <= idx as int && self@.event(v).witness && self@.event(
                                    v,
                                ).round == self@.event(w as int).round + 1 && self@.event(
                                    v,
                                ).creator as int == c && !self@.strongly_sees(v, w as int);
                            assert(self@.event(v).creator as int == c);
                        } else {
                            assert(self@.event(a as int).creator as int == c);
                        }
                    } else {
                        assert(!self@.not_sees_vote_within(w as int, c, idx as int));
                    }
                }
            }
            idx = idx + 1;
        }
        proof {
            lemma_sum_if_congruent(
                self.registry@,
                |c: int| see@[c],
                |c: int| self@.sees_vote(w as int, c),
            );
            lemma_sum_if_congruent(
                self.registry@,
                |c: int| notsee@[c],
                |c: int| self@.not_sees_vote(w as int, c),
            );
        }
        let see_weight = self.creator_weight(&see);
        let not_see_weight = self.creator_weight(&notsee);
        let threshold = self.registry.supermajority_threshold();
        if see_weight >= threshold {
            Ok(FameStatus::Famous)
        } else if not_see_weight >= threshold {
            Ok(FameStatus::NotFamous)
        } else {
            Ok(FameStatus::Undetermined)
        }
    }
}

} // verus!
