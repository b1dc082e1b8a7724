//! The stake-weighted strongly-see relation: whether a supermajority of
//! validators have events on ancestor paths connecting two events, and the
//! weight of the round-`base` witness support behind a prospective event.

use vstd::prelude::*;
use crate::graph::Graph;
use crate::model::ConsensusError;
use crate::registry::{
    lemma_sum_if_congruent, lemma_sum_if_take_all, lemma_sum_if_take_step, sum_if,
};

verus! {

impl Graph {
    /// Raw ancestry bit test over valid identifiers.
    pub(crate) fn anc_bit(&self, x: usize, y: usize) -> (b: bool)
        requires
            self.wf(),
            self@.valid_id(x as int),
            self@.valid_id(y as int),
        ensures
            b == self@.is_ancestor(x as int, y as int),
    {
        let row = &self.reachable[x - 1];
        y - 1 < row.len() && row[y - 1]
    }

    /// Combined stake weight of the validators whose slot is marked in
    /// `seen`.
    pub(crate) fn creator_weight(&self, seen: &Vec<bool>) -> (w: u64)
        requires
            self.wf(),
            seen@.len() == self.registry@.len(),
        ensures
            w as int == sum_if(self.registry@, |c: int| seen@[c]),
    {
        let n = self.registry.slot_count();
        let mut w: u64 = 0;
        let mut c: usize = 0;
        while c < n
            invariant
                self.wf(),
                seen@.len() == self.registry@.len(),
                n == self.registry@.len(),
                n <= 0x1_0000_0000,
                c <= n,
                w as int == sum_if(self.registry@.take(c as int), |cc: int| seen@[cc]),
                w as int <= c * 0xFFFF_FFFF,
            decreases n - c,
        {
            proof {
                lemma_sum_if_take_step(self.registry@, |cc: int| seen@[cc], c as int);
            }
            if seen[c] {
                if let Some(wt) = self.registry.weight_of(c as u32) {
                    w = w + (wt as u64);
                }
            }
            c = c + 1;
        }
        proof {
            lemma_sum_if_take_all(self.registry@, |cc: int| seen@[cc]);
        }
        w
    }

    /// A `false` slot for every registry slot.
    pub(crate) fn blank_marks(&self) -> (seen: Vec<bool>)
        ensures
            seen@.len() == self.registry@.len(),
            forall|c: int| 0 <= c < seen@.len() ==> !(#[trigger] seen@[c]),
    {
        let n = self.registry.slot_count();
        let mut seen: Vec<bool> = Vec::new();
        let mut c: usize = 0;
        while c < n
            invariant
                c <= n,
                n == self.registry@.len(),
                seen@.len() == c,
                forall|i: int| 0 <= i < seen@.len() ==> !(#[trigger] seen@[i]),
            decreases n - c,
        {
            seen.push(false);
            c = c + 1;
        }
        seen
    }

    /// Strongly-see test over valid identifiers.
    pub(crate) fn strongly_sees_bit(&self, from: usize, to: usize) -> (b: bool)
        requires
            self.wf(),
            self@.valid_id(from as int),
            self@.valid_id(to as int),
        ensures
            b == self@.strongly_sees(from as int, to as int),
    {
        let n = self.genesis.len();
        let mut seen = self.blank_marks();
        let mut idx: usize = 0;
        while idx < n
            invariant
                self.wf(),
                self@.valid_id(from as int),
                self@.valid_id(to as int),
                n == self@.event_count(),
                idx <= n,
                seen@.len() == self.registry@.len(),
                forall|c: int|
                    0 <= c < seen@.len() ==> (#[trigger] seen@[c] <==> self@.links_within(
                        from as int,
                        to as int,
                        c,
                        idx as int,
                    )),
            decreases n - idx,
        {
            let a = idx + 1;
            let ghost prev = seen@;
            let on_path = (a == from || self.anc_bit(from, a)) && (a == to || self.anc_bit(
                a,
                to,
            ));
            if on_path {
                proof {
                    assert(self@.event_wf(a as int));
                }
                let cr = self.creator[a - 1];
                seen.set(cr as usize, true);
            }
            proof {
                assert forall|c: int| 0 <= c < seen@.len() implies (#[trigger] seen@[c]
                    <==> self@.links_within(from as int, to as int, c, a as int)) by {
                    if seen@[c] {
                        if prev[c] {
                            let w = choose|w: int|
                                #![trigger self@.event(w)]
                                1 <= w <= idx as int && (w == from as int || self@.is_ancestor(
                                    from as int,
                                    w,
                                )) && (w == to as int || self@.is_ancestor(w, to as int))
                                    && self@.event(w).creator as int == c;
                            assert(self@.event(w).creator as int == c);
                        } else {
                            assert(self@.event(a as int).creator as int == c);
                        }
                    } else {
                        assert(!self@.links_within(from as int, to as int, c, idx as int));
                    }
                }
            }
            idx = idx + 1;
        }
        proof {
            lemma_sum_if_congruent(
                self.registry@,
                |c: int| seen@[c],
                |c: int| self@.links(from as int, to as int, c),
            );
        }
        let w = self.creator_weight(&seen);
        let threshold = self.registry.supermajority_threshold();
        w >= threshold
    }

    /// Whether a supermajority of validators have events on ancestor paths
    /// from `from` back to `to` through their own lineage (the stake weight
    /// of such validators reaches the supermajority threshold).  Fails with
    /// `UnknownEvent` exactly when either identifier is not stored.
    pub fn strongly_sees(&self, from: usize, to: usize) -> (r: Result<bool, ConsensusError>)
        requires
            self.wf(),
        ensures
            r is Ok <==> (self@.valid_id(from as int) && self@.valid_id(to as int)),
            (r matches Err(e) ==> e == ConsensusError::UnknownEvent),
            (r matches Ok(b) ==> b == self@.strongly_sees(from as int, to as int)),
    {
        let n = self.genesis.len();
        if from < 1 || from > n || to < 1 || to > n {
            return Err(ConsensusError::UnknownEvent);
        }
        Ok(self.strongly_sees_bit(from, to))
    }

    /// Stake weight, counted once per distinct creator, of the stored
    /// round-`base` witnesses that the valid event `x` strongly sees.
    pub(crate) fn witness_support_weight(&self, x: usize, base: u32) -> (w: u64)
        requires
            self.wf(),
            self@.valid_id(x as int),
        ensures
            w as int == self@.witness_support(x as int, base as int),
    {
        let n = self.genesis.len();
        let mut seen = self.blank_marks();
        let mut idx: usize = 0;
        while idx < n
            invariant
                self.wf(),
                self@.valid_id(x as int),
                n == self@.event_count(),
                idx <= n,
                seen@.len() == self.registry@.len(),
                forall|c: int|
                    0 <= c < seen@.len() ==> (#[trigger] seen@[c] <==> self@.witness_vote_within(
                        x as int,
                        base as int,
                        c,
                        idx as int,
                    )),
            decreases n - idx,
        {
            let a = idx + 1;
            let ghost prev = seen@;
            if self.witness[a - 1] && self.round[a - 1] == base && self.strongly_sees_bit(x, a) {
                proof {
                    assert(self@.event_wf(a as int));
                }
                let cr = self.creator[a - 1];
                seen.set(cr as usize, true);
            }
            proof {
                assert forall|c: int| 0 <= c < seen@.len() implies (#[trigger] seen@[c]
                    <==> self@.witness_vote_within(x as int, base as int, c, a as int)) by {
                    if seen@[c] {
                        if prev[c] {
                            let w = choose|w: int|
                                #![trigger self@.event(w)]
                                1 <= w <= idx as int && self@.event(w).witness && self@.event(w).round
                                    == base as int && self@.event(w).creator as int == c
                                    && self@.strongly_sees(x as int, w);
                            assert(self@.event(w).creator as int == c);
                        } else {
                            assert(self@.event(a as int).creator as int == c);
                        }
                    } else {
                        assert(!self@.witness_vote_within(x as int, base as int, c, idx as int));
                    }
                }
            }
            idx = idx + 1;
        }
        proof {
            lemma_sum_if_congruent(
                self.registry@,
                |c: int| seen@[c],
                |c: int| self@.witness_vote(x as int, base as int, c),
            );
        }
        self.creator_weight(&seen)
    }
}

} // verus!
