//! Incremental ancestry maintenance: computing a new event's ancestor
//! bit-row from its parents' already-final rows, and the constant-time
//! ancestry test.

use vstd::prelude::*;
use crate::graph::{row_set, Graph};
use crate::model::ConsensusError;

verus! {

/// Some slot of `ids` holds the identifier `j`.
pub open spec fn mentions(ids: Seq<usize>, j: int) -> bool {
    exists|i: int| 0 <= i < ids.len() && #[trigger] ids[i] as int == j
}

impl Graph {
    /// The ancestor bit-row dictated by a pair of parents: the union of the
    /// parents' ancestor sets plus the parents themselves, over the events
    /// stored so far.  Slot `j` of the result speaks of identifier `j + 1`.
    pub fn reachable_from(&self, self_parent: usize, other_parent: Option<usize>) -> (row: Vec<
        bool,
    >)
        requires
            self.wf(),
            1 <= self_parent <= self@.event_count(),
            (other_parent matches Some(op) ==> 1 <= op <= self@.event_count()),
        ensures
            row@.len() == self@.event_count(),
            forall|j: int|
                1 <= j <= self@.event_count() ==> (#[trigger] row@[j - 1] <==> (j
                    == self_parent as int || self@.is_ancestor(self_parent as int, j) || (
                match other_parent {
                    Some(op) => j == op as int || self@.is_ancestor(op as int, j),
                    None => false,
                }))),
    {
        let len = self.genesis.len();
        let sp = self_parent - 1;
        let mut row: Vec<bool> = Vec::new();
        let mut i: usize = 0;
        while i < len
            invariant
                self.wf(),
                1 <= self_parent <= self@.event_count(),
                (other_parent matches Some(op) ==> 1 <= op <= self@.event_count()),
                sp == self_parent - 1,
                len == self@.event_count(),
                i <= len,
                row@.len() == i,
                forall|j: int|
                    1 <= j <= i ==> (#[trigger] row@[j - 1] <==> (self@.is_ancestor(
                        self_parent as int,
                        j,
                    ) || (match other_parent {
                        Some(op) => self@.is_ancestor(op as int, j),
                        None => false,
                    }))),
            decreases len - i,
        {
            let x1 = i < self.reachable[sp].len() && self.reachable[sp][i];
            let x2 = match other_parent {
                Some(op) => {
                    let o = op - 1;
                    i < self.reachable[o].len() && self.reachable[o][i]
                },
                None => false,
            };
            row.push(x1 || x2);
            i = i + 1;
        }
        row.set(sp, true);
        if let Some(op) = other_parent {
            row.set(op - 1, true);
        }
        row
    }

    /// Constant-time bit test: is `y` a causal ancestor of `x`?  Fails with
    /// `UnknownEvent` exactly when either identifier is not stored.
    pub fn is_ancestor(&self, x: usize, y: usize) -> (r: Result<bool, ConsensusError>)
        requires
            self.wf(),
        ensures
            r is Ok <==> (self@.valid_id(x as int) && self@.valid_id(y as int)),
            (r matches Err(e) ==> e == ConsensusError::UnknownEvent),
            (r matches Ok(b) ==> b == self@.is_ancestor(x as int, y as int)),
    {
        let n = self.genesis.len();
        if x < 1 || x > n || y < 1 || y > n {
            return Err(ConsensusError::UnknownEvent);
        }
        let row = &self.reachable[x - 1];
        Ok(y - 1 < row.len() && row[y - 1])
    }

    /// Every causal ancestor of `x`, as a finite ascending list of
    /// identifiers.  Fails with `UnknownEvent` exactly when `x` is not
    /// stored.
    pub fn ancestors(&self, x: usize) -> (r: Result<Vec<usize>, ConsensusError>)
        requires
            self.wf(),
        ensures
            r is Ok <==> self@.valid_id(x as int),
            (r matches Err(e) ==> e == ConsensusError::UnknownEvent),
            (r matches Ok(v) ==> forall|i: int|
                0 <= i < v@.len() ==> self@.is_ancestor(x as int, #[trigger] v@[i] as int)),
            (r matches Ok(v) ==> forall|j: int|
                #[trigger] self@.is_ancestor(x as int, j) ==> mentions(v@, j)),
            (r matches Ok(v) ==> forall|i: int, k: int|
                0 <= i < k < v@.len() ==> v@[i] < v@[k]),
    {
        let n = self.genesis.len();
        if x < 1 || x > n {
            return Err(ConsensusError::UnknownEvent);
        }
        let row = &self.reachable[x - 1];
        proof {
            assert(self@.event(x as int).ancestors == row_set(row@));
        }
        let mut v: Vec<usize> = Vec::new();
        let mut i: usize = 0;
        while i < row.len()
            invariant
                self.wf(),
                self@.valid_id(x as int),
                self@.event(x as int).ancestors == row_set(row@),
                row@.len() <= self@.event_count(),
                i <= row@.len(),
                forall|k: int|
                    0 <= k < v@.len() ==> self@.is_ancestor(x as int, #[trigger] v@[k] as int),
                forall|j: int| 1 <= j <= i && #[trigger] row@[j - 1] ==> mentions(v@, j),
                forall|k: int| 0 <= k < v@.len() ==> 1 <= #[trigger] v@[k] <= i,
                forall|k: int, m: int| 0 <= k < m < v@.len() ==> v@[k] < v@[m],
            decreases row@.len() - i,
        {
            let ghost prev = v@;
            if row[i] {
                v.push(i + 1);
            }
            proof {
                assert forall|j: int| 1 <= j <= i + 1 && #[trigger] row@[j - 1] implies mentions(
                    v@,
                    j,
                ) by {
                    if j == i + 1 {
                        assert(v@[v@.len() - 1] as int == j);
                    } else {
                        let k = choose|k: int| 0 <= k < prev.len() && #[trigger] prev[k] as int
                            == j;
                        assert(v@[k] as int == j);
                    }
                }
            }
            i = i + 1;
        }
        proof {
            assert forall|j: int| #[trigger] self@.is_ancestor(x as int, j) implies mentions(
                v@,
                j,
            ) by {
                assert(row_set(row@).contains(j));
                assert(1 <= j <= row@.len() && row@[j - 1]);
            }
        }
        Ok(v)
    }

    /// Batch all-pairs reachability, recomputed directly from the parent
    /// edges by one relaxation sweep over the full event set (identifiers
    /// are assigned in causal order, so every parent's row is final before
    /// its children's are relaxed).  Row `i`, slot `j` says whether the
    /// event with identifier `j + 1` is an ancestor of the one with
    /// identifier `i + 1`; the result provably agrees with the
    /// incrementally maintained ancestor sets on every event.
    pub fn reachability_matrix(&self) -> (m: Vec<Vec<bool>>)
        requires
            self.wf(),
        ensures
            m@.len() == self@.event_count(),
            forall|i: int| 0 <= i < m@.len() ==> #[trigger] m@[i]@.len() == self@.event_count(),
            forall|i: int, j: int|
                0 <= i < m@.len() && 0 <= j < m@.len() ==> (#[trigger] m@[i]@[j]
                    == self@.is_ancestor(i + 1, j + 1)),
    {
        let n = self.genesis.len();
        let mut m: Vec<Vec<bool>> = Vec::new();
        let mut e: usize = 0;
        while e < n
            invariant
                self.wf(),
                n == self@.event_count(),
                e <= n,
                m@.len() == e,
                forall|i: int| 0 <= i < e ==> #[trigger] m@[i]@.len() == n,
                forall|i: int, j: int|
                    0 <= i < e && 0 <= j < n ==> (#[trigger] m@[i]@[j] == self@.is_ancestor(
                        i + 1,
                        j + 1,
                    )),
            decreases n - e,
        {
            proof {
                assert(self@.event_wf(e as int + 1));
            }
            let mut row: Vec<bool> = Vec::new();
            match self.self_parent[e] {
                None => {
                    let mut j: usize = 0;
                    while j < n
                        invariant
                            j <= n,
                            row@.len() == j,
                            forall|q: int| 0 <= q < j ==> !(#[trigger] row@[q]),
                        decreases n - j,
                    {
                        row.push(false);
                        j = j + 1;
                    }
                },
                Some(sp) => {
                    let op = self.other_parent[e];
                    proof {
                        assert(self@.event_wf(sp as int));
                        if op is Some {
                            assert(self@.event_wf(op->0 as int));
                        }
                    }
                    let mut j: usize = 0;
                    while j < n
                        invariant
                            self.wf(),
                            n == self@.event_count(),
                            e < n,
                            m@.len() == e,
                            j <= n,
                            row@.len() == j,
                            1 <= sp <= e,
                            (op matches Some(o) ==> 1 <= o <= e),
                            self@.event(e as int + 1).self_parent == Some(sp as int),
                            self@.event(e as int + 1).other_parent == crate::model::opt_id(op),
                            forall|i: int| 0 <= i < e ==> #[trigger] m@[i]@.len() == n,
                            forall|i: int, q: int|
                                0 <= i < e && 0 <= q < n ==> (#[trigger] m@[i]@[q]
                                    == self@.is_ancestor(i + 1, q + 1)),
                            forall|q: int|
                                0 <= q < j ==> (#[trigger] row@[q] == (q + 1 == sp as int
                                    || self@.is_ancestor(sp as int, q + 1) || (
                                match op {
                                    Some(o) => q + 1 == o as int || self@.is_ancestor(
                                        o as int,
                                        q + 1,
                                    ),
                                    None => false,
                                }))),
                        decreases n - j,
                    {
                        let b1 = j == sp - 1 || m[sp - 1][j];
                        let b2 = match op {
                            Some(o) => j == o - 1 || m[o - 1][j],
                            None => false,
                        };
                        row.push(b1 || b2);
                        j = j + 1;
                    }
                },
            }
            proof {
                let eid = e as int + 1;
                assert(self@.event_wf(eid));
                let ev = self@.event(eid);
                if !ev.genesis {
                    let sp = ev.self_parent->0;
                    assert(self@.event_wf(sp));
                    if ev.other_parent is Some {
                        assert(self@.event_wf(ev.other_parent->0));
                    }
                }
                assert forall|q: int| 0 <= q < n implies (#[trigger] row@[q] == self@.is_ancestor(
                    eid,
                    q + 1,
                )) by {}
            }
            m.push(row);
            e = e + 1;
        }
        m
    }
}

} // verus!
