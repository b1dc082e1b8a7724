//! The consensus graph: an append-only arena of immutable events addressed
//! by sequentially assigned identifiers, with the incrementally maintained
//! ancestry index and the per-event round, witness, and fame state.

use vstd::prelude::*;
use crate::model::{ConsensusError, EventView, FameStatus, GraphView};
use crate::registry::ValidatorRegistry;

verus! {

/// Hands out the next free arena index; indices are never reused.
pub struct IndexAllocator {
    pub latest_idx: usize,
    pub size: usize,
}

impl IndexAllocator {
    /// Returns the next free index and records that one more slot is live.
    pub fn allocate(&mut self) -> (i: usize)
        requires
            old(self).latest_idx < usize::MAX,
            old(self).size < usize::MAX,
        ensures
            i == old(self).latest_idx,
            final(self).latest_idx == old(self).latest_idx + 1,
            final(self).size == old(self).size + 1,
    {
        let i = self.latest_idx;
        self.latest_idx = self.latest_idx + 1;
        self.size = self.size + 1;
        i
    }
}

/// One immutable event record, as handed back by `Graph::get`.
#[derive(Debug)]
pub struct EventRecord {
    pub creator: u32,
    /// Identifier of the self-parent; `None` exactly for genesis events.
    pub self_parent: Option<usize>,
    /// Identifier of the optional other-parent.
    pub other_parent: Option<usize>,
    /// Opaque ordered payload of transactions.
    pub payload: Vec<u32>,
    pub genesis: bool,
}

/// The membership set encoded by one ancestry bit-row: slot `j` of the row
/// speaks of the event with identifier `j + 1`.
pub open spec fn row_set(row: Seq<bool>) -> Set<int> {
    Set::new(|j: int| 1 <= j <= row.len() && row[j - 1])
}

/// The event arena.  Arena slot `k` (identifier `k + 1`) is spread across
/// the column vectors; every column is append-only and immutable once
/// written, except for the fame column, which may transition once.
pub struct Graph {
    pub(crate) genesis: Vec<bool>,
    pub(crate) self_parent: Vec<Option<usize>>,
    pub(crate) other_parent: Vec<Option<usize>>,
    pub(crate) txs: Vec<Vec<u32>>,
    pub(crate) creator: Vec<u32>,
    pub(crate) round: Vec<u32>,
    pub(crate) reachable: Vec<Vec<bool>>,
    pub(crate) witness: Vec<bool>,
    pub(crate) famous: Vec<FameStatus>,
    pub(crate) allocator: IndexAllocator,
    pub(crate) registry: ValidatorRegistry,
}

impl View for Graph {
    type V = GraphView;

    open(crate) spec fn view(&self) -> GraphView {
        GraphView {
            events: Seq::new(
                self.genesis@.len(),
                |k: int|
                    EventView {
                        genesis: self.genesis@[k],
                        creator: self.creator@[k],
                        self_parent: match self.self_parent@[k] {
                            Some(p) => Some(p as int),
                            None => None,
                        },
                        other_parent: match self.other_parent@[k] {
                            Some(p) => Some(p as int),
                            None => None,
                        },
                        payload: self.txs@[k]@,
                        round: self.round@[k] as int,
                        witness: self.witness@[k],
                        fame: self.famous@[k],
                        ancestors: row_set(self.reachable@[k]@),
                    },
            ),
            weights: self.registry@,
        }
    }
}

impl Graph {
    /// The column vectors stay in lockstep, the allocator matches the arena
    /// size, the ancestry rows have their fixed lengths, and the view
    /// satisfies the model's invariants.
    pub open(crate) spec fn wf(self) -> bool {
        &&& self.registry.wf()
        &&& self.self_parent@.len() == self.genesis@.len()
        &&& self.other_parent@.len() == self.genesis@.len()
        &&& self.txs@.len() == self.genesis@.len()
        &&& self.creator@.len() == self.genesis@.len()
        &&& self.round@.len() == self.genesis@.len()
        &&& self.reachable@.len() == self.genesis@.len()
        &&& self.witness@.len() == self.genesis@.len()
        &&& self.famous@.len() == self.genesis@.len()
        &&& self.allocator.latest_idx == self.genesis@.len()
        &&& self.allocator.size == self.genesis@.len()
        &&& forall|k: int|
            0 <= k < self.genesis@.len() ==> #[trigger] self.reachable@[k]@.len() == (
            if self.genesis@[k] {
                0int
            } else {
                k
            })
        &&& self@.wf()
    }

    /// A fresh, empty consensus graph.
    pub fn new() -> (g: Self)
        ensures
            g.wf(),
            g@.events == Seq::<EventView>::empty(),
            g@.weights == Seq::<Option<u32>>::empty(),
    {
        let g = Graph {
            genesis: Vec::new(),
            self_parent: Vec::new(),
            other_parent: Vec::new(),
            txs: Vec::new(),
            creator: Vec::new(),
            round: Vec::new(),
            reachable: Vec::new(),
            witness: Vec::new(),
            famous: Vec::new(),
            allocator: IndexAllocator { latest_idx: 0, size: 0 },
            registry: ValidatorRegistry::new(),
        };
        proof {
            assert(g@.events =~= Seq::<EventView>::empty());
        }
        g
    }

    /// Number of events stored so far; identifiers `1 ..= event_count()`
    /// are exactly the valid ones.
    pub fn event_count(&self) -> (n: usize)
        requires
            self.wf(),
        ensures
            n == self@.event_count(),
    {
        self.genesis.len()
    }

    /// The round assigned to the event at insertion.  Fails with
    /// `UnknownEvent` exactly when `id` is not stored.
    pub fn round(&self, id: usize) -> (r: Result<u32, ConsensusError>)
        requires
            self.wf(),
        ensures
            r is Ok <==> self@.valid_id(id as int),
            (r matches Err(e) ==> e == ConsensusError::UnknownEvent),
            (r matches Ok(x) ==> x as int == self@.event(id as int).round),
    {
        if id < 1 || id > self.genesis.len() {
            return Err(ConsensusError::UnknownEvent);
        }
        Ok(self.round[id - 1])
    }

    /// The witness flag assigned to the event at insertion.  Fails with
    /// `UnknownEvent` exactly when `id` is not stored.
    pub fn is_witness(&self, id: usize) -> (r: Result<bool, ConsensusError>)
        requires
            self.wf(),
        ensures
            r is Ok <==> self@.valid_id(id as int),
            (r matches Err(e) ==> e == ConsensusError::UnknownEvent),
            (r matches Ok(b) ==> b == self@.event(id as int).witness),
    {
        if id < 1 || id > self.genesis.len() {
            return Err(ConsensusError::UnknownEvent);
        }
        Ok(self.witness[id - 1])
    }

    /// The current fame verdict of the event (meaningful for witnesses).
    /// Fails with `UnknownEvent` exactly when `id` is not stored.
    pub fn fame(&self, id: usize) -> (r: Result<FameStatus, ConsensusError>)
        requires
            self.wf(),
        ensures
            r is Ok <==> self@.valid_id(id as int),
            (r matches Err(e) ==> e == ConsensusError::UnknownEvent),
            (r matches Ok(f) ==> f == self@.event(id as int).fame),
    {
        if id < 1 || id > self.genesis.len() {
            return Err(ConsensusError::UnknownEvent);
        }
        Ok(self.famous[id - 1])
    }

    /// Whether the event's fame verdict is `Famous`.  Fails with
    /// `UnknownEvent` exactly when `id` is not stored.
    pub fn is_famous(&self, id: usize) -> (r: Result<bool, ConsensusError>)
        requires
            self.wf(),
        ensures
            r is Ok <==> self@.valid_id(id as int),
            (r matches Err(e) ==> e == ConsensusError::UnknownEvent),
            (r matches Ok(b) ==> b == (self@.event(id as int).fame is Famous)),
    {
        if id < 1 || id > self.genesis.len() {
            return Err(ConsensusError::UnknownEvent);
        }
        Ok(match self.famous[id - 1] {
            FameStatus::Famous => true,
            _ => false,
        })
    }

    /// The full immutable record of the event.  Fails with `UnknownEvent`
    /// exactly when `id` is not stored.
    pub fn get(&self, id: usize) -> (r: Result<EventRecord, ConsensusError>)
        requires
            self.wf(),
        ensures
            r is Ok <==> self@.valid_id(id as int),
            (r matches Err(e) ==> e == ConsensusError::UnknownEvent),
            (r matches Ok(rec) ==> rec.creator == self@.event(id as int).creator
                && crate::model::opt_id(rec.self_parent) == self@.event(id as int).self_parent
                && crate::model::opt_id(rec.other_parent) == self@.event(
                id as int,
            ).other_parent && rec.payload@ == self@.event(id as int).payload && rec.genesis
                == self@.event(id as int).genesis),
    {
        if id < 1 || id > self.genesis.len() {
            return Err(ConsensusError::UnknownEvent);
        }
        let src = &self.txs[id - 1];
        let mut payload: Vec<u32> = Vec::new();
        let mut i: usize = 0;
        while i < src.len()
            invariant
                i <= src@.len(),
                payload@ == src@.take(i as int),
            decreases src@.len() - i,
        {
            payload.push(src[i]);
            proof {
                assert(payload@ =~= src@.take(i as int + 1));
            }
            i = i + 1;
        }
        proof {
            assert(payload@ =~= src@);
        }
        Ok(EventRecord {
            creator: self.creator[id - 1],
            self_parent: self.self_parent[id - 1],
            other_parent: self.other_parent[id - 1],
            payload,
            genesis: self.genesis[id - 1],
        })
    }

    /// The creator recorded for the event.  Fails with `UnknownEvent`
    /// exactly when `id` is not stored.
    pub fn creator_of(&self, id: usize) -> (r: Result<u32, ConsensusError>)
        requires
            self.wf(),
        ensures
            r is Ok <==> self@.valid_id(id as int),
            (r matches Err(e) ==> e == ConsensusError::UnknownEvent),
            (r matches Ok(c) ==> c == self@.event(id as int).creator),
    {
        if id < 1 || id > self.genesis.len() {
            return Err(ConsensusError::UnknownEvent);
        }
        Ok(self.creator[id - 1])
    }

    /// Every registered validator with its weight, in ascending identifier
    /// order.
    pub fn validators(&self) -> (r: Vec<(u32, u32)>)
        requires
            self.wf(),
        ensures
            forall|i: int|
                0 <= i < r@.len() ==> crate::registry::weight_at(
                    self@.weights,
                    #[trigger] r@[i].0 as int,
                ) == Some(r@[i].1),
            forall|c: int|
                crate::registry::registered(self@.weights, c) ==> exists|i: int|
                    0 <= i < r@.len() && #[trigger] r@[i].0 as int == c,
            forall|i: int, j: int| 0 <= i < j < r@.len() ==> r@[i].0 < r@[j].0,
    {
        self.registry.validators()
    }

    /// Registers `creator` with stake weight `weight` before consensus
    /// begins; idempotent, and a second registration never alters the
    /// stored weight.  Events are untouched.  Admitting new validators
    /// mid-run changes the supermajority denominator retroactively, so all
    /// registration should happen before the first event is inserted.
    pub fn register_validator(&mut self, creator: u32, weight: u32)
        requires
            old(self).wf(),
        ensures
            final(self).wf(),
            final(self)@.events == old(self)@.events,
            final(self)@.weights == crate::registry::register_effect(
                old(self)@.weights,
                creator as int,
                weight,
            ),
    {
        proof {
            crate::registry::lemma_register_effect_preserves(
                self.registry@,
                creator as int,
                weight,
            );
        }
        self.registry.register_with_weight(creator, weight);
        proof {
            assert(self@.events =~= old(self)@.events);
            assert forall|id: int| self@.valid_id(id) implies #[trigger] self@.event_wf(id) by {
                assert(old(self)@.event_wf(id));
                assert(self@.event(id) == old(self)@.event(id));
            }
        }
    }
}

} // verus!
