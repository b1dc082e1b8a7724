//! Validator registry: the set of validators seen so far, their stake
//! weights, and the supermajority threshold derived from the total weight.

use vstd::prelude::*;

verus! {

/// Sum of the stake weights of the registered validators whose identifier
/// satisfies `p`.  Slot `c` of `weights` holds the weight of validator `c`,
/// or `None` while that validator is unregistered.
pub open spec fn sum_if(weights: Seq<Option<u32>>, p: spec_fn(int) -> bool) -> int
    decreases weights.len(),
{
    if weights.len() == 0 {
        0
    } else {
        sum_if(weights.drop_last(), p) + if p(weights.len() - 1) && weights.last() is Some {
            weights.last()->0 as int
        } else {
            0
        }
    }
}

/// Combined stake weight of every registered validator.
pub open spec fn total_weight_of(weights: Seq<Option<u32>>) -> int {
    sum_if(weights, |c: int| true)
}

/// The smallest weight strictly greater than two thirds of the total weight.
pub open spec fn threshold_of(weights: Seq<Option<u32>>) -> int {
    2 * total_weight_of(weights) / 3 + 1
}

/// Validator `c` is known to the registry.
pub open spec fn registered(weights: Seq<Option<u32>>, c: int) -> bool {
    0 <= c < weights.len() && weights[c] is Some
}

/// The weight recorded for validator `c`, if any.
pub open spec fn weight_at(weights: Seq<Option<u32>>, c: int) -> Option<u32> {
    if 0 <= c < weights.len() {
        weights[c]
    } else {
        None
    }
}

/// The registry contents after registering validator `c` with weight `w`:
/// unchanged when `c` is already registered, otherwise grown as needed and
/// with slot `c` filled.
pub open spec fn register_effect(weights: Seq<Option<u32>>, c: int, w: u32) -> Seq<Option<u32>> {
    if registered(weights, c) {
        weights
    } else {
        let grown = if c < weights.len() {
            weights
        } else {
            weights + Seq::new((c + 1 - weights.len()) as nat, |i: int| None::<u32>)
        };
        grown.update(c, Some(w))
    }
}

pub proof fn lemma_sum_if_nonneg(weights: Seq<Option<u32>>, p: spec_fn(int) -> bool)
    ensures
        sum_if(weights, p) >= 0,
    decreases weights.len(),
{
    if weights.len() > 0 {
        lemma_sum_if_nonneg(weights.drop_last(), p);
    }
}

/// Predicates that agree on every slot give the same sum.
pub proof fn lemma_sum_if_congruent(
    weights: Seq<Option<u32>>,
    p: spec_fn(int) -> bool,
    q: spec_fn(int) -> bool,
)
    requires
        forall|c: int| 0 <= c < weights.len() ==> (#[trigger] p(c) <==> #[trigger] q(c)),
    ensures
        sum_if(weights, p) == sum_if(weights, q),
    decreases weights.len(),
{
    if weights.len() > 0 {
        lemma_sum_if_congruent(weights.drop_last(), p, q);
    }
}

/// The sum over any predicate is bounded by the slot count times the largest
/// possible weight.
pub proof fn lemma_sum_if_bound(weights: Seq<Option<u32>>, p: spec_fn(int) -> bool)
    ensures
        sum_if(weights, p) <= weights.len() * 0xFFFF_FFFF,
    decreases weights.len(),
{
    if weights.len() > 0 {
        lemma_sum_if_bound(weights.drop_last(), p);
        assert(weights.drop_last().len() * 0xFFFF_FFFF + 0xFFFF_FFFF == weights.len()
            * 0xFFFF_FFFF);
    }
}

/// Splitting off the contribution of slot `i` from the sum over a prefix.
pub proof fn lemma_sum_if_take_step(weights: Seq<Option<u32>>, p: spec_fn(int) -> bool, i: int)
    requires
        0 <= i < weights.len(),
    ensures
        sum_if(weights.take(i + 1), p) == sum_if(weights.take(i), p) + if p(i)
            && weights[i] is Some {
            weights[i]->0 as int
        } else {
            0
        },
{
    assert(weights.take(i + 1).drop_last() =~= weights.take(i));
    assert(weights.take(i + 1).last() == weights[i]);
}

/// Taking the whole sequence leaves the sum unchanged.
pub proof fn lemma_sum_if_take_all(weights: Seq<Option<u32>>, p: spec_fn(int) -> bool)
    ensures
        sum_if(weights.take(weights.len() as int), p) == sum_if(weights, p),
{
    assert(weights.take(weights.len() as int) =~= weights);
}

/// An empty slot contributes nothing.
pub proof fn lemma_sum_if_push_none(weights: Seq<Option<u32>>, p: spec_fn(int) -> bool)
    ensures
        sum_if(weights.push(None), p) == sum_if(weights, p),
{
    assert(weights.push(None).drop_last() =~= weights);
}

/// Filling an empty slot raises the sum by that slot's contribution.
pub proof fn lemma_sum_if_update(
    weights: Seq<Option<u32>>,
    p: spec_fn(int) -> bool,
    c: int,
    w: u32,
)
    requires
        0 <= c < weights.len(),
        weights[c] is None,
    ensures
        sum_if(weights.update(c, Some(w)), p) == sum_if(weights, p) + if p(c) {
            w as int
        } else {
            0
        },
    decreases weights.len(),
{
    let updated = weights.update(c, Some(w));
    if c == weights.len() - 1 {
        assert(updated.drop_last() =~= weights.drop_last());
        assert(updated.last() == Some(w));
    } else {
        assert(updated.drop_last() =~= weights.drop_last().update(c, Some(w)));
        assert(updated.last() == weights.last());
        lemma_sum_if_update(weights.drop_last(), p, c, w);
    }
}

/// Registering one validator never unregisters or reweighs another.
pub proof fn lemma_register_effect_preserves(weights: Seq<Option<u32>>, c2: int, w: u32)
    requires
        0 <= c2,
    ensures
        forall|c: int|
            #[trigger] registered(weights, c) ==> registered(register_effect(weights, c2, w), c),
        forall|c: int|
            c != c2 && 0 <= c < weights.len() ==> weight_at(
                register_effect(weights, c2, w),
                c,
            ) == weight_at(weights, c),
        registered(register_effect(weights, c2, w), c2),
        register_effect(weights, c2, w).len() >= weights.len(),
{
}

/// Tracks known validators and stake weights, and computes the
/// supermajority threshold.  Slot `c` of `weights` belongs to validator `c`;
/// `total` caches the combined weight of all filled slots.
pub struct ValidatorRegistry {
    weights: Vec<Option<u32>>,
    total: u64,
}

impl View for ValidatorRegistry {
    type V = Seq<Option<u32>>;

    closed spec fn view(&self) -> Seq<Option<u32>> {
        self.weights@
    }
}

impl ValidatorRegistry {
    /// The cached total matches the slots, and the slot count stays small
    /// enough that no weight arithmetic can overflow.
    pub closed spec fn wf(self) -> bool {
        &&& self.total as int == total_weight_of(self.weights@)
        &&& self.weights@.len() <= 0x1_0000_0000
    }

    pub fn new() -> (r: Self)
        ensures
            r.wf(),
            r@ == Seq::<Option<u32>>::empty(),
    {
        let r = ValidatorRegistry { weights: Vec::new(), total: 0 };
        proof {
            assert(r.weights@ =~= Seq::<Option<u32>>::empty());
        }
        r
    }

    /// Adds `creator` with weight `weight` if unseen; idempotent, and a
    /// second registration never alters the stored weight.
    pub fn register_with_weight(&mut self, creator: u32, weight: u32)
        requires
            old(self).wf(),
        ensures
            final(self).wf(),
            final(self)@ == register_effect(old(self)@, creator as int, weight),
    {
        let c = creator as usize;
        let ghost orig = self.weights@;
        while self.weights.len() <= c
            invariant
                c <= 0xFFFF_FFFF,
                self.weights@.len() <= c + 1 || self.weights@.len() == orig.len(),
                self.weights@.len() >= orig.len(),
                self.weights@ == orig + Seq::new(
                    (self.weights@.len() - orig.len()) as nat,
                    |i: int| None::<u32>,
                ),
                self.total as int == total_weight_of(self.weights@),
            decreases c + 1 - self.weights.len(),
        {
            proof {
                lemma_sum_if_push_none(self.weights@, |x: int| true);
                assert(self.weights@.push(None) =~= orig + Seq::new(
                    (self.weights@.len() + 1 - orig.len()) as nat,
                    |i: int| None::<u32>,
                ));
            }
            self.weights.push(None);
        }
        if self.weights[c].is_none() {
            proof {
                lemma_sum_if_update(self.weights@, |x: int| true, c as int, weight);
                lemma_sum_if_bound(self.weights@, |x: int| true);
            }
            let ghost before = self.weights@;
            self.weights.set(c, Some(weight));
            self.total = self.total + (weight as u64);
            proof {
                if c as int >= orig.len() {
                    assert(self.weights@ =~= (orig + Seq::new(
                        (c + 1 - orig.len()) as nat,
                        |i: int| None::<u32>,
                    )).update(c as int, Some(weight)));
                } else {
                    assert(before =~= orig);
                    assert(self.weights@ =~= orig.update(c as int, Some(weight)));
                }
                assert(self.weights@ =~= register_effect(orig, creator as int, weight));
            }
        } else {
            proof {
                assert(self.weights@ =~= orig);
                assert(self.weights@ =~= register_effect(orig, creator as int, weight));
            }
        }
    }

    /// Adds `creator` with the default weight if unseen; idempotent.
    pub fn register(&mut self, creator: u32)
        requires
            old(self).wf(),
        ensures
            final(self).wf(),
            final(self)@ == register_effect(old(self)@, creator as int, 1),
    {
        self.register_with_weight(creator, 1);
    }

    pub fn is_registered(&self, creator: u32) -> (r: bool)
        ensures
            r == registered(self@, creator as int),
    {
        let c = creator as usize;
        c < self.weights.len() && self.weights[c].is_some()
    }

    /// The weight recorded for `creator`, or `None` while unregistered.
    pub fn weight_of(&self, creator: u32) -> (w: Option<u32>)
        ensures
            w == weight_at(self@, creator as int),
    {
        let c = creator as usize;
        if c < self.weights.len() {
            self.weights[c]
        } else {
            None
        }
    }

    /// Number of registry slots (one per identifier up to the largest
    /// registered one).
    pub fn slot_count(&self) -> (n: usize)
        ensures
            n == self@.len(),
            self.wf() ==> n <= 0x1_0000_0000,
    {
        self.weights.len()
    }

    /// Sum of all registered weights.
    pub fn total_weight(&self) -> (t: u64)
        requires
            self.wf(),
        ensures
            t as int == total_weight_of(self@),
    {
        self.total
    }

    /// The smallest weight strictly greater than two thirds of the total
    /// weight, computed with exact integer arithmetic so that small
    /// populations never round the threshold down to zero.
    pub fn supermajority_threshold(&self) -> (t: u64)
        requires
            self.wf(),
        ensures
            t as int == threshold_of(self@),
            t >= 1,
    {
        proof {
            lemma_sum_if_nonneg(self.weights@, |x: int| true);
            assert((2 * (self.total as u128)) / 3 <= self.total as u128) by (nonlinear_arith);
        }
        let twice: u128 = 2 * (self.total as u128);
        ((twice / 3) as u64) + 1
    }

    /// Every registered validator with its weight, in ascending identifier
    /// order.
    pub fn validators(&self) -> (r: Vec<(u32, u32)>)
        requires
            self.wf(),
        ensures
            forall|i: int|
                0 <= i < r@.len() ==> weight_at(self@, #[trigger] r@[i].0 as int) == Some(
                    r@[i].1,
                ),
            forall|c: int|
                registered(self@, c) ==> exists|i: int|
                    0 <= i < r@.len() && #[trigger] r@[i].0 as int == c,
            forall|i: int, j: int| 0 <= i < j < r@.len() ==> r@[i].0 < r@[j].0,
    {
        let mut r: Vec<(u32, u32)> = Vec::new();
        let mut c: usize = 0;
        while c < self.weights.len()
            invariant
                self.weights@.len() <= 0x1_0000_0000,
                c <= self.weights@.len(),
                forall|i: int|
                    0 <= i < r@.len() ==> weight_at(self@, #[trigger] r@[i].0 as int) == Some(
                        r@[i].1,
                    ),
                forall|k: int|
                    0 <= k < c && registered(self@, k) ==> exists|i: int|
                        0 <= i < r@.len() && #[trigger] r@[i].0 as int == k,
                forall|i: int| 0 <= i < r@.len() ==> r@[i].0 < c,
                forall|i: int, j: int| 0 <= i < j < r@.len() ==> r@[i].0 < r@[j].0,
            decreases self.weights@.len() - c,
        {
            let ghost prev = r@;
            if let Some(w) = self.weights[c] {
                r.push((c as u32, w));
            }
            proof {
                assert forall|k: int| 0 <= k < c + 1 && registered(self@, k) implies exists|i: int|
                    0 <= i < r@.len() && #[trigger] r@[i].0 as int == k by {
                    if k == c {
                        assert(r@[r@.len() - 1].0 as int == k);
                    } else {
                        let i = choose|i: int| 0 <= i < prev.len() && #[trigger] prev[i].0 as int
                            == k;
                        assert(r@[i].0 as int == k);
                    }
                }
            }
            c = c + 1;
        }
        r
    }
}

} // verus!
