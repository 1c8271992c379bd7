use vstd::prelude::*;

use crate::ext::{BlockNumber, Round, ValidatorIndex};

verus! {

/// Largest total weight a validator set may carry; keeps `2 * total` in a `u64`.
pub const MAX_TOTAL_WEIGHT: u64 = 0x7fff_ffff_ffff_ffff;

/// Most validators a set may hold: their indices are `u16`.
pub const MAX_VALIDATORS: usize = 65536;

/// Sum of the first `k` weights.
pub open spec fn sum_weights(w: Seq<u64>, k: int) -> nat
    decreases k,
{
    if k <= 0 {
        0
    } else {
        sum_weights(w, k - 1) + w[k - 1] as nat
    }
}

/// Sum of the weights among the first `k` validators that satisfy `p`.
pub open spec fn weight_where(w: Seq<u64>, p: spec_fn(int) -> bool, k: int) -> nat
    decreases k,
{
    if k <= 0 {
        0
    } else {
        weight_where(w, p, k - 1) + if p(k - 1) {
            w[k - 1] as nat
        } else {
            0
        }
    }
}

/// `floor(2 * total / 3) + 1`: the weight that makes a quorum.
pub open spec fn threshold_of(total: nat) -> nat {
    (2 * total) / 3 + 1
}

/// `total - threshold + 1`: the least weight that holds an honest validator.
pub open spec fn fault_threshold_of(total: nat) -> nat {
    (total - threshold_of(total) + 1) as nat
}

/// The validator that owns `slot` when slots are dealt out by weight, starting the
/// search at validator `i`: the first one whose running sum of weights passes `slot`.
pub open spec fn slot_owner(w: Seq<u64>, slot: nat, i: int) -> int
    decreases w.len() - i,
{
    if i + 1 >= w.len() {
        i
    } else if slot < sum_weights(w, i + 1) {
        i
    } else {
        slot_owner(w, slot, i + 1)
    }
}

/// Weighted round robin: height plus round, taken modulo the total weight, is a slot,
/// and each validator owns as many consecutive slots as it has weight, in index order.
pub open spec fn proposer_of(w: Seq<u64>, number: u32, round: u16) -> int {
    slot_owner(w, ((number as nat + round as nat) % sum_weights(w, w.len() as int)) as nat, 0)
}

pub proof fn lemma_sum_weights_monotone(w: Seq<u64>, j: int, k: int)
    requires
        j <= k,
    ensures
        sum_weights(w, j) <= sum_weights(w, k),
    decreases k - j,
{
    if j < k {
        lemma_sum_weights_monotone(w, j, k - 1);
    }
}

pub proof fn lemma_weight_where_bounded(w: Seq<u64>, p: spec_fn(int) -> bool, k: int)
    ensures
        weight_where(w, p, k) <= sum_weights(w, k),
    decreases k,
{
    if k > 0 {
        lemma_weight_where_bounded(w, p, k - 1);
    }
}

/// Weight that two predicates select, counted apart, exceeds the total by at most
/// what they select together.
pub proof fn lemma_weight_where_overlap(
    w: Seq<u64>,
    a: spec_fn(int) -> bool,
    b: spec_fn(int) -> bool,
    k: int,
)
    ensures
        weight_where(w, a, k) + weight_where(w, b, k) <= sum_weights(w, k) + weight_where(
            w,
            |i: int| a(i) && b(i),
            k,
        ),
    decreases k,
{
    if k > 0 {
        lemma_weight_where_overlap(w, a, b, k - 1);
    }
}

/// Weight selected by a predicate depends only on the validators it looks at.
pub proof fn lemma_weight_where_ext(
    w: Seq<u64>,
    a: spec_fn(int) -> bool,
    b: spec_fn(int) -> bool,
    k: int,
)
    requires
        forall|i: int| 0 <= i < k ==> #[trigger] a(i) == b(i),
    ensures
        weight_where(w, a, k) == weight_where(w, b, k),
    decreases k,
{
    if k > 0 {
        lemma_weight_where_ext(w, a, b, k - 1);
    }
}

/// A predicate that selects more validators selects at least as much weight.
pub proof fn lemma_weight_where_subset(
    w: Seq<u64>,
    a: spec_fn(int) -> bool,
    b: spec_fn(int) -> bool,
    k: int,
)
    requires
        forall|i: int| 0 <= i < k && #[trigger] a(i) ==> b(i),
    ensures
        weight_where(w, a, k) <= weight_where(w, b, k),
    decreases k,
{
    if k > 0 {
        lemma_weight_where_subset(w, a, b, k - 1);
    }
}

pub proof fn lemma_threshold_bounds(total: nat)
    requires
        total >= 1,
    ensures
        1 <= threshold_of(total) <= total,
        1 <= fault_threshold_of(total) <= total,
        2 * threshold_of(total) >= total + fault_threshold_of(total),
{
}

/// Two quorums overlap in at least `fault_threshold` of weight, which is more than
/// validators holding under a third of the weight can make up: two conflicting
/// blocks cannot both gather a quorum unless that much weight voted for both.
pub proof fn lemma_quorums_intersect(w: Seq<u64>, a: spec_fn(int) -> bool, b: spec_fn(int) -> bool)
    requires
        sum_weights(w, w.len() as int) >= 1,
        weight_where(w, a, w.len() as int) >= threshold_of(sum_weights(w, w.len() as int)),
        weight_where(w, b, w.len() as int) >= threshold_of(sum_weights(w, w.len() as int)),
    ensures
        weight_where(w, |i: int| a(i) && b(i), w.len() as int) >= fault_threshold_of(
            sum_weights(w, w.len() as int),
        ),
        fault_threshold_of(sum_weights(w, w.len() as int)) > sum_weights(w, w.len() as int)
            - threshold_of(sum_weights(w, w.len() as int)),
{
    lemma_weight_where_overlap(w, a, b, w.len() as int);
    lemma_threshold_bounds(sum_weights(w, w.len() as int));
}

/// Well-formed weights: at least one and at most `MAX_VALIDATORS` validators, and a
/// positive total of at most `MAX_TOTAL_WEIGHT`.
pub open spec fn weights_wf(w: Seq<u64>) -> bool {
    &&& 1 <= w.len() <= MAX_VALIDATORS
    &&& 1 <= sum_weights(w, w.len() as int) <= MAX_TOTAL_WEIGHT
}

/// The weights of a validator set and the quorum arithmetic over them.
pub trait Weights {
    /// Whether the weights may be used.
    spec fn spec_wf(&self) -> bool;

    /// Sum of all weights.
    spec fn spec_total(&self) -> nat;

    /// Weight of one validator; zero for an unknown one.
    spec fn spec_weight(&self, validator: ValidatorIndex) -> nat;

    /// The validator that proposes at a height and round.
    spec fn spec_proposer(&self, number: BlockNumber, round: Round) -> ValidatorIndex;

    fn total_weight(&self) -> (r: u64)
        requires
            self.spec_wf(),
        ensures
            r == self.spec_total(),
    ;

    fn weight(&self, validator: ValidatorIndex) -> (r: u64)
        requires
            self.spec_wf(),
        ensures
            r == self.spec_weight(validator),
    ;

    fn threshold(&self) -> (r: u64)
        requires
            self.spec_wf(),
        ensures
            r == threshold_of(self.spec_total()),
    ;

    fn fault_threshold(&self) -> (r: u64)
        requires
            self.spec_wf(),
        ensures
            r == fault_threshold_of(self.spec_total()),
    ;

    fn proposer(&self, number: BlockNumber, round: Round) -> (r: ValidatorIndex)
        requires
            self.spec_wf(),
        ensures
            r == self.spec_proposer(number, round),
    ;
}

/// Weights held as a vector indexed by validator.
#[derive(Debug)]
pub struct ValidatorWeights {
    pub weights: Vec<u64>,
    pub total: u64,
}

impl ValidatorWeights {
    pub open spec fn view(&self) -> Seq<u64> {
        self.weights@
    }

    pub open spec fn wf(&self) -> bool {
        &&& weights_wf(self.weights@)
        &&& self.total == sum_weights(self.weights@, self.weights@.len() as int)
    }

    /// Takes the weights of validators `0, 1, ...`; `None` when the set is empty,
    /// holds more than `MAX_VALIDATORS` validators, or its total is zero or above
    /// `MAX_TOTAL_WEIGHT`.
    pub fn new(weights: Vec<u64>) -> (r: Option<ValidatorWeights>)
        ensures
            r.is_some() <==> weights_wf(weights@),
            r.is_some() ==> r.unwrap().wf() && r.unwrap()@ == weights@,
    {
        if weights.len() == 0 || weights.len() > MAX_VALIDATORS {
            return None;
        }
        let mut total: u64 = 0;
        let mut i: usize = 0;
        while i < weights.len()
            invariant
                i <= weights.len(),
                total == sum_weights(weights@, i as int),
                total <= MAX_TOTAL_WEIGHT,
            decreases weights.len() - i,
        {
            if weights[i] > MAX_TOTAL_WEIGHT - total {
                proof {
                    lemma_sum_weights_monotone(weights@, i as int + 1, weights@.len() as int);
                }
                return None;
            }
            total = total + weights[i];
            i = i + 1;
        }
        if total == 0 {
            return None;
        }
        Some(ValidatorWeights { weights, total })
    }

    /// Number of validators.
    pub fn len(&self) -> (r: usize)
        ensures
            r == self@.len(),
    {
        self.weights.len()
    }
}

impl Weights for ValidatorWeights {
    open spec fn spec_wf(&self) -> bool {
        self.wf()
    }

    open spec fn spec_total(&self) -> nat {
        sum_weights(self@, self@.len() as int)
    }

    open spec fn spec_weight(&self, validator: ValidatorIndex) -> nat {
        if (validator as int) < self@.len() {
            self@[validator as int] as nat
        } else {
            0
        }
    }

    open spec fn spec_proposer(&self, number: BlockNumber, round: Round) -> ValidatorIndex {
        proposer_of(self@, number.0, round.0) as ValidatorIndex
    }

    fn total_weight(&self) -> (r: u64) {
        self.total
    }

    fn weight(&self, validator: ValidatorIndex) -> (r: u64) {
        if (validator as usize) < self.weights.len() {
            self.weights[validator as usize]
        } else {
            0
        }
    }

    fn threshold(&self) -> (r: u64) {
        (self.total * 2) / 3 + 1
    }

    fn fault_threshold(&self) -> (r: u64) {
        proof {
            lemma_threshold_bounds(self.total as nat);
        }
        self.total - ((self.total * 2) / 3 + 1) + 1
    }

    fn proposer(&self, number: BlockNumber, round: Round) -> (r: ValidatorIndex) {
        let slot: u64 = ((number.0 as u64) + (round.0 as u64)) % self.total;
        let ghost w = self@;
        let mut acc: u64 = 0;
        let mut i: usize = 0;
        while i + 1 < self.weights.len()
            invariant
                self.wf(),
                w == self@,
                i + 1 <= w.len(),
                acc == sum_weights(w, i as int),
                slot < self.total,
                slot as nat == (number.0 as nat + round.0 as nat) % (self.total as nat),
                slot_owner(w, slot as nat, 0) == slot_owner(w, slot as nat, i as int),
            decreases w.len() - i,
        {
            proof {
                lemma_sum_weights_monotone(w, i as int + 1, w.len() as int);
            }
            acc = acc + self.weights[i];
            if slot < acc {
                assert(slot_owner(w, slot as nat, i as int) == i as int);
                return i as ValidatorIndex;
            }
            i = i + 1;
        }
        i as ValidatorIndex
    }
}

} // verus!
