use vstd::prelude::*;

verus! {

/// A fee rate per unit of transaction weight.
#[derive(Clone, Copy, PartialEq, Eq, Structural, Debug)]
pub struct Fee {
    pub per_weight: u64,
}

impl Fee {
    /// The fee for a transaction of `weight`: the rate times the weight, less one.
    pub fn calculate(&self, weight: usize) -> (r: u64)
        requires
            1 <= self.per_weight * weight <= u64::MAX,
        ensures
            r == self.per_weight * weight - 1,
    {
        (self.per_weight * weight as u64) - 1
    }
}

} // verus!
