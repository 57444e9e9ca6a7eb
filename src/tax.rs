//! Tax policy: the rate that applies to each class of goods.
use vstd::prelude::*;

verus! {

/// Classification of a sale item, which decides its tax rate.
#[derive(Clone, Copy, Debug, PartialEq, Eq, Structural)]
pub enum TaxGroup {
    Food,
    Standard,
}

impl TaxGroup {
    /// The rate of the group, in basis points (hundredths of a percent).
    pub open spec fn rate_bp(self) -> nat {
        match self {
            TaxGroup::Food => 500,
            TaxGroup::Standard => 800,
        }
    }

    /// The rate of the group, in basis points: 800 stands for 8%.
    pub fn tax_rate(&self) -> (r: u64)
        ensures
            r as nat == self.rate_bp(),
            r <= 10000,
    {
        match self {
            TaxGroup::Food => 500,
            TaxGroup::Standard => 800,
        }
    }
}

} // verus!
