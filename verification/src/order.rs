//! Numeric equality and order of natural numbers and amounts.
use crate::amount::{Coins, EntityCount, GrowthCent, LifetimePurchaseCount, StockCent};
use crate::bignat::BigNat;
use core::cmp::Ordering;
use vstd::prelude::*;

verus! {

impl PartialEq for BigNat {
    fn eq(&self, other: &Self) -> (r: bool) {
        self.eq(other)
    }
}

impl vstd::std_specs::cmp::PartialEqSpecImpl for BigNat {
    open spec fn obeys_eq_spec() -> bool {
        true
    }

    open spec fn eq_spec(&self, other: &Self) -> bool {
        self@ == other@
    }
}

impl Eq for BigNat {}

impl PartialOrd for BigNat {
    fn partial_cmp(&self, other: &Self) -> (r: Option<Ordering>) {
        if self.lt(other) {
            Some(Ordering::Less)
        } else if self.eq(other) {
            Some(Ordering::Equal)
        } else {
            Some(Ordering::Greater)
        }
    }
}

impl vstd::std_specs::cmp::PartialOrdSpecImpl for BigNat {
    open spec fn obeys_partial_cmp_spec() -> bool {
        true
    }

    open spec fn partial_cmp_spec(&self, other: &Self) -> Option<Ordering> {
        if self@ < other@ {
            Some(Ordering::Less)
        } else if self@ == other@ {
            Some(Ordering::Equal)
        } else {
            Some(Ordering::Greater)
        }
    }
}

impl PartialEq for Coins {
    fn eq(&self, other: &Self) -> (r: bool) {
        self.as_biguint().eq(other.as_biguint())
    }
}

impl vstd::std_specs::cmp::PartialEqSpecImpl for Coins {
    open spec fn obeys_eq_spec() -> bool {
        true
    }

    open spec fn eq_spec(&self, other: &Self) -> bool {
        self@ == other@
    }
}

impl Eq for Coins {}

impl PartialOrd for Coins {
    fn partial_cmp(&self, other: &Self) -> (r: Option<Ordering>) {
        if self.as_biguint().lt(other.as_biguint()) {
            Some(Ordering::Less)
        } else if self.as_biguint().eq(other.as_biguint()) {
            Some(Ordering::Equal)
        } else {
            Some(Ordering::Greater)
        }
    }
}

impl vstd::std_specs::cmp::PartialOrdSpecImpl for Coins {
    open spec fn obeys_partial_cmp_spec() -> bool {
        true
    }

    open spec fn partial_cmp_spec(&self, other: &Self) -> Option<Ordering> {
        if self@ < other@ {
            Some(Ordering::Less)
        } else if self@ == other@ {
            Some(Ordering::Equal)
        } else {
            Some(Ordering::Greater)
        }
    }
}

impl PartialEq for EntityCount {
    fn eq(&self, other: &Self) -> (r: bool) {
        self.as_biguint().eq(other.as_biguint())
    }
}

impl vstd::std_specs::cmp::PartialEqSpecImpl for EntityCount {
    open spec fn obeys_eq_spec() -> bool {
        true
    }

    open spec fn eq_spec(&self, other: &Self) -> bool {
        self@ == other@
    }
}

impl Eq for EntityCount {}

impl PartialOrd for EntityCount {
    fn partial_cmp(&self, other: &Self) -> (r: Option<Ordering>) {
        if self.as_biguint().lt(other.as_biguint()) {
            Some(Ordering::Less)
        } else if self.as_biguint().eq(other.as_biguint()) {
            Some(Ordering::Equal)
        } else {
            Some(Ordering::Greater)
        }
    }
}

impl vstd::std_specs::cmp::PartialOrdSpecImpl for EntityCount {
    open spec fn obeys_partial_cmp_spec() -> bool {
        true
    }

    open spec fn partial_cmp_spec(&self, other: &Self) -> Option<Ordering> {
        if self@ < other@ {
            Some(Ordering::Less)
        } else if self@ == other@ {
            Some(Ordering::Equal)
        } else {
            Some(Ordering::Greater)
        }
    }
}

impl PartialEq for StockCent {
    fn eq(&self, other: &Self) -> (r: bool) {
        self.as_biguint().eq(other.as_biguint())
    }
}

impl vstd::std_specs::cmp::PartialEqSpecImpl for StockCent {
    open spec fn obeys_eq_spec() -> bool {
        true
    }

    open spec fn eq_spec(&self, other: &Self) -> bool {
        self@ == other@
    }
}

impl Eq for StockCent {}

impl PartialOrd for StockCent {
    fn partial_cmp(&self, other: &Self) -> (r: Option<Ordering>) {
        if self.as_biguint().lt(other.as_biguint()) {
            Some(Ordering::Less)
        } else if self.as_biguint().eq(other.as_biguint()) {
            Some(Ordering::Equal)
        } else {
            Some(Ordering::Greater)
        }
    }
}

impl vstd::std_specs::cmp::PartialOrdSpecImpl for StockCent {
    open spec fn obeys_partial_cmp_spec() -> bool {
        true
    }

    open spec fn partial_cmp_spec(&self, other: &Self) -> Option<Ordering> {
        if self@ < other@ {
            Some(Ordering::Less)
        } else if self@ == other@ {
            Some(Ordering::Equal)
        } else {
            Some(Ordering::Greater)
        }
    }
}

impl PartialEq for GrowthCent {
    fn eq(&self, other: &Self) -> (r: bool) {
        self.as_biguint().eq(other.as_biguint())
    }
}

impl vstd::std_specs::cmp::PartialEqSpecImpl for GrowthCent {
    open spec fn obeys_eq_spec() -> bool {
        true
    }

    open spec fn eq_spec(&self, other: &Self) -> bool {
        self@ == other@
    }
}

impl Eq for GrowthCent {}

impl PartialOrd for GrowthCent {
    fn partial_cmp(&self, other: &Self) -> (r: Option<Ordering>) {
        if self.as_biguint().lt(other.as_biguint()) {
            Some(Ordering::Less)
        } else if self.as_biguint().eq(other.as_biguint()) {
            Some(Ordering::Equal)
        } else {
            Some(Ordering::Greater)
        }
    }
}

impl vstd::std_specs::cmp::PartialOrdSpecImpl for GrowthCent {
    open spec fn obeys_partial_cmp_spec() -> bool {
        true
    }

    open spec fn partial_cmp_spec(&self, other: &Self) -> Option<Ordering> {
        if self@ < other@ {
            Some(Ordering::Less)
        } else if self@ == other@ {
            Some(Ordering::Equal)
        } else {
            Some(Ordering::Greater)
        }
    }
}

impl PartialEq for LifetimePurchaseCount {
    fn eq(&self, other: &Self) -> (r: bool) {
        self.as_biguint().eq(other.as_biguint())
    }
}

impl vstd::std_specs::cmp::PartialEqSpecImpl for LifetimePurchaseCount {
    open spec fn obeys_eq_spec() -> bool {
        true
    }

    open spec fn eq_spec(&self, other: &Self) -> bool {
        self@ == other@
    }
}

impl Eq for LifetimePurchaseCount {}

impl PartialOrd for LifetimePurchaseCount {
    fn partial_cmp(&self, other: &Self) -> (r: Option<Ordering>) {
        if self.as_biguint().lt(other.as_biguint()) {
            Some(Ordering::Less)
        } else if self.as_biguint().eq(other.as_biguint()) {
            Some(Ordering::Equal)
        } else {
            Some(Ordering::Greater)
        }
    }
}

impl vstd::std_specs::cmp::PartialOrdSpecImpl for LifetimePurchaseCount {
    open spec fn obeys_partial_cmp_spec() -> bool {
        true
    }

    open spec fn partial_cmp_spec(&self, other: &Self) -> Option<Ordering> {
        if self@ < other@ {
            Some(Ordering::Less)
        } else if self@ == other@ {
            Some(Ordering::Equal)
        } else {
            Some(Ordering::Greater)
        }
    }
}

} // verus!
