//! Non-negative amounts of unbounded size.
use crate::bignat::{decimal, BigNat};
use vstd::prelude::*;

verus! {

/// A non-negative amount of coins.
#[derive(Clone, Debug)]
pub struct Coins(BigNat);

impl View for Coins {
    type V = nat;

    closed spec fn view(&self) -> nat {
        self.0@
    }
}

impl Coins {
    pub fn zero() -> (r: Self)
        ensures
            r@ == 0,
    {
        Coins(BigNat::zero())
    }

    pub fn from_u64(value: u64) -> (r: Self)
        ensures
            r@ == value as nat,
    {
        Coins(BigNat::from_u64(value))
    }

    pub fn from_biguint(value: BigNat) -> (r: Self)
        ensures
            r@ == value@,
    {
        Coins(value)
    }

    pub fn as_biguint(&self) -> (r: &BigNat)
        ensures
            r@ == self@,
    {
        &self.0
    }

    pub fn into_biguint(self) -> (r: BigNat)
        ensures
            r@ == self@,
    {
        self.0
    }

    pub fn is_zero(&self) -> (r: bool)
        ensures
            r == (self@ == 0),
    {
        self.0.is_zero()
    }

    pub fn to_decimal_string(&self) -> (r: String)
        ensures
            r@ == decimal(self@),
    {
        self.0.to_decimal_string()
    }

    /// A copy of the amount.
    pub fn copy(&self) -> (r: Self)
        ensures
            r@ == self@,
    {
        Coins(self.0.copy())
    }
}

/// A non-negative number of plants or animals.
#[derive(Clone, Debug)]
pub struct EntityCount(BigNat);

impl View for EntityCount {
    type V = nat;

    closed spec fn view(&self) -> nat {
        self.0@
    }
}

impl EntityCount {
    pub fn zero() -> (r: Self)
        ensures
            r@ == 0,
    {
        EntityCount(BigNat::zero())
    }

    pub fn from_u64(value: u64) -> (r: Self)
        ensures
            r@ == value as nat,
    {
        EntityCount(BigNat::from_u64(value))
    }

    pub fn from_biguint(value: BigNat) -> (r: Self)
        ensures
            r@ == value@,
    {
        EntityCount(value)
    }

    pub fn as_biguint(&self) -> (r: &BigNat)
        ensures
            r@ == self@,
    {
        &self.0
    }

    pub fn into_biguint(self) -> (r: BigNat)
        ensures
            r@ == self@,
    {
        self.0
    }

    pub fn is_zero(&self) -> (r: bool)
        ensures
            r == (self@ == 0),
    {
        self.0.is_zero()
    }

    pub fn to_decimal_string(&self) -> (r: String)
        ensures
            r@ == decimal(self@),
    {
        self.0.to_decimal_string()
    }

    /// A copy of the amount.
    pub fn copy(&self) -> (r: Self)
        ensures
            r@ == self@,
    {
        EntityCount(self.0.copy())
    }
}

/// Plant stock, in cent-units.
#[derive(Clone, Debug)]
pub struct StockCent(BigNat);

impl View for StockCent {
    type V = nat;

    closed spec fn view(&self) -> nat {
        self.0@
    }
}

impl StockCent {
    pub fn zero() -> (r: Self)
        ensures
            r@ == 0,
    {
        StockCent(BigNat::zero())
    }

    pub fn from_u64(value: u64) -> (r: Self)
        ensures
            r@ == value as nat,
    {
        StockCent(BigNat::from_u64(value))
    }

    pub fn from_biguint(value: BigNat) -> (r: Self)
        ensures
            r@ == value@,
    {
        StockCent(value)
    }

    pub fn as_biguint(&self) -> (r: &BigNat)
        ensures
            r@ == self@,
    {
        &self.0
    }

    pub fn into_biguint(self) -> (r: BigNat)
        ensures
            r@ == self@,
    {
        self.0
    }

    pub fn is_zero(&self) -> (r: bool)
        ensures
            r == (self@ == 0),
    {
        self.0.is_zero()
    }

    pub fn to_decimal_string(&self) -> (r: String)
        ensures
            r@ == decimal(self@),
    {
        self.0.to_decimal_string()
    }

    /// A copy of the amount.
    pub fn copy(&self) -> (r: Self)
        ensures
            r@ == self@,
    {
        StockCent(self.0.copy())
    }
}

/// Animal growth, in cent-units.
#[derive(Clone, Debug)]
pub struct GrowthCent(BigNat);

impl View for GrowthCent {
    type V = nat;

    closed spec fn view(&self) -> nat {
        self.0@
    }
}

impl GrowthCent {
    pub fn zero() -> (r: Self)
        ensures
            r@ == 0,
    {
        GrowthCent(BigNat::zero())
    }

    pub fn from_u64(value: u64) -> (r: Self)
        ensures
            r@ == value as nat,
    {
        GrowthCent(BigNat::from_u64(value))
    }

    pub fn from_biguint(value: BigNat) -> (r: Self)
        ensures
            r@ == value@,
    {
        GrowthCent(value)
    }

    pub fn as_biguint(&self) -> (r: &BigNat)
        ensures
            r@ == self@,
    {
        &self.0
    }

    pub fn into_biguint(self) -> (r: BigNat)
        ensures
            r@ == self@,
    {
        self.0
    }

    pub fn is_zero(&self) -> (r: bool)
        ensures
            r == (self@ == 0),
    {
        self.0.is_zero()
    }

    pub fn to_decimal_string(&self) -> (r: String)
        ensures
            r@ == decimal(self@),
    {
        self.0.to_decimal_string()
    }

    /// A copy of the amount.
    pub fn copy(&self) -> (r: Self)
        ensures
            r@ == self@,
    {
        GrowthCent(self.0.copy())
    }
}

/// How many animals of a species were ever bought for coins.
#[derive(Clone, Debug)]
pub struct LifetimePurchaseCount(BigNat);

impl View for LifetimePurchaseCount {
    type V = nat;

    closed spec fn view(&self) -> nat {
        self.0@
    }
}

impl LifetimePurchaseCount {
    pub fn zero() -> (r: Self)
        ensures
            r@ == 0,
    {
        LifetimePurchaseCount(BigNat::zero())
    }

    pub fn from_u64(value: u64) -> (r: Self)
        ensures
            r@ == value as nat,
    {
        LifetimePurchaseCount(BigNat::from_u64(value))
    }

    pub fn from_biguint(value: BigNat) -> (r: Self)
        ensures
            r@ == value@,
    {
        LifetimePurchaseCount(value)
    }

    pub fn as_biguint(&self) -> (r: &BigNat)
        ensures
            r@ == self@,
    {
        &self.0
    }

    pub fn into_biguint(self) -> (r: BigNat)
        ensures
            r@ == self@,
    {
        self.0
    }

    pub fn is_zero(&self) -> (r: bool)
        ensures
            r == (self@ == 0),
    {
        self.0.is_zero()
    }

    pub fn to_decimal_string(&self) -> (r: String)
        ensures
            r@ == decimal(self@),
    {
        self.0.to_decimal_string()
    }

    /// A copy of the amount.
    pub fn copy(&self) -> (r: Self)
        ensures
            r@ == self@,
    {
        LifetimePurchaseCount(self.0.copy())
    }
}

} // verus!
