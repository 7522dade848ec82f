//! The per-command budget for exact plant pricing.
use vstd::prelude::*;

verus! {

/// Explicit per-command budget for the exact, per-plant ceiling sum.
///
/// This is an engineering denial-of-service bound, not an economic holding cap.
pub const DEFAULT_MAX_PLANT_UNITS_PER_BATCH: u64 = 100_000;

pub const DEFAULT_MAX_PLANT_SEQUENCE_NUMBER: u64 = 1_000_000;

pub const DEFAULT_MAX_ESTIMATED_PRICE_DIGITS: u64 = 20_000;

pub const DEFAULT_MAX_ESTIMATED_DIGIT_WORK: u64 = 250_000_000;

#[derive(Clone, Copy, Debug, PartialEq, Eq)]
pub struct PurchasePricingBudget {
    max_total_plant_units: u64,
    max_plant_sequence_number: u64,
    max_estimated_price_digits: u64,
    max_estimated_digit_work: u64,
}

impl PurchasePricingBudget {
    pub closed spec fn units_limit(&self) -> u64 {
        self.max_total_plant_units
    }

    pub closed spec fn sequence_limit(&self) -> u64 {
        self.max_plant_sequence_number
    }

    pub closed spec fn digits_limit(&self) -> u64 {
        self.max_estimated_price_digits
    }

    pub closed spec fn work_limit(&self) -> u64 {
        self.max_estimated_digit_work
    }

    /// The default budget.
    pub closed spec fn default_spec() -> Self {
        PurchasePricingBudget {
            max_total_plant_units: DEFAULT_MAX_PLANT_UNITS_PER_BATCH,
            max_plant_sequence_number: DEFAULT_MAX_PLANT_SEQUENCE_NUMBER,
            max_estimated_price_digits: DEFAULT_MAX_ESTIMATED_PRICE_DIGITS,
            max_estimated_digit_work: DEFAULT_MAX_ESTIMATED_DIGIT_WORK,
        }
    }

    pub fn new(
        max_total_plant_units: u64,
        max_plant_sequence_number: u64,
        max_estimated_price_digits: u64,
        max_estimated_digit_work: u64,
    ) -> (r: Self)
        ensures
            r.units_limit() == max_total_plant_units,
            r.sequence_limit() == max_plant_sequence_number,
            r.digits_limit() == max_estimated_price_digits,
            r.work_limit() == max_estimated_digit_work,
    {
        PurchasePricingBudget {
            max_total_plant_units,
            max_plant_sequence_number,
            max_estimated_price_digits,
            max_estimated_digit_work,
        }
    }

    pub fn max_total_plant_units(self) -> (r: u64)
        ensures
            r == self.units_limit(),
    {
        self.max_total_plant_units
    }

    pub fn max_plant_sequence_number(self) -> (r: u64)
        ensures
            r == self.sequence_limit(),
    {
        self.max_plant_sequence_number
    }

    pub fn max_estimated_price_digits(self) -> (r: u64)
        ensures
            r == self.digits_limit(),
    {
        self.max_estimated_price_digits
    }

    pub fn max_estimated_digit_work(self) -> (r: u64)
        ensures
            r == self.work_limit(),
    {
        self.max_estimated_digit_work
    }
}

impl Default for PurchasePricingBudget {
    fn default() -> (r: Self)
        ensures
            r == PurchasePricingBudget::default_spec(),
            r.units_limit() == DEFAULT_MAX_PLANT_UNITS_PER_BATCH,
            r.sequence_limit() == DEFAULT_MAX_PLANT_SEQUENCE_NUMBER,
            r.digits_limit() == DEFAULT_MAX_ESTIMATED_PRICE_DIGITS,
            r.work_limit() == DEFAULT_MAX_ESTIMATED_DIGIT_WORK,
    {
        PurchasePricingBudget::new(
            DEFAULT_MAX_PLANT_UNITS_PER_BATCH,
            DEFAULT_MAX_PLANT_SEQUENCE_NUMBER,
            DEFAULT_MAX_ESTIMATED_PRICE_DIGITS,
            DEFAULT_MAX_ESTIMATED_DIGIT_WORK,
        )
    }
}

} // verus!
