//! Exact plant prices: a geometric price with a ceiling, in integers only.
use crate::amount::Coins;
use crate::bignat::{decimal, BigNat};
use crate::budget::PurchasePricingBudget;
use crate::config::PlantConfig;
use crate::error::{DomainError, DomainErrorView};
use vstd::arithmetic::power::pow;
use vstd::prelude::*;

verus! {

/// `a / b` rounded up.
pub open spec fn ceil_div_spec(a: nat, b: nat) -> nat {
    if a % b == 0 {
        a / b
    } else {
        a / b + 1
    }
}

/// `b` to the power `e`, as a natural number.
pub open spec fn pow_nat(b: nat, e: nat) -> nat {
    pow(b as int, e) as nat
}

/// The price of a plant when `e` plants of the species are already owned:
/// `ceil(base * num^e / den^e)`.
pub open spec fn unit_price(c: PlantConfig, e: nat) -> nat {
    ceil_div_spec(
        c.base_price_coins@ * pow_nat(c.price_growth_num@, e),
        pow_nat(c.price_growth_den@, e),
    )
}

/// The price of plant number `n` (one-based) of the species.
pub open spec fn plant_price(c: PlantConfig, n: nat) -> nat {
    unit_price(c, (n - 1) as nat)
}

/// The cost of `q` more plants when `current` are owned: the sum of their prices.
pub open spec fn batch_cost(c: PlantConfig, current: nat, q: nat) -> nat
    decreases q,
{
    if q == 0 {
        0
    } else {
        batch_cost(c, current, (q - 1) as nat) + unit_price(c, (current + q - 1) as nat)
    }
}

/// `min(a * b, u64::MAX)`.
pub open spec fn sat_mul(a: nat, b: nat) -> nat {
    if a * b > u64::MAX {
        u64::MAX as nat
    } else {
        a * b
    }
}

/// `min(a + b, u64::MAX)`.
pub open spec fn sat_add(a: nat, b: nat) -> nat {
    if a + b > u64::MAX {
        u64::MAX as nat
    } else {
        a + b
    }
}

/// An upper bound of the decimal digits of the numbers that pricing plant number `seq`
/// materializes: digits of the base price plus the exponent times the larger factor's digits.
pub open spec fn estimated_digits(c: PlantConfig, seq: nat) -> nat {
    let exponent: nat = if seq >= 1 { (seq - 1) as nat } else { 0 };
    let num_digits = decimal(c.price_growth_num@).len();
    let den_digits = decimal(c.price_growth_den@).len();
    let factor_digits = if num_digits >= den_digits { num_digits } else { den_digits };
    sat_add(decimal(c.base_price_coins@).len(), sat_mul(exponent, factor_digits))
}

/// The budget check of pricing up to plant number `seq`.
pub open spec fn sequence_check(c: PlantConfig, seq: nat, budget: PurchasePricingBudget) -> Result<
    nat,
    DomainErrorView,
> {
    if seq > budget.sequence_limit() {
        Err(
            DomainErrorView::PlantPricingSequenceBudgetExceeded {
                plant_id: c.id@,
                requested: decimal(seq),
                limit: budget.sequence_limit(),
            },
        )
    } else if estimated_digits(c, seq) > budget.digits_limit() {
        Err(
            DomainErrorView::PlantPricingDigitsBudgetExceeded {
                plant_id: c.id@,
                estimated: estimated_digits(c, seq) as u64,
                limit: budget.digits_limit(),
            },
        )
    } else {
        Ok(estimated_digits(c, seq))
    }
}

/// What `single_plant_price_with_budget` gives.
pub open spec fn single_price_result(c: PlantConfig, n: nat, budget: PurchasePricingBudget) -> Result<
    nat,
    DomainErrorView,
> {
    if n == 0 {
        Err(DomainErrorView::InvalidPlantSequenceNumber)
    } else {
        match sequence_check(c, n, budget) {
            Err(e) => Err(e),
            Ok(est) => if est > budget.work_limit() {
                Err(
                    DomainErrorView::PlantPricingWorkBudgetExceeded {
                        estimated: est as u64,
                        limit: budget.work_limit(),
                    },
                )
            } else {
                Ok(plant_price(c, n))
            },
        }
    }
}

pub(crate) fn saturating_mul(a: u64, b: u64) -> (r: u64)
    ensures
        r == sat_mul(a as nat, b as nat),
{
    match a.checked_mul(b) {
        Some(x) => x,
        None => u64::MAX,
    }
}

/// `numerator / denominator` rounded up.
pub fn ceil_div(numerator: &BigNat, denominator: &BigNat) -> (r: BigNat)
    requires
        denominator@ != 0,
    ensures
        r@ == ceil_div_spec(numerator@, denominator@),
{
    let quotient = numerator.div(denominator);
    if numerator.rem(denominator).is_zero() {
        quotient
    } else {
        quotient.add(&BigNat::one())
    }
}

proof fn lemma_pow_step(b: nat, e: nat)
    ensures
        pow_nat(b, e + 1) == b * pow_nat(b, e),
        pow(b as int, e) >= 0,
{
    reveal(pow);
    lemma_pow_nonneg(b, e);
    lemma_pow_nonneg(b, e + 1);
    assert(pow(b as int, e + 1) == b * pow(b as int, e));
}

proof fn lemma_pow_nonneg(b: nat, e: nat)
    ensures
        pow(b as int, e) >= 0,
    decreases e,
{
    reveal(pow);
    if e > 0 {
        lemma_pow_nonneg(b, (e - 1) as nat);
        vstd::arithmetic::mul::lemma_mul_nonnegative(b as int, pow(b as int, (e - 1) as nat));
    }
}

proof fn lemma_pow_halves(b: nat, e: nat)
    ensures
        e % 2 == 0 ==> pow_nat(b, e) == pow_nat(b * b, e / 2),
        e % 2 == 1 ==> pow_nat(b, e) == b * pow_nat(b * b, e / 2),
{
    lemma_pow_nonneg(b, e);
    lemma_pow_nonneg(b * b, e / 2);
    vstd::arithmetic::power::lemma_pow_multiplies(b as int, 2, e / 2);
    vstd::arithmetic::power::lemma_square_is_pow2(b as int);
    assert(pow(b as int, 2) == b * b) by {
        vstd::arithmetic::power::lemma_pow1(b as int);
        assert(pow(b as int, 2) == b * pow(b as int, 1));
    }
    if e % 2 == 0 {
        assert(2 * (e / 2) == e);
    } else {
        assert(2 * (e / 2) + 1 == e);
        vstd::arithmetic::power::lemma_pow_adds(b as int, 2 * (e / 2), 1);
        vstd::arithmetic::power::lemma_pow1(b as int);
        vstd::arithmetic::mul::lemma_mul_is_commutative(b as int, pow(b as int, 2 * (e / 2)));
    }
}

/// `base` to the power `exponent`, by repeated squaring.
pub fn pow_biguint(base: &BigNat, exponent: &BigNat) -> (r: BigNat)
    ensures
        r@ == pow_nat(base@, exponent@),
{
    let mut result = BigNat::one();
    let mut factor = base.copy();
    let mut remaining = exponent.copy();
    let two = BigNat::from_u64(2);
    let ghost b = base@;
    let ghost e = exponent@;
    proof {
        lemma_pow_nonneg(b, e);
        lemma_pow_nonneg(factor@, remaining@);
        vstd::arithmetic::power::lemma_pow0(b as int);
    }
    while !remaining.is_zero()
        invariant
            two@ == 2,
            b == base@,
            e == exponent@,
            result@ * pow_nat(factor@, remaining@) == pow_nat(b, e),
        decreases remaining@,
    {
        let bit = remaining.rem(&two);
        let ghost f0 = factor@;
        let ghost r0 = remaining@;
        let ghost res0 = result@;
        proof {
            lemma_pow_halves(f0, r0);
        }
        if !bit.is_zero() {
            result = result.mul(&factor);
        }
        remaining = remaining.div(&two);
        factor = factor.mul(&factor);
        proof {
            if r0 % 2 == 1 {
                assert(result@ == res0 * f0);
                vstd::arithmetic::mul::lemma_mul_is_associative(res0 as int, f0 as int, pow_nat(f0 * f0, r0 / 2) as int);
            }
        }
    }
    proof {
        vstd::arithmetic::power::lemma_pow0(factor@ as int);
        assert(remaining@ == 0);
        assert(pow_nat(factor@, remaining@) == 1);
        assert(result@ * 1 == result@);
    }
    result
}

/// The number of decimal digits of `n`.
fn decimal_len(n: &BigNat) -> (r: u64)
    ensures
        r as nat == decimal(n@).len(),
{
    let text = n.to_decimal_string();
    let len = text.as_str().unicode_len();
    len as u64
}

/// The budget check of pricing up to plant number `plant_number`, and its digit estimate.
pub fn preflight_plant_sequence(
    config: &PlantConfig,
    plant_number: &BigNat,
    budget: PurchasePricingBudget,
) -> (r: Result<u64, DomainError>)
    ensures
        match sequence_check(*config, plant_number@, budget) {
            Ok(est) => r matches Ok(x) && x as nat == est,
            Err(e) => r matches Err(x) && x@ == e,
        },
{
    let limit = BigNat::from_u64(budget.max_plant_sequence_number());
    if limit.lt(plant_number) {
        return Err(
            DomainError::PlantPricingSequenceBudgetExceeded {
                plant_id: config.id.to_string(),
                requested: plant_number.to_decimal_string(),
                limit: budget.max_plant_sequence_number(),
            },
        );
    }
    let sequence = match plant_number.to_u64() {
        Some(v) => v,
        None => {
            proof {
                assert(false);
            }
            0
        },
    };
    let exponent = sequence.saturating_sub(1);
    let num_digits = decimal_len(&config.price_growth_num);
    let den_digits = decimal_len(&config.price_growth_den);
    let factor_digits = if num_digits >= den_digits {
        num_digits
    } else {
        den_digits
    };
    let growth_digits = saturating_mul(exponent, factor_digits);
    let base_digits = decimal_len(config.base_price_coins.as_biguint());
    let estimated_digits = base_digits.saturating_add(growth_digits);
    if estimated_digits > budget.max_estimated_price_digits() {
        return Err(
            DomainError::PlantPricingDigitsBudgetExceeded {
                plant_id: config.id.to_string(),
                estimated: estimated_digits,
                limit: budget.max_estimated_price_digits(),
            },
        );
    }
    Ok(estimated_digits)
}

/// Inputs on which pricing divides by zero: a zero denominator growth with an exponent above
/// zero, once every budget check has passed.
pub open spec fn price_divides_by_zero(c: PlantConfig, n: nat, budget: PurchasePricingBudget) -> bool {
    c.price_growth_den@ == 0 && n > 1 && single_price_result(c, n, budget) is Ok
}

/// The exact price of plant number `plant_number` (one-based), within the budget.
pub fn single_plant_price_with_budget(
    config: &PlantConfig,
    plant_number: &BigNat,
    budget: PurchasePricingBudget,
) -> (r: Result<Coins, DomainError>)
    requires
        !price_divides_by_zero(*config, plant_number@, budget),
    ensures
        match single_price_result(*config, plant_number@, budget) {
            Ok(p) => r matches Ok(x) && x@ == p,
            Err(e) => r matches Err(x) && x@ == e,
        },
{
    if plant_number.is_zero() {
        return Err(DomainError::InvalidPlantSequenceNumber);
    }
    let estimated_digits = preflight_plant_sequence(config, plant_number, budget)?;
    if estimated_digits > budget.max_estimated_digit_work() {
        return Err(
            DomainError::PlantPricingWorkBudgetExceeded {
                estimated: estimated_digits,
                limit: budget.max_estimated_digit_work(),
            },
        );
    }
    let exponent = plant_number.sub(&BigNat::one());
    let numerator = config.base_price_coins.as_biguint().mul(
        &pow_biguint(&config.price_growth_num, &exponent),
    );
    let denominator = pow_biguint(&config.price_growth_den, &exponent);
    proof {
        if config.price_growth_den@ == 0 {
            vstd::arithmetic::power::lemma_pow0(0int);
        } else {
            vstd::arithmetic::power::lemma_pow_positive(config.price_growth_den@ as int, exponent@);
        }
    }
    Ok(Coins::from_biguint(ceil_div(&numerator, &denominator)))
}

/// The exact price of plant number `plant_number` (one-based), within the default budget.
pub fn single_plant_price(config: &PlantConfig, plant_number: &BigNat) -> (r: Result<
    Coins,
    DomainError,
>)
    requires
        !price_divides_by_zero(*config, plant_number@, PurchasePricingBudget::default_spec()),
    ensures
        match single_price_result(*config, plant_number@, PurchasePricingBudget::default_spec()) {
            Ok(p) => r matches Ok(x) && x@ == p,
            Err(e) => r matches Err(x) && x@ == e,
        },
{
    single_plant_price_with_budget(config, plant_number, PurchasePricingBudget::default())
}

/// The cost of `quantity` more plants when `current_count` are owned.
pub fn plant_batch_cost(config: &PlantConfig, current_count: &BigNat, quantity: u64) -> (r: Coins)
    requires
        config.price_growth_den@ != 0,
    ensures
        r@ == batch_cost(*config, current_count@, quantity as nat),
{
    let mut numerator = config.base_price_coins.as_biguint().mul(
        &pow_biguint(&config.price_growth_num, current_count),
    );
    let mut denominator = pow_biguint(&config.price_growth_den, current_count);
    let mut total = BigNat::zero();
    let mut k: u64 = 0;
    let ghost c = *config;
    let ghost cur = current_count@;
    while k < quantity
        invariant
            c == *config,
            c.price_growth_den@ != 0,
            k <= quantity,
            numerator@ == c.base_price_coins@ * pow_nat(c.price_growth_num@, (cur + k) as nat),
            denominator@ == pow_nat(c.price_growth_den@, (cur + k) as nat),
            total@ == batch_cost(c, cur, k as nat),
        decreases quantity - k,
    {
        proof {
            vstd::arithmetic::power::lemma_pow_positive(c.price_growth_den@ as int, (cur + k) as nat);
        }
        total = total.add(&ceil_div(&numerator, &denominator));
        let ghost n0 = numerator@;
        numerator = numerator.mul(&config.price_growth_num);
        denominator = denominator.mul(&config.price_growth_den);
        proof {
            lemma_pow_step(c.price_growth_num@, (cur + k) as nat);
            lemma_pow_step(c.price_growth_den@, (cur + k) as nat);
            let pn = pow_nat(c.price_growth_num@, (cur + k) as nat);
            vstd::arithmetic::mul::lemma_mul_is_associative(c.base_price_coins@ as int, pn as int, c.price_growth_num@ as int);
            vstd::arithmetic::mul::lemma_mul_is_commutative(pn as int, c.price_growth_num@ as int);
            vstd::arithmetic::mul::lemma_mul_is_commutative(pow_nat(c.price_growth_den@, (cur + k) as nat) as int, c.price_growth_den@ as int);
            assert((cur + (k + 1)) as nat == (cur + k) as nat + 1);
        }
        k = k + 1;
    }
    Coins::from_biguint(total)
}

} // verus!
