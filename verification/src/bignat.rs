//! Arbitrary-precision natural numbers.
//!
//! A `BigNat` holds its value as little-endian base-2^32 limbs. The arithmetic
//! itself is performed by `num_bigint::BigUint`; each operation is a small
//! trusted wrapper whose contract states the exact value of the result.
use num_bigint::BigUint;
use num_traits::ToPrimitive;
use num_traits::Zero;
use vstd::prelude::*;

verus! {

/// The radix of one limb.
pub open spec fn limb_base() -> nat {
    0x1_0000_0000
}

/// The natural number denoted by little-endian base-2^32 limbs.
pub open spec fn limbs_value(s: Seq<u32>) -> nat
    decreases s.len(),
{
    if s.len() == 0 {
        0
    } else {
        s[0] as nat + limb_base() * limbs_value(s.drop_first())
    }
}

/// The character of one decimal digit.
pub open spec fn digit_char(d: nat) -> char {
    (d + 48) as char
}

/// The decimal representation of `n`: no leading zeros, and `"0"` for zero.
pub open spec fn decimal(n: nat) -> Seq<char>
    decreases n,
{
    if n < 10 {
        seq![digit_char(n)]
    } else {
        decimal(n / 10).push(digit_char(n % 10))
    }
}

/// A decimal digit character.
pub open spec fn is_digit(c: char) -> bool {
    '0' <= c && c <= '9'
}

/// The value of decimal digits, most significant first; underscores are skipped.
pub open spec fn digits_value(s: Seq<char>) -> nat
    decreases s.len(),
{
    if s.len() == 0 {
        0
    } else if s.last() == '_' {
        digits_value(s.drop_last())
    } else {
        (digits_value(s.drop_last()) * 10 + (s.last() as int - 48)) as nat
    }
}

/// A numeral without its sign: one leading `+` is dropped unless another follows it.
pub open spec fn numeral_body(s: Seq<char>) -> Seq<char> {
    if s.len() > 0 && s[0] == '+' && !(s.len() > 1 && s[1] == '+') {
        s.drop_first()
    } else {
        s
    }
}

/// A numeral that `BigUint::from_str` accepts: after the sign, at least one character,
/// not starting with an underscore, and only digits and underscores.
pub open spec fn big_numeral_ok(s: Seq<char>) -> bool {
    let b = numeral_body(s);
    &&& b.len() > 0
    &&& b[0] != '_'
    &&& forall|i: int| 0 <= i < b.len() ==> is_digit(#[trigger] b[i]) || b[i] == '_'
}

/// The value of a numeral that `big_numeral_ok` accepts.
pub open spec fn numeral_value(s: Seq<char>) -> nat {
    digits_value(numeral_body(s))
}

proof fn lemma_digit_char(d: nat)
    requires
        d < 10,
    ensures
        digit_char(d) as int == d + 48,
        is_digit(digit_char(d)),
        digit_char(d) != '_',
{
    assert(digit_char(d) as int == d + 48);
}

/// Decimal text is made of digits, starts with one, and its digits give back the number.
pub proof fn lemma_decimal_digits(n: nat)
    ensures
        decimal(n).len() > 0,
        forall|i: int| 0 <= i < decimal(n).len() ==> is_digit(#[trigger] decimal(n)[i]),
        digits_value(decimal(n)) == n,
    decreases n,
{
    if n < 10 {
        let s = decimal(n);
        lemma_digit_char(n);
        assert(s.drop_last() =~= Seq::<char>::empty());
        assert(digits_value(s.drop_last()) == 0);
        assert(s.last() == digit_char(n));
        assert(digits_value(s) == digits_value(s.drop_last()) * 10 + (s.last() as int - 48));
    } else {
        lemma_decimal_digits(n / 10);
        lemma_digit_char(n % 10);
        let s = decimal(n);
        let t = decimal(n / 10);
        assert(s.drop_last() =~= t);
        assert(s.last() == digit_char(n % 10));
        assert forall|i: int| 0 <= i < s.len() implies is_digit(#[trigger] s[i]) by {
            if i < t.len() {
                assert(s[i] == t[i]);
            }
        }
        assert(digits_value(s) == digits_value(t) * 10 + (s.last() as int - 48));
        assert(n == (n / 10) * 10 + n % 10);
    }
}

/// Decimal text reads back, through `BigUint::from_str`'s rules, as its number.
pub proof fn lemma_decimal_reads_back(n: nat)
    ensures
        big_numeral_ok(decimal(n)),
        numeral_value(decimal(n)) == n,
{
    lemma_decimal_digits(n);
    assert(is_digit(decimal(n)[0]));
    assert(numeral_body(decimal(n)) == decimal(n));
}

/// `BigUint::from_str`, in radix 10: a leading `+` is dropped (unless another `+`
/// follows), the rest must be non-empty, must not start with `_`, and may hold only
/// digits and `_`, which is skipped. The result is the value of the digits.
#[verifier::external_body]
fn biguint_parse(s: &str) -> (r: Option<Vec<u32>>)
    ensures
        r is Some <==> big_numeral_ok(s@),
        r matches Some(l) ==> limbs_value(l@) == numeral_value(s@),
{
    match <BigUint as core::str::FromStr>::from_str(s) {
        Ok(v) => Some(v.to_u32_digits()),
        Err(_) => None,
    }
}

/// A natural number of unbounded size.
#[derive(Clone, Debug)]
pub struct BigNat {
    limbs: Vec<u32>,
}

impl View for BigNat {
    type V = nat;

    closed spec fn view(&self) -> nat {
        limbs_value(self.limbs@)
    }
}

/// `BigUint::from_slice` followed by `+` and `to_u32_digits`: the limbs of the sum.
#[verifier::external_body]
fn biguint_add(a: &Vec<u32>, b: &Vec<u32>) -> (r: Vec<u32>)
    ensures
        limbs_value(r@) == limbs_value(a@) + limbs_value(b@),
{
    (BigUint::from_slice(a) + BigUint::from_slice(b)).to_u32_digits()
}

/// `BigUint` subtraction, which panics on underflow (hence the `requires`).
#[verifier::external_body]
fn biguint_sub(a: &Vec<u32>, b: &Vec<u32>) -> (r: Vec<u32>)
    requires
        limbs_value(a@) >= limbs_value(b@),
    ensures
        limbs_value(r@) == limbs_value(a@) - limbs_value(b@),
{
    (BigUint::from_slice(a) - BigUint::from_slice(b)).to_u32_digits()
}

/// `BigUint` multiplication.
#[verifier::external_body]
fn biguint_mul(a: &Vec<u32>, b: &Vec<u32>) -> (r: Vec<u32>)
    ensures
        limbs_value(r@) == limbs_value(a@) * limbs_value(b@),
{
    (BigUint::from_slice(a) * BigUint::from_slice(b)).to_u32_digits()
}

/// `BigUint` division, truncating; it panics on a zero divisor (hence the `requires`).
#[verifier::external_body]
fn biguint_div(a: &Vec<u32>, b: &Vec<u32>) -> (r: Vec<u32>)
    requires
        limbs_value(b@) != 0,
    ensures
        limbs_value(r@) == limbs_value(a@) / limbs_value(b@),
{
    (BigUint::from_slice(a) / BigUint::from_slice(b)).to_u32_digits()
}

/// `BigUint` remainder; it panics on a zero divisor (hence the `requires`).
#[verifier::external_body]
fn biguint_rem(a: &Vec<u32>, b: &Vec<u32>) -> (r: Vec<u32>)
    requires
        limbs_value(b@) != 0,
    ensures
        limbs_value(r@) == limbs_value(a@) % limbs_value(b@),
{
    (BigUint::from_slice(a) % BigUint::from_slice(b)).to_u32_digits()
}

/// `BigUint`'s `<`: the numeric order.
#[verifier::external_body]
fn biguint_lt(a: &Vec<u32>, b: &Vec<u32>) -> (r: bool)
    ensures
        r == (limbs_value(a@) < limbs_value(b@)),
{
    BigUint::from_slice(a) < BigUint::from_slice(b)
}

/// `BigUint`'s `==`: equality of the numbers.
#[verifier::external_body]
fn biguint_eq(a: &Vec<u32>, b: &Vec<u32>) -> (r: bool)
    ensures
        r == (limbs_value(a@) == limbs_value(b@)),
{
    BigUint::from_slice(a) == BigUint::from_slice(b)
}

/// `num_traits::Zero::is_zero` on `BigUint`.
#[verifier::external_body]
fn biguint_is_zero(a: &Vec<u32>) -> (r: bool)
    ensures
        r == (limbs_value(a@) == 0),
{
    BigUint::from_slice(a).is_zero()
}

/// `BigUint::from(u64)`.
#[verifier::external_body]
fn biguint_from_u64(v: u64) -> (r: Vec<u32>)
    ensures
        limbs_value(r@) == v as nat,
{
    BigUint::from(v).to_u32_digits()
}

/// `num_traits::ToPrimitive::to_u64` on `BigUint`: `Some` exactly when the value fits.
#[verifier::external_body]
fn biguint_to_u64(a: &Vec<u32>) -> (r: Option<u64>)
    ensures
        r is Some <==> limbs_value(a@) <= u64::MAX,
        r matches Some(v) ==> v as nat == limbs_value(a@),
{
    BigUint::from_slice(a).to_u64()
}

/// `BigUint::to_str_radix(10)`: the decimal digits, most significant first.
#[verifier::external_body]
fn biguint_to_decimal(a: &Vec<u32>) -> (r: String)
    ensures
        r@ == decimal(limbs_value(a@)),
{
    BigUint::from_slice(a).to_str_radix(10)
}

fn clone_limbs(a: &Vec<u32>) -> (r: Vec<u32>)
    ensures
        r@ == a@,
{
    let r = a.clone();
    assert(r@ =~= a@);
    r
}

impl BigNat {
    /// Reads a decimal numeral as `BigUint::from_str` does.
    pub fn parse_decimal(s: &str) -> (r: Option<BigNat>)
        ensures
            r is Some <==> big_numeral_ok(s@),
            r matches Some(n) ==> n@ == numeral_value(s@),
    {
        match biguint_parse(s) {
            Some(limbs) => Some(BigNat { limbs }),
            None => None,
        }
    }

    /// Zero.
    pub fn zero() -> (r: Self)
        ensures
            r@ == 0,
    {
        BigNat { limbs: Vec::new() }
    }

    /// One.
    pub fn one() -> (r: Self)
        ensures
            r@ == 1,
    {
        BigNat::from_u64(1)
    }

    /// The number with the given little-endian base-2^32 limbs.
    pub fn from_limbs(limbs: Vec<u32>) -> (r: Self)
        ensures
            r@ == limbs_value(limbs@),
    {
        BigNat { limbs }
    }

    /// The number's little-endian base-2^32 limbs.
    pub fn to_limbs(&self) -> (r: Vec<u32>)
        ensures
            limbs_value(r@) == self@,
    {
        clone_limbs(&self.limbs)
    }

    pub fn from_u64(v: u64) -> (r: Self)
        ensures
            r@ == v as nat,
    {
        BigNat { limbs: biguint_from_u64(v) }
    }

    /// A copy of the number.
    pub fn copy(&self) -> (r: Self)
        ensures
            r@ == self@,
    {
        BigNat { limbs: clone_limbs(&self.limbs) }
    }

    pub fn add(&self, other: &Self) -> (r: Self)
        ensures
            r@ == self@ + other@,
    {
        BigNat { limbs: biguint_add(&self.limbs, &other.limbs) }
    }

    pub fn sub(&self, other: &Self) -> (r: Self)
        requires
            self@ >= other@,
        ensures
            r@ == self@ - other@,
    {
        BigNat { limbs: biguint_sub(&self.limbs, &other.limbs) }
    }

    pub fn mul(&self, other: &Self) -> (r: Self)
        ensures
            r@ == self@ * other@,
    {
        BigNat { limbs: biguint_mul(&self.limbs, &other.limbs) }
    }

    pub fn div(&self, other: &Self) -> (r: Self)
        requires
            other@ != 0,
        ensures
            r@ == self@ / other@,
    {
        BigNat { limbs: biguint_div(&self.limbs, &other.limbs) }
    }

    pub fn rem(&self, other: &Self) -> (r: Self)
        requires
            other@ != 0,
        ensures
            r@ == self@ % other@,
    {
        BigNat { limbs: biguint_rem(&self.limbs, &other.limbs) }
    }

    pub fn lt(&self, other: &Self) -> (r: bool)
        ensures
            r == (self@ < other@),
    {
        biguint_lt(&self.limbs, &other.limbs)
    }

    pub fn le(&self, other: &Self) -> (r: bool)
        ensures
            r == (self@ <= other@),
    {
        !biguint_lt(&other.limbs, &self.limbs)
    }

    pub fn eq(&self, other: &Self) -> (r: bool)
        ensures
            r == (self@ == other@),
    {
        biguint_eq(&self.limbs, &other.limbs)
    }

    pub fn is_zero(&self) -> (r: bool)
        ensures
            r == (self@ == 0),
    {
        biguint_is_zero(&self.limbs)
    }

    /// The value as a `u64`, when it fits.
    pub fn to_u64(&self) -> (r: Option<u64>)
        ensures
            r is Some <==> self@ <= u64::MAX,
            r matches Some(v) ==> v as nat == self@,
    {
        biguint_to_u64(&self.limbs)
    }

    /// The decimal representation.
    pub fn to_decimal_string(&self) -> (r: String)
        ensures
            r@ == decimal(self@),
    {
        biguint_to_decimal(&self.limbs)
    }
}

} // verus!
