//! Full-width `value * numerator / denominator` and the 18-digit fixed-point
//! fraction built on it.

use cosmwasm_std::CheckedFromRatioError;
use cosmwasm_std::CheckedMultiplyRatioError;
use cosmwasm_std::Uint128;
use vstd::prelude::*;

verus! {

/// Why a ratio could not be computed.
#[derive(Debug, PartialEq, Eq, Clone, Copy)]
pub enum RatioError {
    /// The denominator is zero.
    DivideByZero,
    /// The floored quotient does not fit in 128 bits.
    Overflow,
}

/// `floor(value * numerator / denominator)` over the naturals.
pub open spec fn ratio_floor(value: nat, numerator: nat, denominator: nat) -> nat
    recommends
        denominator > 0,
{
    (value * numerator) / denominator
}

/// What a checked ratio yields: the floored quotient where it exists and fits.
pub open spec fn ratio_checked(value: nat, numerator: nat, denominator: nat) -> Result<
    u128,
    RatioError,
> {
    if denominator == 0 {
        Err(RatioError::DivideByZero)
    } else if ratio_floor(value, numerator, denominator) > u128::MAX {
        Err(RatioError::Overflow)
    } else {
        Ok(ratio_floor(value, numerator, denominator) as u128)
    }
}

/// Calls `cosmwasm_std::Uint128::checked_multiply_ratio`.
///
/// Trusted: that function multiplies in 256 bits, divides, and floors; it
/// reports a zero denominator and a quotient beyond 128 bits as its two errors.
#[verifier::external_body]
pub(crate) fn checked_multiply_ratio(value: u128, numerator: u128, denominator: u128) -> (r: Result<
    u128,
    RatioError,
>)
    ensures
        r == ratio_checked(value as nat, numerator as nat, denominator as nat),
{
    match Uint128::new(value).checked_multiply_ratio(numerator, denominator) {
        Ok(v) => Ok(v.u128()),
        Err(CheckedMultiplyRatioError::DivideByZero) => Err(RatioError::DivideByZero),
        Err(CheckedMultiplyRatioError::Overflow) => Err(RatioError::Overflow),
    }
}

/// The number of atomic units in one whole: 18 decimal places.
pub const DECIMAL_FRACTIONAL: u128 = 1_000_000_000_000_000_000u128;

/// A non-negative fixed-point number with 18 decimal places, held as its
/// count of atomic units: `1.0` is `DECIMAL_FRACTIONAL` units.
#[derive(Debug, PartialEq, Eq, Clone, Copy)]
pub struct Decimal {
    pub atomics: u128,
}

/// Calls `cosmwasm_std::Decimal::checked_from_ratio` and reads the result's
/// atomic units with `Decimal::atomics`.
///
/// Trusted: the fraction is `numerator * 10^18 / denominator`, multiplied in
/// 256 bits and floored; a zero denominator and a result beyond 128 bits are
/// its two errors.
#[verifier::external_body]
pub(crate) fn decimal_atomics_from_ratio(numerator: u128, denominator: u128) -> (r: Result<
    u128,
    RatioError,
>)
    ensures
        r == ratio_checked(numerator as nat, DECIMAL_FRACTIONAL as nat, denominator as nat),
{
    match cosmwasm_std::Decimal::checked_from_ratio(numerator, denominator) {
        Ok(v) => Ok(v.atomics().u128()),
        Err(CheckedFromRatioError::DivideByZero) => Err(RatioError::DivideByZero),
        Err(CheckedFromRatioError::Overflow) => Err(RatioError::Overflow),
    }
}

impl Decimal {
    /// The number `0`.
    pub fn zero() -> (r: Self)
        ensures
            r.atomics == 0,
    {
        Decimal { atomics: 0 }
    }

    /// The number `1`.
    pub fn one() -> (r: Self)
        ensures
            r.atomics == DECIMAL_FRACTIONAL,
    {
        Decimal { atomics: DECIMAL_FRACTIONAL }
    }

    /// The number with the given count of atomic units.
    pub fn raw(atomics: u128) -> (r: Self)
        ensures
            r.atomics == atomics,
    {
        Decimal { atomics }
    }

    /// The fraction `numerator / denominator`, floored to 18 decimal places.
    pub fn checked_from_ratio(numerator: u128, denominator: u128) -> (r: Result<
        Decimal,
        RatioError,
    >)
        ensures
            r == match ratio_checked(
                numerator as nat,
                DECIMAL_FRACTIONAL as nat,
                denominator as nat,
            ) {
                Ok(atomics) => Ok(Decimal { atomics }),
                Err(e) => Err(e),
            },
    {
        match decimal_atomics_from_ratio(numerator, denominator) {
            Ok(atomics) => Ok(Decimal { atomics }),
            Err(e) => Err(e),
        }
    }

    /// Whether the number is `0`.
    pub fn is_zero(&self) -> (r: bool)
        ensures
            r == (self.atomics == 0),
    {
        self.atomics == 0
    }

    /// Whether `self` is greater than `other`.
    pub fn gt(&self, other: &Decimal) -> (r: bool)
        ensures
            r == (self.atomics > other.atomics),
    {
        self.atomics > other.atomics
    }

    /// What `checked_add` returns.
    pub open spec fn plus(self, other: Decimal) -> Result<Decimal, RatioError> {
        if self.atomics + other.atomics > u128::MAX {
            Err(RatioError::Overflow)
        } else {
            Ok(Decimal { atomics: (self.atomics + other.atomics) as u128 })
        }
    }

    /// What `checked_mul_uint` returns.
    pub open spec fn mul_uint(self, other: u128) -> Result<u128, RatioError> {
        if self.atomics == 0 || other == 0 {
            Ok(0u128)
        } else if ratio_floor(other as nat, self.atomics as nat, DECIMAL_FRACTIONAL as nat)
            > u128::MAX {
            Err(RatioError::Overflow)
        } else {
            Ok(ratio_floor(other as nat, self.atomics as nat, DECIMAL_FRACTIONAL as nat) as u128)
        }
    }
}

/// A fraction of at most one, taken of an amount, is at most the amount:
/// the product is there, and nothing of it is lost to the width.
pub proof fn lemma_fraction_within_amount(rate: Decimal, amount: u128)
    requires
        rate.atomics <= DECIMAL_FRACTIONAL,
    ensures
        rate.mul_uint(amount) is Ok,
        rate.mul_uint(amount)->Ok_0 <= amount,
{
    let a = amount as nat;
    let r = rate.atomics as nat;
    let one = DECIMAL_FRACTIONAL as nat;
    assert((a * r) / one <= a) by (nonlinear_arith)
        requires
            r <= one,
            one > 0,
    ;
}

/// Arithmetic on fractions that reports what does not fit instead of
/// wrapping.
pub trait DecimalCheckedOps: Sized {
    /// What `checked_add` is to return.
    spec fn checked_add_spec(self, other: Decimal) -> Result<Decimal, RatioError>;

    /// What `checked_mul_uint` is to return.
    spec fn checked_mul_uint_spec(self, other: u128) -> Result<u128, RatioError>;

    /// The sum of the two fractions.
    fn checked_add(self, other: Decimal) -> (r: Result<Decimal, RatioError>)
        ensures
            r == self.checked_add_spec(other),
    ;

    /// `floor(self * other)`, multiplied in full width.
    fn checked_mul_uint(self, other: u128) -> (r: Result<u128, RatioError>)
        ensures
            r == self.checked_mul_uint_spec(other),
    ;
}

impl DecimalCheckedOps for Decimal {
    open spec fn checked_add_spec(self, other: Decimal) -> Result<Decimal, RatioError> {
        self.plus(other)
    }

    open spec fn checked_mul_uint_spec(self, other: u128) -> Result<u128, RatioError> {
        self.mul_uint(other)
    }

    fn checked_add(self, other: Decimal) -> (r: Result<Decimal, RatioError>) {
        match self.atomics.checked_add(other.atomics) {
            Some(atomics) => Ok(Decimal { atomics }),
            None => Err(RatioError::Overflow),
        }
    }

    fn checked_mul_uint(self, other: u128) -> (r: Result<u128, RatioError>) {
        if self.atomics == 0 || other == 0 {
            return Ok(0);
        }
        checked_multiply_ratio(other, self.atomics, DECIMAL_FRACTIONAL)
    }
}

} // verus!
