//! Fixed-point and ratio arithmetic shared by the contracts.
//!
//! Token amounts are `u128` values (the contracts' `Uint128`). A decimal is a
//! `u128` count of atomic units, `DECIMAL_FRACTIONAL` of which make one (the
//! contracts' 18-place `Decimal`).

use cosmwasm_std::{Decimal, Uint128};
use integer_sqrt::IntegerSquareRoot;
use vstd::prelude::*;

verus! {

/// Atomic units in one whole decimal (10^18).
pub const DECIMAL_FRACTIONAL: u128 = 1_000_000_000_000_000_000u128;

/// `a * num / den`, rounded down.
pub open spec fn ratio_of(a: int, num: int, den: int) -> int {
    a * num / den
}

/// The amount `a` scaled by the decimal with `atomics` atomic units, rounded down.
pub open spec fn decimal_mul(a: int, atomics: int) -> int {
    a * atomics / (DECIMAL_FRACTIONAL as int)
}

/// The decimal `num / den`, in atomic units, rounded down.
pub open spec fn decimal_ratio(num: int, den: int) -> int {
    num * (DECIMAL_FRACTIONAL as int) / den
}

/// Computes `a * num / den` rounded down, with a 256-bit intermediate product.
///
/// Calls `cosmwasm_std::Uint128::checked_multiply_ratio`, which fails on a zero
/// denominator and when the quotient does not fit in 128 bits; the contract
/// claims exactly that and the floored quotient otherwise.
#[verifier::external_body]
pub(crate) fn multiply_ratio(a: u128, num: u128, den: u128) -> (r: Option<u128>)
    ensures
        r is Some <==> (den != 0 && ratio_of(a as int, num as int, den as int) <= u128::MAX),
        r matches Some(v) ==> v == ratio_of(a as int, num as int, den as int),
{
    match Uint128::new(a).checked_multiply_ratio(num, den) {
        Ok(v) => Some(v.u128()),
        Err(_) => None,
    }
}

/// Computes the decimal `num / den` in atomic units, rounded down.
///
/// Calls `cosmwasm_std::Decimal::checked_from_ratio`, which fails on a zero
/// denominator and when the result does not fit; the contract claims exactly
/// that and the floored value otherwise.
#[verifier::external_body]
pub(crate) fn from_ratio(num: u128, den: u128) -> (r: Option<u128>)
    ensures
        r is Some <==> (den != 0 && decimal_ratio(num as int, den as int) <= u128::MAX),
        r matches Some(v) ==> v == decimal_ratio(num as int, den as int),
{
    match Decimal::checked_from_ratio(num, den) {
        Ok(d) => Some(d.atomics().u128()),
        Err(_) => None,
    }
}

/// Multiplies the amount `a` by the decimal with `atomics` atomic units, rounded down.
///
/// Calls `cosmwasm_std::Uint128::checked_mul_floor` with `Decimal::raw(atomics)`,
/// which computes `a * atomics / 10^18` with a 256-bit intermediate and fails
/// only when the quotient does not fit in 128 bits.
#[verifier::external_body]
pub(crate) fn mul_floor(a: u128, atomics: u128) -> (r: Option<u128>)
    ensures
        r is Some <==> decimal_mul(a as int, atomics as int) <= u128::MAX,
        r matches Some(v) ==> v == decimal_mul(a as int, atomics as int),
{
    match Uint128::new(a).checked_mul_floor(Decimal::raw(atomics)) {
        Ok(v) => Some(v.u128()),
        Err(_) => None,
    }
}

/// The square root of the decimal with `atomics` atomic units, in atomic
/// units, as `cosmwasm_std::Decimal::sqrt` computes it.
pub uninterp spec fn decimal_sqrt_of(atomics: u128) -> u128;

/// The square root of the decimal with `atomics` atomic units.
///
/// Calls `cosmwasm_std::Decimal::sqrt`, which never fails: it takes the
/// integer square root at the highest precision whose intermediate product
/// fits. The contract only names the result.
#[verifier::external_body]
pub(crate) fn decimal_sqrt(atomics: u128) -> (r: u128)
    ensures
        r == decimal_sqrt_of(atomics),
{
    Decimal::raw(atomics).sqrt().atomics().u128()
}

/// The integer square root of `n`: the largest `r` with `r * r <= n`.
///
/// Calls `integer_sqrt::IntegerSquareRoot::integer_sqrt` on `u128`, which
/// computes the floor of the square root bit by bit and never fails on
/// unsigned input.
#[verifier::external_body]
pub(crate) fn integer_sqrt(n: u128) -> (r: u128)
    ensures
        r * r <= n,
        n < (r + 1) * (r + 1),
{
    n.integer_sqrt()
}

} // verus!
