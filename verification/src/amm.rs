//! The five formulas of a constant-product pool.
//!
//! Each one widens its balances to 256 bits, multiplies, divides, and narrows
//! the quotient to a balance again. What it returns is stated over the
//! integers, where nothing wraps: a spec function of the same name, without
//! `calculate_`, gives the result for every input.

use crate::wide::{wide_max, Wide};
use vstd::prelude::*;

verus! {

/// Why a formula has no result.
#[derive(Debug, PartialEq)]
pub enum MathError {
    /// A reserve, or the divisor made from the reserves, is zero.
    ZeroInReserve,
    /// A value does not fit in the integer that has to hold it.
    Overflow,
    /// More is asked of the pool than its reserve holds.
    InsufficientOutReserve,
}

/// What the swap formulas add to a quotient, so that rounding favours the pool.
const FIXED_ROUND_UP: u128 = 1;

/// `value` as a balance where 128 bits hold it, `Overflow` where they do not.
pub open spec fn narrowed(value: int) -> Result<u128, MathError> {
    if 0 <= value <= u128::MAX {
        Ok(value as u128)
    } else {
        Err(MathError::Overflow)
    }
}

/// `out_reserve * amount / in_reserve`, rounded down.
pub open spec fn spot_price(
    in_reserve: u128,
    out_reserve: u128,
    amount: u128,
) -> Result<u128, MathError> {
    if in_reserve == 0 {
        Err(MathError::ZeroInReserve)
    } else {
        narrowed(out_reserve * amount / (in_reserve as int))
    }
}

/// `out_reserve * amount_in / (in_reserve + amount_in)`, rounded down, and one
/// more.
pub open spec fn out_given_in(
    in_reserve: u128,
    out_reserve: u128,
    amount_in: u128,
) -> Result<u128, MathError> {
    if in_reserve + amount_in == 0 {
        Err(MathError::ZeroInReserve)
    } else {
        narrowed(out_reserve * amount_in / (in_reserve + amount_in) + 1)
    }
}

/// `in_reserve * amount_out / (out_reserve - amount_out)`, rounded down, and
/// one more.
pub open spec fn in_given_out(
    out_reserve: u128,
    in_reserve: u128,
    amount_out: u128,
) -> Result<u128, MathError> {
    if amount_out > out_reserve {
        Err(MathError::InsufficientOutReserve)
    } else if amount_out == out_reserve {
        Err(MathError::ZeroInReserve)
    } else {
        narrowed(in_reserve * amount_out / (out_reserve - amount_out) + 1)
    }
}

/// `amount * asset_b_reserve / asset_a_reserve`, rounded down.
pub open spec fn liquidity_in(
    asset_a_reserve: u128,
    asset_b_reserve: u128,
    amount: u128,
) -> Result<u128, MathError> {
    if asset_a_reserve == 0 {
        Err(MathError::ZeroInReserve)
    } else {
        narrowed(amount * asset_b_reserve / (asset_a_reserve as int))
    }
}

/// The share of each reserve that `amount` out of `total_liquidity` stands
/// for: `amount * reserve / total_liquidity`, rounded down, for both assets.
pub open spec fn liquidity_out(
    asset_a_reserve: u128,
    asset_b_reserve: u128,
    amount: u128,
    total_liquidity: u128,
) -> Result<(u128, u128), MathError> {
    if total_liquidity == 0 {
        Err(MathError::ZeroInReserve)
    } else {
        match (
            narrowed(amount * asset_a_reserve / (total_liquidity as int)),
            narrowed(amount * asset_b_reserve / (total_liquidity as int)),
        ) {
            (Ok(share_a), Ok(share_b)) => Ok((share_a, share_b)),
            _ => Err(MathError::Overflow),
        }
    }
}

/// The product of two balances fits in 256 bits.
proof fn lemma_product_fits(a: u128, b: u128)
    ensures
        a * b <= wide_max(),
{
    assert(a * b <= 0xffff_ffff_ffff_ffff_ffff_ffff_ffff_ffff
        * 0xffff_ffff_ffff_ffff_ffff_ffff_ffff_ffff) by (nonlinear_arith)
        requires
            a <= 0xffff_ffff_ffff_ffff_ffff_ffff_ffff_ffff,
            b <= 0xffff_ffff_ffff_ffff_ffff_ffff_ffff_ffff,
    ;
}

/// A product with a zero factor is zero, and zero divided is zero.
proof fn lemma_zero_factor(a: int, b: int, d: int)
    by (nonlinear_arith)
    requires
        a == 0 || b == 0,
        d > 0,
    ensures
        a * b / d == 0,
{
}

/// Doubling a dividend doubles the quotient, or doubles it and adds one.
proof fn lemma_double_quotient(x: int, d: int)
    by (nonlinear_arith)
    requires
        x >= 0,
        d > 0,
    ensures
        0 <= 2 * (x / d) <= (2 * x) / d <= 2 * (x / d) + 1,
{
}

/// Narrows a wide value to a balance.
fn narrow(value: Wide) -> (balance: Result<u128, MathError>)
    ensures
        balance == narrowed(value@ as int),
{
    value.to_u128().ok_or(MathError::Overflow)
}

/// Adds the unit by which the swap formulas round up.
fn round_up(balance: u128) -> (rounded: Result<u128, MathError>)
    ensures
        rounded == narrowed(balance + 1),
{
    balance.checked_add(FIXED_ROUND_UP).ok_or(MathError::Overflow)
}

/// What `amount` is worth at the pool's present rate:
/// `out_reserve * amount / in_reserve`, rounded down.
///
/// - `in_reserve`: the pool's reserve of the asset sold
/// - `out_reserve`: the pool's reserve of the asset bought
/// - `amount`: the amount sold
///
/// An empty `in_reserve` is refused before anything else; after that a zero
/// `amount` or an empty `out_reserve` gives zero.
pub fn calculate_spot_price(
    in_reserve: u128,
    out_reserve: u128,
    amount: u128,
) -> (price: Result<u128, MathError>)
    ensures
        price == spot_price(in_reserve, out_reserve, amount),
        in_reserve == 0 ==> price matches Err(MathError::ZeroInReserve),
        in_reserve != 0 && (amount == 0 || out_reserve == 0) ==> price matches Ok(0),
        in_reserve != 0 && out_reserve * amount / (in_reserve as int) > u128::MAX
            ==> price matches Err(MathError::Overflow),
{
    if in_reserve == 0 {
        return Err(MathError::ZeroInReserve);
    }
    if amount == 0 || out_reserve == 0 {
        proof {
            lemma_zero_factor(out_reserve as int, amount as int, in_reserve as int);
        }
        return Ok(0);
    }
    let amount_hp = Wide::from_u128(amount);
    let out_reserve_hp = Wide::from_u128(out_reserve);
    let in_reserve_hp = Wide::from_u128(in_reserve);

    proof {
        lemma_product_fits(out_reserve, amount);
    }
    let spot_price_hp = out_reserve_hp
        .checked_mul(amount_hp).ok_or(MathError::Overflow)?
        .checked_div(in_reserve_hp).ok_or(MathError::Overflow)?;

    narrow(spot_price_hp)
}

/// What the pool pays out for `amount_in` paid in:
/// `out_reserve * amount_in / (in_reserve + amount_in)`, rounded down, and one
/// unit more.
///
/// - `in_reserve`: the pool's reserve of the asset sold
/// - `out_reserve`: the pool's reserve of the asset bought
/// - `amount_in`: the amount sold
///
/// The divisor is zero only where `in_reserve` and `amount_in` both are. The
/// added unit is part of the result: where the quotient is already the
/// largest balance, there is none.
pub fn calculate_out_given_in(
    in_reserve: u128,
    out_reserve: u128,
    amount_in: u128,
) -> (amount_out: Result<u128, MathError>)
    ensures
        amount_out == out_given_in(in_reserve, out_reserve, amount_in),
        in_reserve == 0 && amount_in == 0 ==> amount_out matches Err(MathError::ZeroInReserve),
        amount_out matches Ok(v) ==> v == out_reserve * amount_in / (in_reserve + amount_in) + 1,
        in_reserve + amount_in != 0
            && out_reserve * amount_in / (in_reserve + amount_in) + 1 > u128::MAX
            ==> amount_out matches Err(MathError::Overflow),
{
    let in_reserve_hp = Wide::from_u128(in_reserve);
    let out_reserve_hp = Wide::from_u128(out_reserve);
    let amount_in_hp = Wide::from_u128(amount_in);

    let denominator = in_reserve_hp.checked_add(amount_in_hp).ok_or(MathError::Overflow)?;
    if denominator.is_zero() {
        return Err(MathError::ZeroInReserve);
    }
    proof {
        lemma_product_fits(out_reserve, amount_in);
    }
    let numerator = out_reserve_hp.checked_mul(amount_in_hp).ok_or(MathError::Overflow)?;
    let sale_price_hp = numerator.checked_div(denominator).ok_or(MathError::Overflow)?;

    let result = narrow(sale_price_hp)?;
    round_up(result)
}

/// What has to be paid in for the pool to pay out `amount_out`:
/// `in_reserve * amount_out / (out_reserve - amount_out)`, rounded down, and
/// one unit more.
///
/// The reserve of the asset bought comes first.
///
/// - `out_reserve`: the pool's reserve of the asset bought
/// - `in_reserve`: the pool's reserve of the asset sold
/// - `amount_out`: the amount bought
///
/// The pool pays out no more than it holds, and not all that it holds.
pub fn calculate_in_given_out(
    out_reserve: u128,
    in_reserve: u128,
    amount_out: u128,
) -> (amount_in: Result<u128, MathError>)
    ensures
        amount_in == in_given_out(out_reserve, in_reserve, amount_out),
        amount_out > out_reserve ==> amount_in matches Err(MathError::InsufficientOutReserve),
        amount_out == out_reserve ==> amount_in matches Err(MathError::ZeroInReserve),
        amount_in matches Ok(v) ==> v == in_reserve * amount_out / (out_reserve - amount_out) + 1,
        amount_out < out_reserve
            && in_reserve * amount_out / (out_reserve - amount_out) + 1 > u128::MAX
            ==> amount_in matches Err(MathError::Overflow),
{
    if amount_out > out_reserve {
        return Err(MathError::InsufficientOutReserve);
    }
    let out_reserve_hp = Wide::from_u128(out_reserve);
    let in_reserve_hp = Wide::from_u128(in_reserve);
    let amount_out_hp = Wide::from_u128(amount_out);

    proof {
        lemma_product_fits(in_reserve, amount_out);
    }
    let numerator = in_reserve_hp.checked_mul(amount_out_hp).ok_or(MathError::Overflow)?;
    let denominator = out_reserve_hp.checked_sub(amount_out_hp).ok_or(MathError::Overflow)?;
    if denominator.is_zero() {
        return Err(MathError::ZeroInReserve);
    }
    let buy_price_hp = numerator.checked_div(denominator).ok_or(MathError::Overflow)?;

    let result = narrow(buy_price_hp)?;
    round_up(result)
}

/// What has to be added of asset B when `amount` of asset A is added, for the
/// pool to keep its ratio: `amount * asset_b_reserve / asset_a_reserve`,
/// rounded down.
///
/// - `asset_a_reserve`: the pool's reserve of asset A
/// - `asset_b_reserve`: the pool's reserve of asset B
/// - `amount`: the amount of asset A added
pub fn calculate_liquidity_in(
    asset_a_reserve: u128,
    asset_b_reserve: u128,
    amount: u128,
) -> (b_required: Result<u128, MathError>)
    ensures
        b_required == liquidity_in(asset_a_reserve, asset_b_reserve, amount),
        asset_a_reserve == 0 ==> b_required matches Err(MathError::ZeroInReserve),
        b_required matches Ok(v) ==> v == amount * asset_b_reserve / (asset_a_reserve as int),
        asset_a_reserve != 0 && amount * asset_b_reserve / (asset_a_reserve as int) > u128::MAX
            ==> b_required matches Err(MathError::Overflow),
{
    if asset_a_reserve == 0 {
        return Err(MathError::ZeroInReserve);
    }
    let a_reserve_hp = Wide::from_u128(asset_a_reserve);
    let b_reserve_hp = Wide::from_u128(asset_b_reserve);
    let amount_hp = Wide::from_u128(amount);

    proof {
        lemma_product_fits(amount, asset_b_reserve);
    }
    let b_required_hp = amount_hp
        .checked_mul(b_reserve_hp).ok_or(MathError::Overflow)?
        .checked_div(a_reserve_hp).ok_or(MathError::Overflow)?;

    narrow(b_required_hp)
}

/// What the pool returns of each asset when `amount` of its liquidity is
/// given back, out of `total_liquidity`:
/// `amount * asset_a_reserve / total_liquidity` and
/// `amount * asset_b_reserve / total_liquidity`, both rounded down.
///
/// - `asset_a_reserve`: the pool's reserve of asset A
/// - `asset_b_reserve`: the pool's reserve of asset B
/// - `amount`: the liquidity given back
/// - `total_liquidity`: all the liquidity of the pool
///
/// Where either share does not fit in a balance there is no result at all.
pub fn calculate_liquidity_out(
    asset_a_reserve: u128,
    asset_b_reserve: u128,
    amount: u128,
    total_liquidity: u128,
) -> (shares: Result<(u128, u128), MathError>)
    ensures
        shares == liquidity_out(asset_a_reserve, asset_b_reserve, amount, total_liquidity),
        total_liquidity == 0 ==> shares matches Err(MathError::ZeroInReserve),
        shares matches Ok(s) ==> {
            &&& s.0 == amount * asset_a_reserve / (total_liquidity as int)
            &&& s.1 == amount * asset_b_reserve / (total_liquidity as int)
        },
        total_liquidity != 0 && (amount * asset_a_reserve / (total_liquidity as int) > u128::MAX
            || amount * asset_b_reserve / (total_liquidity as int) > u128::MAX)
            ==> shares matches Err(MathError::Overflow),
{
    if total_liquidity == 0 {
        return Err(MathError::ZeroInReserve);
    }
    let a_reserve_hp = Wide::from_u128(asset_a_reserve);
    let b_reserve_hp = Wide::from_u128(asset_b_reserve);
    let amount_hp = Wide::from_u128(amount);
    let liquidity_hp = Wide::from_u128(total_liquidity);

    proof {
        lemma_product_fits(amount, asset_a_reserve);
        lemma_product_fits(asset_b_reserve, amount);
        assert(asset_b_reserve * amount == amount * asset_b_reserve) by (nonlinear_arith);
    }
    let remove_amount_a_hp = amount_hp
        .checked_mul(a_reserve_hp).ok_or(MathError::Overflow)?
        .checked_div(liquidity_hp).ok_or(MathError::Overflow)?;

    let remove_amount_a = narrow(remove_amount_a_hp)?;

    let remove_amount_b_hp = b_reserve_hp
        .checked_mul(amount_hp).ok_or(MathError::Overflow)?
        .checked_div(liquidity_hp).ok_or(MathError::Overflow)?;

    let remove_amount_b = narrow(remove_amount_b_hp)?;

    Ok((remove_amount_a, remove_amount_b))
}

/// Giving back twice the liquidity returns twice each share, or one unit more
/// than twice: where the doubled amount has a result, the single amount has
/// one too, and each doubled share is `2 * share` or `2 * share + 1`.
pub proof fn liquidity_out_doubles(
    asset_a_reserve: u128,
    asset_b_reserve: u128,
    amount: u128,
    total_liquidity: u128,
)
    requires
        2 * amount <= u128::MAX,
        liquidity_out(asset_a_reserve, asset_b_reserve, (2 * amount) as u128, total_liquidity)
            is Ok,
    ensures
        liquidity_out(asset_a_reserve, asset_b_reserve, amount, total_liquidity) is Ok,
        ({
            let once = liquidity_out(
                asset_a_reserve,
                asset_b_reserve,
                amount,
                total_liquidity,
            )->Ok_0;
            let twice = liquidity_out(
                asset_a_reserve,
                asset_b_reserve,
                (2 * amount) as u128,
                total_liquidity,
            )->Ok_0;
            &&& 2 * once.0 <= twice.0 <= 2 * once.0 + 1
            &&& 2 * once.1 <= twice.1 <= 2 * once.1 + 1
        }),
{
    let doubled: u128 = (2 * amount) as u128;
    assert(doubled * asset_a_reserve == 2 * (amount * asset_a_reserve)) by (nonlinear_arith)
        requires
            doubled == 2 * amount,
    ;
    assert(doubled * asset_b_reserve == 2 * (amount * asset_b_reserve)) by (nonlinear_arith)
        requires
            doubled == 2 * amount,
    ;
    assert(amount * asset_a_reserve >= 0 && amount * asset_b_reserve >= 0) by (nonlinear_arith);
    lemma_double_quotient(amount * asset_a_reserve, total_liquidity as int);
    lemma_double_quotient(amount * asset_b_reserve, total_liquidity as int);
}

} // verus!
