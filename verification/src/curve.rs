use crate::amm_error::AmmError;
use crate::arith::{div_ceil, lemma_floor_bounds, mul_div_ceil, mul_div_floor};
use vstd::prelude::*;

verus! {

/// One whole, in basis points: a fee of `BPS` would keep the entire input.
pub const BPS: u16 = 10_000;

/// A pair of amounts, one of asset X and one of asset Y.
#[derive(Clone, Copy, Debug, PartialEq, Eq, Structural)]
pub struct XYAmounts {
    pub x: u64,
    pub y: u64,
}

/// What a depositor owes of a reserve for `shares` new shares:
/// `reserve * shares / supply`, rounded up.
pub open spec fn deposit_needed(reserve: int, shares: int, supply: int) -> int {
    div_ceil(reserve * shares, supply)
}

/// What `shares` burnt shares release of a reserve:
/// `reserve * shares / supply`, rounded down.
pub open spec fn withdraw_share(reserve: int, shares: int, supply: int) -> int {
    (reserve * shares) / supply
}

/// The shares that the first deposit into an empty pool mints: the larger of
/// the two amounts deposited.
pub open spec fn bootstrap_shares(max_x: int, max_y: int) -> int {
    if max_x >= max_y {
        max_x
    } else {
        max_y
    }
}

/// The part of a swap's input that is priced, the fee taken off:
/// `a_in * (10000 - fee_bps) / 10000`, rounded down.
pub open spec fn input_after_fee(a_in: int, fee_bps: int) -> int {
    a_in * (BPS - fee_bps) / (BPS as int)
}

/// The output of a swap on the constant-product curve:
/// `r_out * e / (r_in + e)`, rounded down, where `e` is the input after fee.
pub open spec fn swap_output(r_in: int, r_out: int, a_in: int, fee_bps: int) -> int {
    let e = input_after_fee(a_in, fee_bps);
    r_out * e / (r_in + e)
}

/// What the floor division of the priced input leaves over:
/// `r_out * e - swap_output * (r_in + e)`.
pub open spec fn swap_residue(r_in: int, r_out: int, a_in: int, fee_bps: int) -> int {
    let e = input_after_fee(a_in, fee_bps);
    (r_out * e) % (r_in + e)
}

/// Reserves and share supply agree: either all three are positive, or the
/// pool is empty and all three are zero.
pub open spec fn coherent(reserve_x: int, reserve_y: int, supply: int) -> bool {
    ||| reserve_x > 0 && reserve_y > 0 && supply > 0
    ||| reserve_x == 0 && reserve_y == 0 && supply == 0
}

/// Each share is backed by at least as much of a reserve after a change
/// as before it: `after / supply_after >= before / supply_before`, written
/// without division so that it also speaks of a pool without shares.
pub open spec fn backing_kept(before: int, supply_before: int, after: int, supply_after: int) -> bool {
    after * supply_before >= before * supply_after
}

/// The amounts that `shares` new shares cost at the current reserves, each
/// rounded up so that the holders of the existing shares lose nothing.
///
/// A pool without shares has no ratio to deposit at, and an amount that does
/// not fit in sixty-four bits cannot be paid.
pub open spec fn deposit_quote(reserve_x: u64, reserve_y: u64, supply: u64, shares: u64) -> Result<
    XYAmounts,
    AmmError,
> {
    let x = deposit_needed(reserve_x as int, shares as int, supply as int);
    let y = deposit_needed(reserve_y as int, shares as int, supply as int);
    if supply == 0 {
        Err(AmmError::InvariantViolated)
    } else if x > u64::MAX || y > u64::MAX {
        Err(AmmError::Overflow)
    } else {
        Ok(XYAmounts { x: x as u64, y: y as u64 })
    }
}

/// The amounts that `shares` burnt shares release at the current reserves,
/// each rounded down so that the pool keeps at least its proportional rest.
pub open spec fn withdraw_quote(reserve_x: u64, reserve_y: u64, supply: u64, shares: u64) -> Result<
    XYAmounts,
    AmmError,
> {
    let x = withdraw_share(reserve_x as int, shares as int, supply as int);
    let y = withdraw_share(reserve_y as int, shares as int, supply as int);
    if supply == 0 {
        Err(AmmError::InvariantViolated)
    } else if x > u64::MAX || y > u64::MAX {
        Err(AmmError::Overflow)
    } else {
        Ok(XYAmounts { x: x as u64, y: y as u64 })
    }
}

/// The output of a swap of `a_in` at reserves `(r_in, r_out)`.
///
/// No fee reaches the whole of the input. A swap that would pay nothing, or
/// would drain the output reserve, finds no liquidity; one with nothing to
/// divide by meets a corrupted pool.
pub open spec fn swap_quote(r_in: u64, r_out: u64, a_in: u64, fee_bps: u16) -> Result<
    u64,
    AmmError,
> {
    let e = input_after_fee(a_in as int, fee_bps as int);
    let out = swap_output(r_in as int, r_out as int, a_in as int, fee_bps as int);
    if fee_bps >= BPS {
        Err(AmmError::InvalidFee)
    } else if r_in + e == 0 {
        Err(AmmError::InvariantViolated)
    } else if out == 0 || out >= r_out {
        Err(AmmError::InsufficientLiquidity)
    } else {
        Ok(out as u64)
    }
}

/// Narrows a 128-bit amount to sixty-four bits.
fn narrow(v: u128) -> (r: Result<u64, AmmError>)
    ensures
        v <= u64::MAX ==> r == Ok::<u64, AmmError>(v as u64),
        v > u64::MAX ==> r == Err::<u64, AmmError>(AmmError::Overflow),
{
    if v <= u64::MAX as u128 {
        Ok(v as u64)
    } else {
        Err(AmmError::Overflow)
    }
}

/// The shares minted by the first deposit into an empty pool.
pub fn initial_shares(max_x: u64, max_y: u64) -> (shares: u64)
    ensures
        shares == bootstrap_shares(max_x as int, max_y as int),
{
    if max_x >= max_y {
        max_x
    } else {
        max_y
    }
}

/// Computes what `shares` new shares cost; see [`deposit_quote`].
pub fn deposit_amounts(reserve_x: u64, reserve_y: u64, supply: u64, shares: u64) -> (r: Result<
    XYAmounts,
    AmmError,
>)
    ensures
        r == deposit_quote(reserve_x, reserve_y, supply, shares),
{
    if supply == 0 {
        return Err(AmmError::InvariantViolated);
    }
    let wide_x: u128 = mul_div_ceil(reserve_x, shares, supply as u128);
    let wide_y: u128 = mul_div_ceil(reserve_y, shares, supply as u128);
    match narrow(wide_x) {
        Ok(x) => match narrow(wide_y) {
            Ok(y) => Ok(XYAmounts { x, y }),
            Err(e) => Err(e),
        },
        Err(e) => Err(e),
    }
}

/// Computes what `shares` burnt shares release; see [`withdraw_quote`].
pub fn withdraw_amounts(reserve_x: u64, reserve_y: u64, supply: u64, shares: u64) -> (r: Result<
    XYAmounts,
    AmmError,
>)
    ensures
        r == withdraw_quote(reserve_x, reserve_y, supply, shares),
{
    if supply == 0 {
        return Err(AmmError::InvariantViolated);
    }
    let wide_x: u128 = mul_div_floor(reserve_x, shares, supply as u128);
    let wide_y: u128 = mul_div_floor(reserve_y, shares, supply as u128);
    match narrow(wide_x) {
        Ok(x) => match narrow(wide_y) {
            Ok(y) => Ok(XYAmounts { x, y }),
            Err(e) => Err(e),
        },
        Err(e) => Err(e),
    }
}

/// Computes the output of a swap; see [`swap_quote`].
pub fn swap_amount(r_in: u64, r_out: u64, a_in: u64, fee_bps: u16) -> (r: Result<u64, AmmError>)
    ensures
        r == swap_quote(r_in, r_out, a_in, fee_bps),
{
    if fee_bps >= BPS {
        return Err(AmmError::InvalidFee);
    }
    let keep: u64 = (BPS - fee_bps) as u64;
    let wide_e: u128 = mul_div_floor(a_in, keep, BPS as u128);
    proof {
        lemma_floor_bounds(a_in * keep, BPS as int);
        assert(a_in * keep <= a_in * 10_000) by (nonlinear_arith)
            requires
                0 <= keep <= 10_000,
                0 <= a_in,
        ;
    }
    let e: u64 = wide_e as u64;
    let denominator: u128 = r_in as u128 + e as u128;
    if denominator == 0 {
        return Err(AmmError::InvariantViolated);
    }
    let wide_out: u128 = mul_div_floor(r_out, e, denominator);
    proof {
        lemma_floor_bounds(r_out * e, denominator as int);
        assert(wide_out <= r_out) by (nonlinear_arith)
            requires
                wide_out * denominator <= r_out * e,
                0 <= e <= denominator,
                0 < denominator,
                0 <= r_out,
                0 <= wide_out,
        ;
    }
    let out: u64 = wide_out as u64;
    if out == 0 || out >= r_out {
        Err(AmmError::InsufficientLiquidity)
    } else {
        Ok(out)
    }
}

} // verus!
