use crate::arith::{lemma_ceil_bounds, lemma_floor_bounds, lemma_floor_unique};
use crate::curve::{
    backing_kept, deposit_needed, input_after_fee, swap_output, swap_residue, withdraw_share, BPS,
};
use vstd::arithmetic::div_mod::{lemma_fundamental_div_mod, lemma_mod_bound};
use vstd::prelude::*;

verus! {

/// Burnt shares release no more than the reserve holds: all of it when
/// every share is burnt, and less than all of it otherwise.
pub proof fn lemma_withdraw_within(reserve: int, shares: int, supply: int)
    requires
        0 <= reserve,
        0 < shares <= supply,
    ensures
        0 <= withdraw_share(reserve, shares, supply) <= reserve,
        shares == supply ==> withdraw_share(reserve, shares, supply) == reserve,
        shares < supply && reserve > 0 ==> withdraw_share(reserve, shares, supply) < reserve,
{
    let q = withdraw_share(reserve, shares, supply);
    assert(0 <= reserve * shares <= reserve * supply) by (nonlinear_arith)
        requires
            0 <= reserve,
            0 < shares <= supply,
    ;
    lemma_floor_bounds(reserve * shares, supply);
    assert(q <= reserve) by (nonlinear_arith)
        requires
            q * supply <= reserve * supply,
            0 < supply,
    ;
    if shares == supply {
        lemma_floor_unique(reserve * supply, supply, reserve);
    }
    if shares < supply && reserve > 0 {
        assert(reserve * shares < reserve * supply) by (nonlinear_arith)
            requires
                0 < reserve,
                0 < shares < supply,
        ;
        assert(q < reserve) by (nonlinear_arith)
            requires
                q * supply < reserve * supply,
                0 < supply,
        ;
    }
}

/// A proportional deposit never dilutes the shares that exist: what it adds
/// to a reserve is at least the new shares' part of it.
pub proof fn lemma_deposit_backing(reserve: int, shares: int, supply: int)
    requires
        0 <= reserve,
        0 <= shares,
        0 < supply,
    ensures
        backing_kept(
            reserve,
            supply,
            reserve + deposit_needed(reserve, shares, supply),
            supply + shares,
        ),
{
    let needed = deposit_needed(reserve, shares, supply);
    assert(0 <= reserve * shares) by (nonlinear_arith)
        requires
            0 <= reserve,
            0 <= shares,
    ;
    lemma_ceil_bounds(reserve * shares, supply);
    assert((reserve + needed) * supply >= reserve * (supply + shares)) by (nonlinear_arith)
        requires
            needed * supply >= reserve * shares,
    ;
}

/// A withdrawal never dilutes the shares that stay: what it takes from a
/// reserve is at most the burnt shares' part of it.
pub proof fn lemma_withdraw_backing(reserve: int, shares: int, supply: int)
    requires
        0 <= reserve,
        0 < shares <= supply,
    ensures
        backing_kept(
            reserve,
            supply,
            reserve - withdraw_share(reserve, shares, supply),
            supply - shares,
        ),
{
    let released = withdraw_share(reserve, shares, supply);
    assert(0 <= reserve * shares) by (nonlinear_arith)
        requires
            0 <= reserve,
            0 <= shares,
    ;
    lemma_floor_bounds(reserve * shares, supply);
    assert((reserve - released) * supply >= reserve * (supply - shares)) by (nonlinear_arith)
        requires
            released * supply <= reserve * shares,
    ;
}

/// Shares bought and burnt at once give back what they cost, less at most
/// one unit of rounding.
pub proof fn lemma_round_trip(reserve: int, shares: int, supply: int)
    requires
        0 <= reserve,
        0 < shares,
        0 < supply,
    ensures
        ({
            let paid = deposit_needed(reserve, shares, supply);
            let back = withdraw_share(reserve + paid, shares, supply + shares);
            paid - 1 <= back <= paid
        }),
{
    let paid = deposit_needed(reserve, shares, supply);
    let back = withdraw_share(reserve + paid, shares, supply + shares);
    assert(0 <= reserve * shares) by (nonlinear_arith)
        requires
            0 <= reserve,
            0 <= shares,
    ;
    lemma_ceil_bounds(reserve * shares, supply);
    assert(0 <= (reserve + paid) * shares) by (nonlinear_arith)
        requires
            0 <= reserve + paid,
            0 <= shares,
    ;
    lemma_floor_bounds((reserve + paid) * shares, supply + shares);
    let total = supply + shares;
    assert(back <= paid) by (nonlinear_arith)
        requires
            back * total <= (reserve + paid) * shares,
            reserve * shares <= paid * supply,
            total == supply + shares,
            0 < total,
    ;
    if back + 1 <= paid - 1 {
        assert((back + 1) * total <= (paid - 1) * total) by (nonlinear_arith)
            requires
                back + 1 <= paid - 1,
                0 < total,
        ;
        assert((paid - 1) * total == paid * supply + paid * shares - supply - shares)
            by (nonlinear_arith)
            requires
                total == supply + shares,
        ;
        assert((reserve + paid) * shares == reserve * shares + paid * shares)
            by (nonlinear_arith);
        assert(back * total + total == (back + 1) * total) by (nonlinear_arith);
        assert(false);
    }
}

/// The first deposit, burnt whole at once, gives back exactly what it paid.
pub proof fn lemma_round_trip_bootstrap(paid: int, shares: int)
    requires
        0 <= paid,
        0 < shares,
    ensures
        withdraw_share(paid, shares, shares) == paid,
{
    lemma_withdraw_within(paid, shares, shares);
}

/// What a swap does to the product of the reserves.
///
/// The output stays below the output reserve, and the product grows by
/// exactly the residue of the floor division plus what the fee keeps of the
/// remaining output reserve. So it never shrinks, and it stays the same only
/// when the fee is zero and the division leaves nothing over.
pub proof fn lemma_swap_product(r_in: int, r_out: int, a_in: int, fee_bps: int)
    requires
        0 < r_in,
        0 < r_out,
        0 < a_in,
        0 <= fee_bps < BPS,
    ensures
        ({
            let e = input_after_fee(a_in, fee_bps);
            let out = swap_output(r_in, r_out, a_in, fee_bps);
            let residue = swap_residue(r_in, r_out, a_in, fee_bps);
            &&& 0 <= e <= a_in
            &&& (e == a_in <==> fee_bps == 0)
            &&& 0 <= out < r_out
            &&& 0 <= residue
            &&& (r_in + a_in) * (r_out - out) == r_in * r_out + residue + (a_in - e) * (r_out
                - out)
            &&& (r_in + a_in) * (r_out - out) >= r_in * r_out
            &&& ((r_in + a_in) * (r_out - out) == r_in * r_out <==> fee_bps == 0 && residue == 0)
        }),
{
    let keep = BPS - fee_bps;
    let e = input_after_fee(a_in, fee_bps);
    let out = swap_output(r_in, r_out, a_in, fee_bps);
    let residue = swap_residue(r_in, r_out, a_in, fee_bps);
    let d = r_in + e;
    assert(0 <= a_in * keep <= a_in * 10_000) by (nonlinear_arith)
        requires
            0 < keep <= 10_000,
            0 < a_in,
    ;
    lemma_floor_bounds(a_in * keep, BPS as int);
    assert(e <= a_in);
    if fee_bps == 0 {
        lemma_floor_unique(a_in * 10_000, 10_000, a_in);
    } else {
        assert(a_in * keep < a_in * 10_000) by (nonlinear_arith)
            requires
                0 < keep < 10_000,
                0 < a_in,
        ;
    }
    assert(0 <= r_out * e) by (nonlinear_arith)
        requires
            0 <= r_out,
            0 <= e,
    ;
    lemma_floor_bounds(r_out * e, d);
    lemma_fundamental_div_mod(r_out * e, d);
    lemma_mod_bound(r_out * e, d);
    assert(out < r_out) by (nonlinear_arith)
        requires
            out * d <= r_out * e,
            0 <= e < d,
            0 < r_out,
    ;
    assert((r_in + a_in) * (r_out - out) == r_in * r_out + residue + (a_in - e) * (r_out - out))
        by (nonlinear_arith)
        requires
            r_out * e == d * out + residue,
            d == r_in + e,
    ;
    assert((a_in - e) * (r_out - out) >= 0) by (nonlinear_arith)
        requires
            a_in - e >= 0,
            r_out - out > 0,
    ;
    if a_in - e > 0 {
        assert((a_in - e) * (r_out - out) > 0) by (nonlinear_arith)
            requires
                a_in - e > 0,
                r_out - out > 0,
        ;
    }
}

/// What comes back when the output of a swap is swapped back at once.
///
/// Swapping `a_in` for `b` and then `b` back returns `back` with
/// `back * (r_in * M^2 + k^2 * a_in) <= k^2 * a_in * (r_in + a_in)`, where
/// `M` is [`BPS`] and `k` is `M - fee_bps`: at most the input, scaled twice
/// by the fee and once by `(r_in + a_in) / (r_in + (k / M)^2 * a_in)`, since
/// the fee of the first swap stays in the reserve that the second one draws
/// on. In particular nothing is ever gained.
pub proof fn lemma_swap_back(r_in: int, r_out: int, a_in: int, fee_bps: int)
    requires
        0 < r_in,
        0 < r_out,
        0 < a_in,
        0 <= fee_bps < BPS,
    ensures
        ({
            let k = BPS - fee_bps;
            let b = swap_output(r_in, r_out, a_in, fee_bps);
            let back = swap_output(r_out - b, r_in + a_in, b, fee_bps);
            &&& 0 <= b < r_out
            &&& 0 <= back <= a_in
            &&& back * (r_in * (BPS * BPS) + (k * k) * a_in) <= (k * k) * a_in * (r_in + a_in)
        }),
{
    let m = BPS as int;
    let k = BPS - fee_bps;
    let e1 = input_after_fee(a_in, fee_bps);
    let b = swap_output(r_in, r_out, a_in, fee_bps);
    lemma_swap_product(r_in, r_out, a_in, fee_bps);
    assert(0 <= a_in * k) by (nonlinear_arith)
        requires
            0 < k,
            0 < a_in,
    ;
    lemma_floor_bounds(a_in * k, m);
    assert(0 <= r_out * e1) by (nonlinear_arith)
        requires
            0 <= r_out,
            0 <= e1,
    ;
    lemma_floor_bounds(r_out * e1, r_in + e1);
    let e2 = input_after_fee(b, fee_bps);
    assert(0 <= b * k) by (nonlinear_arith)
        requires
            0 < k,
            0 <= b,
    ;
    lemma_floor_bounds(b * k, m);
    let total = r_in + a_in;
    let d2 = r_out - b + e2;
    let back = swap_output(r_out - b, total, b, fee_bps);
    assert(0 <= total * e2) by (nonlinear_arith)
        requires
            0 <= total,
            0 <= e2,
    ;
    lemma_floor_bounds(total * e2, d2);
    assert(back <= total) by (nonlinear_arith)
        requires
            back * d2 <= total * e2,
            0 <= e2 <= d2,
            0 < d2,
            0 <= total,
            0 <= back,
    ;
    let rest = total - back;
    // back * (r_out - b) <= rest * e2
    assert(back * (r_out - b) <= rest * e2) by (nonlinear_arith)
        requires
            back * d2 <= total * e2,
            d2 == r_out - b + e2,
            rest == total - back,
    ;
    // back * r_out * m <= b * (rest * k + back * m)
    let w = rest * k + back * m;
    assert(rest * (e2 * m) <= rest * (b * k)) by (nonlinear_arith)
        requires
            e2 * m <= b * k,
            0 <= rest,
    ;
    let lhs1 = back * (r_out - b);
    let rhs1 = rest * e2;
    assert(lhs1 * m <= rhs1 * m) by (nonlinear_arith)
        requires
            lhs1 <= rhs1,
            0 < m,
    ;
    assert(back * r_out * m == lhs1 * m + back * b * m) by (nonlinear_arith)
        requires
            lhs1 == back * (r_out - b),
    ;
    assert(rhs1 * m == rest * (e2 * m)) by (nonlinear_arith)
        requires
            rhs1 == rest * e2,
    ;
    assert(rest * (b * k) + back * b * m == b * w) by (nonlinear_arith)
        requires
            w == rest * k + back * m,
    ;
    assert(back * r_out * m <= b * w);
    assert(0 <= w) by (nonlinear_arith)
        requires
            w == rest * k + back * m,
            0 <= rest,
            0 < k,
            0 <= back,
            0 < m,
    ;
    // r_out * (back * m * (r_in + e1)) <= r_out * (e1 * w)
    let d1 = r_in + e1;
    assert((back * r_out * m) * d1 <= (b * w) * d1) by (nonlinear_arith)
        requires
            back * r_out * m <= b * w,
            0 < d1,
    ;
    assert((b * d1) * w <= (r_out * e1) * w) by (nonlinear_arith)
        requires
            b * d1 <= r_out * e1,
            0 <= w,
    ;
    assert(r_out * (back * m * d1) <= r_out * (e1 * w)) by (nonlinear_arith)
        requires
            (back * r_out * m) * d1 <= (b * w) * d1,
            (b * d1) * w <= (r_out * e1) * w,
    ;
    assert(back * m * d1 <= e1 * w) by (nonlinear_arith)
        requires
            r_out * (back * m * d1) <= r_out * (e1 * w),
            0 < r_out,
    ;
    // back * m * r_in <= e1 * rest * k
    assert(back * m * r_in <= e1 * rest * k) by (nonlinear_arith)
        requires
            back * m * d1 <= e1 * w,
            d1 == r_in + e1,
            w == rest * k + back * m,
    ;
    // back * m * m * r_in <= a_in * k * rest * k
    assert((e1 * m) * (rest * k) <= (a_in * k) * (rest * k)) by (nonlinear_arith)
        requires
            e1 * m <= a_in * k,
            0 <= rest,
            0 < k,
    ;
    let lhs2 = back * m * r_in;
    let rhs2 = e1 * rest * k;
    assert(lhs2 * m <= rhs2 * m) by (nonlinear_arith)
        requires
            lhs2 <= rhs2,
            0 < m,
    ;
    assert(lhs2 * m == back * (r_in * (m * m))) by (nonlinear_arith)
        requires
            lhs2 == back * m * r_in,
    ;
    assert(rhs2 * m == (e1 * m) * (rest * k)) by (nonlinear_arith)
        requires
            rhs2 == e1 * rest * k,
    ;
    assert((a_in * k) * (rest * k) == (k * k) * a_in * total - (k * k) * a_in * back)
        by (nonlinear_arith)
        requires
            rest == total - back,
    ;
    assert(back * (r_in * (m * m) + (k * k) * a_in) == back * (r_in * (m * m)) + (k * k) * a_in
        * back) by (nonlinear_arith);
    assert(back * (r_in * (m * m) + (k * k) * a_in) <= (k * k) * a_in * total);
    assert(m * m == BPS * BPS);
    // nothing is gained
    let scale = r_in * (m * m) + (k * k) * a_in;
    assert(k * k <= m * m) by (nonlinear_arith)
        requires
            0 < k <= m,
    ;
    assert((k * k) * a_in * total <= a_in * scale) by (nonlinear_arith)
        requires
            k * k <= m * m,
            0 <= k * k,
            scale == r_in * (m * m) + (k * k) * a_in,
            total == r_in + a_in,
            0 < a_in,
            0 < r_in,
    ;
    assert(0 < scale) by (nonlinear_arith)
        requires
            scale == r_in * (m * m) + (k * k) * a_in,
            0 < r_in,
            0 < m,
            0 < a_in,
            0 < k,
    ;
    assert(back <= a_in) by (nonlinear_arith)
        requires
            back * scale <= a_in * scale,
            0 < scale,
    ;
}

/// A swap that is small beside the reserve it pays into comes back as at
/// most the input scaled twice by the fee, and one unit of rounding:
/// `back <= a_in * (k / M)^2 + 1`.
///
/// Small means `k^2 * a_in^2 * (M^2 - k^2) <= M^2 * (r_in * M^2 + k^2 * a_in)`.
pub proof fn lemma_swap_back_small(r_in: int, r_out: int, a_in: int, fee_bps: int)
    requires
        0 < r_in,
        0 < r_out,
        0 < a_in,
        0 <= fee_bps < BPS,
        ({
            let k = BPS - fee_bps;
            (k * k) * (a_in * a_in) * (BPS * BPS - k * k) <= (BPS * BPS) * (r_in * (BPS * BPS) + (k
                * k) * a_in)
        }),
    ensures
        ({
            let k = BPS - fee_bps;
            let b = swap_output(r_in, r_out, a_in, fee_bps);
            let back = swap_output(r_out - b, r_in + a_in, b, fee_bps);
            back * (BPS * BPS) <= (k * k) * a_in + BPS * BPS
        }),
{
    let mm = BPS * BPS;
    let k = BPS - fee_bps;
    let kk = k * k;
    let b = swap_output(r_in, r_out, a_in, fee_bps);
    let back = swap_output(r_out - b, r_in + a_in, b, fee_bps);
    lemma_swap_back(r_in, r_out, a_in, fee_bps);
    let scale = r_in * mm + kk * a_in;
    assert(0 <= kk) by (nonlinear_arith)
        requires
            kk == k * k,
    ;
    assert(0 < scale) by (nonlinear_arith)
        requires
            scale == r_in * mm + kk * a_in,
            0 < r_in,
            0 < mm,
            0 < a_in,
            0 <= kk,
    ;
    let bound = kk * a_in * (r_in + a_in);
    assert((back * scale) * mm <= bound * mm) by (nonlinear_arith)
        requires
            back * scale <= bound,
            0 < mm,
    ;
    let t1 = kk * a_in * r_in * mm;
    let t2 = kk * (a_in * a_in) * mm;
    let t3 = kk * kk * (a_in * a_in);
    assert(bound * mm == t1 + t2) by (nonlinear_arith)
        requires
            bound == kk * a_in * (r_in + a_in),
            t1 == kk * a_in * r_in * mm,
            t2 == kk * (a_in * a_in) * mm,
    ;
    assert((kk * a_in + mm) * scale == t1 + t3 + mm * scale) by (nonlinear_arith)
        requires
            scale == r_in * mm + kk * a_in,
            t1 == kk * a_in * r_in * mm,
            t3 == kk * kk * (a_in * a_in),
    ;
    assert(kk * (a_in * a_in) * (mm - kk) == t2 - t3) by (nonlinear_arith)
        requires
            t2 == kk * (a_in * a_in) * mm,
            t3 == kk * kk * (a_in * a_in),
    ;
    assert((back * scale) * mm == (back * mm) * scale) by (nonlinear_arith);
    assert((back * mm) * scale <= (kk * a_in + mm) * scale);
    assert(back * mm <= kk * a_in + mm) by (nonlinear_arith)
        requires
            (back * mm) * scale <= (kk * a_in + mm) * scale,
            0 < scale,
    ;
}

} // verus!
