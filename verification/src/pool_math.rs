//! Pure pool pricing: the add-liquidity ratio math, constant-product swap
//! pricing with the basis-point fee split, and remove-liquidity shares.
//! Everything here is exact integer arithmetic over `BigNat`.

use vstd::prelude::*;

use crate::bignat::{
    lemma_pow10_pos, nat_clone, nat_divide, nat_eq, nat_from_u64, nat_is_zero, nat_add, nat_le,
    nat_multiply, nat_sqrt, nat_subtract, nat_to_decimal_precision, nat_to_u128, rescaled, BigNat,
};
use crate::error::AmmError;
use crate::lp_token_ledger::LP_DECIMALS;

verus! {

/// One part in a hundred million: the fixed-point unit for slippage.
pub const SLIPPAGE_SCALE_E8: u64 = 100_000_000;

/// Whether `r` is the floor square root of `n`.
pub open spec fn is_isqrt(r: nat, n: nat) -> bool {
    r * r <= n && n < (r + 1) * (r + 1)
}

/// Floor square roots are unique.
pub proof fn lemma_isqrt_unique(a: nat, b: nat, n: nat)
    requires
        is_isqrt(a, n),
        is_isqrt(b, n),
    ensures
        a == b,
{
    if a < b {
        assert((a + 1) * (a + 1) <= b * b) by (nonlinear_arith)
            requires
                a + 1 <= b,
        ;
    }
    if b < a {
        assert((b + 1) * (b + 1) <= a * a) by (nonlinear_arith)
            requires
                b + 1 <= a,
        ;
    }
}

/// The floor square root, as a value.
pub open spec fn isqrt(n: nat) -> nat {
    choose|r: nat| is_isqrt(r, n)
}

/// Every natural number has a floor square root.
pub proof fn lemma_isqrt_exists(n: nat)
    ensures
        is_isqrt(isqrt(n), n),
    decreases n,
{
    if n == 0 {
        assert(is_isqrt(0, 0)) by (nonlinear_arith);
        assert(exists|x: nat| is_isqrt(x, n));
    } else {
        lemma_isqrt_exists((n - 1) as nat);
        let r = isqrt((n - 1) as nat);
        assert(r * r <= n - 1 && (n - 1) < (r + 1) * (r + 1));
        if (r + 1) * (r + 1) <= n {
            assert((r + 1) * (r + 1) < (r + 1 + 1) * (r + 1 + 1)) by (nonlinear_arith);
            assert(n <= (r + 1) * (r + 1));
            assert(is_isqrt(r + 1, n));
        } else {
            assert(r * r <= n);
            assert(n < (r + 1) * (r + 1));
            assert(is_isqrt(r, n));
        }
        assert(exists|x: nat| is_isqrt(x, n));
    }
}

/// Any floor square root witness is the floor square root.
pub proof fn lemma_isqrt_is(r: nat, n: nat)
    requires
        is_isqrt(r, n),
    ensures
        isqrt(n) == r,
{
    assert(is_isqrt(isqrt(n), n)) by {
        assert(exists|x: nat| is_isqrt(x, n));
    }
    lemma_isqrt_unique(isqrt(n), r, n);
}

/// The LP amount minted against side `a` of the pool: the supply share,
/// with both quantities first brought to LP decimals.
pub open spec fn lp_mint(supply: nat, a: nat, r: nat, d: nat) -> nat {
    supply * rescaled(a, d, LP_DECIMALS as nat) / rescaled(r, d, LP_DECIMALS as nat)
}

/// The amount of the other token that keeps the pool ratio, computed in
/// the other token's decimals.
pub open spec fn required_other(a: nat, r_same: nat, r_other: nat, d_a: nat, d_other: nat) -> nat {
    rescaled(a, d_a, d_other) * r_other / rescaled(r_same, d_a, d_other)
}

/// The add-liquidity ratio math of one pool.  Given the caller's two
/// amounts and the pool's current reserves and LP supply, decide which
/// amounts to accept and how much LP token to mint.
pub fn calculate_liquidity_amounts(
    amount_0: &BigNat,
    decimals_0: u8,
    amount_1: &BigNat,
    decimals_1: u8,
    reserve_0: &BigNat,
    reserve_1: &BigNat,
    lp_total_supply: &BigNat,
) -> (r: Result<(BigNat, BigNat, BigNat), AmmError>)
    requires
        amount_0@ > 0,
        amount_1@ > 0,
    ensures
        r is Ok <==> spec_liquidity_amounts(
            amount_0@,
            decimals_0 as nat,
            amount_1@,
            decimals_1 as nat,
            reserve_0@,
            reserve_1@,
            lp_total_supply@,
        ) is Some,
        r matches Ok(t) ==> Some((t.0@, t.1@, t.2@)) == spec_liquidity_amounts(
            amount_0@,
            decimals_0 as nat,
            amount_1@,
            decimals_1 as nat,
            reserve_0@,
            reserve_1@,
            lp_total_supply@,
        ),
        ({
            let a0 = amount_0@;
            let a1 = amount_1@;
            let r0 = reserve_0@;
            let r1 = reserve_1@;
            let s = lp_total_supply@;
            let d0 = decimals_0 as nat;
            let d1 = decimals_1 as nat;
            let dl = LP_DECIMALS as nat;
            let boot = r0 == 0 && r1 == 0;
            let matched = a0 * r1 == a1 * r0;
            let div_1 = rescaled(r0, d0, d1);
            let req_1 = required_other(a0, r0, r1, d0, d1);
            let div_0 = rescaled(r1, d1, d0);
            let req_0 = required_other(a1, r1, r0, d1, d0);
            let r0_l = rescaled(r0, d0, dl);
            let r1_l = rescaled(r1, d1, dl);
            &&& (boot ==> (r matches Ok(t) && t.0@ == a0 && t.1@ == a1 && is_isqrt(
                t.2@,
                rescaled(a0, d0, dl) * rescaled(a1, d1, dl),
            )))
            &&& (!boot && matched && r0_l == 0 ==> (r matches Err(e) && e is InvalidLpTokenAmount))
            &&& (!boot && matched && r0_l != 0 ==> (r matches Ok(t) && t.0@ == a0 && t.1@ == a1
                && t.2@ == lp_mint(s, a0, r0, d0)))
            &&& (!boot && !matched && div_1 == 0 ==> (r matches Err(e) && e is InvalidAmount1))
            &&& (!boot && !matched && div_1 != 0 && req_1 <= a1 && req_1 == 0
                ==> (r matches Err(e) && e is RequiredAmountZero))
            &&& (!boot && !matched && div_1 != 0 && req_1 <= a1 && req_1 != 0 && r0_l == 0
                ==> (r matches Err(e) && e is InvalidLpTokenAmount))
            &&& (!boot && !matched && div_1 != 0 && req_1 <= a1 && req_1 != 0 && r0_l != 0
                ==> (r matches Ok(t) && t.0@ == a0 && t.1@ == req_1 && t.2@ == lp_mint(
                s,
                a0,
                r0,
                d0,
            )))
            &&& (!boot && !matched && div_1 != 0 && !(req_1 <= a1) && div_0 == 0
                ==> (r matches Err(e) && e is InvalidAmount0))
            &&& (!boot && !matched && div_1 != 0 && !(req_1 <= a1) && div_0 != 0 && req_0 <= a0
                && req_0 == 0 ==> (r matches Err(e) && e is RequiredAmountZero))
            &&& (!boot && !matched && div_1 != 0 && !(req_1 <= a1) && div_0 != 0 && req_0 <= a0
                && req_0 != 0 && r1_l == 0 ==> (r matches Err(e)
                && e is InvalidLpTokenAmount))
            &&& (!boot && !matched && div_1 != 0 && !(req_1 <= a1) && div_0 != 0 && req_0 <= a0
                && req_0 != 0 && r1_l != 0 ==> (r matches Ok(t) && t.0@ == req_0
                && t.1@ == a1 && t.2@ == lp_mint(s, a1, r1, d1)))
            &&& (!boot && !matched && div_1 != 0 && !(req_1 <= a1) && div_0 != 0 && !(req_0 <= a0)
                ==> (r matches Err(e) && e matches AmmError::IncorrectRatio {
                    required_0,
                    required_1,
                } && required_0@ == req_0 && required_1@ == req_1))
        }),
{
    if nat_is_zero(reserve_0) && nat_is_zero(reserve_1) {
        // A new pool: the caller's amounts set the initial ratio and the
        // initial supply is the geometric mean in LP decimals.
        let a0_lp = nat_to_decimal_precision(amount_0, decimals_0, LP_DECIMALS);
        let a1_lp = nat_to_decimal_precision(amount_1, decimals_1, LP_DECIMALS);
        let mint = nat_sqrt(&nat_multiply(&a0_lp, &a1_lp));
        proof {
            lemma_isqrt_is(mint@, a0_lp@ * a1_lp@);
        }
        return Ok((nat_clone(amount_0), nat_clone(amount_1), mint));
    }
    let a0_r1 = nat_multiply(amount_0, reserve_1);
    let a1_r0 = nat_multiply(amount_1, reserve_0);
    if nat_eq(&a0_r1, &a1_r0) {
        // The caller hit the pool ratio exactly.
        let a0_lp = nat_to_decimal_precision(amount_0, decimals_0, LP_DECIMALS);
        let r0_lp = nat_to_decimal_precision(reserve_0, decimals_0, LP_DECIMALS);
        let numer = nat_multiply(lp_total_supply, &a0_lp);
        return match nat_divide(&numer, &r0_lp) {
            Some(mint) => Ok((nat_clone(amount_0), nat_clone(amount_1), mint)),
            None => Err(AmmError::InvalidLpTokenAmount),
        };
    }
    // Take amount_0 in full and work out the amount_1 the ratio asks for.
    let a0_d1 = nat_to_decimal_precision(amount_0, decimals_0, decimals_1);
    let r0_d1 = nat_to_decimal_precision(reserve_0, decimals_0, decimals_1);
    let numer_1 = nat_multiply(&a0_d1, reserve_1);
    let required_1 = match nat_divide(&numer_1, &r0_d1) {
        Some(q) => q,
        None => {
            return Err(AmmError::InvalidAmount1);
        },
    };
    if nat_le(&required_1, amount_1) {
        if nat_is_zero(&required_1) {
            return Err(AmmError::RequiredAmountZero);
        }
        let a0_lp = nat_to_decimal_precision(amount_0, decimals_0, LP_DECIMALS);
        let r0_lp = nat_to_decimal_precision(reserve_0, decimals_0, LP_DECIMALS);
        let numer = nat_multiply(lp_total_supply, &a0_lp);
        return match nat_divide(&numer, &r0_lp) {
            Some(mint) => Ok((nat_clone(amount_0), required_1, mint)),
            None => Err(AmmError::InvalidLpTokenAmount),
        };
    }
    // Take amount_1 in full and work out the amount_0 the ratio asks for.
    let a1_d0 = nat_to_decimal_precision(amount_1, decimals_1, decimals_0);
    let r1_d0 = nat_to_decimal_precision(reserve_1, decimals_1, decimals_0);
    let numer_0 = nat_multiply(&a1_d0, reserve_0);
    let required_0 = match nat_divide(&numer_0, &r1_d0) {
        Some(q) => q,
        None => {
            return Err(AmmError::InvalidAmount0);
        },
    };
    if nat_le(&required_0, amount_0) {
        if nat_is_zero(&required_0) {
            return Err(AmmError::RequiredAmountZero);
        }
        let a1_lp = nat_to_decimal_precision(amount_1, decimals_1, LP_DECIMALS);
        let r1_lp = nat_to_decimal_precision(reserve_1, decimals_1, LP_DECIMALS);
        let numer = nat_multiply(lp_total_supply, &a1_lp);
        return match nat_divide(&numer, &r1_lp) {
            Some(mint) => Ok((required_0, nat_clone(amount_1), mint)),
            None => Err(AmmError::InvalidLpTokenAmount),
        };
    }
    // The pool ratio moved: neither amount is enough for the other.
    Err(AmmError::IncorrectRatio { required_0, required_1 })
}

/// The whole add-liquidity decision as one function: which amounts a
/// deposit yields and what is minted, or nothing where the math fails.
pub open spec fn spec_liquidity_amounts(
    a0: nat,
    d0: nat,
    a1: nat,
    d1: nat,
    r0: nat,
    r1: nat,
    s: nat,
) -> Option<(nat, nat, nat)> {
    let dl = LP_DECIMALS as nat;
    if r0 == 0 && r1 == 0 {
        Some((a0, a1, isqrt(rescaled(a0, d0, dl) * rescaled(a1, d1, dl))))
    } else if a0 * r1 == a1 * r0 {
        if rescaled(r0, d0, dl) == 0 {
            None
        } else {
            Some((a0, a1, lp_mint(s, a0, r0, d0)))
        }
    } else if rescaled(r0, d0, d1) == 0 {
        None
    } else if required_other(a0, r0, r1, d0, d1) <= a1 {
        let req_1 = required_other(a0, r0, r1, d0, d1);
        if req_1 == 0 {
            None
        } else if rescaled(r0, d0, dl) == 0 {
            None
        } else {
            Some((a0, req_1, lp_mint(s, a0, r0, d0)))
        }
    } else if rescaled(r1, d1, d0) == 0 {
        None
    } else if required_other(a1, r1, r0, d1, d0) <= a0 {
        let req_0 = required_other(a1, r1, r0, d1, d0);
        if req_0 == 0 {
            None
        } else if rescaled(r1, d1, dl) == 0 {
            None
        } else {
            Some((req_0, a1, lp_mint(s, a1, r1, d1)))
        }
    } else {
        None
    }
}

/// The fee of `p` at `bps` basis points, truncated.
pub open spec fn fee_of(p: nat, bps: u8) -> nat {
    p * bps as nat / 10000
}

/// What remains of the pay amount once the whole swap fee is off.
pub open spec fn effective_pay(p: nat, lp_bps: u8) -> nat {
    (p - fee_of(p, lp_bps)) as nat
}

/// The LP side of the fee split.
pub open spec fn swap_lp_fee(p: nat, lp_bps: u8, kong_bps: u8) -> nat {
    (fee_of(p, lp_bps) - fee_of(p, kong_bps)) as nat
}

/// The common precision swap pricing works in.
pub open spec fn swap_decimals(dp: nat, dr: nat) -> nat {
    if dp >= dr {
        dp
    } else {
        dr
    }
}

/// The gross amount a swap pays out, before the outbound ledger fee:
/// constant-product pricing at the common precision, truncated back to
/// the receive token's decimals.
pub open spec fn spec_receive(p: nat, dp: nat, rp: nat, rr: nat, dr: nat, lp_bps: u8) -> nat {
    let dm = swap_decimals(dp, dr);
    let pm = rescaled(effective_pay(p, lp_bps), dp, dm);
    let rpm = rescaled(rp, dp, dm);
    let rrm = rescaled(rr, dr, dm);
    rescaled(rrm * pm / (rpm + pm), dm, dr)
}

/// Realised slippage: the effective price `receive / pay` (over the raw
/// pay amount) against the pre-trade marginal price `r_R / r_P`, as a
/// cross-multiplied exact fraction in hundred-millionths, clamped to
/// `[0, 1]`.
pub open spec fn spec_slippage_e8(p: nat, dp: nat, rp: nat, rr: nat, dr: nat, lp_bps: u8) -> nat {
    let dm = swap_decimals(dp, dr);
    let pm = rescaled(p, dp, dm);
    let rpm = rescaled(rp, dp, dm);
    let rrm = rescaled(rr, dr, dm);
    let rec_m = rescaled(spec_receive(p, dp, rp, rr, dr, lp_bps), dr, dm);
    let mid_cross = pm * rrm;
    let price_cross = rec_m * rpm;
    if mid_cross == 0 || price_cross >= mid_cross {
        0
    } else {
        SLIPPAGE_SCALE_E8 as nat * (mid_cross - price_cross) as nat / mid_cross
    }
}

/// What one swap leg pays out and charges.
pub struct SwapOutcome {
    pub receive_amount: BigNat,
    pub lp_fee: BigNat,
    pub kong_fee: BigNat,
    pub slippage_e8: u64,
}

/// Price one swap leg: fee split, constant-product payout and slippage.
pub fn swap_amounts(
    pay_amount: &BigNat,
    pay_decimals: u8,
    pay_reserve: &BigNat,
    receive_reserve: &BigNat,
    receive_decimals: u8,
    lp_fee_bps: u8,
    kong_fee_bps: u8,
) -> (r: SwapOutcome)
    requires
        pay_amount@ > 0,
        kong_fee_bps <= lp_fee_bps,
    ensures
        r.receive_amount@ == spec_receive(
            pay_amount@,
            pay_decimals as nat,
            pay_reserve@,
            receive_reserve@,
            receive_decimals as nat,
            lp_fee_bps,
        ),
        r.lp_fee@ == swap_lp_fee(pay_amount@, lp_fee_bps, kong_fee_bps),
        r.kong_fee@ == fee_of(pay_amount@, kong_fee_bps),
        r.slippage_e8 == spec_slippage_e8(
            pay_amount@,
            pay_decimals as nat,
            pay_reserve@,
            receive_reserve@,
            receive_decimals as nat,
            lp_fee_bps,
        ),
        r.slippage_e8 <= SLIPPAGE_SCALE_E8,
        fee_of(pay_amount@, lp_fee_bps) < pay_amount@,
{
    let p = pay_amount;
    let ten_thousand = nat_from_u64(10000);
    let bps_total = nat_from_u64(lp_fee_bps as u64);
    let bps_kong = nat_from_u64(kong_fee_bps as u64);
    let fee_total = nat_divide(&nat_multiply(p, &bps_total), &ten_thousand).unwrap();
    let kong_fee = nat_divide(&nat_multiply(p, &bps_kong), &ten_thousand).unwrap();
    proof {
        lemma_fee_lt(p@, lp_fee_bps);
        assert(p@ * kong_fee_bps as nat <= p@ * lp_fee_bps as nat) by (nonlinear_arith)
            requires
                kong_fee_bps <= lp_fee_bps,
        ;
        vstd::arithmetic::div_mod::lemma_div_is_ordered(
            (p@ * kong_fee_bps as nat) as int,
            (p@ * lp_fee_bps as nat) as int,
            10000,
        );
    }
    let lp_fee = nat_subtract(&fee_total, &kong_fee).unwrap();
    let pay_eff = nat_subtract(p, &fee_total).unwrap();
    let dm = if pay_decimals >= receive_decimals {
        pay_decimals
    } else {
        receive_decimals
    };
    let pm = nat_to_decimal_precision(&pay_eff, pay_decimals, dm);
    let pm_raw = nat_to_decimal_precision(p, pay_decimals, dm);
    let rpm = nat_to_decimal_precision(pay_reserve, pay_decimals, dm);
    let rrm = nat_to_decimal_precision(receive_reserve, receive_decimals, dm);
    proof {
        lemma_rescale_up_pos(pay_eff@, pay_decimals as nat, dm as nat);
    }
    let denom = nat_add(&rpm, &pm);
    let receive_m = nat_divide(&nat_multiply(&rrm, &pm), &denom).unwrap();
    let receive_amount = nat_to_decimal_precision(&receive_m, dm, receive_decimals);
    let rec_m = nat_to_decimal_precision(&receive_amount, receive_decimals, dm);
    let mid_cross = nat_multiply(&pm_raw, &rrm);
    let price_cross = nat_multiply(&rec_m, &rpm);
    let slippage_e8: u64 = if nat_is_zero(&mid_cross) || nat_le(&mid_cross, &price_cross) {
        0
    } else {
        let gap = nat_subtract(&mid_cross, &price_cross).unwrap();
        let scale = nat_from_u64(SLIPPAGE_SCALE_E8);
        let slip = nat_divide(&nat_multiply(&scale, &gap), &mid_cross).unwrap();
        proof {
            assert(SLIPPAGE_SCALE_E8 as nat * gap@ <= SLIPPAGE_SCALE_E8 as nat * mid_cross@)
                by (nonlinear_arith)
                requires
                    gap@ <= mid_cross@,
            ;
            vstd::arithmetic::div_mod::lemma_div_is_ordered(
                (SLIPPAGE_SCALE_E8 as nat * gap@) as int,
                (SLIPPAGE_SCALE_E8 as nat * mid_cross@) as int,
                mid_cross@ as int,
            );
            vstd::arithmetic::div_mod::lemma_div_multiples_vanish(
                SLIPPAGE_SCALE_E8 as int,
                mid_cross@ as int,
            );
        }
        let slip_small = nat_to_u128(&slip).unwrap();
        slip_small as u64
    };
    SwapOutcome { receive_amount, lp_fee, kong_fee, slippage_e8 }
}

/// For a positive amount the fee, a proper basis-point share, is smaller.
pub proof fn lemma_fee_lt(p: nat, bps: u8)
    requires
        p > 0,
    ensures
        fee_of(p, bps) < p,
        fee_of(p, bps) <= p,
{
    assert(p * bps as nat <= p * 10000) by (nonlinear_arith)
        requires
            bps as nat <= 10000,
    ;
    if p * bps as nat == p * 10000 {
        assert(bps as nat == 10000) by (nonlinear_arith)
            requires
                p > 0,
                p * bps as nat == p * 10000,
        ;
        assert(false);
    }
    vstd::arithmetic::div_mod::lemma_multiply_divide_lt((p * bps as nat) as int, p as int, 10000);
}

/// A smaller basis-point rate takes a smaller fee.
pub proof fn lemma_fee_split(p: nat, lp_bps: u8, kong_bps: u8)
    requires
        kong_bps <= lp_bps,
    ensures
        fee_of(p, kong_bps) <= fee_of(p, lp_bps),
        swap_lp_fee(p, lp_bps, kong_bps) + fee_of(p, kong_bps) == fee_of(p, lp_bps),
{
    assert(p * kong_bps as nat <= p * lp_bps as nat) by (nonlinear_arith)
        requires
            kong_bps <= lp_bps,
    ;
    vstd::arithmetic::div_mod::lemma_div_is_ordered(
        (p * kong_bps as nat) as int,
        (p * lp_bps as nat) as int,
        10000,
    );
}

/// Scaling up to a coarser-or-equal precision keeps positivity.
pub proof fn lemma_rescale_up_pos(v: nat, from: nat, to: nat)
    requires
        v > 0,
        to >= from,
    ensures
        rescaled(v, from, to) > 0,
{
    lemma_pow10_pos((to - from) as nat);
    assert(rescaled(v, from, to) == v * crate::bignat::pow10((to - from) as nat));
    assert(v * crate::bignat::pow10((to - from) as nat) >= v * 1) by (nonlinear_arith)
        requires
            crate::bignat::pow10((to - from) as nat) >= 1,
            v > 0,
    ;
}

/// The two withdrawal amounts of a remove-liquidity: each side's share of
/// the reserves by LP amount over supply.
pub fn remove_liquidity_amounts(
    remove_lp_token_amount: &BigNat,
    reserve_0: &BigNat,
    reserve_1: &BigNat,
    lp_total_supply: &BigNat,
) -> (r: (BigNat, BigNat))
    requires
        lp_total_supply@ > 0,
    ensures
        r.0@ == reserve_0@ * remove_lp_token_amount@ / lp_total_supply@,
        r.1@ == reserve_1@ * remove_lp_token_amount@ / lp_total_supply@,
{
    let w0 = nat_divide(&nat_multiply(reserve_0, remove_lp_token_amount), lp_total_supply).unwrap();
    let w1 = nat_divide(&nat_multiply(reserve_1, remove_lp_token_amount), lp_total_supply).unwrap();
    (w0, w1)
}

/// A share of the reserve never exceeds the reserve itself.
pub proof fn lemma_share_le_reserve(reserve: nat, part: nat, supply: nat)
    requires
        supply > 0,
        part <= supply,
    ensures
        reserve * part / supply <= reserve,
{
    assert(reserve * part <= reserve * supply) by (nonlinear_arith)
        requires
            part <= supply,
            reserve >= 0,
    ;
    vstd::arithmetic::div_mod::lemma_div_is_ordered(
        (reserve * part) as int,
        (reserve * supply) as int,
        supply as int,
    );
    vstd::arithmetic::div_mod::lemma_div_by_multiple(reserve as int, supply as int);
}

/// The amounts an accepted plan takes are positive when the deposit is.
pub proof fn lemma_liquidity_amounts_pos(
    a0: nat,
    d0: nat,
    a1: nat,
    d1: nat,
    r0: nat,
    r1: nat,
    s: nat,
)
    requires
        a0 > 0,
        a1 > 0,
        spec_liquidity_amounts(a0, d0, a1, d1, r0, r1, s) is Some,
    ensures
        spec_liquidity_amounts(a0, d0, a1, d1, r0, r1, s)->Some_0.0 > 0,
        spec_liquidity_amounts(a0, d0, a1, d1, r0, r1, s)->Some_0.1 > 0,
{
    let v = spec_liquidity_amounts(a0, d0, a1, d1, r0, r1, s)->Some_0;
    if r0 == 0 && r1 == 0 {
    } else if a0 * r1 == a1 * r0 {
    } else {
    }
}

} // verus!
