//! Global laws of the engine, stated over the same specification
//! functions the operations' contracts use.

use vstd::prelude::*;

use crate::bignat::{lemma_pow10_pos, pow10, rescaled};
use crate::lp_token_ledger::LP_DECIMALS;
use crate::pool::Pool;
use crate::pool_math::{lp_mint, spec_liquidity_amounts};

verus! {

/// Every pool's balances and accumulated fees are non-negative: pool
/// amounts are drawn from the natural numbers, so no operation can drive
/// them below zero.
pub proof fn lemma_pool_amounts_nonnegative(p: Pool)
    ensures
        p.balance_0@ >= 0,
        p.balance_1@ >= 0,
        p.lp_fee_0@ >= 0,
        p.lp_fee_1@ >= 0,
        p.reserve_0() >= p.balance_0@,
        p.reserve_1() >= p.balance_1@,
{
}

/// Adding liquidity into an empty pool, or at the pool's exact ratio,
/// and at once removing the whole minted amount returns no more of
/// either token than was deposited: the engine never pays a round trip
/// out at a profit.  Stated for tokens at or below the LP precision,
/// where rescaling is exact.
pub proof fn lemma_add_remove_round_trip(
    a0: nat,
    d0: nat,
    a1: nat,
    d1: nat,
    r0: nat,
    r1: nat,
    s: nat,
)
    requires
        a0 > 0,
        a1 > 0,
        d0 <= LP_DECIMALS as nat,
        d1 <= LP_DECIMALS as nat,
        (r0 == 0 && r1 == 0) ==> s == 0,
        (r0 == 0 && r1 == 0) || (a0 * r1 == a1 * r0 && r0 > 0 && r1 > 0 && s > 0),
        spec_liquidity_amounts(a0, d0, a1, d1, r0, r1, s) is Some,
    ensures
        ({
            let v = spec_liquidity_amounts(a0, d0, a1, d1, r0, r1, s)->Some_0;
            let mint = v.2;
            &&& (r0 + v.0) * mint / (s + mint) <= v.0
            &&& (r1 + v.1) * mint / (s + mint) <= v.1
        }),
{
    let v = spec_liquidity_amounts(a0, d0, a1, d1, r0, r1, s)->Some_0;
    let mint = v.2;
    if r0 == 0 && r1 == 0 {
        // A fresh pool: the whole supply is the mint, so the whole
        // deposit comes back, exactly.
        assert(v.0 == a0 && v.1 == a1);
        crate::pool_math::lemma_isqrt_exists(
            rescaled(a0, d0, LP_DECIMALS as nat) * rescaled(a1, d1, LP_DECIMALS as nat),
        );
        crate::pool_math::lemma_isqrt_unique(
            mint,
            crate::pool_math::isqrt(
                rescaled(a0, d0, LP_DECIMALS as nat) * rescaled(a1, d1, LP_DECIMALS as nat),
            ),
            rescaled(a0, d0, LP_DECIMALS as nat) * rescaled(a1, d1, LP_DECIMALS as nat),
        );
        let c0 = pow10((LP_DECIMALS as nat - d0) as nat);
        let c1 = pow10((LP_DECIMALS as nat - d1) as nat);
        lemma_pow10_pos((LP_DECIMALS as nat - d0) as nat);
        lemma_pow10_pos((LP_DECIMALS as nat - d1) as nat);
        assert(rescaled(a0, d0, LP_DECIMALS as nat) == a0 * c0);
        assert(rescaled(a1, d1, LP_DECIMALS as nat) == a1 * c1);
        assert(a0 * c0 >= 1 && a1 * c1 >= 1) by (nonlinear_arith)
            requires
                a0 >= 1,
                a1 >= 1,
                c0 >= 1,
                c1 >= 1,
        ;
        assert((a0 * c0) * (a1 * c1) >= 1) by (nonlinear_arith)
            requires
                a0 * c0 >= 1,
                a1 * c1 >= 1,
        ;
        if mint == 0 {
            assert(crate::pool_math::is_isqrt(mint, (a0 * c0) * (a1 * c1)));
            assert((a0 * c0) * (a1 * c1) < (mint + 1) * (mint + 1));
            assert((mint + 1) * (mint + 1) == 1) by (nonlinear_arith)
                requires
                    mint == 0,
            ;
            assert(false);
        }
        {
            vstd::arithmetic::div_mod::lemma_div_by_multiple(a0 as int, mint as int);
            vstd::arithmetic::div_mod::lemma_div_by_multiple(a1 as int, mint as int);
            assert((r0 + a0) * mint == a0 * mint) by (nonlinear_arith)
                requires
                    r0 == 0,
            ;
            assert((r1 + a1) * mint == a1 * mint) by (nonlinear_arith)
                requires
                    r1 == 0,
            ;
        }
    } else {
        assert(v.0 == a0 && v.1 == a1);
        assert(mint == lp_mint(s, a0, r0, d0));
        let c0 = pow10((LP_DECIMALS as nat - d0) as nat);
        lemma_pow10_pos((LP_DECIMALS as nat - d0) as nat);
        assert(rescaled(a0, d0, LP_DECIMALS as nat) == a0 * c0);
        assert(rescaled(r0, d0, LP_DECIMALS as nat) == r0 * c0);
        let big = s * (a0 * c0);
        let den = r0 * c0;
        assert(r0 * c0 > 0) by (nonlinear_arith)
            requires
                r0 > 0,
                c0 >= 1,
        ;
        assert(den > 0);
        assert(mint == big / den);
        vstd::arithmetic::div_mod::lemma_remainder_lower(big as int, den as int);
        assert(mint * den <= big);
        // Cancel the common rescaling factor.
        assert(mint * r0 <= s * a0) by (nonlinear_arith)
            requires
                mint * (r0 * c0) <= s * (a0 * c0),
                c0 >= 1,
        ;
        // The deposit is on the pool ratio, so the bound carries to the
        // other side.
        assert(mint * r1 <= s * a1) by (nonlinear_arith)
            requires
                mint * r0 <= s * a0,
                a0 * r1 == a1 * r0,
                r0 > 0,
                r1 > 0,
        ;
        if s + mint == 0 {
        } else {
            assert((r0 + a0) * mint <= (s + mint) * a0) by (nonlinear_arith)
                requires
                    mint * r0 <= s * a0,
            ;
            assert((r1 + a1) * mint <= (s + mint) * a1) by (nonlinear_arith)
                requires
                    mint * r1 <= s * a1,
            ;
            vstd::arithmetic::div_mod::lemma_multiply_divide_le(
                ((r0 + a0) * mint) as int,
                (s + mint) as int,
                a0 as int,
            );
            vstd::arithmetic::div_mod::lemma_multiply_divide_le(
                ((r1 + a1) * mint) as int,
                (s + mint) as int,
                a1 as int,
            );
        }
    }
}

} // verus!
