//! The formulas of the pool: shares, fees, liquidity units, square roots.
//!
//! Every product is taken in full before it is divided, so a result is exact
//! whenever it fits in a balance.

use vstd::arithmetic::div_mod::{
    lemma_div_is_ordered,
    lemma_div_is_ordered_by_denominator,
    lemma_fundamental_div_mod,
};
use vstd::prelude::*;

use crate::error::Error;
use crate::utils::wide::{
    is_sqrt,
    isqrt,
    lemma_isqrt_is,
    lemma_mul_div_bound,
    mul_div,
    mul_div_floor,
    sqrt_product,
    WORD,
};
use crate::Balance;

verus! {

/// The formulas, gathered under one name.
pub struct Math;

impl Math {
    /// Six decimal places.
    pub const PRECISION: u128 = 1_000_000;

    /// Basis points in a whole: 10,000 is 100%.
    pub const FEE_DENOMINATOR: u128 = 10_000;

    /// Nine decimal places, for prices.
    pub const PRICE_PRECISION: u128 = 1_000_000_000;

    /// The share of `total_supply` that a contribution of `amount` to
    /// `total_amount` earns; the contribution itself where either total is
    /// zero.
    pub open spec fn share(amount: int, total_amount: int, total_supply: int) -> int {
        if total_amount == 0 || total_supply == 0 {
            amount
        } else {
            amount * total_supply / total_amount
        }
    }

    /// What a swap of `amount_a` yields after a fee of 0.3%, by the
    /// constant-product rule; nothing from an empty pool.
    pub open spec fn optimal_swap(amount_a: int, reserve_a: int, reserve_b: int) -> int {
        if reserve_a == 0 || reserve_b == 0 {
            0
        } else {
            (amount_a * 997 * reserve_b) / (reserve_a * 1000 + amount_a * 997)
        }
    }

    /// The liquidity units that a contribution earns: for the first one the
    /// square root of the product of the two amounts, afterwards the smaller
    /// of the two proportional shares of the units that exist.
    pub open spec fn liquidity_tokens(
        amount_a: int,
        amount_b: int,
        reserve_a: int,
        reserve_b: int,
        total_supply: int,
    ) -> int {
        if total_supply == 0 {
            isqrt(amount_a * amount_b)
        } else {
            let by_a = amount_a * total_supply / reserve_a;
            let by_b = amount_b * total_supply / reserve_b;
            if by_a <= by_b {
                by_a
            } else {
                by_b
            }
        }
    }

    /// What `dx`, less a fee that leaves `fee_numerator / fee_denominator` of
    /// it, buys from reserves `x` and `y`.
    pub open spec fn constant_product_out(
        x: int,
        y: int,
        dx: int,
        fee_numerator: int,
        fee_denominator: int,
    ) -> int {
        let dx_with_fee = dx * fee_numerator / fee_denominator;
        (dx_with_fee * y) / (x + dx_with_fee)
    }

    /// The least amount that stays within `slippage_bps` basis points of
    /// `expected`.
    pub open spec fn min_after_slippage(expected: int, slippage_bps: int) -> int {
        expected * (10_000 - slippage_bps) / 10_000
    }

    /// The share of `total_supply` that a contribution of `amount` to
    /// `total_amount` earns.
    pub fn calculate_share(amount: Balance, total_amount: Balance, total_supply: Balance) -> (share:
        Balance)
        requires
            Self::share(amount as int, total_amount as int, total_supply as int) <= Balance::MAX,
        ensures
            share == Self::share(amount as int, total_amount as int, total_supply as int),
    {
        if total_amount == 0 || total_supply == 0 {
            amount
        } else {
            mul_div_floor(amount, total_supply, total_amount)
        }
    }

    /// What a swap of `amount_a` yields after a fee of 0.3%.
    pub fn calculate_optimal_swap(amount_a: Balance, reserve_a: Balance, reserve_b: Balance) -> (out:
        Balance)
        requires
            reserve_a * 1000 + amount_a * 997 <= Balance::MAX,
        ensures
            out == Self::optimal_swap(amount_a as int, reserve_a as int, reserve_b as int),
            out <= reserve_b,
    {
        if reserve_a == 0 || reserve_b == 0 {
            return 0;
        }
        let amount_with_fee = amount_a * 997;
        let denominator = reserve_a * 1000 + amount_with_fee;
        proof {
            lemma_mul_div_bound(amount_with_fee as int, reserve_b as int, denominator as int);
        }
        mul_div_floor(amount_with_fee, reserve_b, denominator)
    }

    /// The liquidity units that a contribution of `amount_a` and `amount_b`
    /// earns.
    pub fn calculate_liquidity_tokens(
        amount_a: Balance,
        amount_b: Balance,
        reserve_a: Balance,
        reserve_b: Balance,
        total_supply: Balance,
    ) -> (units: Balance)
        requires
            total_supply > 0 ==> reserve_a > 0 && reserve_b > 0 && Self::liquidity_tokens(
                amount_a as int,
                amount_b as int,
                reserve_a as int,
                reserve_b as int,
                total_supply as int,
            ) <= Balance::MAX,
        ensures
            units == Self::liquidity_tokens(
                amount_a as int,
                amount_b as int,
                reserve_a as int,
                reserve_b as int,
                total_supply as int,
            ),
    {
        if total_supply == 0 {
            sqrt_product(amount_a, amount_b)
        } else {
            let by_a = mul_div(amount_a, total_supply, reserve_a);
            let by_b = mul_div(amount_b, total_supply, reserve_b);
            match (by_a, by_b) {
                (Some(a), Some(b)) => if a <= b {
                    a
                } else {
                    b
                },
                (Some(a), None) => a,
                (None, Some(b)) => b,
                (None, None) => 0,
            }
        }
    }

    /// What `lp_tokens` of `total_supply` liquidity units are worth in each
    /// reserve. Refused where more units are handed in than exist, or none
    /// exist.
    pub fn calculate_remove_liquidity(
        lp_tokens: Balance,
        total_supply: Balance,
        reserve_a: Balance,
        reserve_b: Balance,
    ) -> (amounts: Result<(Balance, Balance), Error>)
        ensures
            lp_tokens > total_supply || total_supply == 0 ==> amounts == Err::<
                (Balance, Balance),
                Error,
            >(Error::InsufficientLiquidity),
            lp_tokens <= total_supply && total_supply > 0 ==> amounts == Ok::<
                (Balance, Balance),
                Error,
            >(
                (
                    (lp_tokens * reserve_a / (total_supply as int)) as Balance,
                    (lp_tokens * reserve_b / (total_supply as int)) as Balance,
                ),
            ) && lp_tokens * reserve_a / (total_supply as int) <= reserve_a && lp_tokens
                * reserve_b / (total_supply as int) <= reserve_b,
    {
        if lp_tokens > total_supply || total_supply == 0 {
            return Err(Error::InsufficientLiquidity);
        }
        proof {
            lemma_mul_div_bound(lp_tokens as int, reserve_a as int, total_supply as int);
            lemma_mul_div_bound(lp_tokens as int, reserve_b as int, total_supply as int);
        }
        let token_a_amount = mul_div_floor(lp_tokens, reserve_a, total_supply);
        let token_b_amount = mul_div_floor(lp_tokens, reserve_b, total_supply);
        Ok((token_a_amount, token_b_amount))
    }

    /// What `dx`, less its fee, buys from reserves `x` and `y` by the
    /// constant-product rule.
    pub fn constant_product(
        x: Balance,
        y: Balance,
        dx: Balance,
        fee_numerator: u32,
        fee_denominator: u32,
    ) -> (dy: Balance)
        requires
            fee_denominator > 0,
            0 < x + dx * fee_numerator / (fee_denominator as int) <= Balance::MAX,
        ensures
            dy == Self::constant_product_out(
                x as int,
                y as int,
                dx as int,
                fee_numerator as int,
                fee_denominator as int,
            ),
            dy <= y,
    {
        proof {
            lemma_div_is_ordered(0, dx * fee_numerator, fee_denominator as int);
            assert(0 <= dx * fee_numerator) by (nonlinear_arith);
        }
        let dx_with_fee = mul_div_floor(dx, fee_numerator as u128, fee_denominator as u128);
        let denominator = x + dx_with_fee;
        proof {
            lemma_mul_div_bound(dx_with_fee as int, y as int, denominator as int);
        }
        mul_div_floor(dx_with_fee, y, denominator)
    }

    /// The square root of `x`, rounded down, by Newton's method. (To learn
    /// the root of a given number from this contract, show that a candidate
    /// passes [`is_sqrt`] and call [`lemma_isqrt_is`].)
    pub fn sqrt(x: Balance) -> (root: Balance)
        ensures
            is_sqrt(x as int, root as int),
            root == isqrt(x as int),
    {
        if x == 0 {
            proof {
                lemma_isqrt_is(0, 0);
            }
            return 0;
        }
        if x <= 3 {
            proof {
                lemma_isqrt_is(x as int, 1);
            }
            return 1;
        }
        let mut z = x;
        let mut y = x / 2 + 1;
        proof {
            assert((y + 1) * (y + 1) > x) by (nonlinear_arith)
                requires
                    2 * y > x,
                    x > 3,
            ;
            assert((z + 1) * (z + 1) > x) by (nonlinear_arith)
                requires
                    z == x,
            ;
        }
        while y < z
            invariant
                x > 3,
                1 <= y <= x / 2 + 1,
                1 <= z <= x,
                (y + 1) * (y + 1) > x,
                (z + 1) * (z + 1) > x,
                y >= z ==> z * z <= x,
            decreases z,
        {
            z = y;
            proof {
                Self::lemma_newton_step(x as int, z as int);
            }
            y = (x / y + y) / 2;
        }
        proof {
            lemma_isqrt_is(x as int, z as int);
        }
        z
    }

    /// One step of Newton's method from an estimate `z` that is not below the
    /// root: the next estimate is not below the root either, it fits, and if
    /// it does not go down, `z` is the root.
    proof fn lemma_newton_step(x: int, z: int)
        requires
            3 < x <= u128::MAX,
            1 <= z <= x / 2 + 1,
            (z + 1) * (z + 1) > x,
        ensures
            x / z + z <= u128::MAX,
            1 <= (x / z + z) / 2 <= x / 2 + 1,
            ((x / z + z) / 2 + 1) * ((x / z + z) / 2 + 1) > x,
            (x / z + z) / 2 >= z ==> z * z <= x,
    {
        let q = x / z;
        let y = (q + z) / 2;
        lemma_fundamental_div_mod(x, z);
        assert(0 <= q) by {
            lemma_div_is_ordered(0, x, z);
        }
        assert(z * q <= x < z * q + z);
        // The quotient is small: no more than z + 2, and less than 2^64 where
        // z is at least 2^64.
        assert(q <= z + 2) by (nonlinear_arith)
            requires
                z * q <= x,
                x < (z + 1) * (z + 1),
                1 <= z,
                0 <= q,
        ;
        if z >= WORD {
            lemma_div_is_ordered_by_denominator(x, WORD as int, z);
        }
        assert(q <= x) by (nonlinear_arith)
            requires
                z * q <= x,
                1 <= z,
                0 <= q,
        ;
        // The next estimate is at least 1 and no more than x / 2 + 1.
        assert(q + z <= x + 2) by (nonlinear_arith)
            requires
                z * q <= x,
                1 <= z <= x / 2 + 1,
                0 <= q,
                x > 3,
                q <= z + 2,
        ;
        // It is not below the root: (q + z + 1)^2 >= 4 (q + 1) z > 4 x.
        assert((y + 1) * (y + 1) > x) by (nonlinear_arith)
            requires
                2 * y + 1 >= q + z,
                x < z * q + z,
                0 <= q,
                1 <= z,
        ;
        if y >= z {
            assert(z * z <= x) by (nonlinear_arith)
                requires
                    q >= z,
                    z * q <= x,
                    1 <= z,
            ;
        }
    }

    /// The fee of `fee_basis_points` basis points on `amount`, rounded down.
    pub fn calculate_fee(amount: Balance, fee_basis_points: u32) -> (fee: Balance)
        requires
            amount * fee_basis_points / 10_000 <= Balance::MAX,
        ensures
            fee == amount * fee_basis_points / 10_000,
    {
        mul_div_floor(amount, fee_basis_points as u128, Math::FEE_DENOMINATOR)
    }

    /// `percentage` percent of `amount`, rounded down.
    pub fn calculate_percentage(amount: Balance, percentage: u32) -> (part: Balance)
        requires
            amount * percentage / 100 <= Balance::MAX,
        ensures
            part == amount * percentage / 100,
    {
        mul_div_floor(amount, percentage as u128, 100)
    }

    /// Whether `actual` stays within `slippage_bps` basis points of
    /// `expected`.
    pub fn check_slippage(expected: Balance, actual: Balance, slippage_bps: u32) -> (within: bool)
        requires
            slippage_bps <= 10_000,
        ensures
            within == (actual >= Self::min_after_slippage(expected as int, slippage_bps as int)),
    {
        let keep: u128 = Math::FEE_DENOMINATOR - slippage_bps as u128;
        proof {
            lemma_mul_div_bound(keep as int, expected as int, 10_000);
            assert(expected * keep == keep * expected) by (nonlinear_arith);
        }
        let min_amount = mul_div_floor(expected, keep, Math::FEE_DENOMINATOR);
        actual >= min_amount
    }
}

} // verus!
