//! The constant-product pool of a token.
//!
//! A pool holds a reserve of the token and a reserve of the native asset. A
//! swap adds to one reserve and takes from the other so that the product of
//! the two, rounded down on the side that pays out, is kept.

use vstd::arithmetic::div_mod::{lemma_fundamental_div_mod, lemma_mod_bound};
use vstd::prelude::*;

use crate::error::Error;
use crate::utils::math::Math;
use crate::utils::wide::{
    is_sqrt,
    isqrt,
    lemma_isqrt_is,
    lemma_mul_div_bound,
    lemma_sqrt_exists,
    mul_div,
    mul_div_floor,
    sqrt_product,
};
use crate::{Balance, Timestamp, TokenId};

verus! {

/// Length of the window of the rolling volume: 24 hours, in nanoseconds.
pub const VOLUME_WINDOW: u64 = 86_400_000_000_000;

/// The fee that a new pool charges, in basis points: 0.3%.
pub const DEFAULT_FEE_RATE: u32 = 30;

/// What a swap paid out and what it charged.
#[derive(Clone, Copy, Debug, PartialEq, Eq, Structural)]
pub struct SwapResult {
    /// The amount taken from the reserve that pays out.
    pub tokens_out: Balance,
    /// The fee withheld from the amount paid in.
    pub fee_amount: Balance,
}

/// The pool of one token.
#[derive(Clone, Copy, Debug, PartialEq, Eq, Structural)]
pub struct Pool {
    pub token_id: TokenId,
    pub token_reserve: Balance,
    pub native_reserve: Balance,
    /// Everything ever paid in by swaps.
    pub total_volume: Balance,
    /// Every fee ever withheld.
    pub total_fees: Balance,
    /// The fee in basis points.
    pub fee_rate: u32,
    pub last_updated: Timestamp,
    /// What was paid in by swaps in the current window.
    pub volume_24h: Balance,
    pub last_volume_update: Timestamp,
    /// The liquidity units that exist.
    pub total_liquidity: Balance,
}

/// What a swap pays out: the reserve that pays, less what the product of the
/// two reserves leaves of it once the other reserve has grown by `amount_in`.
pub open spec fn amount_out(reserve_in: int, reserve_out: int, amount_in: int) -> int {
    reserve_out - (reserve_in * reserve_out) / (reserve_in + amount_in)
}

impl Pool {
    /// The fee is no more than the whole, and the window's volume is part of
    /// the total.
    pub open spec fn wf(&self) -> bool {
        &&& self.fee_rate <= 10_000
        &&& self.volume_24h <= self.total_volume
    }

    /// The reserve that a swap in the given direction pays into.
    pub open spec fn reserve_in(&self, is_native: bool) -> Balance {
        if is_native {
            self.native_reserve
        } else {
            self.token_reserve
        }
    }

    /// The reserve that a swap in the given direction pays out of.
    pub open spec fn reserve_out(&self, is_native: bool) -> Balance {
        if is_native {
            self.token_reserve
        } else {
            self.native_reserve
        }
    }

    /// The fee withheld from `amount_in`.
    pub open spec fn fee_on(&self, amount_in: Balance) -> int {
        amount_in * self.fee_rate / 10_000
    }

    /// The pool once `amount` has been added to the volume at time `now`. The
    /// window starts afresh when more than 24 hours have passed since the
    /// volume was last touched.
    pub open spec fn after_volume(&self, amount: Balance, now: Timestamp) -> Pool {
        Pool {
            total_volume: (self.total_volume + amount) as Balance,
            volume_24h: if now - self.last_volume_update > VOLUME_WINDOW {
                amount
            } else {
                (self.volume_24h + amount) as Balance
            },
            last_volume_update: now,
            ..*self
        }
    }

    /// What a swap returns: the amounts, or why it is refused.
    pub open spec fn swap_outcome(
        &self,
        amount_in: Balance,
        is_native: bool,
        min_amount_out: Balance,
    ) -> Result<SwapResult, Error> {
        let fee = self.fee_on(amount_in);
        let paid_in = amount_in - fee;
        let reserve_in = self.reserve_in(is_native) as int;
        let reserve_out = self.reserve_out(is_native) as int;
        let out = amount_out(reserve_in, reserve_out, paid_in);
        if reserve_in + paid_in == 0 {
            Err(Error::InsufficientReserves)
        } else if reserve_in + paid_in > Balance::MAX {
            Err(Error::AmountOverflow)
        } else if out < min_amount_out {
            Err(Error::SlippageExceeded)
        } else if self.total_fees + fee > Balance::MAX || self.total_volume + amount_in
            > Balance::MAX {
            Err(Error::AmountOverflow)
        } else {
            Ok(SwapResult { tokens_out: out as Balance, fee_amount: fee as Balance })
        }
    }

    /// The pool after a swap that was not refused.
    pub open spec fn after_swap(&self, amount_in: Balance, is_native: bool, now: Timestamp) -> Pool {
        let fee = self.fee_on(amount_in);
        let paid_in = amount_in - fee;
        let out = amount_out(
            self.reserve_in(is_native) as int,
            self.reserve_out(is_native) as int,
            paid_in,
        );
        let moved = if is_native {
            Pool {
                native_reserve: (self.native_reserve + paid_in) as Balance,
                token_reserve: (self.token_reserve - out) as Balance,
                ..*self
            }
        } else {
            Pool {
                token_reserve: (self.token_reserve + paid_in) as Balance,
                native_reserve: (self.native_reserve - out) as Balance,
                ..*self
            }
        };
        Pool {
            total_fees: (self.total_fees + fee) as Balance,
            last_updated: now,
            ..moved
        }.after_volume(amount_in, now)
    }

    /// Checks the pool: whether the fee is no more than the whole and the
    /// window's volume is part of the total.
    pub fn is_well_formed(&self) -> (sound: bool)
        ensures
            sound == self.wf(),
    {
        self.fee_rate <= 10_000 && self.volume_24h <= self.total_volume
    }

    /// A pool that holds `initial_token_reserve` tokens and nothing else.
    pub fn new(token_id: TokenId, initial_token_reserve: Balance, now: Timestamp) -> (pool: Pool)
        ensures
            pool == (Pool {
                token_id,
                token_reserve: initial_token_reserve,
                native_reserve: 0,
                total_volume: 0,
                total_fees: 0,
                fee_rate: DEFAULT_FEE_RATE,
                last_updated: now,
                volume_24h: 0,
                last_volume_update: now,
                total_liquidity: 0,
            }),
            pool.wf(),
    {
        Pool {
            token_id,
            token_reserve: initial_token_reserve,
            native_reserve: 0,
            total_volume: 0,
            total_fees: 0,
            fee_rate: DEFAULT_FEE_RATE,
            last_updated: now,
            volume_24h: 0,
            last_volume_update: now,
            total_liquidity: 0,
        }
    }

    /// What `amount_in`, already less its fee, buys in the given direction.
    fn calculate_out(&self, amount_in: Balance, is_native: bool) -> (out: Balance)
        requires
            0 < self.reserve_in(is_native) + amount_in <= Balance::MAX,
        ensures
            out == amount_out(
                self.reserve_in(is_native) as int,
                self.reserve_out(is_native) as int,
                amount_in as int,
            ),
            out <= self.reserve_out(is_native),
    {
        let (reserve_in, reserve_out) = if is_native {
            (self.native_reserve, self.token_reserve)
        } else {
            (self.token_reserve, self.native_reserve)
        };
        let new_reserve_in = reserve_in + amount_in;
        proof {
            lemma_mul_div_bound(reserve_in as int, reserve_out as int, new_reserve_in as int);
        }
        let new_reserve_out = mul_div_floor(reserve_in, reserve_out, new_reserve_in);
        reserve_out - new_reserve_out
    }

    /// The tokens that `native_in`, already less its fee, buys.
    pub fn calculate_tokens_out(&self, native_in: Balance) -> (tokens_out: Balance)
        requires
            0 < self.native_reserve + native_in <= Balance::MAX,
        ensures
            tokens_out == amount_out(
                self.native_reserve as int,
                self.token_reserve as int,
                native_in as int,
            ),
            tokens_out <= self.token_reserve,
    {
        self.calculate_out(native_in, true)
    }

    /// The native amount that `tokens_in`, already less their fee, buy.
    pub fn calculate_native_out(&self, tokens_in: Balance) -> (native_out: Balance)
        requires
            0 < self.token_reserve + tokens_in <= Balance::MAX,
        ensures
            native_out == amount_out(
                self.token_reserve as int,
                self.native_reserve as int,
                tokens_in as int,
            ),
            native_out <= self.native_reserve,
    {
        self.calculate_out(tokens_in, false)
    }

    /// Adds `amount` to the volume at time `now`.
    pub fn update_volume(&mut self, amount: Balance, now: Timestamp)
        requires
            old(self).wf(),
            old(self).total_volume + amount <= Balance::MAX,
        ensures
            *final(self) == old(self).after_volume(amount, now),
            final(self).wf(),
    {
        self.total_volume = self.total_volume + amount;
        if now > self.last_volume_update && now - self.last_volume_update > VOLUME_WINDOW {
            self.volume_24h = amount;
        } else {
            self.volume_24h = self.volume_24h + amount;
        }
        self.last_volume_update = now;
    }

    /// Swaps `amount_in` of the native asset for tokens (`is_native`), or of
    /// the token for the native asset. The fee is withheld from the amount
    /// paid in; the rest goes to the one reserve, and the other pays out. A
    /// swap that would pay less than `min_amount_out` is refused, and a
    /// refused swap changes nothing.
    pub fn swap_tokens(
        &mut self,
        amount_in: Balance,
        is_native: bool,
        min_amount_out: Balance,
        now: Timestamp,
    ) -> (result: Result<SwapResult, Error>)
        requires
            old(self).wf(),
        ensures
            result == old(self).swap_outcome(amount_in, is_native, min_amount_out),
            result.is_ok() ==> *final(self) == old(self).after_swap(amount_in, is_native, now),
            result.is_err() ==> *final(self) == *old(self),
            final(self).wf(),
    {
        proof {
            lemma_mul_div_bound(self.fee_rate as int, amount_in as int, 10_000);
            assert(amount_in * self.fee_rate == self.fee_rate * amount_in) by (nonlinear_arith);
        }
        let fee = mul_div_floor(amount_in, self.fee_rate as u128, 10_000);
        let paid_in = amount_in - fee;
        let reserve_in = if is_native {
            self.native_reserve
        } else {
            self.token_reserve
        };
        if reserve_in == 0 && paid_in == 0 {
            return Err(Error::InsufficientReserves);
        }
        if paid_in > u128::MAX - reserve_in {
            return Err(Error::AmountOverflow);
        }
        let out = self.calculate_out(paid_in, is_native);
        if out < min_amount_out {
            return Err(Error::SlippageExceeded);
        }
        if fee > u128::MAX - self.total_fees || amount_in > u128::MAX - self.total_volume {
            return Err(Error::AmountOverflow);
        }
        if is_native {
            self.native_reserve = self.native_reserve + paid_in;
            self.token_reserve = self.token_reserve - out;
        } else {
            self.token_reserve = self.token_reserve + paid_in;
            self.native_reserve = self.native_reserve - out;
        }
        self.total_fees = self.total_fees + fee;
        self.last_updated = now;
        self.update_volume(amount_in, now);
        Ok(SwapResult { tokens_out: out, fee_amount: fee })
    }

    /// The two reserves: tokens first, then the native asset.
    pub fn get_reserves(&self) -> (reserves: (Balance, Balance))
        ensures
            reserves == (self.token_reserve, self.native_reserve),
    {
        (self.token_reserve, self.native_reserve)
    }

    /// Every fee ever withheld.
    pub fn get_fees(&self) -> (fees: Balance)
        ensures
            fees == self.total_fees,
    {
        self.total_fees
    }
}

impl Pool {
    /// The liquidity units that a contribution of the two amounts earns from
    /// the pool as it stands.
    pub open spec fn liquidity_minted(&self, token_amount: Balance, native_amount: Balance) -> int {
        Math::liquidity_tokens(
            token_amount as int,
            native_amount as int,
            self.token_reserve as int,
            self.native_reserve as int,
            self.total_liquidity as int,
        )
    }

    /// The native amount that goes with `token_amount` at the ratio of the
    /// reserves, rounded down.
    pub open spec fn optimal_native(&self, token_amount: Balance) -> int {
        token_amount * self.native_reserve / (self.token_reserve as int)
    }

    /// What the first contribution returns: the units, or why it is refused.
    pub open spec fn initialize_outcome(&self, token_amount: Balance, native_amount: Balance)
        -> Result<Balance, Error> {
        if self.native_reserve != 0 {
            Err(Error::PoolAlreadyInitialized)
        } else if token_amount == 0 || native_amount == 0 {
            Err(Error::ZeroAmount)
        } else {
            Ok(isqrt(token_amount * native_amount) as Balance)
        }
    }

    /// What a contribution returns: the units, or why it is refused.
    pub open spec fn add_liquidity_outcome(&self, token_amount: Balance, native_amount: Balance)
        -> Result<Balance, Error> {
        let minted = self.liquidity_minted(token_amount, native_amount);
        if self.total_liquidity > 0 && (self.token_reserve == 0 || self.native_reserve == 0) {
            Err(Error::InsufficientReserves)
        } else if minted > Balance::MAX || self.token_reserve + token_amount > Balance::MAX
            || self.native_reserve + native_amount > Balance::MAX || self.total_liquidity + minted
            > Balance::MAX {
            Err(Error::AmountOverflow)
        } else {
            Ok(minted as Balance)
        }
    }

    /// What handing in `lp_tokens` units returns: the native amount and the
    /// token amount, or why it is refused.
    pub open spec fn remove_liquidity_outcome(
        &self,
        lp_tokens: Balance,
        min_native: Balance,
        min_tokens: Balance,
    ) -> Result<(Balance, Balance), Error> {
        let native_amount = lp_tokens * self.native_reserve / (self.total_liquidity as int);
        let token_amount = lp_tokens * self.token_reserve / (self.total_liquidity as int);
        if lp_tokens > self.total_liquidity || self.total_liquidity == 0 {
            Err(Error::InsufficientLiquidity)
        } else if native_amount < min_native || token_amount < min_tokens {
            Err(Error::SlippageExceeded)
        } else {
            Ok((native_amount as Balance, token_amount as Balance))
        }
    }

    /// Seeds an empty pool: the two amounts become the reserves, whatever
    /// their ratio, and the square root of their product, rounded down, is
    /// the number of liquidity units. A pool that holds any of the native
    /// asset is not empty.
    pub fn initialize_liquidity(
        &mut self,
        token_amount: Balance,
        native_amount: Balance,
        now: Timestamp,
    ) -> (result: Result<Balance, Error>)
        ensures
            result == old(self).initialize_outcome(token_amount, native_amount),
            result matches Ok(minted) ==> *final(self) == (Pool {
                token_reserve: token_amount,
                native_reserve: native_amount,
                last_updated: now,
                total_liquidity: minted,
                ..*old(self)
            }),
            result.is_err() ==> *final(self) == *old(self),
            old(self).wf() ==> final(self).wf(),
    {
        if self.native_reserve != 0 {
            return Err(Error::PoolAlreadyInitialized);
        }
        if token_amount == 0 || native_amount == 0 {
            return Err(Error::ZeroAmount);
        }
        let minted = sqrt_product(token_amount, native_amount);
        self.token_reserve = token_amount;
        self.native_reserve = native_amount;
        self.last_updated = now;
        self.total_liquidity = minted;
        Ok(minted)
    }

    /// The native amount that goes with `token_amount` at the ratio of the
    /// reserves.
    pub fn calculate_optimal_native(&self, token_amount: Balance) -> (native_amount: Balance)
        requires
            self.token_reserve > 0,
            self.optimal_native(token_amount) <= Balance::MAX,
        ensures
            native_amount == self.optimal_native(token_amount),
    {
        mul_div_floor(token_amount, self.native_reserve, self.token_reserve)
    }

    /// Adds the two amounts to the reserves and returns the liquidity units
    /// that the contribution earns. A refused contribution changes nothing.
    pub fn add_liquidity(&mut self, token_amount: Balance, native_amount: Balance, now: Timestamp)
        -> (result: Result<Balance, Error>)
        ensures
            result == old(self).add_liquidity_outcome(token_amount, native_amount),
            result matches Ok(minted) ==> *final(self) == (Pool {
                token_reserve: (old(self).token_reserve + token_amount) as Balance,
                native_reserve: (old(self).native_reserve + native_amount) as Balance,
                last_updated: now,
                total_liquidity: (old(self).total_liquidity + minted) as Balance,
                ..*old(self)
            }),
            result.is_err() ==> *final(self) == *old(self),
            old(self).wf() ==> final(self).wf(),
    {
        let minted = if self.total_liquidity == 0 {
            sqrt_product(token_amount, native_amount)
        } else {
            if self.token_reserve == 0 || self.native_reserve == 0 {
                return Err(Error::InsufficientReserves);
            }
            let by_tokens = mul_div(token_amount, self.total_liquidity, self.token_reserve);
            let by_native = mul_div(native_amount, self.total_liquidity, self.native_reserve);
            match (by_tokens, by_native) {
                (Some(a), Some(b)) => if a <= b {
                    a
                } else {
                    b
                },
                (Some(a), None) => a,
                (None, Some(b)) => b,
                (None, None) => {
                    return Err(Error::AmountOverflow);
                },
            }
        };
        if token_amount > u128::MAX - self.token_reserve || native_amount > u128::MAX
            - self.native_reserve || minted > u128::MAX - self.total_liquidity {
            return Err(Error::AmountOverflow);
        }
        self.token_reserve = self.token_reserve + token_amount;
        self.native_reserve = self.native_reserve + native_amount;
        self.last_updated = now;
        self.total_liquidity = self.total_liquidity + minted;
        Ok(minted)
    }

    /// Takes the share of both reserves that `lp_tokens` of the existing
    /// liquidity units stand for, rounded down, and retires the units. Refused
    /// where more units are handed in than exist, or where a share is below
    /// the minimum that the caller accepts; a refusal changes nothing.
    pub fn remove_liquidity(
        &mut self,
        lp_tokens: Balance,
        min_native: Balance,
        min_tokens: Balance,
        now: Timestamp,
    ) -> (result: Result<(Balance, Balance), Error>)
        ensures
            result == old(self).remove_liquidity_outcome(lp_tokens, min_native, min_tokens),
            result matches Ok(amounts) ==> *final(self) == (Pool {
                token_reserve: (old(self).token_reserve - amounts.1) as Balance,
                native_reserve: (old(self).native_reserve - amounts.0) as Balance,
                last_updated: now,
                total_liquidity: (old(self).total_liquidity - lp_tokens) as Balance,
                ..*old(self)
            }) && amounts.0 <= old(self).native_reserve && amounts.1 <= old(self).token_reserve,
            result.is_err() ==> *final(self) == *old(self),
            old(self).wf() ==> final(self).wf(),
    {
        let (token_amount, native_amount) = match Math::calculate_remove_liquidity(
            lp_tokens,
            self.total_liquidity,
            self.token_reserve,
            self.native_reserve,
        ) {
            Ok(amounts) => amounts,
            Err(e) => {
                return Err(e);
            },
        };
        if native_amount < min_native || token_amount < min_tokens {
            return Err(Error::SlippageExceeded);
        }
        self.token_reserve = self.token_reserve - token_amount;
        self.native_reserve = self.native_reserve - native_amount;
        self.last_updated = now;
        self.total_liquidity = self.total_liquidity - lp_tokens;
        Ok((native_amount, token_amount))
    }
}

/// The rounding of a swap in whole numbers: the reserve that pays out keeps
/// the old product divided by the new other reserve, rounded down.
proof fn lemma_rounded_product(reserve_in: int, reserve_out: int, paid_in: int)
    requires
        0 <= reserve_in,
        0 <= reserve_out,
        0 <= paid_in,
        0 < reserve_in + paid_in,
    ensures
        ({
            let new_in = reserve_in + paid_in;
            let new_out = reserve_out - amount_out(reserve_in, reserve_out, paid_in);
            &&& 0 <= new_out <= reserve_out
            &&& new_in * new_out == reserve_in * reserve_out - (reserve_in * reserve_out) % new_in
            &&& 0 <= (reserve_in * reserve_out) % new_in < new_in
        }),
{
    let new_in = reserve_in + paid_in;
    let product = reserve_in * reserve_out;
    lemma_mul_div_bound(reserve_in, reserve_out, new_in);
    lemma_fundamental_div_mod(product, new_in);
    lemma_mod_bound(product, new_in);
}

/// What a swap does to the product of the two reserves. The reserve that pays
/// out keeps the old product divided by the new other reserve, rounded down:
/// so the new product never exceeds the old one, and falls short of it by
/// the remainder of that division, which is less than the new reserve on the
/// paying-in side.
pub proof fn lemma_swap_product_bounds(
    pool: Pool,
    amount_in: Balance,
    is_native: bool,
    min_amount_out: Balance,
    now: Timestamp,
)
    requires
        pool.wf(),
        pool.swap_outcome(amount_in, is_native, min_amount_out) is Ok,
    ensures
        ({
            let after = pool.after_swap(amount_in, is_native, now);
            let old_product = pool.token_reserve * pool.native_reserve;
            let new_product = after.token_reserve * after.native_reserve;
            let new_in = after.reserve_in(is_native) as int;
            &&& new_in == pool.reserve_in(is_native) + amount_in - pool.fee_on(amount_in)
            &&& new_in > 0
            &&& new_product <= old_product
            &&& new_product > old_product - new_in
            &&& new_product == old_product - old_product % new_in
        }),
{
    let fee = pool.fee_on(amount_in);
    lemma_mul_div_bound(pool.fee_rate as int, amount_in as int, 10_000);
    assert(amount_in * pool.fee_rate == pool.fee_rate * amount_in) by (nonlinear_arith);
    let reserve_in = pool.reserve_in(is_native) as int;
    let reserve_out = pool.reserve_out(is_native) as int;
    lemma_rounded_product(reserve_in, reserve_out, amount_in - fee);
    assert(pool.token_reserve * pool.native_reserve == pool.native_reserve * pool.token_reserve)
        by (nonlinear_arith);
    let after = pool.after_swap(amount_in, is_native, now);
    assert(after.token_reserve * after.native_reserve == after.native_reserve
        * after.token_reserve) by (nonlinear_arith);
}

/// A swap keeps the product of the two reserves whenever the new reserve on
/// the paying-in side divides the old product: then nothing is lost to
/// rounding. (Where it does not divide it, the product falls by the
/// remainder.)
pub proof fn lemma_swap_keeps_product(
    pool: Pool,
    amount_in: Balance,
    is_native: bool,
    min_amount_out: Balance,
    now: Timestamp,
)
    requires
        pool.wf(),
        pool.swap_outcome(amount_in, is_native, min_amount_out) is Ok,
        (pool.token_reserve * pool.native_reserve) % (pool.reserve_in(is_native) + amount_in
            - pool.fee_on(amount_in)) == 0,
    ensures
        ({
            let after = pool.after_swap(amount_in, is_native, now);
            after.token_reserve * after.native_reserve >= pool.token_reserve * pool.native_reserve
        }),
{
    lemma_swap_product_bounds(pool, amount_in, is_native, min_amount_out, now);
}

/// The first contribution comes back whole: whoever seeds an empty pool and
/// then hands in all the units gets exactly the two amounts paid in.
pub proof fn lemma_first_liquidity_round_trip(
    pool: Pool,
    token_amount: Balance,
    native_amount: Balance,
    now: Timestamp,
)
    requires
        pool.initialize_outcome(token_amount, native_amount) is Ok,
    ensures
        ({
            let minted = pool.initialize_outcome(token_amount, native_amount)->Ok_0;
            let seeded = Pool {
                token_reserve: token_amount,
                native_reserve: native_amount,
                last_updated: now,
                total_liquidity: minted,
                ..pool
            };
            &&& minted == isqrt(token_amount * native_amount)
            &&& minted > 0
            &&& seeded.remove_liquidity_outcome(minted, 0, 0) == Ok::<(Balance, Balance), Error>(
                (native_amount, token_amount),
            )
        }),
{
    let product = token_amount * native_amount;
    let (t, n) = (token_amount as int, native_amount as int);
    assert(1 <= product && product <= u128::MAX * u128::MAX) by (nonlinear_arith)
        requires
            product == t * n,
            1 <= t <= u128::MAX,
            1 <= n <= u128::MAX,
    ;
    // The root of a product of two balances is a balance, and at least 1.
    let root = choose|root: int| is_sqrt(product, root) && 1 <= root <= u128::MAX;
    assert(exists|root: int| is_sqrt(product, root) && 1 <= root <= u128::MAX) by {
        lemma_sqrt_exists(product);
        let r = isqrt(product);
        if r < 1 {
            assert((r + 1) * (r + 1) <= 1) by (nonlinear_arith)
                requires
                    0 <= r < 1,
            ;
        }
        if r > u128::MAX {
            assert(r * r > u128::MAX * u128::MAX) by (nonlinear_arith)
                requires
                    r > u128::MAX,
            ;
        }
    }
    lemma_isqrt_is(product, root);
    vstd::arithmetic::div_mod::lemma_div_multiples_vanish(n, root);
    vstd::arithmetic::div_mod::lemma_div_multiples_vanish(t, root);
}

/// A later contribution never comes back with a gain: whoever adds to a pool
/// that has liquidity and then hands in the units earned gets no more of
/// either asset than was paid in. Where the units earned are the exact
/// proportional share of an asset, that asset comes back whole; and the
/// asset whose share set the number of units comes back short by less than
/// what one unit is worth, plus one.
pub proof fn lemma_liquidity_round_trip(
    pool: Pool,
    token_amount: Balance,
    native_amount: Balance,
    now: Timestamp,
)
    requires
        pool.total_liquidity > 0,
        pool.add_liquidity_outcome(token_amount, native_amount) is Ok,
    ensures
        ({
            let minted = pool.add_liquidity_outcome(token_amount, native_amount)->Ok_0;
            let grown = Pool {
                token_reserve: (pool.token_reserve + token_amount) as Balance,
                native_reserve: (pool.native_reserve + native_amount) as Balance,
                last_updated: now,
                total_liquidity: (pool.total_liquidity + minted) as Balance,
                ..pool
            };
            let back = grown.remove_liquidity_outcome(minted, 0, 0);
            let supply = pool.total_liquidity + minted;
            &&& back is Ok
            &&& back->Ok_0.0 <= native_amount
            &&& back->Ok_0.1 <= token_amount
            &&& minted * pool.token_reserve == token_amount * pool.total_liquidity
                ==> back->Ok_0.1 == token_amount
            &&& minted * pool.native_reserve == native_amount * pool.total_liquidity
                ==> back->Ok_0.0 == native_amount
            &&& minted == token_amount * pool.total_liquidity / (pool.token_reserve as int) ==> (
            token_amount - back->Ok_0.1) * supply < pool.token_reserve + supply
            &&& minted == native_amount * pool.total_liquidity / (pool.native_reserve as int) ==> (
            native_amount - back->Ok_0.0) * supply < pool.native_reserve + supply
        }),
{
    let minted = pool.add_liquidity_outcome(token_amount, native_amount)->Ok_0 as int;
    let supply = pool.total_liquidity + minted;
    let by_tokens = token_amount * pool.total_liquidity / (pool.token_reserve as int);
    let by_native = native_amount * pool.total_liquidity / (pool.native_reserve as int);
    assert(minted <= by_tokens && minted <= by_native);
    assert(minted == by_tokens || minted == by_native);
    lemma_share_round_trip(
        pool.token_reserve as int,
        pool.total_liquidity as int,
        token_amount as int,
        minted,
    );
    lemma_share_round_trip(
        pool.native_reserve as int,
        pool.total_liquidity as int,
        native_amount as int,
        minted,
    );
}

/// One asset on its own: `reserve` of it backs `supply` units, `amount` is
/// added for `minted` units, no more than the proportional share; then
/// `minted` units are handed in.
proof fn lemma_share_round_trip(reserve: int, supply: int, amount: int, minted: int)
    requires
        0 < reserve,
        0 < supply,
        0 <= amount,
        0 <= minted <= amount * supply / reserve,
    ensures
        ({
            let back = minted * (reserve + amount) / (supply + minted);
            &&& 0 <= back <= amount
            &&& minted * reserve == amount * supply ==> back == amount
            &&& minted == amount * supply / reserve ==> (amount - back) * (supply + minted)
                < reserve + supply + minted
        }),
{
    let share = amount * supply / reserve;
    let total = supply + minted;
    let numerator = minted * (reserve + amount);
    let back = numerator / total;
    assert(0 <= amount * supply) by (nonlinear_arith)
        requires
            0 <= amount,
            0 < supply,
    ;
    lemma_fundamental_div_mod(amount * supply, reserve);
    lemma_mod_bound(amount * supply, reserve);
    // minted * reserve <= amount * supply
    assert(minted * reserve <= amount * supply) by (nonlinear_arith)
        requires
            0 <= minted <= share,
            0 < reserve,
            reserve * share <= amount * supply,
    ;
    assert(numerator <= amount * total && 0 <= numerator) by (nonlinear_arith)
        requires
            numerator == minted * (reserve + amount),
            total == supply + minted,
            minted * reserve <= amount * supply,
            0 <= minted,
            0 < reserve,
            0 <= amount,
    ;
    lemma_fundamental_div_mod(numerator, total);
    lemma_mod_bound(numerator, total);
    assert(back <= amount) by (nonlinear_arith)
        requires
            total * back <= numerator,
            numerator <= amount * total,
            0 < total,
    ;
    assert(0 <= back) by (nonlinear_arith)
        requires
            numerator < total * back + total,
            0 <= numerator,
            0 < total,
    ;
    if minted * reserve == amount * supply {
        assert(numerator == amount * total) by (nonlinear_arith)
            requires
                numerator == minted * (reserve + amount),
                total == supply + minted,
                minted * reserve == amount * supply,
        ;
        assert(back >= amount) by (nonlinear_arith)
            requires
                numerator < total * back + total,
                numerator == amount * total,
                0 < total,
        ;
    }
    if minted == share {
        assert((amount - back) * total < reserve + total) by (nonlinear_arith)
            requires
                numerator == minted * (reserve + amount),
                total == supply + minted,
                amount * supply < reserve * minted + reserve,
                numerator < total * back + total,
                0 < total,
        ;
    }
}

} // verus!
