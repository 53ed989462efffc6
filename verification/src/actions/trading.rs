//! Trading against the pools and providing liquidity to them.

use vstd::prelude::*;

use crate::error::Error;
use crate::models::pool::{Pool, SwapResult};
use crate::models::token::Token;
use crate::{Balance, Timestamp, TokenBlocks, TokenId};

verus! {

/// The figures of a pool as they are shown to readers of the ledger.
#[derive(Clone, Copy, Debug, PartialEq, Eq, Structural)]
pub struct PoolInfo {
    pub token_reserve: Balance,
    pub native_reserve: Balance,
    pub total_volume: Balance,
    pub total_fees: Balance,
    pub fee_rate: u32,
}

/// What a swap would pay out and charge.
#[derive(Clone, Copy, Debug, PartialEq, Eq, Structural)]
pub struct SwapEstimate {
    pub amount_out: Balance,
    pub fee_amount: Balance,
}

impl TokenBlocks {
    /// The pool of `token_id`, where it has one.
    pub open spec fn pool_of(&self, token_id: TokenId) -> Option<Pool> {
        if token_id < self.pools@.len() {
            self.pools@[token_id as int]
        } else {
            None
        }
    }

    /// Whether `after` differs from this state in the pool of `token_id`
    /// alone, which is now `pool`.
    pub open spec fn pool_changed_to(&self, after: &TokenBlocks, token_id: TokenId, pool: Pool)
        -> bool {
        &&& after.same_records_but_pools(self)
        &&& after.tokens@ == self.tokens@
        &&& after.pools@ == self.pools@.update(token_id as int, Some(pool))
    }

    /// Everything but the tokens and the pools is the same in both states.
    pub open spec fn same_records_but_pools(&self, other: &TokenBlocks) -> bool {
        &&& self.owner_id == other.owner_id
        &&& self.token_counter == other.token_counter
        &&& self.current_block == other.current_block
        &&& self.token_queue@ == other.token_queue@
        &&& self.votes@ == other.votes@
        &&& self.stakes@ == other.stakes@
        &&& self.min_stake == other.min_stake
        &&& self.platform_fee == other.platform_fee
    }

    /// What buying tokens returns: the amounts, or why the purchase is
    /// refused.
    pub open spec fn buy_outcome(
        &self,
        token_id: TokenId,
        native_in: Balance,
        min_tokens_out: Balance,
    ) -> Result<SwapResult, Error> {
        if native_in == 0 {
            Err(Error::ZeroAmount)
        } else {
            match self.pool_of(token_id) {
                None => Err(Error::PoolNotFound),
                Some(pool) => match pool.swap_outcome(native_in, true, min_tokens_out) {
                    Err(e) => Err(e),
                    Ok(swap) => if swap.tokens_out
                        > self.tokens@[token_id as int].spec_available_for_purchase() {
                        Err(Error::InsufficientTokensAvailable)
                    } else {
                        Ok(swap)
                    },
                },
            }
        }
    }

    /// What selling tokens returns: the amounts, or why the sale is refused.
    pub open spec fn sell_outcome(
        &self,
        token_id: TokenId,
        tokens_in: Balance,
        min_native_out: Balance,
    ) -> Result<SwapResult, Error> {
        match self.pool_of(token_id) {
            None => Err(Error::PoolNotFound),
            Some(pool) => pool.swap_outcome(tokens_in, false, min_native_out),
        }
    }

    /// What providing liquidity returns: the units earned and what of the
    /// payment is handed back, or why the contribution is refused. An empty
    /// pool takes both amounts as they are; any other pool takes the native
    /// amount that goes with the tokens at the ratio of its reserves.
    pub open spec fn add_liquidity_outcome(
        &self,
        token_id: TokenId,
        token_amount: Balance,
        native_deposit: Balance,
    ) -> Result<(Balance, Balance), Error> {
        match self.pool_of(token_id) {
            None => Err(Error::PoolNotFound),
            Some(pool) => if pool.native_reserve == 0 {
                match pool.initialize_outcome(token_amount, native_deposit) {
                    Ok(minted) => Ok((minted, 0)),
                    Err(e) => Err(e),
                }
            } else if pool.token_reserve == 0 {
                Err(Error::InsufficientReserves)
            } else if pool.optimal_native(token_amount) > Balance::MAX {
                Err(Error::AmountOverflow)
            } else if native_deposit < pool.optimal_native(token_amount) {
                Err(Error::InsufficientNativeTokens)
            } else {
                let needed = pool.optimal_native(token_amount) as Balance;
                match pool.add_liquidity_outcome(token_amount, needed) {
                    Ok(minted) => Ok((minted, (native_deposit - needed) as Balance)),
                    Err(e) => Err(e),
                }
            },
        }
    }

    /// The pool of `token_id` after liquidity has been provided to it.
    pub open spec fn pool_after_liquidity(
        &self,
        token_id: TokenId,
        token_amount: Balance,
        minted: Balance,
        refund: Balance,
        native_deposit: Balance,
        now: Timestamp,
    ) -> Pool {
        let pool = self.pool_of(token_id)->Some_0;
        if pool.native_reserve == 0 {
            Pool {
                token_reserve: token_amount,
                native_reserve: native_deposit,
                last_updated: now,
                total_liquidity: minted,
                ..pool
            }
        } else {
            Pool {
                token_reserve: (pool.token_reserve + token_amount) as Balance,
                native_reserve: (pool.native_reserve + native_deposit - refund) as Balance,
                last_updated: now,
                total_liquidity: (pool.total_liquidity + minted) as Balance,
                ..pool
            }
        }
    }

    /// What withdrawing liquidity returns: the native amount and the token
    /// amount, or why the withdrawal is refused.
    pub open spec fn remove_liquidity_outcome(
        &self,
        token_id: TokenId,
        lp_tokens: Balance,
        min_native: Balance,
        min_tokens: Balance,
    ) -> Result<(Balance, Balance), Error> {
        match self.pool_of(token_id) {
            None => Err(Error::PoolNotFound),
            Some(pool) => pool.remove_liquidity_outcome(lp_tokens, min_native, min_tokens),
        }
    }

    /// What a swap would return if no minimum were asked for.
    pub open spec fn estimate_outcome(&self, token_id: TokenId, amount_in: Balance, is_native: bool)
        -> Result<SwapEstimate, Error> {
        match self.pool_of(token_id) {
            None => Err(Error::PoolNotFound),
            Some(pool) => match pool.swap_outcome(amount_in, is_native, 0) {
                Ok(swap) => Ok(
                    SwapEstimate { amount_out: swap.tokens_out, fee_amount: swap.fee_amount },
                ),
                Err(e) => Err(e),
            },
        }
    }

    /// The pool of `token_id`, where it has one.
    fn find_pool(&self, token_id: TokenId) -> (pool: Option<Pool>)
        ensures
            pool == self.pool_of(token_id),
            pool is Some ==> token_id < self.pools@.len() <= usize::MAX,
    {
        if token_id >= self.pools.len() as u64 {
            return None;
        }
        self.pools[token_id as usize]
    }

    /// Puts `pool` in the place of the pool of `token_id`.
    fn store_pool(&mut self, token_id: TokenId, pool: Pool)
        requires
            old(self).wf(),
            old(self).pool_of(token_id) is Some,
            pool.wf(),
            pool.token_id == token_id,
        ensures
            final(self).wf(),
            old(self).pool_changed_to(final(self), token_id, pool),
    {
        let size = self.pools.len();
        self.pools[token_id as usize] = Some(pool);
        proof {
            assert forall|i: int| 0 <= i < self.tokens@.len() implies self.token_ok(i) by {
                assert(old(self).token_ok(i));
            }
            assert forall|id: TokenId| old(self).unsettled(id) implies self.unsettled(id) by {}
            assert forall|id: TokenId| old(self).waiting(id) implies self.waiting(id) by {}
        }
    }

    /// Buys tokens of `token_id` for `native_in` of the native asset. A
    /// purchase that would pay out less than `min_tokens_out`, or more than
    /// is left of the supply of the token, is refused. What is paid out
    /// enters circulation.
    pub fn swap_native_for_tokens(
        &mut self,
        token_id: TokenId,
        native_in: Balance,
        min_tokens_out: Balance,
        now: Timestamp,
    ) -> (result: Result<SwapResult, Error>)
        requires
            old(self).wf(),
        ensures
            final(self).wf(),
            result == old(self).buy_outcome(token_id, native_in, min_tokens_out),
            result matches Ok(swap) ==> {
                &&& final(self).same_records_but_pools(old(self))
                &&& final(self).pools@ == old(self).pools@.update(
                    token_id as int,
                    Some(old(self).pool_of(token_id)->Some_0.after_swap(native_in, true, now)),
                )
                &&& final(self).tokens@ == old(self).tokens@.update(
                    token_id as int,
                    Token {
                        circulating_supply: (old(self).tokens@[token_id as int].circulating_supply
                            + swap.tokens_out) as Balance,
                        ..old(self).tokens@[token_id as int]
                    },
                )
            },
            result is Err ==> *final(self) == *old(self),
    {
        if native_in == 0 {
            return Err(Error::ZeroAmount);
        }
        let mut pool = match self.find_pool(token_id) {
            Some(pool) => pool,
            None => {
                return Err(Error::PoolNotFound);
            },
        };
        let at = token_id as usize;
        proof {
            assert(old(self).token_ok(at as int));
        }
        let swap = match pool.swap_tokens(native_in, true, min_tokens_out, now) {
            Ok(swap) => swap,
            Err(e) => {
                return Err(e);
            },
        };
        if swap.tokens_out > self.tokens[at].available_for_purchase() {
            return Err(Error::InsufficientTokensAvailable);
        }
        self.pools[at] = Some(pool);
        self.tokens[at].circulating_supply = self.tokens[at].circulating_supply + swap.tokens_out;
        proof {
            assert forall|i: int| 0 <= i < self.tokens@.len() implies self.token_ok(i) by {
                assert(old(self).token_ok(i));
            }
            assert forall|id: TokenId| old(self).unsettled(id) implies self.unsettled(id) by {}
            assert forall|id: TokenId| old(self).waiting(id) implies self.waiting(id) by {}
        }
        Ok(swap)
    }

    /// Sells `tokens_in` tokens of `token_id` for the native asset. A sale
    /// that would pay out less than `min_native_out` is refused.
    pub fn swap_tokens_for_native(
        &mut self,
        token_id: TokenId,
        tokens_in: Balance,
        min_native_out: Balance,
        now: Timestamp,
    ) -> (result: Result<SwapResult, Error>)
        requires
            old(self).wf(),
        ensures
            final(self).wf(),
            result == old(self).sell_outcome(token_id, tokens_in, min_native_out),
            result is Ok ==> old(self).pool_changed_to(
                final(self),
                token_id,
                old(self).pool_of(token_id)->Some_0.after_swap(tokens_in, false, now),
            ),
            result is Err ==> *final(self) == *old(self),
    {
        let mut pool = match self.find_pool(token_id) {
            Some(pool) => pool,
            None => {
                return Err(Error::PoolNotFound);
            },
        };
        proof {
            assert(old(self).token_ok(token_id as int));
        }
        let swap = match pool.swap_tokens(tokens_in, false, min_native_out, now) {
            Ok(swap) => swap,
            Err(e) => {
                return Err(e);
            },
        };
        self.store_pool(token_id, pool);
        Ok(swap)
    }

    /// Provides `token_amount` tokens and up to `native_deposit` of the
    /// native asset to the pool of `token_id`. Returned are the liquidity
    /// units earned and what of the deposit is handed back.
    pub fn add_liquidity(
        &mut self,
        token_id: TokenId,
        token_amount: Balance,
        native_deposit: Balance,
        now: Timestamp,
    ) -> (result: Result<(Balance, Balance), Error>)
        requires
            old(self).wf(),
        ensures
            final(self).wf(),
            result == old(self).add_liquidity_outcome(token_id, token_amount, native_deposit),
            result matches Ok((minted, refund)) ==> old(self).pool_changed_to(
                final(self),
                token_id,
                old(self).pool_after_liquidity(
                    token_id,
                    token_amount,
                    minted,
                    refund,
                    native_deposit,
                    now,
                ),
            ),
            result is Err ==> *final(self) == *old(self),
    {
        let mut pool = match self.find_pool(token_id) {
            Some(pool) => pool,
            None => {
                return Err(Error::PoolNotFound);
            },
        };
        proof {
            assert(old(self).token_ok(token_id as int));
        }
        if pool.native_reserve == 0 {
            let minted = match pool.initialize_liquidity(token_amount, native_deposit, now) {
                Ok(minted) => minted,
                Err(e) => {
                    return Err(e);
                },
            };
            self.store_pool(token_id, pool);
            return Ok((minted, 0));
        }
        if pool.token_reserve == 0 {
            return Err(Error::InsufficientReserves);
        }
        let needed = match crate::utils::wide::mul_div(
            token_amount,
            pool.native_reserve,
            pool.token_reserve,
        ) {
            Some(needed) => needed,
            None => {
                return Err(Error::AmountOverflow);
            },
        };
        if native_deposit < needed {
            return Err(Error::InsufficientNativeTokens);
        }
        let minted = match pool.add_liquidity(token_amount, needed, now) {
            Ok(minted) => minted,
            Err(e) => {
                return Err(e);
            },
        };
        self.store_pool(token_id, pool);
        Ok((minted, native_deposit - needed))
    }

    /// Hands in `lp_tokens` liquidity units of the pool of `token_id`.
    /// Returned are the native amount and the token amount that they are
    /// worth. Refused where a share is below the minimum that the caller
    /// accepts.
    pub fn remove_liquidity(
        &mut self,
        token_id: TokenId,
        lp_tokens: Balance,
        min_native: Balance,
        min_tokens: Balance,
        now: Timestamp,
    ) -> (result: Result<(Balance, Balance), Error>)
        requires
            old(self).wf(),
        ensures
            final(self).wf(),
            result == old(self).remove_liquidity_outcome(
                token_id,
                lp_tokens,
                min_native,
                min_tokens,
            ),
            result matches Ok((native_amount, token_amount)) ==> old(self).pool_changed_to(
                final(self),
                token_id,
                Pool {
                    token_reserve: (old(self).pool_of(token_id)->Some_0.token_reserve
                        - token_amount) as Balance,
                    native_reserve: (old(self).pool_of(token_id)->Some_0.native_reserve
                        - native_amount) as Balance,
                    last_updated: now,
                    total_liquidity: (old(self).pool_of(token_id)->Some_0.total_liquidity
                        - lp_tokens) as Balance,
                    ..old(self).pool_of(token_id)->Some_0
                },
            ),
            result is Err ==> *final(self) == *old(self),
    {
        let mut pool = match self.find_pool(token_id) {
            Some(pool) => pool,
            None => {
                return Err(Error::PoolNotFound);
            },
        };
        proof {
            assert(old(self).token_ok(token_id as int));
        }
        let amounts = match pool.remove_liquidity(lp_tokens, min_native, min_tokens, now) {
            Ok(amounts) => amounts,
            Err(e) => {
                return Err(e);
            },
        };
        self.store_pool(token_id, pool);
        Ok(amounts)
    }

    /// The figures of the pool of `token_id`.
    pub fn get_pool_info(&self, token_id: TokenId) -> (info: Result<PoolInfo, Error>)
        ensures
            info == match self.pool_of(token_id) {
                Some(pool) => Ok::<PoolInfo, Error>(
                    PoolInfo {
                        token_reserve: pool.token_reserve,
                        native_reserve: pool.native_reserve,
                        total_volume: pool.total_volume,
                        total_fees: pool.total_fees,
                        fee_rate: pool.fee_rate,
                    },
                ),
                None => Err::<PoolInfo, Error>(Error::PoolNotFound),
            },
    {
        match self.find_pool(token_id) {
            Some(pool) => Ok(
                PoolInfo {
                    token_reserve: pool.token_reserve,
                    native_reserve: pool.native_reserve,
                    total_volume: pool.total_volume,
                    total_fees: pool.total_fees,
                    fee_rate: pool.fee_rate,
                },
            ),
            None => Err(Error::PoolNotFound),
        }
    }

    /// What a swap of `amount_in` would pay out and charge, without making
    /// it.
    pub fn get_swap_estimate(&self, token_id: TokenId, amount_in: Balance, is_native: bool) -> (estimate:
        Result<SwapEstimate, Error>)
        requires
            self.wf(),
        ensures
            estimate == self.estimate_outcome(token_id, amount_in, is_native),
    {
        let mut pool = match self.find_pool(token_id) {
            Some(pool) => pool,
            None => {
                return Err(Error::PoolNotFound);
            },
        };
        proof {
            assert(self.token_ok(token_id as int));
        }
        match pool.swap_tokens(amount_in, is_native, 0, pool.last_updated) {
            Ok(swap) => Ok(
                SwapEstimate { amount_out: swap.tokens_out, fee_amount: swap.fee_amount },
            ),
            Err(e) => Err(e),
        }
    }
}

} // verus!
