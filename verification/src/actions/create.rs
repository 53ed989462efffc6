//! Creating tokens and reading the registry.

use vstd::prelude::*;

use crate::actions::vote::{lemma_staked_on_push, lemma_staked_on_same, tally_at};
use crate::error::Error;
use crate::models::block::Block;
use crate::models::token::{Token, TokenMetadata, TokenStatus, TokenView};
use crate::{AccountId, Balance, Timestamp, TokenBlocks, TokenId};

verus! {

/// The views of those among the first `n` tokens that `creator` has created,
/// in the order of the registry.
pub open spec fn views_by_creator(tokens: Seq<Token>, creator: Seq<char>, n: int) -> Seq<TokenView>
    decreases n,
{
    if n <= 0 {
        Seq::empty()
    } else if tokens[n - 1].creator@ == creator {
        views_by_creator(tokens, creator, n - 1).push(TokenView::of(tokens[n - 1]))
    } else {
        views_by_creator(tokens, creator, n - 1)
    }
}

impl TokenBlocks {
    /// Why a token cannot be created, if it cannot.
    pub open spec fn create_error(&self, content_hash: Seq<char>, title: Seq<char>, deposit: Balance)
        -> Option<Error> {
        if deposit < self.platform_fee {
            Some(Error::InsufficientDeposit)
        } else if content_hash.len() == 0 {
            Some(Error::EmptyContentHash)
        } else if title.len() == 0 {
            Some(Error::EmptyTitle)
        } else if self.token_counter == u64::MAX {
            Some(Error::RegistryFull)
        } else {
            None
        }
    }

    /// Whether a token created at `now` joins the batch: there is one, and it
    /// still takes members.
    pub open spec fn joins_batch(&self, now: Timestamp) -> bool {
        self.current_block matches Some(block) && block.spec_is_accepting_tokens(now)
    }

    /// Whether `after` is this state with one more token, created by
    /// `creator` at `now`: the token stands at the end of the registry, queued
    /// and without supply, and its identifier has joined the batch or, where
    /// the batch takes no members, the queue.
    pub open spec fn created_to(
        &self,
        after: &TokenBlocks,
        creator: AccountId,
        content_hash: String,
        metadata: TokenMetadata,
        now: Timestamp,
    ) -> bool {
        let id = self.token_counter;
        &&& after.owner_id == self.owner_id
        &&& after.min_stake == self.min_stake
        &&& after.platform_fee == self.platform_fee
        &&& after.stakes@ == self.stakes@
        &&& after.token_counter == id + 1
        &&& after.tokens@ == self.tokens@.push(
            Token {
                id,
                creator,
                content_hash,
                created_at: now,
                total_supply: 0,
                circulating_supply: 0,
                pool_reserve: 0,
                status: TokenStatus::Queued,
                metadata,
            },
        )
        &&& after.votes@ == self.votes@.push(None)
        &&& after.pools@ == self.pools@.push(None)
        &&& if self.joins_batch(now) {
            let block = self.current_block->Some_0;
            &&& after.token_queue@ == self.token_queue@
            &&& after.current_block matches Some(grown)
            &&& grown.tokens@ == block.tokens@.push(id)
            &&& grown == (Block { tokens: grown.tokens, ..block })
        } else {
            &&& after.current_block == self.current_block
            &&& after.token_queue@ == self.token_queue@.push(id)
        }
    }

    /// Creates a token for `creator`. The payment must cover the platform
    /// fee, and the content reference and the title must not be empty. The
    /// token gets the next identifier and joins the batch if that takes
    /// members at `now`, the queue otherwise. Returned are the identifier and
    /// what of the payment exceeds the fee.
    pub fn create_token(
        &mut self,
        creator: AccountId,
        content_hash: String,
        metadata: TokenMetadata,
        deposit: Balance,
        now: Timestamp,
    ) -> (result: Result<(TokenId, Balance), Error>)
        requires
            old(self).wf(),
        ensures
            final(self).wf(),
            match result {
                Ok((token_id, refund)) => {
                    &&& old(self).create_error(content_hash@, metadata.title@, deposit) is None
                    &&& token_id == old(self).token_counter
                    &&& refund == deposit - old(self).platform_fee
                    &&& old(self).created_to(final(self), creator, content_hash, metadata, now)
                },
                Err(e) => old(self).create_error(content_hash@, metadata.title@, deposit) == Some(e)
                    && *final(self) == *old(self),
            },
    {
        if deposit < self.platform_fee {
            return Err(Error::InsufficientDeposit);
        }
        if content_hash.as_str().is_empty() {
            return Err(Error::EmptyContentHash);
        }
        if metadata.title.as_str().is_empty() {
            return Err(Error::EmptyTitle);
        }
        if self.token_counter == u64::MAX {
            return Err(Error::RegistryFull);
        }
        let token_id = self.token_counter;
        let token = Token::new(token_id, creator, content_hash, metadata, now);
        self.tokens.push(token);
        self.votes.push(None);
        self.pools.push(None);
        self.token_counter = self.token_counter + 1;
        let mut joined = false;
        match &mut self.current_block {
            Some(block) => {
                if block.is_accepting_tokens(now) {
                    block.add_token(token_id);
                    joined = true;
                }
            },
            None => {},
        }
        if !joined {
            self.token_queue.push(token_id);
        }
        proof {
            assert forall|i: int| 0 <= i < self.tokens@.len() implies self.token_ok(i) by {
                if i < old(self).tokens@.len() {
                    assert(old(self).token_ok(i));
                }
            }
            assert forall|id: TokenId| old(self).unsettled(id) implies self.unsettled(id) by {}
            assert forall|id: TokenId| old(self).waiting(id) implies self.waiting(id) by {}
            assert(self.waiting(token_id));
            if let Some(block) = old(self).current_block {
                assert forall|k: int| 0 <= k < block.tokens@.len() implies tally_at(
                    self.votes@,
                    #[trigger] block.tokens@[k],
                ) == tally_at(old(self).votes@, block.tokens@[k]) by {
                    assert(old(self).unsettled(block.tokens@[k]));
                }
                lemma_staked_on_same(old(self).votes@, self.votes@, block.tokens@);
                lemma_staked_on_push(self.votes@, block.tokens@, token_id);
            }
            assert forall|k: int| 0 <= k < old(self).token_queue@.len() implies old(
                self,
            ).token_queue@[k] != token_id by {
                assert(old(self).unsettled(old(self).token_queue@[k]));
            }
            if let Some(block) = old(self).current_block {
                assert forall|k: int| 0 <= k < block.tokens@.len() implies block.tokens@[k]
                    != token_id by {
                    assert(old(self).unsettled(block.tokens@[k]));
                }
            }
        }
        Ok((token_id, deposit - self.platform_fee))
    }

    /// Sets the platform fee. Only the owner may.
    pub fn update_platform_fee(&mut self, caller: &AccountId, new_fee: Balance) -> (result: Result<
        (),
        Error,
    >)
        ensures
            caller@ == old(self).owner_id@ ==> result.is_ok() && *final(self) == (TokenBlocks {
                platform_fee: new_fee,
                ..*old(self)
            }),
            caller@ != old(self).owner_id@ ==> result == Err::<(), Error>(Error::NotOwner)
                && *final(self) == *old(self),
            old(self).wf() ==> final(self).wf(),
    {
        if *caller != self.owner_id {
            return Err(Error::NotOwner);
        }
        self.platform_fee = new_fee;
        proof {
            if old(self).wf() {
                assert forall|i: int| 0 <= i < self.tokens@.len() implies self.token_ok(i) by {
                    assert(old(self).token_ok(i));
                }
                assert forall|id: TokenId| old(self).unsettled(id) implies self.unsettled(id) by {}
            assert forall|id: TokenId| old(self).waiting(id) implies self.waiting(id) by {}
            }
        }
        Ok(())
    }

    /// The token with the identifier `token_id`, if there is one.
    pub fn get_token(&self, token_id: TokenId) -> (view: Option<TokenView>)
        ensures
            token_id < self.tokens@.len() ==> view == Some(
                TokenView::of(self.tokens@[token_id as int]),
            ),
            token_id >= self.tokens@.len() ==> view is None,
    {
        if token_id >= self.tokens.len() as u64 {
            return None;
        }
        Some(TokenView::from(&self.tokens[token_id as usize]))
    }

    /// The tokens that `creator` has created, in the order of the registry.
    pub fn get_tokens_by_creator(&self, creator: &AccountId) -> (views: Vec<TokenView>)
        ensures
            views@ == views_by_creator(self.tokens@, creator@, self.tokens@.len() as int),
    {
        let mut views: Vec<TokenView> = Vec::new();
        let mut i: usize = 0;
        while i < self.tokens.len()
            invariant
                i <= self.tokens@.len(),
                views@ == views_by_creator(self.tokens@, creator@, i as int),
            decreases self.tokens@.len() - i,
        {
            if self.tokens[i].creator == *creator {
                views.push(TokenView::from(&self.tokens[i]));
            }
            i = i + 1;
        }
        views
    }
}

} // verus!
