//! Token launch ledger: proposal batches that advance through timed phases,
//! stake-weighted voting with a deterministic winner selection, and a
//! constant-product pool for trading the winners.
//!
//! Every operation works on an explicit state value and takes the caller, the
//! attached payment and the current time as ordinary arguments. Nothing here
//! panics: an operation that cannot proceed returns an [`Error`] and leaves
//! the state exactly as it found it.

use vstd::prelude::*;

pub mod actions;
pub mod error;
pub mod models;
pub mod utils;

pub use crate::actions::trading::{PoolInfo, SwapEstimate};
pub use crate::error::{Error, ErrorKind};
pub use crate::models::block::{Block, BlockPhase, BlockView};
pub use crate::models::pool::{Pool, SwapResult};
pub use crate::models::state::{StakeInfo, VoteInfo};
pub use crate::models::token::{Token, TokenMetadata, TokenStatus, TokenView};
pub use crate::utils::math::Math;
pub use crate::utils::storage::Storage;
pub use crate::utils::time::Time;
pub use crate::utils::validation::Validation;

use crate::actions::vote::{contains_token, lemma_staked_on_unvoted, staked_matches, staked_on};
use crate::models::block::has_no_duplicates;
use crate::utils::account::{account_id_is_valid, is_valid_account_id};

verus! {

/// Identifier of a token proposal: its position in the registry.
pub type TokenId = u64;

/// An amount of the native asset, of a token, or of liquidity units.
pub type Balance = u128;

/// A point in time, in nanoseconds.
pub type Timestamp = u64;

/// Name of an account.
pub type AccountId = String;

/// How long a batch takes new members: one minute.
pub const ACCEPTING_TOKENS_DURATION: u64 = 60_000_000_000;

/// How long a batch takes votes: two minutes.
pub const VOTING_DURATION: u64 = 120_000_000_000;

/// How long the public phase of a batch lasts: two minutes.
pub const PUBLIC_DURATION: u64 = 120_000_000_000;

/// The whole cycle of a batch: five minutes.
pub const BLOCK_DURATION: u64 = 300_000_000_000;

/// The least stake that a vote must carry.
pub const MIN_STAKE_AMOUNT: Balance = 1_000_000_000_000_000_000_000;

/// How many members of a batch can win.
pub const MAX_WINNERS: u8 = 10;

/// The supply that a winner is given.
pub const WINNER_SUPPLY: Balance = 1_000_000;

/// The whole state of the ledger.
#[derive(Debug, PartialEq, Eq)]
pub struct TokenBlocks {
    pub owner_id: AccountId,
    /// The identifier that the next token gets.
    pub token_counter: TokenId,
    /// Every token, at the position that is its identifier.
    pub tokens: Vec<Token>,
    pub current_block: Option<Block>,
    /// Tokens that wait for the next batch, oldest first.
    pub token_queue: Vec<TokenId>,
    /// The tally of each token, once a vote has been cast for it.
    pub votes: Vec<Option<VoteInfo>>,
    /// The record of each account that has staked, in the order of the
    /// accounts' first stakes.
    pub stakes: Vec<StakeInfo>,
    /// The pool of each token that has won.
    pub pools: Vec<Option<Pool>>,
    pub min_stake: Balance,
    /// The least payment that creating a token takes.
    pub platform_fee: Balance,
}

/// The status that a member of a batch takes when the batch enters `phase`.
pub open spec fn status_in_phase(phase: BlockPhase, status: TokenStatus) -> TokenStatus {
    match phase {
        BlockPhase::AcceptingTokens => TokenStatus::Pending,
        BlockPhase::Voting => TokenStatus::InVoting,
        BlockPhase::Public => TokenStatus::Public,
        BlockPhase::Completed => status,
    }
}

impl TokenBlocks {
    /// The token at position `i` carries `i` as its identifier and is sound,
    /// and so are its tally and its pool where it has them.
    pub open spec fn token_ok(&self, i: int) -> bool {
        &&& self.tokens@[i].id == i
        &&& self.tokens@[i].wf()
        &&& self.votes@[i] matches Some(info) ==> info.wf()
        &&& self.pools@[i] matches Some(pool) ==> pool.wf() && pool.token_id == i
    }

    /// The token exists and has not been settled: it has no supply and no
    /// pool.
    pub open spec fn unsettled(&self, id: TokenId) -> bool {
        &&& id < self.tokens@.len()
        &&& self.tokens@[id as int].total_supply == 0
        &&& self.pools@[id as int] is None
    }

    /// The records are sound: the registry, the tallies and the pools line
    /// up, every record is sound, and no account has two stake records.
    pub open spec fn records_wf(&self) -> bool {
        &&& self.token_counter == self.tokens@.len()
        &&& self.votes@.len() == self.tokens@.len()
        &&& self.pools@.len() == self.tokens@.len()
        &&& forall|i: int| 0 <= i < self.tokens@.len() ==> self.token_ok(i)
        &&& forall|i: int| 0 <= i < self.stakes@.len() ==> (#[trigger] self.stakes@[i]).wf()
        &&& forall|i: int, j: int|
            0 <= i < j < self.stakes@.len() ==> (#[trigger] self.stakes@[i]).account_id@ != (
            #[trigger] self.stakes@[j]).account_id@
    }

    /// The token exists, has not been settled, and no vote has been cast for
    /// it.
    pub open spec fn waiting(&self, id: TokenId) -> bool {
        &&& self.unsettled(id)
        &&& id < self.votes@.len()
        &&& self.votes@[id as int] is None
    }

    /// The queue and the batch hold unsettled tokens, each once; no vote has
    /// been cast for a token in the queue; and the total of the batch is the
    /// sum of the tallies of its members.
    pub open spec fn cycle_wf(&self) -> bool {
        &&& self.token_queue@.no_duplicates()
        &&& forall|k: int|
            0 <= k < self.token_queue@.len() ==> self.waiting(#[trigger] self.token_queue@[k])
        &&& self.current_block matches Some(block) ==> {
            &&& block.wf()
            &&& forall|k: int|
                0 <= k < block.tokens@.len() ==> self.unsettled(#[trigger] block.tokens@[k])
                    && !self.token_queue@.contains(block.tokens@[k])
            &&& block.total_stakes == staked_on(self.votes@, block.tokens@)
        }
    }

    /// The state is sound: the records are, and so are the queue and the
    /// batch.
    pub open spec fn wf(&self) -> bool {
        self.records_wf() && self.cycle_wf()
    }

    /// Sound records stay sound where nothing but the batch and the queue has
    /// changed, and the same tokens are unsettled.
    pub proof fn lemma_same_records(&self, other: &TokenBlocks)
        requires
            self.records_wf(),
            other.same_records(self),
        ensures
            other.records_wf(),
            forall|id: TokenId| self.unsettled(id) == other.unsettled(id),
            forall|id: TokenId| self.waiting(id) == other.waiting(id),
    {
        assert forall|i: int| 0 <= i < other.tokens@.len() implies other.token_ok(i) by {
            assert(self.token_ok(i));
        }
    }

    /// Everything but the batch and the queue is the same in both states.
    pub open spec fn same_records(&self, other: &TokenBlocks) -> bool {
        &&& self.owner_id == other.owner_id
        &&& self.token_counter == other.token_counter
        &&& self.tokens@ == other.tokens@
        &&& self.votes@ == other.votes@
        &&& self.stakes@ == other.stakes@
        &&& self.pools@ == other.pools@
        &&& self.min_stake == other.min_stake
        &&& self.platform_fee == other.platform_fee
    }

    /// Why a batch cannot be started at `now`, if it cannot.
    pub open spec fn start_block_error(&self, now: Timestamp) -> Option<Error> {
        if self.current_block is Some {
            Some(Error::BlockInProgress)
        } else if self.token_queue@.len() == 0 {
            Some(Error::EmptyQueue)
        } else if now + ACCEPTING_TOKENS_DURATION + VOTING_DURATION > u64::MAX {
            Some(Error::TimeOverflow)
        } else {
            None
        }
    }

    /// The batch that starting at `now` makes of the queue: the queued tokens
    /// in their order, no stakes, the first phase.
    pub open spec fn next_block(&self, now: Timestamp) -> Block {
        Block {
            start_time: now,
            accepting_tokens_duration: ACCEPTING_TOKENS_DURATION,
            voting_duration: VOTING_DURATION,
            public_duration: PUBLIC_DURATION,
            min_stake: self.min_stake,
            max_winners: MAX_WINNERS,
            tokens: self.token_queue,
            total_stakes: 0,
            phase: BlockPhase::AcceptingTokens,
            voting_end_time: (now + ACCEPTING_TOKENS_DURATION + VOTING_DURATION) as u64,
        }
    }

    /// Whether a refresh at `now` changes the cached phase of the batch.
    pub open spec fn phase_changes(&self, now: Timestamp) -> bool {
        self.current_block matches Some(block) && block.phase_at(now) != block.phase
    }

    /// The token at position `i` after a refresh at `now`: a member of the
    /// batch takes the status of the new phase if the phase changes.
    pub open spec fn refreshed_token(&self, i: int, now: Timestamp) -> Token {
        if self.phase_changes(now) && self.current_block->Some_0.tokens@.contains(i as TokenId) {
            Token {
                status: status_in_phase(
                    self.current_block->Some_0.phase_at(now),
                    self.tokens@[i].status,
                ),
                ..self.tokens@[i]
            }
        } else {
            self.tokens@[i]
        }
    }

    /// Why a refresh at `now` is refused, if it is: only where the batch is
    /// over, the queue waits, and the next batch cannot be scheduled.
    pub open spec fn refresh_error(&self, now: Timestamp) -> Option<Error> {
        if self.current_block matches Some(block) && block.phase_at(now) == BlockPhase::Completed
            && self.token_queue@.len() > 0 && now + ACCEPTING_TOKENS_DURATION + VOTING_DURATION
            > u64::MAX {
            Some(Error::TimeOverflow)
        } else {
            None
        }
    }

    /// Whether `after` is this state refreshed at `now`.
    pub open spec fn refreshed_to(&self, after: &TokenBlocks, now: Timestamp) -> bool {
        &&& after.owner_id == self.owner_id
        &&& after.token_counter == self.token_counter
        &&& after.votes@ == self.votes@
        &&& after.stakes@ == self.stakes@
        &&& after.pools@ == self.pools@
        &&& after.min_stake == self.min_stake
        &&& after.platform_fee == self.platform_fee
        &&& after.tokens@.len() == self.tokens@.len()
        &&& forall|i: int|
            0 <= i < self.tokens@.len() ==> #[trigger] after.tokens@[i] == self.refreshed_token(
                i,
                now,
            )
        &&& match self.current_block {
            None => after.current_block is None && after.token_queue@ == self.token_queue@,
            Some(block) => if block.phase_at(now) == BlockPhase::Completed {
                if self.token_queue@.len() > 0 {
                    &&& after.current_block == Some(self.next_block(now))
                    &&& after.token_queue@.len() == 0
                } else {
                    &&& after.current_block is None
                    &&& after.token_queue@ == self.token_queue@
                }
            } else {
                &&& after.current_block == Some(Block { phase: block.phase_at(now), ..block })
                &&& after.token_queue@ == self.token_queue@
            },
        }
    }

    /// A refresh repeated at the same time changes nothing more: the state
    /// after the second refresh is the state after the first.
    pub proof fn lemma_refresh_idempotent(
        before: TokenBlocks,
        once: TokenBlocks,
        twice: TokenBlocks,
        now: Timestamp,
    )
        requires
            before.refreshed_to(&once, now),
            once.refreshed_to(&twice, now),
        ensures
            once.refresh_error(now) is None,
            twice.same_records(&once),
            twice.current_block == once.current_block,
            twice.token_queue@ == once.token_queue@,
    {
        assert(twice.tokens@ =~= once.tokens@);
    }

    /// A later refresh never takes the batch back to an earlier phase: as
    /// long as the batch runs, its cached phase after a refresh at `later` is
    /// the phase after a refresh at `earlier`, or one that follows it.
    pub proof fn lemma_refresh_never_regresses(
        before: TokenBlocks,
        once: TokenBlocks,
        twice: TokenBlocks,
        earlier: Timestamp,
        later: Timestamp,
    )
        requires
            earlier <= later,
            before.current_block matches Some(block) && block.phase_at(later)
                != BlockPhase::Completed,
            before.refreshed_to(&once, earlier),
            once.refreshed_to(&twice, later),
        ensures
            once.current_block is Some,
            twice.current_block is Some,
            once.current_block->Some_0.phase.index() <= twice.current_block->Some_0.phase.index(),
            twice.current_block->Some_0 == (Block {
                phase: before.current_block->Some_0.phase_at(later),
                ..before.current_block->Some_0
            }),
    {
        crate::models::block::lemma_phase_monotonic(
            before.current_block->Some_0,
            earlier,
            later,
        );
    }

    /// Checks the state: whether it is sound. A state that was made by the
    /// operations of the ledger is; one that was read from elsewhere need not
    /// be.
    pub fn is_well_formed(&self) -> (sound: bool)
        ensures
            sound == self.wf(),
    {
        self.records_are_well_formed() && self.cycle_is_well_formed()
    }

    /// Checks the records.
    fn records_are_well_formed(&self) -> (sound: bool)
        ensures
            sound == self.records_wf(),
    {
        let size = self.tokens.len();
        if self.token_counter != size as u64 || self.votes.len() != size || self.pools.len()
            != size {
            return false;
        }
        let mut i: usize = 0;
        while i < size
            invariant
                size == self.tokens@.len(),
                size == self.votes@.len(),
                size == self.pools@.len(),
                i <= size,
                forall|k: int| 0 <= k < i ==> self.token_ok(k),
            decreases size - i,
        {
            let token = &self.tokens[i];
            let vote_sound = match &self.votes[i] {
                Some(info) => info.is_well_formed(),
                None => true,
            };
            let pool_sound = match &self.pools[i] {
                Some(pool) => pool.is_well_formed() && pool.token_id == i as u64,
                None => true,
            };
            if token.id != i as u64 || !token.is_well_formed() || !vote_sound || !pool_sound {
                assert(!self.token_ok(i as int));
                return false;
            }
            i = i + 1;
        }
        let mut j: usize = 0;
        while j < self.stakes.len()
            invariant
                j <= self.stakes@.len(),
                forall|k: int| 0 <= k < j ==> (#[trigger] self.stakes@[k]).wf(),
                forall|a: int, b: int|
                    0 <= a < b < j ==> (#[trigger] self.stakes@[a]).account_id@ != (
                    #[trigger] self.stakes@[b]).account_id@,
            decreases self.stakes@.len() - j,
        {
            if !self.stakes[j].is_well_formed() {
                assert(!self.stakes@[j as int].wf());
                return false;
            }
            let mut i: usize = 0;
            while i < j
                invariant
                    i <= j < self.stakes@.len(),
                    forall|a: int|
                        0 <= a < i ==> (#[trigger] self.stakes@[a]).account_id@
                            != self.stakes@[j as int].account_id@,
                decreases j - i,
            {
                if self.stakes[i].account_id == self.stakes[j].account_id {
                    assert(self.stakes@[i as int].account_id@ == self.stakes@[j as int].account_id@);
                    return false;
                }
                i = i + 1;
            }
            j = j + 1;
        }
        true
    }

    /// Whether the token exists and has not been settled.
    fn is_unsettled(&self, id: TokenId) -> (open: bool)
        requires
            self.pools@.len() == self.tokens@.len(),
        ensures
            open == self.unsettled(id),
    {
        if id >= self.tokens.len() as u64 {
            return false;
        }
        self.tokens[id as usize].total_supply == 0 && self.pools[id as usize].is_none()
    }

    /// Checks the queue and the batch.
    fn cycle_is_well_formed(&self) -> (sound: bool)
        requires
            self.pools@.len() == self.tokens@.len(),
            self.votes@.len() == self.tokens@.len(),
        ensures
            sound == self.cycle_wf(),
    {
        if !has_no_duplicates(&self.token_queue) {
            return false;
        }
        let size = self.tokens.len();
        let mut k: usize = 0;
        while k < self.token_queue.len()
            invariant
                size == self.tokens@.len(),
                self.pools@.len() == self.tokens@.len(),
                k <= self.token_queue@.len(),
                self.votes@.len() == self.tokens@.len(),
                forall|j: int| 0 <= j < k ==> self.waiting(#[trigger] self.token_queue@[j]),
            decreases self.token_queue@.len() - k,
        {
            let id = self.token_queue[k];
            if !self.is_unsettled(id) || self.votes[id as usize].is_some() {
                assert(!self.waiting(self.token_queue@[k as int]));
                return false;
            }
            k = k + 1;
        }
        match &self.current_block {
            None => true,
            Some(block) => {
                if !block.is_well_formed() {
                    return false;
                }
                let mut k: usize = 0;
                while k < block.tokens.len()
                    invariant
                        self.current_block == Some(*block),
                        self.pools@.len() == self.tokens@.len(),
                        self.votes@.len() == self.tokens@.len(),
                        k <= block.tokens@.len(),
                        forall|j: int|
                            0 <= j < k ==> self.unsettled(#[trigger] block.tokens@[j])
                                && !self.token_queue@.contains(block.tokens@[j]),
                    decreases block.tokens@.len() - k,
                {
                    let id = block.tokens[k];
                    if !self.is_unsettled(id) || contains_token(&self.token_queue, id) {
                        proof {
                            let batch = self.current_block->Some_0;
                            let member = batch.tokens@[k as int];
                            assert(!(self.unsettled(member) && !self.token_queue@.contains(member)));
                        }
                        return false;
                    }
                    k = k + 1;
                }
                staked_matches(&self.votes, &block.tokens, block.total_stakes)
            },
        }
    }

    /// An empty ledger owned by `owner_id`. The owner must be a well-formed
    /// account name.
    pub fn new(owner_id: String) -> (result: Result<TokenBlocks, Error>)
        ensures
            match result {
                Ok(ledger) => {
                    &&& is_valid_account_id(owner_id@)
                    &&& ledger.owner_id == owner_id
                    &&& ledger.token_counter == 0
                    &&& ledger.tokens@.len() == 0
                    &&& ledger.current_block is None
                    &&& ledger.token_queue@.len() == 0
                    &&& ledger.votes@.len() == 0
                    &&& ledger.stakes@.len() == 0
                    &&& ledger.pools@.len() == 0
                    &&& ledger.min_stake == MIN_STAKE_AMOUNT
                    &&& ledger.platform_fee == 0
                    &&& ledger.wf()
                },
                Err(e) => !is_valid_account_id(owner_id@) && e == Error::InvalidAccountId,
            },
    {
        if !account_id_is_valid(owner_id.as_str()) {
            return Err(Error::InvalidAccountId);
        }
        Ok(
            TokenBlocks {
                owner_id,
                token_counter: 0,
                tokens: Vec::new(),
                current_block: None,
                token_queue: Vec::new(),
                votes: Vec::new(),
                stakes: Vec::new(),
                pools: Vec::new(),
                min_stake: MIN_STAKE_AMOUNT,
                platform_fee: 0,
            },
        )
    }

    /// Starts a batch at `now` from the whole queue, in queue order. Refused
    /// while a batch is running or when the queue is empty.
    pub fn start_block(&mut self, now: Timestamp) -> (result: Result<(), Error>)
        requires
            old(self).wf(),
        ensures
            final(self).wf(),
            match result {
                Ok(()) => {
                    &&& old(self).start_block_error(now) is None
                    &&& final(self).current_block == Some(old(self).next_block(now))
                    &&& final(self).token_queue@.len() == 0
                    &&& final(self).same_records(old(self))
                },
                Err(e) => old(self).start_block_error(now) == Some(e) && *final(self) == *old(self),
            },
    {
        if self.current_block.is_some() {
            return Err(Error::BlockInProgress);
        }
        if self.token_queue.len() == 0 {
            return Err(Error::EmptyQueue);
        }
        if now > u64::MAX - (ACCEPTING_TOKENS_DURATION + VOTING_DURATION) {
            return Err(Error::TimeOverflow);
        }
        let mut block = Block::new(
            now,
            ACCEPTING_TOKENS_DURATION,
            VOTING_DURATION,
            PUBLIC_DURATION,
            self.min_stake,
            MAX_WINNERS,
        );
        let mut members: Vec<TokenId> = Vec::new();
        core::mem::swap(&mut members, &mut self.token_queue);
        block.tokens = members;
        self.current_block = Some(block);
        proof {
            old(self).lemma_same_records(self);
            assert forall|k: int| 0 <= k < block.tokens@.len() implies crate::actions::vote::tally_at(
                self.votes@,
                #[trigger] block.tokens@[k],
            ) == 0 by {
                assert(old(self).waiting(old(self).token_queue@[k]));
            }
            lemma_staked_on_unvoted(self.votes@, block.tokens@);
            assert forall|k: int| 0 <= k < block.tokens@.len() implies self.unsettled(
                #[trigger] block.tokens@[k],
            ) by {
                assert(old(self).waiting(old(self).token_queue@[k]));
            }
        }
        Ok(())
    }

    /// Brings the cached phase of the batch up to `now`. When the phase
    /// changes, every member takes the status of the new phase. When the
    /// batch is over it is cleared, and the next one starts at `now` if
    /// tokens wait in the queue. Without a batch nothing happens.
    pub fn update_block_phase(&mut self, now: Timestamp) -> (result: Result<(), Error>)
        requires
            old(self).wf(),
        ensures
            final(self).wf(),
            match result {
                Ok(()) => old(self).refresh_error(now) is None && old(self).refreshed_to(
                    final(self),
                    now,
                ),
                Err(e) => old(self).refresh_error(now) == Some(e) && *final(self) == *old(self),
            },
    {
        let (phase, changed) = match &self.current_block {
            None => {
                return Ok(());
            },
            Some(block) => {
                let phase = block.compute_phase(now);
                (phase, phase != block.phase)
            },
        };
        let over = matches!(phase, BlockPhase::Completed);
        if over && self.token_queue.len() > 0 && now > u64::MAX - (ACCEPTING_TOKENS_DURATION
            + VOTING_DURATION) {
            return Err(Error::TimeOverflow);
        }
        let mut taken: Option<Block> = None;
        core::mem::swap(&mut taken, &mut self.current_block);
        let mut block = taken.unwrap();
        if changed {
            Self::update_tokens_status(&mut self.tokens, &block.tokens, phase);
        }
        block.phase = phase;
        proof {
            assert forall|i: int| 0 <= i < self.tokens@.len() implies self.token_ok(i) by {
                assert(old(self).token_ok(i));
            }
            assert forall|id: TokenId| old(self).unsettled(id) implies self.unsettled(id) by {}
                assert forall|id: TokenId| old(self).waiting(id) implies self.waiting(id) by {}
        }
        if over {
            if self.token_queue.len() > 0 {
                let _ = self.start_block(now);
            }
        } else {
            self.current_block = Some(block);
            proof {
                assert forall|i: int| 0 <= i < self.tokens@.len() implies self.token_ok(i) by {
                    assert(old(self).token_ok(i));
                }
                assert forall|id: TokenId| old(self).unsettled(id) implies self.unsettled(id) by {}
                assert forall|id: TokenId| old(self).waiting(id) implies self.waiting(id) by {}
            }
        }
        Ok(())
    }

    /// The batch, as it is shown to readers.
    pub fn get_current_block(&self) -> (view: Option<BlockView>)
        ensures
            match self.current_block {
                Some(block) => view matches Some(shown) && shown.shows(block),
                None => view is None,
            },
    {
        match &self.current_block {
            Some(block) => Some(BlockView::from(block)),
            None => None,
        }
    }

    /// The tokens that wait for the next batch, oldest first.
    pub fn get_queued_tokens(&self) -> (queue: Vec<TokenId>)
        ensures
            queue@ == self.token_queue@,
    {
        self.token_queue.clone()
    }

    /// The length of the cycle of a batch, the least stake and the number of
    /// winners.
    pub fn get_block_info(&self) -> (info: (u64, Balance, u8))
        ensures
            info == (BLOCK_DURATION, MIN_STAKE_AMOUNT, MAX_WINNERS),
    {
        (BLOCK_DURATION, MIN_STAKE_AMOUNT, MAX_WINNERS)
    }

    /// Gives every listed token that exists the status of `phase`.
    fn update_tokens_status(tokens: &mut Vec<Token>, token_ids: &Vec<TokenId>, phase: BlockPhase)
        ensures
            final(tokens)@.len() == old(tokens)@.len(),
            forall|i: int|
                0 <= i < old(tokens)@.len() ==> #[trigger] final(tokens)@[i] == if token_ids@.contains(
                    i as TokenId,
                ) {
                    Token { status: status_in_phase(phase, old(tokens)@[i].status), ..old(tokens)@[i] }
                } else {
                    old(tokens)@[i]
                },
    {
        let ghost before = tokens@;
        let mut k: usize = 0;
        while k < token_ids.len()
            invariant
                k <= token_ids@.len(),
                tokens@.len() == before.len(),
                forall|i: int|
                    0 <= i < before.len() ==> #[trigger] tokens@[i] == if token_ids@.take(
                        k as int,
                    ).contains(i as TokenId) {
                        Token { status: status_in_phase(phase, before[i].status), ..before[i] }
                    } else {
                        before[i]
                    },
            decreases token_ids@.len() - k,
        {
            let id = token_ids[k];
            let ghost seen = token_ids@.take(k as int);
            proof {
                assert(token_ids@.take(k + 1) =~= seen.push(id));
                assert forall|t: TokenId|
                    seen.push(id).contains(t) <==> seen.contains(t) || t == id by {
                    if seen.contains(t) {
                        let j = choose|j: int| 0 <= j < seen.len() && seen[j] == t;
                        assert(seen.push(id)[j] == t);
                    }
                    if t == id {
                        assert(seen.push(id)[seen.len() as int] == t);
                    }
                }
            }
            if id < tokens.len() as u64 {
                let status = match phase {
                    BlockPhase::AcceptingTokens => TokenStatus::Pending,
                    BlockPhase::Voting => TokenStatus::InVoting,
                    BlockPhase::Public => TokenStatus::Public,
                    BlockPhase::Completed => tokens[id as usize].status,
                };
                tokens[id as usize].status = status;
            }
            k = k + 1;
        }
        proof {
            assert(token_ids@.take(token_ids@.len() as int) =~= token_ids@);
        }
    }
}

} // verus!
