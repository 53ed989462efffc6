//! Voting on the members of the batch, and settling the batch once voting
//! has ended.

use vstd::prelude::*;

use crate::actions::winners::{is_winner, select_winners};
use crate::error::Error;
use crate::models::block::Block;
use crate::models::pool::Pool;
use crate::models::state::{entries_after, StakeInfo, VoteInfo};
use crate::models::token::{Token, TokenStatus};
use crate::{
    AccountId,
    Balance,
    Timestamp,
    TokenBlocks,
    TokenId,
    ACCEPTING_TOKENS_DURATION,
    VOTING_DURATION,
    WINNER_SUPPLY,
};

verus! {

/// The votes counted for the token at position `id`: none where no vote was
/// cast.
pub open spec fn tally_at(votes: Seq<Option<VoteInfo>>, id: TokenId) -> Balance {
    match votes[id as int] {
        Some(info) => info.total_votes,
        None => 0,
    }
}

/// The sum of the tallies of the listed tokens.
pub open spec fn staked_on(votes: Seq<Option<VoteInfo>>, members: Seq<TokenId>) -> nat
    decreases members.len(),
{
    if members.len() == 0 {
        0
    } else {
        staked_on(votes, members.drop_last()) + tally_at(votes, members.last()) as nat
    }
}

/// Tokens without votes add up to nothing.
pub proof fn lemma_staked_on_unvoted(votes: Seq<Option<VoteInfo>>, members: Seq<TokenId>)
    requires
        forall|k: int| 0 <= k < members.len() ==> tally_at(votes, #[trigger] members[k]) == 0,
    ensures
        staked_on(votes, members) == 0,
    decreases members.len(),
{
    if members.len() > 0 {
        let rest = members.drop_last();
        assert forall|k: int| 0 <= k < rest.len() implies tally_at(votes, #[trigger] rest[k])
            == 0 by {
            assert(rest[k] == members[k]);
        }
        lemma_staked_on_unvoted(votes, rest);
        assert(members.last() == members[members.len() - 1]);
    }
}

/// The sum depends on the tallies of the listed tokens alone.
pub proof fn lemma_staked_on_same(
    before: Seq<Option<VoteInfo>>,
    after: Seq<Option<VoteInfo>>,
    members: Seq<TokenId>,
)
    requires
        forall|k: int|
            0 <= k < members.len() ==> tally_at(after, #[trigger] members[k]) == tally_at(
                before,
                members[k],
            ),
    ensures
        staked_on(after, members) == staked_on(before, members),
    decreases members.len(),
{
    if members.len() > 0 {
        let rest = members.drop_last();
        assert forall|k: int| 0 <= k < rest.len() implies tally_at(after, #[trigger] rest[k])
            == tally_at(before, rest[k]) by {
            assert(rest[k] == members[k]);
        }
        lemma_staked_on_same(before, after, rest);
        assert(members.last() == members[members.len() - 1]);
    }
}

/// One more token adds its tally to the sum.
pub proof fn lemma_staked_on_push(votes: Seq<Option<VoteInfo>>, members: Seq<TokenId>, id: TokenId)
    ensures
        staked_on(votes, members.push(id)) == staked_on(votes, members) + tally_at(votes, id),
{
    assert(members.push(id).drop_last() =~= members);
}

/// The sum over a part of the list, from the start, is no more than the sum
/// over all of it.
pub proof fn lemma_staked_on_take(votes: Seq<Option<VoteInfo>>, members: Seq<TokenId>, n: int)
    requires
        0 <= n <= members.len(),
    ensures
        staked_on(votes, members.take(n)) <= staked_on(votes, members),
    decreases members.len() - n,
{
    if n < members.len() {
        lemma_staked_on_take(votes, members, n + 1);
        assert(members.take(n + 1).drop_last() =~= members.take(n));
    } else {
        assert(members.take(n) =~= members);
    }
}

/// A stake on one of the listed tokens, each listed once, adds to the sum
/// what it adds to the tally of the token.
pub proof fn lemma_staked_on_vote(
    before: Seq<Option<VoteInfo>>,
    after: Seq<Option<VoteInfo>>,
    members: Seq<TokenId>,
    id: TokenId,
    amount: Balance,
)
    requires
        members.no_duplicates(),
        members.contains(id),
        tally_at(after, id) == tally_at(before, id) + amount,
        forall|k: int|
            0 <= k < members.len() && members[k] != id ==> tally_at(after, #[trigger] members[k])
                == tally_at(before, members[k]),
    ensures
        staked_on(after, members) == staked_on(before, members) + amount,
    decreases members.len(),
{
    let rest = members.drop_last();
    let last = members[members.len() - 1];
    assert(members.last() == last);
    assert forall|k: int| 0 <= k < rest.len() implies rest[k] == members[k] by {}
    if last == id {
        assert forall|k: int| 0 <= k < rest.len() implies tally_at(after, #[trigger] rest[k])
            == tally_at(before, rest[k]) by {
            assert(rest[k] == members[k]);
            assert(members[k] != members[members.len() - 1]);
        }
        lemma_staked_on_same(before, after, rest);
    } else {
        let at = choose|at: int| 0 <= at < members.len() && members[at] == id;
        assert(rest[at] == id);
        assert(rest.contains(id));
        assert(rest.no_duplicates()) by {
            assert forall|i: int, j: int|
                0 <= i < rest.len() && 0 <= j < rest.len() && i != j implies rest[i] != rest[j] by {
                assert(rest[i] == members[i] && rest[j] == members[j]);
            }
        }
        assert forall|k: int| 0 <= k < rest.len() && rest[k] != id implies tally_at(
            after,
            #[trigger] rest[k],
        ) == tally_at(before, rest[k]) by {
            assert(rest[k] == members[k]);
        }
        lemma_staked_on_vote(before, after, rest, id, amount);
    }
}

/// Whether `total` is the sum of the tallies of the listed tokens.
pub fn staked_matches(votes: &Vec<Option<VoteInfo>>, members: &Vec<TokenId>, total: Balance) -> (matches:
    bool)
    requires
        forall|k: int| 0 <= k < members@.len() ==> (#[trigger] members@[k]) < votes@.len(),
    ensures
        matches == (total == staked_on(votes@, members@)),
{
    let size = votes.len();
    let mut sum: Balance = 0;
    let mut k: usize = 0;
    while k < members.len()
        invariant
            size == votes@.len(),
            k <= members@.len(),
            forall|j: int| 0 <= j < members@.len() ==> (#[trigger] members@[j]) < votes@.len(),
            sum == staked_on(votes@, members@.take(k as int)),
        decreases members@.len() - k,
    {
        let id = members[k];
        let tally = match &votes[id as usize] {
            Some(info) => info.total_votes,
            None => 0,
        };
        proof {
            assert(members@.take(k + 1).drop_last() =~= members@.take(k as int));
            lemma_staked_on_take(votes@, members@, k + 1);
        }
        if tally > Balance::MAX - sum {
            return false;
        }
        sum = sum + tally;
        k = k + 1;
    }
    proof {
        assert(members@.take(members@.len() as int) =~= members@);
    }
    sum == total
}

/// The voters of the token at position `id` with their stakes, in the order
/// of their first votes.
pub open spec fn voters_at(votes: Seq<Option<VoteInfo>>, id: TokenId) -> Seq<(AccountId, Balance)> {
    match votes[id as int] {
        Some(info) => info.voters@,
        None => Seq::empty(),
    }
}

/// A token once its batch is settled: a winner is given the fixed supply, a
/// fifth of it set aside for the pool; the others have lost.
pub open spec fn settled(token: Token, wins: bool) -> Token {
    if wins {
        Token {
            status: TokenStatus::Winner,
            total_supply: WINNER_SUPPLY,
            pool_reserve: WINNER_SUPPLY / 5,
            ..token
        }
    } else {
        Token { status: TokenStatus::Lost, ..token }
    }
}

/// The pool of a token once its batch is settled: a winner gets a pool that
/// holds the reserve set aside for it.
pub open spec fn settled_pool(pool: Option<Pool>, id: TokenId, wins: bool, now: Timestamp)
    -> Option<Pool> {
    if wins {
        Some(
            Pool {
                token_id: id,
                token_reserve: WINNER_SUPPLY / 5,
                native_reserve: 0,
                total_volume: 0,
                total_fees: 0,
                fee_rate: crate::models::pool::DEFAULT_FEE_RATE,
                last_updated: now,
                volume_24h: 0,
                last_volume_update: now,
                total_liquidity: 0,
            },
        )
    } else {
        pool
    }
}

/// The stakes to hand back for the first `n` members: for each member that
/// has not won, in batch order, each of its voters with the stake, in the
/// order of the tally.
pub open spec fn refunds_among(
    votes: Seq<Option<VoteInfo>>,
    members: Seq<TokenId>,
    wins: Seq<bool>,
    n: int,
) -> Seq<(AccountId, Balance)>
    decreases n,
{
    if n <= 0 {
        Seq::empty()
    } else {
        refunds_among(votes, members, wins, n - 1) + if wins[n - 1] {
            Seq::empty()
        } else {
            voters_at(votes, members[n - 1])
        }
    }
}

/// The votes that a tally counts: none where there is no tally.
pub open spec fn tally_of(entry: Option<VoteInfo>) -> nat {
    match entry {
        Some(info) => info.total_votes as nat,
        None => 0,
    }
}

/// The votes counted for all tokens together.
pub open spec fn all_votes(votes: Seq<Option<VoteInfo>>) -> nat
    decreases votes.len(),
{
    if votes.len() == 0 {
        0
    } else {
        all_votes(votes.drop_last()) + tally_of(votes.last())
    }
}

/// The stakes placed by all accounts together.
pub open spec fn all_stakes(stakes: Seq<StakeInfo>) -> nat
    decreases stakes.len(),
{
    if stakes.len() == 0 {
        0
    } else {
        all_stakes(stakes.drop_last()) + stakes.last().total_staked as nat
    }
}

proof fn lemma_all_votes_update(votes: Seq<Option<VoteInfo>>, at: int, info: VoteInfo)
    requires
        0 <= at < votes.len(),
    ensures
        all_votes(votes.update(at, Some(info))) == all_votes(votes) - tally_of(votes[at])
            + info.total_votes,
    decreases votes.len(),
{
    let updated = votes.update(at, Some(info));
    if at == votes.len() - 1 {
        assert(updated.drop_last() =~= votes.drop_last());
    } else {
        lemma_all_votes_update(votes.drop_last(), at, info);
        assert(updated.drop_last() =~= votes.drop_last().update(at, Some(info)));
    }
}

proof fn lemma_all_stakes_update(stakes: Seq<StakeInfo>, at: int, record: StakeInfo)
    requires
        0 <= at < stakes.len(),
    ensures
        all_stakes(stakes.update(at, record)) == all_stakes(stakes) - stakes[at].total_staked
            + record.total_staked,
    decreases stakes.len(),
{
    let updated = stakes.update(at, record);
    if at == stakes.len() - 1 {
        assert(updated.drop_last() =~= stakes.drop_last());
    } else {
        lemma_all_stakes_update(stakes.drop_last(), at, record);
        assert(updated.drop_last() =~= stakes.drop_last().update(at, record));
    }
}

/// In a sound ledger the tally of every token is the sum of the stakes of its
/// voters. Every operation keeps the ledger sound, so this holds after any
/// sequence of votes.
pub proof fn lemma_tally_is_sum_of_stakes(ledger: TokenBlocks, token_id: TokenId)
    requires
        ledger.wf(),
        token_id < ledger.votes@.len(),
        ledger.votes@[token_id as int] is Some,
    ensures
        ledger.votes@[token_id as int]->Some_0.total_votes == crate::models::state::total_of(
            ledger.votes@[token_id as int]->Some_0.voters@,
        ),
{
    assert(ledger.token_ok(token_id as int));
}

/// In a sound ledger the total of every account is the sum of its stakes per
/// token. Every operation keeps the ledger sound, so this holds after any
/// sequence of stakes.
pub proof fn lemma_staked_total_is_sum_of_stakes(ledger: TokenBlocks, account: int)
    requires
        ledger.wf(),
        0 <= account < ledger.stakes@.len(),
    ensures
        ledger.stakes@[account].total_staked == crate::models::state::total_of(
            ledger.stakes@[account].stakes@,
        ),
{
    assert(ledger.stakes@[account].wf());
}

/// A vote adds its stake to the votes of all tokens together and to the
/// stakes of all accounts together: where the two sums agree before a vote,
/// they agree after it.
pub proof fn lemma_vote_conserves_stakes(
    before: TokenBlocks,
    after: TokenBlocks,
    token_id: TokenId,
    voter: AccountId,
    stake_amount: Balance,
    now: Timestamp,
)
    requires
        before.wf(),
        before.vote_error(token_id, voter@, stake_amount, now) is None,
        before.voted_to(&after, token_id, voter, stake_amount),
    ensures
        all_votes(after.votes@) == all_votes(before.votes@) + stake_amount,
        all_stakes(after.stakes@) == all_stakes(before.stakes@) + stake_amount,
{
    let at = token_id as int;
    let info = after.votes@[at]->Some_0;
    assert(after.votes@ =~= before.votes@.update(at, Some(info)));
    lemma_all_votes_update(before.votes@, at, info);
    if before.has_staker(voter@) {
        let p = before.staker_position(voter@);
        assert(after.stakes@ =~= before.stakes@.update(p, after.stakes@[p]));
        lemma_all_stakes_update(before.stakes@, p, after.stakes@[p]);
    } else {
        let p = before.stakes@.len() as int;
        assert(after.stakes@.drop_last() =~= before.stakes@);
    }
}

/// Whether `id` is in the list.
pub fn contains_token(list: &Vec<TokenId>, id: TokenId) -> (found: bool)
    ensures
        found == list@.contains(id),
{
    let mut k: usize = 0;
    while k < list.len()
        invariant
            k <= list@.len(),
            forall|j: int| 0 <= j < k ==> list@[j] != id,
        decreases list@.len() - k,
    {
        if list[k] == id {
            return true;
        }
        k = k + 1;
    }
    false
}

impl TokenBlocks {
    /// Whether `account` has a stake record.
    pub open spec fn has_staker(&self, account: Seq<char>) -> bool {
        exists|i: int|
            0 <= i < self.stakes@.len() && (#[trigger] self.stakes@[i]).account_id@ == account
    }

    /// The position of the stake record of `account`, where there is one.
    pub open spec fn staker_position(&self, account: Seq<char>) -> int {
        choose|i: int|
            0 <= i < self.stakes@.len() && (#[trigger] self.stakes@[i]).account_id@ == account
    }

    /// Everything that `account` has staked, where it has staked at all.
    pub open spec fn spec_user_stakes(&self, account: Seq<char>) -> Option<Balance> {
        if self.has_staker(account) {
            Some(self.stakes@[self.staker_position(account)].total_staked)
        } else {
            None
        }
    }

    /// The votes counted for `token_id`, where a vote was cast for it.
    pub open spec fn spec_votes(&self, token_id: TokenId) -> Option<Balance> {
        if token_id < self.votes@.len() && self.votes@[token_id as int] is Some {
            Some(self.votes@[token_id as int]->Some_0.total_votes)
        } else {
            None
        }
    }

    /// Why a vote is refused, if it is.
    pub open spec fn vote_error(
        &self,
        token_id: TokenId,
        voter: Seq<char>,
        stake_amount: Balance,
        now: Timestamp,
    ) -> Option<Error> {
        match self.current_block {
            None => Some(Error::NoActiveBlock),
            Some(block) => {
                let staked = match self.spec_user_stakes(voter) {
                    Some(total) => total,
                    None => 0,
                };
                if !block.spec_is_voting_phase(now) {
                    Some(Error::NotInVotingPhase)
                } else if stake_amount < block.min_stake {
                    Some(Error::StakeTooLow)
                } else if token_id >= self.tokens@.len() {
                    Some(Error::TokenNotFound)
                } else if !block.tokens@.contains(token_id) {
                    Some(Error::TokenNotInBlock)
                } else if self.tokens@[token_id as int].status != TokenStatus::InVoting {
                    Some(Error::TokenNotInVoting)
                } else if tally_at(self.votes@, token_id) + stake_amount > Balance::MAX || staked
                    + stake_amount > Balance::MAX || block.total_stakes + stake_amount
                    > Balance::MAX {
                    Some(Error::AmountOverflow)
                } else {
                    None
                }
            },
        }
    }

    /// Whether `after` is this state once `voter` has staked `stake_amount`
    /// on `token_id`: the tally of the token, the record of the voter and the
    /// total of the batch have each grown by the stake, and nothing else has
    /// changed.
    pub open spec fn voted_to(
        &self,
        after: &TokenBlocks,
        token_id: TokenId,
        voter: AccountId,
        stake_amount: Balance,
    ) -> bool {
        let block = self.current_block->Some_0;
        let at = token_id as int;
        &&& after.owner_id == self.owner_id
        &&& after.token_counter == self.token_counter
        &&& after.tokens@ == self.tokens@
        &&& after.pools@ == self.pools@
        &&& after.token_queue@ == self.token_queue@
        &&& after.min_stake == self.min_stake
        &&& after.platform_fee == self.platform_fee
        &&& after.current_block == Some(
            Block { total_stakes: (block.total_stakes + stake_amount) as Balance, ..block },
        )
        &&& after.votes@.len() == self.votes@.len()
        &&& forall|i: int|
            0 <= i < self.votes@.len() && i != at ==> #[trigger] after.votes@[i] == self.votes@[i]
        &&& after.votes@[at] matches Some(info) && info.total_votes == tally_at(
            self.votes@,
            token_id,
        ) + stake_amount && info.voters@ == entries_after(
            voters_at(self.votes@, token_id),
            voter,
            stake_amount,
        )
        &&& if self.has_staker(voter@) {
            let p = self.staker_position(voter@);
            &&& after.stakes@.len() == self.stakes@.len()
            &&& forall|i: int|
                0 <= i < self.stakes@.len() && i != p ==> #[trigger] after.stakes@[i]
                    == self.stakes@[i]
            &&& after.stakes@[p].account_id == self.stakes@[p].account_id
            &&& after.stakes@[p].total_staked == self.stakes@[p].total_staked + stake_amount
            &&& after.stakes@[p].stakes@ == self.stakes@[p].stakes_after(token_id, stake_amount)
        } else {
            let p = self.stakes@.len() as int;
            &&& after.stakes@.len() == p + 1
            &&& forall|i: int| 0 <= i < p ==> #[trigger] after.stakes@[i] == self.stakes@[i]
            &&& after.stakes@[p].account_id == voter
            &&& after.stakes@[p].total_staked == stake_amount
            &&& after.stakes@[p].stakes@ == seq![(token_id, stake_amount)]
        }
    }

    /// Looks for the stake record of `account`.
    pub fn find_staker(&self, account: &AccountId) -> (found: Option<usize>)
        ensures
            match found {
                Some(i) => i < self.stakes@.len() && self.stakes@[i as int].account_id@
                    == account@,
                None => !self.has_staker(account@),
            },
    {
        let mut i: usize = 0;
        while i < self.stakes.len()
            invariant
                i <= self.stakes@.len(),
                forall|j: int| 0 <= j < i ==> (#[trigger] self.stakes@[j]).account_id@ != account@,
            decreases self.stakes@.len() - i,
        {
            if self.stakes[i].account_id == *account {
                return Some(i);
            }
            i = i + 1;
        }
        None
    }

    /// Places a stake of `stake_amount` by `voter` on `token_id`. Taken only
    /// while the batch is in its voting phase, for a member of the batch that
    /// is being voted on, and with a stake of at least the minimum of the
    /// batch. The tally of the token, the record of the voter and the total
    /// of the batch grow together, or nothing changes.
    pub fn vote(
        &mut self,
        token_id: TokenId,
        voter: AccountId,
        stake_amount: Balance,
        now: Timestamp,
    ) -> (result: Result<bool, Error>)
        requires
            old(self).wf(),
        ensures
            final(self).wf(),
            match result {
                Ok(accepted) => {
                    &&& accepted
                    &&& old(self).vote_error(token_id, voter@, stake_amount, now) is None
                    &&& old(self).voted_to(final(self), token_id, voter, stake_amount)
                },
                Err(e) => old(self).vote_error(token_id, voter@, stake_amount, now) == Some(e)
                    && *final(self) == *old(self),
            },
    {
        let staker = self.find_staker(&voter);
        let total_stakes = match &self.current_block {
            None => {
                return Err(Error::NoActiveBlock);
            },
            Some(block) => {
                if !block.is_voting_phase(now) {
                    return Err(Error::NotInVotingPhase);
                }
                if stake_amount < block.min_stake {
                    return Err(Error::StakeTooLow);
                }
                if token_id >= self.tokens.len() as u64 {
                    return Err(Error::TokenNotFound);
                }
                if !contains_token(&block.tokens, token_id) {
                    return Err(Error::TokenNotInBlock);
                }
                block.total_stakes
            },
        };
        let at = token_id as usize;
        if !matches!(self.tokens[at].status, TokenStatus::InVoting) {
            return Err(Error::TokenNotInVoting);
        }
        let tally = match &self.votes[at] {
            Some(info) => info.total_votes,
            None => 0,
        };
        let staked = match staker {
            Some(p) => self.stakes[p].total_staked,
            None => 0,
        };
        proof {
            assert(old(self).token_ok(at as int));
            if let Some(p) = staker {
                assert(old(self).has_staker(voter@));
                assert(old(self).staker_position(voter@) == p);
            }
        }
        if stake_amount > u128::MAX - tally || stake_amount > u128::MAX - staked || stake_amount
            > u128::MAX - total_stakes {
            return Err(Error::AmountOverflow);
        }
        let mut slot: Option<VoteInfo> = None;
        core::mem::swap(&mut slot, &mut self.votes[at]);
        let mut info = match slot {
            Some(info) => info,
            None => VoteInfo::new(),
        };
        info.add_vote(&voter, stake_amount);
        self.votes[at] = Some(info);
        match staker {
            Some(p) => {
                self.stakes[p].add_stake(token_id, stake_amount);
            },
            None => {
                let mut record = StakeInfo::new(voter);
                record.add_stake(token_id, stake_amount);
                self.stakes.push(record);
            },
        }
        match &mut self.current_block {
            Some(block) => {
                block.total_stakes = block.total_stakes + stake_amount;
            },
            None => {},
        }
        proof {
            assert forall|i: int| 0 <= i < self.tokens@.len() implies self.token_ok(i) by {
                assert(old(self).token_ok(i));
            }
            assert forall|id: TokenId| old(self).unsettled(id) implies self.unsettled(id) by {}
            assert forall|i: int| 0 <= i < self.stakes@.len() implies (
            #[trigger] self.stakes@[i]).wf() by {
                if i < old(self).stakes@.len() {
                    assert(old(self).stakes@[i].wf());
                }
            }
            let members = old(self).current_block->Some_0.tokens@;
            let at = choose|at: int| 0 <= at < members.len() && members[at] == token_id;
            assert(!old(self).token_queue@.contains(members[at]));
            assert forall|k: int| 0 <= k < self.token_queue@.len() implies self.waiting(
                #[trigger] self.token_queue@[k],
            ) by {
                assert(old(self).waiting(old(self).token_queue@[k]));
                assert(old(self).token_queue@[k] != token_id);
            }
            lemma_staked_on_vote(old(self).votes@, self.votes@, members, token_id, stake_amount);
        }
        Ok(true)
    }

    /// The votes counted for `token_id`, where a vote was cast for it.
    pub fn get_votes(&self, token_id: TokenId) -> (votes: Option<Balance>)
        ensures
            votes == self.spec_votes(token_id),
    {
        if token_id >= self.votes.len() as u64 {
            return None;
        }
        match &self.votes[token_id as usize] {
            Some(info) => Some(info.total_votes),
            None => None,
        }
    }

    /// Everything that `account_id` has staked, where it has staked at all.
    pub fn get_user_stakes(&self, account_id: &AccountId) -> (staked: Option<Balance>)
        requires
            self.wf(),
        ensures
            staked == self.spec_user_stakes(account_id@),
    {
        match self.find_staker(account_id) {
            Some(p) => {
                assert(self.staker_position(account_id@) == p);
                Some(self.stakes[p].total_staked)
            },
            None => None,
        }
    }

    /// The tallies of the members of `block`, in batch order.
    pub open spec fn tallies(&self, block: Block) -> Seq<Balance> {
        Seq::new(block.tokens@.len(), |k: int| tally_at(self.votes@, block.tokens@[k]))
    }

    /// Which members of `block` win, in batch order.
    pub open spec fn wins(&self, block: Block) -> Seq<bool> {
        Seq::new(
            block.tokens@.len(),
            |k: int| is_winner(self.tallies(block), block.max_winners, k),
        )
    }

    /// Why the batch cannot be settled at `now`, if it cannot.
    pub open spec fn settlement_error(&self, now: Timestamp) -> Option<Error> {
        match self.current_block {
            None => Some(Error::NoActiveBlock),
            Some(block) => if now < block.voting_end_time {
                Some(Error::VotingNotEnded)
            } else if self.token_queue@.len() > 0 && now + ACCEPTING_TOKENS_DURATION
                + VOTING_DURATION > u64::MAX {
                Some(Error::TimeOverflow)
            } else {
                None
            },
        }
    }

    /// Whether `after` is this state with its batch settled at `now`: every
    /// member has won or lost, every winner has its supply and its pool, the
    /// batch is gone, and the next one has started if tokens waited.
    pub open spec fn settled_to(&self, after: &TokenBlocks, now: Timestamp) -> bool {
        let block = self.current_block->Some_0;
        let members = block.tokens@;
        let wins = self.wins(block);
        &&& after.owner_id == self.owner_id
        &&& after.token_counter == self.token_counter
        &&& after.votes@ == self.votes@
        &&& after.stakes@ == self.stakes@
        &&& after.min_stake == self.min_stake
        &&& after.platform_fee == self.platform_fee
        &&& after.tokens@.len() == self.tokens@.len()
        &&& after.pools@.len() == self.pools@.len()
        &&& forall|k: int|
            0 <= k < members.len() ==> after.tokens@[(#[trigger] members[k]) as int] == settled(
                self.tokens@[members[k] as int],
                wins[k],
            ) && after.pools@[members[k] as int] == settled_pool(
                self.pools@[members[k] as int],
                members[k],
                wins[k],
                now,
            )
        &&& forall|i: int|
            0 <= i < self.tokens@.len() && !members.contains(i as TokenId)
                ==> #[trigger] after.tokens@[i] == self.tokens@[i]
        &&& forall|i: int|
            0 <= i < self.tokens@.len() && !members.contains(i as TokenId)
                ==> #[trigger] after.pools@[i] == self.pools@[i]
        &&& if self.token_queue@.len() > 0 {
            &&& after.current_block == Some(self.next_block(now))
            &&& after.token_queue@.len() == 0
        } else {
            &&& after.current_block is None
            &&& after.token_queue@ == self.token_queue@
        }
    }

    /// Whether the batch exists and its voting has ended at `now`.
    pub open spec fn spec_is_voting_phase_ended(&self, now: Timestamp) -> bool {
        self.current_block matches Some(block) && now >= block.voting_end_time
    }

    /// Whether the batch exists and its voting has ended at `now`.
    #[verifier::when_used_as_spec(spec_is_voting_phase_ended)]
    pub fn is_voting_phase_ended(&self, now: Timestamp) -> (ended: bool)
        ensures
            ended == self.spec_is_voting_phase_ended(now),
    {
        match &self.current_block {
            Some(block) => now >= block.voting_end_time,
            None => false,
        }
    }

    /// Settles the batch once its voting has ended. The members are ranked by
    /// tally; the first `max_winners` win, are given their supply and get a
    /// pool; the others lose. Returned are the stakes to hand back: those
    /// placed on the losers. The batch is cleared, and the next one starts at
    /// `now` if tokens wait in the queue.
    pub fn process_voting_results(&mut self, now: Timestamp) -> (result: Result<
        Vec<(AccountId, Balance)>,
        Error,
    >)
        requires
            old(self).wf(),
        ensures
            final(self).wf(),
            match result {
                Ok(refunds) => {
                    let block = old(self).current_block->Some_0;
                    &&& old(self).settlement_error(now) is None
                    &&& old(self).settled_to(final(self), now)
                    &&& refunds@ == refunds_among(
                        old(self).votes@,
                        block.tokens@,
                        old(self).wins(block),
                        block.tokens@.len() as int,
                    )
                },
                Err(e) => old(self).settlement_error(now) == Some(e) && *final(self) == *old(self),
            },
    {
        match &self.current_block {
            None => {
                return Err(Error::NoActiveBlock);
            },
            Some(block) => {
                if now < block.voting_end_time {
                    return Err(Error::VotingNotEnded);
                }
            },
        }
        if self.token_queue.len() > 0 && now > u64::MAX - (ACCEPTING_TOKENS_DURATION
            + VOTING_DURATION) {
            return Err(Error::TimeOverflow);
        }
        let mut taken: Option<Block> = None;
        core::mem::swap(&mut taken, &mut self.current_block);
        let block = taken.unwrap();
        let tallies = Self::member_tallies(&self.votes, &block.tokens);
        let flags = select_winners(&tallies, block.max_winners);
        proof {
            assert(tallies@ =~= old(self).tallies(block));
            assert(flags@ =~= old(self).wins(block));
            assert forall|k: int| 0 <= k < block.tokens@.len() implies (
            #[trigger] block.tokens@[k]) < self.tokens@.len() && self.tokens@[block.tokens@[k] as int].total_supply
                == 0 by {
                assert(old(self).unsettled(block.tokens@[k]));
            }
        }
        let refunds = Self::settle_members(
            &mut self.tokens,
            &mut self.pools,
            &self.votes,
            &block.tokens,
            &flags,
            now,
        );
        proof {
            let members = block.tokens@;
            assert forall|i: int| 0 <= i < self.tokens@.len() implies self.token_ok(i) by {
                assert(old(self).token_ok(i));
                if members.contains(i as TokenId) {
                    let k = choose|k: int| 0 <= k < members.len() && members[k] == i as TokenId;
                    assert(members[k] == i);
                }
            }
            assert forall|k: int| 0 <= k < self.token_queue@.len() implies self.unsettled(
                #[trigger] self.token_queue@[k],
            ) by {
                let id = self.token_queue@[k];
                assert(old(self).unsettled(id));
                assert(!members.contains(id)) by {
                    if members.contains(id) {
                        let m = choose|m: int| 0 <= m < members.len() && members[m] == id;
                        assert(!old(self).token_queue@.contains(members[m]));
                    }
                }
            }
        }
        if self.token_queue.len() > 0 {
            let _ = self.start_block(now);
        }
        Ok(refunds)
    }

    /// The tallies of the listed tokens, in their order.
    fn member_tallies(votes: &Vec<Option<VoteInfo>>, members: &Vec<TokenId>) -> (tallies: Vec<
        Balance,
    >)
        requires
            forall|k: int| 0 <= k < members@.len() ==> (#[trigger] members@[k]) < votes@.len(),
        ensures
            tallies@.len() == members@.len(),
            forall|k: int|
                0 <= k < members@.len() ==> #[trigger] tallies@[k] == tally_at(votes@, members@[k]),
    {
        let mut tallies: Vec<Balance> = Vec::new();
        let size = votes.len();
        let mut k: usize = 0;
        while k < members.len()
            invariant
                size == votes@.len(),
                k <= members@.len(),
                tallies@.len() == k,
                forall|j: int| 0 <= j < members@.len() ==> (#[trigger] members@[j]) < votes@.len(),
                forall|j: int|
                    0 <= j < k ==> #[trigger] tallies@[j] == tally_at(votes@, members@[j]),
            decreases members@.len() - k,
        {
            let id = members[k];
            let tally = match &votes[id as usize] {
                Some(info) => info.total_votes,
                None => 0,
            };
            tallies.push(tally);
            k = k + 1;
        }
        tallies
    }

    /// Appends the voters of the token at position `token_id`, each with the
    /// stake, to `refunds`.
    fn return_stakes(
        votes: &Vec<Option<VoteInfo>>,
        token_id: TokenId,
        refunds: &mut Vec<(AccountId, Balance)>,
    )
        requires
            token_id < votes@.len(),
        ensures
            final(refunds)@ == old(refunds)@ + voters_at(votes@, token_id),
    {
        let size = votes.len();
        match &votes[token_id as usize] {
            None => {
                assert(refunds@ =~= refunds@ + Seq::<(AccountId, Balance)>::empty());
            },
            Some(info) => {
                let mut j: usize = 0;
                while j < info.voters.len()
                    invariant
                        j <= info.voters@.len(),
                        refunds@ == old(refunds)@ + info.voters@.take(j as int),
                    decreases info.voters@.len() - j,
                {
                    let voter = info.voters[j].0.clone();
                    let amount = info.voters[j].1;
                    proof {
                        assert(info.voters@.take(j + 1) =~= info.voters@.take(j as int).push(
                            info.voters@[j as int],
                        ));
                    }
                    refunds.push((voter, amount));
                    j = j + 1;
                }
                assert(info.voters@.take(info.voters@.len() as int) =~= info.voters@);
            },
        }
    }

    /// Marks every member as winner or loser, gives each winner its supply
    /// and its pool, and gathers the stakes placed on the losers.
    fn settle_members(
        tokens: &mut Vec<Token>,
        pools: &mut Vec<Option<Pool>>,
        votes: &Vec<Option<VoteInfo>>,
        members: &Vec<TokenId>,
        flags: &Vec<bool>,
        now: Timestamp,
    ) -> (refunds: Vec<(AccountId, Balance)>)
        requires
            old(pools)@.len() == old(tokens)@.len(),
            votes@.len() == old(tokens)@.len(),
            flags@.len() == members@.len(),
            members@.no_duplicates(),
            forall|k: int|
                0 <= k < members@.len() ==> (#[trigger] members@[k]) < old(tokens)@.len() && old(tokens)@[members@[k] as int].total_supply == 0,
        ensures
            final(tokens)@.len() == old(tokens)@.len(),
            final(pools)@.len() == old(pools)@.len(),
            forall|k: int|
                0 <= k < members@.len() ==> final(tokens)@[(#[trigger] members@[k]) as int]
                    == settled(old(tokens)@[members@[k] as int], flags@[k]) && final(pools)@[members@[k] as int] == settled_pool(
                    old(pools)@[members@[k] as int],
                    members@[k],
                    flags@[k],
                    now,
                ),
            forall|i: int|
                0 <= i < old(tokens)@.len() && !members@.contains(i as TokenId)
                    ==> #[trigger] final(tokens)@[i] == old(tokens)@[i],
            forall|i: int|
                0 <= i < old(tokens)@.len() && !members@.contains(i as TokenId)
                    ==> #[trigger] final(pools)@[i] == old(pools)@[i],
            refunds@ == refunds_among(votes@, members@, flags@, members@.len() as int),
    {
        let mut refunds: Vec<(AccountId, Balance)> = Vec::new();
        let size = tokens.len();
        let mut k: usize = 0;
        while k < members.len()
            invariant
                size == tokens@.len(),
                k <= members@.len(),
                tokens@.len() == old(tokens)@.len(),
                pools@.len() == old(pools)@.len(),
                old(pools)@.len() == old(tokens)@.len(),
                votes@.len() == old(tokens)@.len(),
                flags@.len() == members@.len(),
                members@.no_duplicates(),
                forall|j: int|
                    0 <= j < members@.len() ==> (#[trigger] members@[j]) < old(tokens)@.len()
                        && old(tokens)@[members@[j] as int].total_supply == 0,
                forall|j: int|
                    0 <= j < k ==> tokens@[(#[trigger] members@[j]) as int] == settled(
                        old(tokens)@[members@[j] as int],
                        flags@[j],
                    ) && pools@[members@[j] as int] == settled_pool(
                        old(pools)@[members@[j] as int],
                        members@[j],
                        flags@[j],
                        now,
                    ),
                forall|i: int|
                    0 <= i < old(tokens)@.len() && !members@.take(k as int).contains(i as TokenId)
                        ==> #[trigger] tokens@[i] == old(tokens)@[i],
                forall|i: int|
                    0 <= i < old(tokens)@.len() && !members@.take(k as int).contains(i as TokenId)
                        ==> #[trigger] pools@[i] == old(pools)@[i],
                refunds@ == refunds_among(votes@, members@, flags@, k as int),
            decreases members@.len() - k,
        {
            let id = members[k];
            let at = id as usize;
            let ghost tokens_before = tokens@;
            let ghost pools_before = pools@;
            let ghost seen = members@.take(k as int);
            proof {
                assert(!seen.contains(id)) by {
                    if seen.contains(id) {
                        let j = choose|j: int| 0 <= j < seen.len() && seen[j] == id;
                        assert(members@[j] == members@[k as int]);
                    }
                }
                assert(tokens@[at as int] == old(tokens)@[at as int]);
            }
            if flags[k] {
                tokens[at].status = TokenStatus::Winner;
                let _ = tokens[at].initialize_supply(WINNER_SUPPLY);
                let reserve = tokens[at].pool_reserve;
                pools[at] = Some(Pool::new(id, reserve, now));
                proof {
                    assert(refunds@ =~= refunds@ + Seq::<(AccountId, Balance)>::empty());
                }
            } else {
                tokens[at].status = TokenStatus::Lost;
                Self::return_stakes(votes, id, &mut refunds);
            }
            k = k + 1;
            proof {
                assert(members@.take(k as int) =~= seen.push(id));
                assert forall|t: TokenId| !(#[trigger] members@.take(k as int).contains(t)) implies !seen.contains(
                    t,
                ) && t != id by {
                    if seen.contains(t) {
                        let j = choose|j: int| 0 <= j < seen.len() && seen[j] == t;
                        assert(seen.push(id)[j] == t);
                    }
                    if t == id {
                        assert(seen.push(id)[seen.len() as int] == id);
                    }
                }
                assert forall|i: int|
                    0 <= i < old(tokens)@.len() && !members@.take(k as int).contains(
                        i as TokenId,
                    ) implies #[trigger] tokens@[i] == old(tokens)@[i] by {
                    assert(tokens_before[i] == old(tokens)@[i]);
                }
                assert forall|i: int|
                    0 <= i < old(tokens)@.len() && !members@.take(k as int).contains(
                        i as TokenId,
                    ) implies #[trigger] pools@[i] == old(pools)@[i] by {
                    assert(pools_before[i] == old(pools)@[i]);
                }
            }
        }
        proof {
            assert(members@.take(k as int) =~= members@);
        }
        refunds
    }
}

} // verus!
