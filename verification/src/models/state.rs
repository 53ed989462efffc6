//! Vote tallies per token and stake totals per account.

use vstd::prelude::*;

use crate::{AccountId, Balance, TokenId};

verus! {

/// Sum of the amounts of a list of entries.
pub open spec fn total_of<K>(entries: Seq<(K, Balance)>) -> nat
    decreases entries.len(),
{
    if entries.len() == 0 {
        0
    } else {
        total_of(entries.drop_last()) + entries.last().1 as nat
    }
}

/// Adding an entry at the end adds its amount to the sum.
pub proof fn lemma_total_of_push<K>(entries: Seq<(K, Balance)>, entry: (K, Balance))
    ensures
        total_of(entries.push(entry)) == total_of(entries) + entry.1,
{
    assert(entries.push(entry).drop_last() =~= entries);
}

/// Replacing an entry changes the sum by the difference of the two amounts.
pub proof fn lemma_total_of_update<K>(entries: Seq<(K, Balance)>, i: int, entry: (K, Balance))
    requires
        0 <= i < entries.len(),
    ensures
        total_of(entries.update(i, entry)) == total_of(entries) - entries[i].1 + entry.1,
    decreases entries.len(),
{
    if i == entries.len() - 1 {
        assert(entries.update(i, entry).drop_last() =~= entries.drop_last());
    } else {
        lemma_total_of_update(entries.drop_last(), i, entry);
        assert(entries.update(i, entry).drop_last() =~= entries.drop_last().update(i, entry));
    }
}

/// No single amount exceeds the sum.
pub proof fn lemma_total_of_bounds_each<K>(entries: Seq<(K, Balance)>, i: int)
    requires
        0 <= i < entries.len(),
    ensures
        entries[i].1 <= total_of(entries),
    decreases entries.len(),
{
    if i < entries.len() - 1 {
        lemma_total_of_bounds_each(entries.drop_last(), i);
    }
}

/// The sum of a part of the entries, from the start, is no more than the sum
/// of all.
pub proof fn lemma_total_of_take<K>(entries: Seq<(K, Balance)>, n: int)
    requires
        0 <= n <= entries.len(),
    ensures
        total_of(entries.take(n)) <= total_of(entries),
    decreases entries.len() - n,
{
    if n < entries.len() {
        lemma_total_of_take(entries, n + 1);
        assert(entries.take(n + 1).drop_last() =~= entries.take(n));
    } else {
        assert(entries.take(n) =~= entries);
    }
}

/// Whether `total` is the sum of the amounts of the entries.
pub fn total_matches<K>(entries: &Vec<(K, Balance)>, total: Balance) -> (matches: bool)
    ensures
        matches == (total == total_of(entries@)),
{
    let mut sum: Balance = 0;
    let mut i: usize = 0;
    while i < entries.len()
        invariant
            i <= entries@.len(),
            sum == total_of(entries@.take(i as int)),
        decreases entries@.len() - i,
    {
        let amount = entries[i].1;
        proof {
            assert(entries@.take(i + 1).drop_last() =~= entries@.take(i as int));
            lemma_total_of_take(entries@, i + 1);
        }
        if amount > Balance::MAX - sum {
            return false;
        }
        sum = sum + amount;
        i = i + 1;
    }
    proof {
        assert(entries@.take(entries@.len() as int) =~= entries@);
    }
    sum == total
}

/// Whether `voter` has an entry in a list of voters.
pub open spec fn has_entry(entries: Seq<(AccountId, Balance)>, voter: Seq<char>) -> bool {
    exists|i: int| 0 <= i < entries.len() && (#[trigger] entries[i]).0@ == voter
}

/// The position of the entry of `voter`, where there is one.
pub open spec fn entry_position(entries: Seq<(AccountId, Balance)>, voter: Seq<char>) -> int {
    choose|i: int| 0 <= i < entries.len() && (#[trigger] entries[i]).0@ == voter
}

/// A list of voters after `voter` has staked `amount` more: the voter's entry
/// grows where it stands, or a new entry is added at the end.
pub open spec fn entries_after(
    entries: Seq<(AccountId, Balance)>,
    voter: AccountId,
    amount: Balance,
) -> Seq<(AccountId, Balance)> {
    if has_entry(entries, voter@) {
        let i = entry_position(entries, voter@);
        entries.update(i, (entries[i].0, (entries[i].1 + amount) as Balance))
    } else {
        entries.push((voter, amount))
    }
}

/// The votes cast for one token.
#[derive(Debug, PartialEq, Eq)]
pub struct VoteInfo {
    pub total_votes: Balance,
    /// Each voter with the stake accumulated on this token, in the order of
    /// the voters' first votes.
    pub voters: Vec<(AccountId, Balance)>,
}

impl VoteInfo {
    /// Whether `voter` has an entry.
    pub open spec fn has_voter(&self, voter: Seq<char>) -> bool {
        has_entry(self.voters@, voter)
    }

    /// The position of the entry of `voter`, where there is one.
    pub open spec fn position_of(&self, voter: Seq<char>) -> int {
        entry_position(self.voters@, voter)
    }

    /// The stake that `voter` has accumulated on this token.
    pub open spec fn stake_of(&self, voter: Seq<char>) -> nat {
        if self.has_voter(voter) {
            self.voters@[self.position_of(voter)].1 as nat
        } else {
            0
        }
    }

    /// The total equals the sum of the voters' stakes, and no voter has two
    /// entries.
    pub open spec fn wf(&self) -> bool {
        &&& self.total_votes == total_of(self.voters@)
        &&& forall|i: int, j: int|
            0 <= i < j < self.voters@.len() ==> (#[trigger] self.voters@[i]).0@ != (
            #[trigger] self.voters@[j]).0@
    }

    /// The entries after `voter` has staked `amount` more: the voter's entry
    /// grows where it stands, or a new entry is added at the end.
    pub open spec fn voters_after(&self, voter: AccountId, amount: Balance) -> Seq<
        (AccountId, Balance),
    > {
        entries_after(self.voters@, voter, amount)
    }

    /// Checks the tally: whether the total is the sum of the stakes and no
    /// voter has two entries.
    pub fn is_well_formed(&self) -> (sound: bool)
        ensures
            sound == self.wf(),
    {
        if !total_matches(&self.voters, self.total_votes) {
            return false;
        }
        let mut j: usize = 0;
        while j < self.voters.len()
            invariant
                j <= self.voters@.len(),
                forall|a: int, b: int|
                    0 <= a < b < j ==> (#[trigger] self.voters@[a]).0@ != (
                    #[trigger] self.voters@[b]).0@,
            decreases self.voters@.len() - j,
        {
            let mut i: usize = 0;
            while i < j
                invariant
                    i <= j < self.voters@.len(),
                    forall|a: int| 0 <= a < i ==> (#[trigger] self.voters@[a]).0@ != self.voters@[j as int].0@,
                decreases j - i,
            {
                if self.voters[i].0 == self.voters[j].0 {
                    return false;
                }
                i = i + 1;
            }
            j = j + 1;
        }
        true
    }

    /// A tally without votes.
    pub fn new() -> (info: VoteInfo)
        ensures
            info.total_votes == 0,
            info.voters@ == Seq::<(AccountId, Balance)>::empty(),
            info.wf(),
    {
        VoteInfo { total_votes: 0, voters: Vec::new() }
    }

    /// Records that `voter` stakes `amount` on this token.
    pub fn add_vote(&mut self, voter: &AccountId, amount: Balance)
        requires
            old(self).wf(),
            old(self).total_votes + amount <= Balance::MAX,
        ensures
            final(self).wf(),
            final(self).total_votes == old(self).total_votes + amount,
            final(self).voters@ == old(self).voters_after(*voter, amount),
            final(self).stake_of(voter@) == old(self).stake_of(voter@) + amount,
            forall|other: Seq<char>|
                other != voter@ ==> final(self).stake_of(other) == old(self).stake_of(other),
    {
        let ghost before = *self;
        match self.find_voter(voter) {
            Some(i) => {
                proof {
                    lemma_total_of_bounds_each(self.voters@, i as int);
                    lemma_total_of_update(
                        self.voters@,
                        i as int,
                        (self.voters@[i as int].0, (self.voters@[i as int].1 + amount) as Balance),
                    );
                    assert(before.position_of(voter@) == i);
                }
                let name = self.voters[i].0.clone();
                let staked = self.voters[i].1 + amount;
                self.voters.set(i, (name, staked));
                self.total_votes = self.total_votes + amount;
                proof {
                    assert(self.voters@[i as int].0@ == voter@);
                    assert(self.position_of(voter@) == i);
                }
            },
            None => {
                proof {
                    lemma_total_of_push(self.voters@, (*voter, amount));
                }
                self.voters.push((voter.clone(), amount));
                self.total_votes = self.total_votes + amount;
                proof {
                    let last = before.voters@.len() as int;
                    assert(self.voters@[last].0@ == voter@);
                    assert(self.position_of(voter@) == last);
                }
            },
        }
        proof {
            assert forall|other: Seq<char>| other != voter@ implies self.stake_of(other)
                == before.stake_of(other) by {
                if before.has_voter(other) {
                    let k = before.position_of(other);
                    assert(self.voters@[k].0@ == other);
                    assert(self.position_of(other) == k);
                } else if self.has_voter(other) {
                    let k = self.position_of(other);
                    assert(before.voters@[k].0@ == other);
                }
            }
        }
    }

    /// Looks for the entry of `voter`.
    pub fn find_voter(&self, voter: &AccountId) -> (found: Option<usize>)
        ensures
            match found {
                Some(i) => i < self.voters@.len() && self.voters@[i as int].0@ == voter@,
                None => !self.has_voter(voter@),
            },
    {
        let mut i: usize = 0;
        while i < self.voters.len()
            invariant
                i <= self.voters@.len(),
                forall|j: int| 0 <= j < i ==> (#[trigger] self.voters@[j]).0@ != voter@,
            decreases self.voters@.len() - i,
        {
            if self.voters[i].0 == *voter {
                return Some(i);
            }
            i = i + 1;
        }
        None
    }
}

/// The stakes placed by one account.
#[derive(Debug, PartialEq, Eq)]
pub struct StakeInfo {
    pub account_id: AccountId,
    /// Each token with the stake accumulated on it by this account, in the
    /// order of the account's first stakes.
    pub stakes: Vec<(TokenId, Balance)>,
    pub total_staked: Balance,
}

impl StakeInfo {
    /// Whether the account has an entry for `token_id`.
    pub open spec fn has_token(&self, token_id: TokenId) -> bool {
        exists|i: int| 0 <= i < self.stakes@.len() && (#[trigger] self.stakes@[i]).0 == token_id
    }

    /// The position of the entry of `token_id`, where there is one.
    pub open spec fn position_of(&self, token_id: TokenId) -> int {
        choose|i: int| 0 <= i < self.stakes@.len() && (#[trigger] self.stakes@[i]).0 == token_id
    }

    /// The stake that the account has accumulated on `token_id`.
    pub open spec fn stake_on(&self, token_id: TokenId) -> nat {
        if self.has_token(token_id) {
            self.stakes@[self.position_of(token_id)].1 as nat
        } else {
            0
        }
    }

    /// The total equals the sum of the stakes per token, and no token has two
    /// entries.
    pub open spec fn wf(&self) -> bool {
        &&& self.total_staked == total_of(self.stakes@)
        &&& forall|i: int, j: int|
            0 <= i < j < self.stakes@.len() ==> (#[trigger] self.stakes@[i]).0 != (
            #[trigger] self.stakes@[j]).0
    }

    /// The entries after the account has staked `amount` more on `token_id`:
    /// the token's entry grows where it stands, or a new entry is added at the
    /// end.
    pub open spec fn stakes_after(&self, token_id: TokenId, amount: Balance) -> Seq<
        (TokenId, Balance),
    > {
        if self.has_token(token_id) {
            let i = self.position_of(token_id);
            self.stakes@.update(i, (token_id, (self.stakes@[i].1 + amount) as Balance))
        } else {
            self.stakes@.push((token_id, amount))
        }
    }

    /// Checks the record: whether the total is the sum of the stakes and no
    /// token has two entries.
    pub fn is_well_formed(&self) -> (sound: bool)
        ensures
            sound == self.wf(),
    {
        if !total_matches(&self.stakes, self.total_staked) {
            return false;
        }
        let mut j: usize = 0;
        while j < self.stakes.len()
            invariant
                j <= self.stakes@.len(),
                forall|a: int, b: int|
                    0 <= a < b < j ==> (#[trigger] self.stakes@[a]).0 != (
                    #[trigger] self.stakes@[b]).0,
            decreases self.stakes@.len() - j,
        {
            let mut i: usize = 0;
            while i < j
                invariant
                    i <= j < self.stakes@.len(),
                    forall|a: int| 0 <= a < i ==> (#[trigger] self.stakes@[a]).0 != self.stakes@[j as int].0,
                decreases j - i,
            {
                if self.stakes[i].0 == self.stakes[j].0 {
                    return false;
                }
                i = i + 1;
            }
            j = j + 1;
        }
        true
    }

    /// The record of an account that has staked nothing.
    pub fn new(account_id: AccountId) -> (info: StakeInfo)
        ensures
            info.account_id == account_id,
            info.stakes@ == Seq::<(TokenId, Balance)>::empty(),
            info.total_staked == 0,
            info.wf(),
    {
        StakeInfo { account_id, stakes: Vec::new(), total_staked: 0 }
    }

    /// Records that the account stakes `amount` on `token_id`.
    pub fn add_stake(&mut self, token_id: TokenId, amount: Balance)
        requires
            old(self).wf(),
            old(self).total_staked + amount <= Balance::MAX,
        ensures
            final(self).wf(),
            final(self).account_id == old(self).account_id,
            final(self).total_staked == old(self).total_staked + amount,
            final(self).stakes@ == old(self).stakes_after(token_id, amount),
            final(self).stake_on(token_id) == old(self).stake_on(token_id) + amount,
            forall|other: TokenId|
                other != token_id ==> final(self).stake_on(other) == old(self).stake_on(other),
    {
        let ghost before = *self;
        match self.find_token(token_id) {
            Some(i) => {
                proof {
                    lemma_total_of_bounds_each(self.stakes@, i as int);
                    lemma_total_of_update(
                        self.stakes@,
                        i as int,
                        (token_id, (self.stakes@[i as int].1 + amount) as Balance),
                    );
                    assert(before.position_of(token_id) == i);
                }
                let staked = self.stakes[i].1 + amount;
                self.stakes.set(i, (token_id, staked));
                self.total_staked = self.total_staked + amount;
                proof {
                    assert(self.stakes@[i as int].0 == token_id);
                    assert(self.position_of(token_id) == i);
                }
            },
            None => {
                proof {
                    lemma_total_of_push(self.stakes@, (token_id, amount));
                }
                self.stakes.push((token_id, amount));
                self.total_staked = self.total_staked + amount;
                proof {
                    let last = before.stakes@.len() as int;
                    assert(self.stakes@[last].0 == token_id);
                    assert(self.position_of(token_id) == last);
                }
            },
        }
        proof {
            assert forall|other: TokenId| other != token_id implies self.stake_on(other)
                == before.stake_on(other) by {
                if before.has_token(other) {
                    let k = before.position_of(other);
                    assert(self.stakes@[k].0 == other);
                    assert(self.position_of(other) == k);
                } else if self.has_token(other) {
                    let k = self.position_of(other);
                    assert(before.stakes@[k].0 == other);
                }
            }
        }
    }

    /// Looks for the entry of `token_id`.
    pub fn find_token(&self, token_id: TokenId) -> (found: Option<usize>)
        ensures
            match found {
                Some(i) => i < self.stakes@.len() && self.stakes@[i as int].0 == token_id,
                None => !self.has_token(token_id),
            },
    {
        let mut i: usize = 0;
        while i < self.stakes.len()
            invariant
                i <= self.stakes@.len(),
                forall|j: int| 0 <= j < i ==> (#[trigger] self.stakes@[j]).0 != token_id,
            decreases self.stakes@.len() - i,
        {
            if self.stakes[i].0 == token_id {
                return Some(i);
            }
            i = i + 1;
        }
        None
    }
}

} // verus!
