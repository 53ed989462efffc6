//! A batch of proposals and the phases it moves through.

use vstd::prelude::*;

use crate::{Balance, Timestamp, TokenId};

verus! {

/// The phases of a batch, in the order in which time brings them.
#[derive(Clone, Copy, Debug, PartialEq, Eq, Structural)]
pub enum BlockPhase {
    AcceptingTokens,
    Voting,
    Public,
    Completed,
}

impl BlockPhase {
    /// Position of the phase in the cycle, from 0 for `AcceptingTokens` to 3
    /// for `Completed`.
    pub open spec fn index(self) -> nat {
        match self {
            BlockPhase::AcceptingTokens => 0,
            BlockPhase::Voting => 1,
            BlockPhase::Public => 2,
            BlockPhase::Completed => 3,
        }
    }

    /// The name under which a phase is shown.
    pub open spec fn name(self) -> Seq<char> {
        match self {
            BlockPhase::AcceptingTokens => "AcceptingTokens"@,
            BlockPhase::Voting => "Voting"@,
            BlockPhase::Public => "Public"@,
            BlockPhase::Completed => "Completed"@,
        }
    }
}

/// The phase of a batch that started at `start` with the three durations
/// `accepting`, `voting` and `public`, when the clock shows `now`.
pub open spec fn phase_at(start: int, accepting: int, voting: int, public: int, now: int)
    -> BlockPhase {
    if now < start + accepting {
        BlockPhase::AcceptingTokens
    } else if now < start + accepting + voting {
        BlockPhase::Voting
    } else if now < start + accepting + voting + public {
        BlockPhase::Public
    } else {
        BlockPhase::Completed
    }
}

/// Whether no identifier occurs twice in the list.
pub fn has_no_duplicates(list: &Vec<TokenId>) -> (distinct: bool)
    ensures
        distinct == list@.no_duplicates(),
{
    let mut j: usize = 0;
    while j < list.len()
        invariant
            j <= list@.len(),
            forall|a: int, b: int| 0 <= a < b < j ==> list@[a] != list@[b],
        decreases list@.len() - j,
    {
        let mut i: usize = 0;
        while i < j
            invariant
                i <= j < list@.len(),
                forall|a: int| 0 <= a < i ==> list@[a] != list@[j as int],
            decreases j - i,
        {
            if list[i] == list[j] {
                return false;
            }
            i = i + 1;
        }
        j = j + 1;
    }
    true
}

/// The current batch.
#[derive(Debug, PartialEq, Eq)]
pub struct Block {
    pub start_time: Timestamp,
    pub accepting_tokens_duration: u64,
    pub voting_duration: u64,
    pub public_duration: u64,
    pub min_stake: Balance,
    pub max_winners: u8,
    /// The member tokens, in the order in which they joined.
    pub tokens: Vec<TokenId>,
    /// Sum of all stakes placed on members of this batch.
    pub total_stakes: Balance,
    /// The phase as of the last refresh. The clock decides; this is a cache.
    pub phase: BlockPhase,
    pub voting_end_time: Timestamp,
}

impl Block {
    /// The moment at which voting ends.
    pub open spec fn voting_end(&self) -> int {
        self.start_time + self.accepting_tokens_duration + self.voting_duration
    }

    /// The phase that the clock gives this batch at `now`, whatever the cache
    /// says.
    pub open spec fn phase_at(&self, now: Timestamp) -> BlockPhase {
        phase_at(
            self.start_time as int,
            self.accepting_tokens_duration as int,
            self.voting_duration as int,
            self.public_duration as int,
            now as int,
        )
    }

    /// The end of voting is recorded as the schedule gives it, and no token is
    /// a member twice.
    pub open spec fn wf(&self) -> bool {
        &&& self.voting_end_time == self.voting_end()
        &&& self.tokens@.no_duplicates()
    }

    pub open spec fn spec_is_accepting_tokens(&self, current_time: Timestamp) -> bool {
        self.phase == BlockPhase::AcceptingTokens && self.phase_at(current_time)
            == BlockPhase::AcceptingTokens
    }

    pub open spec fn spec_is_voting_phase(&self, current_time: Timestamp) -> bool {
        self.phase == BlockPhase::Voting && self.phase_at(current_time) == BlockPhase::Voting
    }

    pub open spec fn spec_is_public_phase(&self, current_time: Timestamp) -> bool {
        self.phase == BlockPhase::Public && self.phase_at(current_time) == BlockPhase::Public
    }

    /// Checks the batch: whether the end of voting is recorded as the
    /// schedule gives it, and no token is a member twice.
    pub fn is_well_formed(&self) -> (sound: bool)
        ensures
            sound == self.wf(),
    {
        let voting_end: u128 = self.start_time as u128 + self.accepting_tokens_duration as u128
            + self.voting_duration as u128;
        self.voting_end_time as u128 == voting_end && has_no_duplicates(&self.tokens)
    }

    /// An empty batch that starts at `start_time`, in its first phase.
    pub fn new(
        start_time: Timestamp,
        accepting_tokens_duration: u64,
        voting_duration: u64,
        public_duration: u64,
        min_stake: Balance,
        max_winners: u8,
    ) -> (block: Block)
        requires
            start_time + accepting_tokens_duration + voting_duration <= u64::MAX,
        ensures
            block.start_time == start_time,
            block.accepting_tokens_duration == accepting_tokens_duration,
            block.voting_duration == voting_duration,
            block.public_duration == public_duration,
            block.min_stake == min_stake,
            block.max_winners == max_winners,
            block.tokens@ == Seq::<TokenId>::empty(),
            block.total_stakes == 0,
            block.phase == BlockPhase::AcceptingTokens,
            block.voting_end_time == start_time + accepting_tokens_duration + voting_duration,
            block.wf(),
    {
        let voting_end_time = start_time + accepting_tokens_duration + voting_duration;
        Block {
            start_time,
            accepting_tokens_duration,
            voting_duration,
            public_duration,
            min_stake,
            max_winners,
            tokens: Vec::new(),
            total_stakes: 0,
            phase: BlockPhase::AcceptingTokens,
            voting_end_time,
        }
    }

    /// Appends a token to the members.
    pub fn add_token(&mut self, token_id: TokenId)
        ensures
            final(self).tokens@ == old(self).tokens@.push(token_id),
            final(self).start_time == old(self).start_time,
            final(self).accepting_tokens_duration == old(self).accepting_tokens_duration,
            final(self).voting_duration == old(self).voting_duration,
            final(self).public_duration == old(self).public_duration,
            final(self).min_stake == old(self).min_stake,
            final(self).max_winners == old(self).max_winners,
            final(self).total_stakes == old(self).total_stakes,
            final(self).phase == old(self).phase,
            final(self).voting_end_time == old(self).voting_end_time,
            old(self).wf() && !old(self).tokens@.contains(token_id) ==> final(self).wf(),
    {
        self.tokens.push(token_id);
    }

    /// Computes the phase that the clock gives at `current_time`.
    pub fn compute_phase(&self, current_time: Timestamp) -> (phase: BlockPhase)
        ensures
            phase == self.phase_at(current_time),
    {
        let now: u128 = current_time as u128;
        let accepting_end: u128 = self.start_time as u128 + self.accepting_tokens_duration as u128;
        let voting_end: u128 = accepting_end + self.voting_duration as u128;
        let public_end: u128 = voting_end + self.public_duration as u128;
        if now < accepting_end {
            BlockPhase::AcceptingTokens
        } else if now < voting_end {
            BlockPhase::Voting
        } else if now < public_end {
            BlockPhase::Public
        } else {
            BlockPhase::Completed
        }
    }

    /// Sets the cached phase to what the clock gives at `current_time`.
    /// Nothing else changes, and a second call with the same time changes
    /// nothing at all.
    pub fn update_phase(&mut self, current_time: Timestamp)
        ensures
            *final(self) == (Block { phase: old(self).phase_at(current_time), ..*old(self) }),
    {
        self.phase = self.compute_phase(current_time);
    }

    /// Whether the batch takes new members: the cache says so and the clock
    /// agrees.
    #[verifier::when_used_as_spec(spec_is_accepting_tokens)]
    pub fn is_accepting_tokens(&self, current_time: Timestamp) -> (accepting: bool)
        ensures
            accepting == self.spec_is_accepting_tokens(current_time),
    {
        matches!(self.phase, BlockPhase::AcceptingTokens) && matches!(
            self.compute_phase(current_time),
            BlockPhase::AcceptingTokens
        )
    }

    /// Whether votes are taken: the cache says so and the clock agrees.
    #[verifier::when_used_as_spec(spec_is_voting_phase)]
    pub fn is_voting_phase(&self, current_time: Timestamp) -> (voting: bool)
        ensures
            voting == self.spec_is_voting_phase(current_time),
    {
        matches!(self.phase, BlockPhase::Voting) && matches!(
            self.compute_phase(current_time),
            BlockPhase::Voting
        )
    }

    /// Whether the batch is in its public phase: the cache says so and the
    /// clock agrees.
    #[verifier::when_used_as_spec(spec_is_public_phase)]
    pub fn is_public_phase(&self, current_time: Timestamp) -> (public: bool)
        ensures
            public == self.spec_is_public_phase(current_time),
    {
        matches!(self.phase, BlockPhase::Public) && matches!(
            self.compute_phase(current_time),
            BlockPhase::Public
        )
    }
}

/// The phase never goes back: a later clock gives the same phase or a later
/// one.
pub proof fn lemma_phase_monotonic(block: Block, earlier: Timestamp, later: Timestamp)
    requires
        earlier <= later,
    ensures
        block.phase_at(earlier).index() <= block.phase_at(later).index(),
{
}

/// Every clock value has exactly one phase, fixed by the start and the three
/// durations alone: the cached phase and the members play no part.
pub proof fn lemma_phase_depends_on_schedule_only(a: Block, b: Block, now: Timestamp)
    requires
        a.start_time == b.start_time,
        a.accepting_tokens_duration == b.accepting_tokens_duration,
        a.voting_duration == b.voting_duration,
        a.public_duration == b.public_duration,
    ensures
        a.phase_at(now) == b.phase_at(now),
{
}

/// A batch as it is shown to readers of the ledger.
#[derive(Debug, PartialEq, Eq)]
pub struct BlockView {
    pub start_time: Timestamp,
    pub accepting_tokens_duration: u64,
    pub voting_duration: u64,
    pub public_duration: u64,
    pub min_stake: Balance,
    pub max_winners: u8,
    pub tokens: Vec<TokenId>,
    pub total_stakes: Balance,
    /// Name of the cached phase.
    pub phase: String,
}

impl BlockView {
    /// Whether this view shows `block`: the same schedule, limits, members and
    /// stakes, and the phase by its name.
    pub open spec fn shows(&self, block: Block) -> bool {
        &&& self.start_time == block.start_time
        &&& self.accepting_tokens_duration == block.accepting_tokens_duration
        &&& self.voting_duration == block.voting_duration
        &&& self.public_duration == block.public_duration
        &&& self.min_stake == block.min_stake
        &&& self.max_winners == block.max_winners
        &&& self.tokens@ == block.tokens@
        &&& self.total_stakes == block.total_stakes
        &&& self.phase@ == block.phase.name()
    }

}

impl<'a> From<&'a Block> for BlockView {
    /// The view that shows `block`.
    fn from(block: &'a Block) -> (view: BlockView)
        ensures
            view.shows(*block),
    {
        let phase = match block.phase {
            BlockPhase::AcceptingTokens => "AcceptingTokens".to_owned(),
            BlockPhase::Voting => "Voting".to_owned(),
            BlockPhase::Public => "Public".to_owned(),
            BlockPhase::Completed => "Completed".to_owned(),
        };
        BlockView {
            start_time: block.start_time,
            accepting_tokens_duration: block.accepting_tokens_duration,
            voting_duration: block.voting_duration,
            public_duration: block.public_duration,
            min_stake: block.min_stake,
            max_winners: block.max_winners,
            tokens: block.tokens.clone(),
            total_stakes: block.total_stakes,
            phase,
        }
    }
}

/// Two strings may show the same text without being the same value, so the
/// conversion is described by [`BlockView::shows`] and not by an equation.
impl<'a> vstd::std_specs::convert::FromSpecImpl<&'a Block> for BlockView {
    open spec fn obeys_from_spec() -> bool {
        false
    }

    open spec fn from_spec(block: &'a Block) -> BlockView {
        arbitrary()
    }
}

} // verus!
