//! Checks on what callers hand in.

use vstd::prelude::*;
use vstd::utf8::encode_utf8;

use crate::error::Error;
use crate::models::block::{Block, BlockPhase};
use crate::models::state::StakeInfo;
use crate::models::token::TokenMetadata;
use crate::{AccountId, Balance, Timestamp};

verus! {

/// Asks `str::starts_with` whether `text` begins with `prefix`. Not proved:
/// the contract says what the standard library documents, that the result is
/// true exactly when the pattern matches a prefix of the string.
#[verifier::external_body]
fn starts_with(text: &str, prefix: &str) -> (starts: bool)
    ensures
        starts == prefix@.is_prefix_of(text@),
{
    text.starts_with(prefix)
}

/// The length of `text` in bytes.
fn byte_len(text: &str) -> (bytes: usize)
    ensures
        bytes == encode_utf8(text@).len(),
{
    text.as_bytes().len()
}

/// The checks, gathered under one name.
pub struct Validation;

impl Validation {
    /// Whether `stakes` holds a record of `voter`.
    pub open spec fn is_voter(voter: Seq<char>, stakes: Seq<StakeInfo>) -> bool {
        exists|i: int| 0 <= i < stakes.len() && (#[trigger] stakes[i]).account_id@ == voter
    }

    /// Why metadata is not acceptable, if it is not. The title must not be
    /// empty nor longer than 100 bytes; a description must not be longer than
    /// 1000 bytes; a media reference must not be empty and must begin with
    /// `ipfs://` or `ar://`; a number of copies must be at least one and at
    /// most a billion.
    pub open spec fn metadata_error(metadata: TokenMetadata) -> Option<Error> {
        if metadata.title@.len() == 0 {
            Some(Error::EmptyTitle)
        } else if encode_utf8(metadata.title@).len() > 100 {
            Some(Error::TitleTooLong)
        } else if metadata.description matches Some(description) && encode_utf8(
            description@,
        ).len() > 1000 {
            Some(Error::DescriptionTooLong)
        } else if metadata.media matches Some(media) && media@.len() == 0 {
            Some(Error::EmptyMedia)
        } else if metadata.media matches Some(media) && !("ipfs://"@.is_prefix_of(media@)
            || "ar://"@.is_prefix_of(media@)) {
            Some(Error::InvalidMediaProtocol)
        } else if metadata.copies == Some(0u64) {
            Some(Error::ZeroCopies)
        } else if metadata.copies matches Some(copies) && copies > 1_000_000_000 {
            Some(Error::TooManyCopies)
        } else {
            None
        }
    }

    /// Why a stake is not acceptable, if it is not.
    pub open spec fn stake_error(amount: Balance, min_stake: Balance, user_balance: Balance)
        -> Option<Error> {
        if amount < min_stake {
            Some(Error::StakeTooLow)
        } else if amount > user_balance {
            Some(Error::InsufficientBalance)
        } else {
            None
        }
    }

    /// Why a purchase is not acceptable, if it is not.
    pub open spec fn purchase_error(
        amount: Balance,
        available: Balance,
        price: Balance,
        payment: Balance,
    ) -> Option<Error> {
        if amount == 0 {
            Some(Error::ZeroAmount)
        } else if amount > available {
            Some(Error::InsufficientTokensAvailable)
        } else if payment < price {
            Some(Error::InsufficientPayment)
        } else {
            None
        }
    }

    /// Why a batch does not stand in `phase` at `current_time`, if it does
    /// not. The cached phase of the batch must be `phase`. For the voting
    /// phase the time must be before the end of voting; for the public phase
    /// it must be in the public period, which follows the end of voting. The
    /// other two phases cannot be asked for.
    pub open spec fn block_phase_error(block: Block, current_time: Timestamp, phase: BlockPhase)
        -> Option<Error> {
        if block.phase != phase {
            Some(Error::InvalidBlockPhase)
        } else {
            match phase {
                BlockPhase::Voting => if current_time < block.voting_end() {
                    None
                } else {
                    Some(Error::VotingPeriodEnded)
                },
                BlockPhase::Public => if block.voting_end() <= current_time < block.voting_end()
                    + block.public_duration {
                    None
                } else {
                    Some(Error::NotInPublicPeriod)
                },
                _ => Some(Error::InvalidPhaseCheck),
            }
        }
    }

    /// Accepts metadata that passes every check.
    pub fn assert_valid_metadata(metadata: &TokenMetadata) -> (result: Result<bool, Error>)
        ensures
            result == match Self::metadata_error(*metadata) {
                Some(e) => Err::<bool, Error>(e),
                None => Ok::<bool, Error>(true),
            },
    {
        if metadata.title.as_str().is_empty() {
            return Err(Error::EmptyTitle);
        }
        if byte_len(metadata.title.as_str()) > 100 {
            return Err(Error::TitleTooLong);
        }
        match &metadata.description {
            Some(description) => {
                if byte_len(description.as_str()) > 1000 {
                    return Err(Error::DescriptionTooLong);
                }
            },
            None => {},
        }
        match &metadata.media {
            Some(media) => {
                if media.as_str().is_empty() {
                    return Err(Error::EmptyMedia);
                }
                if !(starts_with(media.as_str(), "ipfs://") || starts_with(
                    media.as_str(),
                    "ar://",
                )) {
                    return Err(Error::InvalidMediaProtocol);
                }
            },
            None => {},
        }
        match metadata.copies {
            Some(copies) => {
                if copies == 0 {
                    return Err(Error::ZeroCopies);
                }
                if copies > 1_000_000_000 {
                    return Err(Error::TooManyCopies);
                }
            },
            None => {},
        }
        Ok(true)
    }

    /// Accepts a stake of at least the minimum that the balance covers.
    pub fn assert_valid_stake(amount: Balance, min_stake: Balance, user_balance: Balance) -> (result:
        Result<bool, Error>)
        ensures
            result == match Self::stake_error(amount, min_stake, user_balance) {
                Some(e) => Err::<bool, Error>(e),
                None => Ok::<bool, Error>(true),
            },
    {
        if amount < min_stake {
            return Err(Error::StakeTooLow);
        }
        if amount > user_balance {
            return Err(Error::InsufficientBalance);
        }
        Ok(true)
    }

    /// Accepts a purchase of at least one token, of no more than is
    /// available, with a payment that covers the price.
    pub fn assert_valid_purchase(
        amount: Balance,
        available: Balance,
        price: Balance,
        payment: Balance,
    ) -> (result: Result<bool, Error>)
        ensures
            result == match Self::purchase_error(amount, available, price, payment) {
                Some(e) => Err::<bool, Error>(e),
                None => Ok::<bool, Error>(true),
            },
    {
        if amount == 0 {
            return Err(Error::ZeroAmount);
        }
        if amount > available {
            return Err(Error::InsufficientTokensAvailable);
        }
        if payment < price {
            return Err(Error::InsufficientPayment);
        }
        Ok(true)
    }

    /// Accepts a batch that stands in `phase`, by its cache and by the time.
    pub fn assert_valid_block_phase(block: &Block, current_time: Timestamp, phase: BlockPhase) -> (result:
        Result<bool, Error>)
        ensures
            result == match Self::block_phase_error(*block, current_time, phase) {
                Some(e) => Err::<bool, Error>(e),
                None => Ok::<bool, Error>(true),
            },
    {
        if block.phase != phase {
            return Err(Error::InvalidBlockPhase);
        }
        let now: u128 = current_time as u128;
        let voting_end: u128 = block.start_time as u128 + block.accepting_tokens_duration as u128
            + block.voting_duration as u128;
        match phase {
            BlockPhase::Voting => {
                if now < voting_end {
                    Ok(true)
                } else {
                    Err(Error::VotingPeriodEnded)
                }
            },
            BlockPhase::Public => {
                if now >= voting_end && now < voting_end + block.public_duration as u128 {
                    Ok(true)
                } else {
                    Err(Error::NotInPublicPeriod)
                }
            },
            _ => Err(Error::InvalidPhaseCheck),
        }
    }

    /// Accepts the owner and nobody else.
    pub fn assert_owner(caller: &AccountId, owner: &AccountId) -> (result: Result<(), Error>)
        ensures
            caller@ == owner@ ==> result.is_ok(),
            caller@ != owner@ ==> result == Err::<(), Error>(Error::NotOwner),
    {
        if *caller == *owner {
            Ok(())
        } else {
            Err(Error::NotOwner)
        }
    }

    /// Accepts an account that has a stake record.
    pub fn assert_voter_access(voter: &AccountId, stakes: &Vec<StakeInfo>) -> (result: Result<
        bool,
        Error,
    >)
        ensures
            Self::is_voter(voter@, stakes@) ==> result == Ok::<bool, Error>(true),
            !Self::is_voter(voter@, stakes@) ==> result == Err::<bool, Error>(Error::NotVoter),
    {
        let mut i: usize = 0;
        while i < stakes.len()
            invariant
                i <= stakes@.len(),
                forall|j: int| 0 <= j < i ==> (#[trigger] stakes@[j]).account_id@ != voter@,
            decreases stakes@.len() - i,
        {
            if stakes[i].account_id == *voter {
                return Ok(true);
            }
            i = i + 1;
        }
        Err(Error::NotVoter)
    }
}

} // verus!
