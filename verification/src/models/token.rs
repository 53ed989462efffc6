//! Token proposals and what is recorded about them.

use vstd::prelude::*;

use crate::error::Error;
use crate::{AccountId, Balance, Timestamp, TokenId};

verus! {

/// Where a token stands in its life: waiting for a batch, in a batch, or
/// settled.
#[derive(Clone, Copy, Debug, PartialEq, Eq, Structural)]
pub enum TokenStatus {
    Queued,
    Pending,
    InVoting,
    Public,
    Winner,
    Lost,
    Trading,
}

/// Descriptive data supplied by the creator of a token.
#[derive(Debug, PartialEq, Eq)]
pub struct TokenMetadata {
    pub title: String,
    pub description: Option<String>,
    pub media: Option<String>,
    pub media_hash: Option<String>,
    pub copies: Option<u64>,
    pub issued_at: Option<u64>,
    pub expires_at: Option<u64>,
    pub starts_at: Option<u64>,
    pub extra: Option<String>,
}

/// A copy of an optional string.
pub(crate) fn clone_optional_text(text: &Option<String>) -> (copy: Option<String>)
    ensures
        copy == *text,
{
    match text {
        Some(s) => Some(s.clone()),
        None => None,
    }
}

impl Clone for TokenMetadata {
    fn clone(&self) -> (copy: Self)
        ensures
            copy == *self,
    {
        TokenMetadata {
            title: self.title.clone(),
            description: clone_optional_text(&self.description),
            media: clone_optional_text(&self.media),
            media_hash: clone_optional_text(&self.media_hash),
            copies: self.copies,
            issued_at: self.issued_at,
            expires_at: self.expires_at,
            starts_at: self.starts_at,
            extra: clone_optional_text(&self.extra),
        }
    }
}

/// A token proposal.
#[derive(Debug, PartialEq, Eq)]
pub struct Token {
    pub id: TokenId,
    pub creator: AccountId,
    /// Reference to the content the token stands for.
    pub content_hash: String,
    pub created_at: Timestamp,
    /// Zero until the token wins a batch.
    pub total_supply: Balance,
    pub circulating_supply: Balance,
    /// A fifth of the total supply, set aside for the pool.
    pub pool_reserve: Balance,
    pub status: TokenStatus,
    pub metadata: TokenMetadata,
}

impl Clone for Token {
    fn clone(&self) -> (copy: Self)
        ensures
            copy == *self,
    {
        Token {
            id: self.id,
            creator: self.creator.clone(),
            content_hash: self.content_hash.clone(),
            created_at: self.created_at,
            total_supply: self.total_supply,
            circulating_supply: self.circulating_supply,
            pool_reserve: self.pool_reserve,
            status: self.status,
            metadata: self.metadata.clone(),
        }
    }
}

impl Token {
    /// What is in circulation and what is set aside never exceed the supply.
    pub open spec fn wf(&self) -> bool {
        self.circulating_supply + self.pool_reserve <= self.total_supply
    }

    /// What can still be bought: supply less circulation less the reserve.
    pub open spec fn spec_available_for_purchase(&self) -> int {
        self.total_supply - self.circulating_supply - self.pool_reserve
    }

    /// Whether the token is being voted on or has won.
    pub open spec fn spec_is_active(&self) -> bool {
        self.status == TokenStatus::InVoting || self.status == TokenStatus::Winner
    }

    /// Checks the token: whether circulation and reserve fit in the supply.
    pub fn is_well_formed(&self) -> (sound: bool)
        ensures
            sound == self.wf(),
    {
        self.circulating_supply <= self.total_supply && self.pool_reserve <= self.total_supply
            - self.circulating_supply
    }

    /// A fresh proposal: queued, with no supply yet.
    pub fn new(
        id: TokenId,
        creator: AccountId,
        content_hash: String,
        metadata: TokenMetadata,
        created_at: Timestamp,
    ) -> (token: Token)
        ensures
            token == (Token {
                id,
                creator,
                content_hash,
                created_at,
                total_supply: 0,
                circulating_supply: 0,
                pool_reserve: 0,
                status: TokenStatus::Queued,
                metadata,
            }),
            token.wf(),
    {
        Token {
            id,
            creator,
            content_hash,
            created_at,
            total_supply: 0,
            circulating_supply: 0,
            pool_reserve: 0,
            status: TokenStatus::Queued,
            metadata,
        }
    }

    /// Sets the supply of a token that has none yet, and sets a fifth of it
    /// aside for the pool (rounded down). A token whose supply is already set
    /// is refused and left as it is.
    pub fn initialize_supply(&mut self, total_supply: Balance) -> (r: Result<(), Error>)
        ensures
            old(self).total_supply != 0 ==> r == Err::<(), Error>(Error::SupplyAlreadyInitialized)
                && *final(self) == *old(self),
            old(self).total_supply == 0 ==> r.is_ok() && *final(self) == (Token {
                total_supply,
                pool_reserve: total_supply / 5,
                ..*old(self)
            }),
            old(self).wf() ==> final(self).wf(),
    {
        if self.total_supply != 0 {
            return Err(Error::SupplyAlreadyInitialized);
        }
        self.total_supply = total_supply;
        self.pool_reserve = total_supply / 5;
        Ok(())
    }

    /// Whether the token is being voted on or has won.
    #[verifier::when_used_as_spec(spec_is_active)]
    pub fn is_active(&self) -> (active: bool)
        ensures
            active == self.spec_is_active(),
    {
        matches!(self.status, TokenStatus::InVoting | TokenStatus::Winner)
    }

    /// What can still be bought: supply less circulation less the reserve.
    pub fn available_for_purchase(&self) -> (available: Balance)
        requires
            self.wf(),
        ensures
            available == self.spec_available_for_purchase(),
    {
        self.total_supply - self.circulating_supply - self.pool_reserve
    }
}

/// A token as it is shown to readers of the ledger.
#[derive(Debug, PartialEq, Eq)]
pub struct TokenView {
    pub id: TokenId,
    pub creator: AccountId,
    pub content_hash: String,
    pub created_at: Timestamp,
    pub total_supply: Balance,
    pub circulating_supply: Balance,
    pub pool_reserve: Balance,
    pub status: TokenStatus,
    pub metadata: TokenMetadata,
}

impl TokenView {
    /// The view that shows `token`.
    pub open spec fn of(token: Token) -> TokenView {
        TokenView {
            id: token.id,
            creator: token.creator,
            content_hash: token.content_hash,
            created_at: token.created_at,
            total_supply: token.total_supply,
            circulating_supply: token.circulating_supply,
            pool_reserve: token.pool_reserve,
            status: token.status,
            metadata: token.metadata,
        }
    }
}

impl<'a> From<&'a Token> for TokenView {
    fn from(token: &'a Token) -> (view: TokenView) {
        TokenView {
            id: token.id,
            creator: token.creator.clone(),
            content_hash: token.content_hash.clone(),
            created_at: token.created_at,
            total_supply: token.total_supply,
            circulating_supply: token.circulating_supply,
            pool_reserve: token.pool_reserve,
            status: token.status,
            metadata: token.metadata.clone(),
        }
    }
}

impl<'a> vstd::std_specs::convert::FromSpecImpl<&'a Token> for TokenView {
    open spec fn obeys_from_spec() -> bool {
        true
    }

    open spec fn from_spec(token: &'a Token) -> TokenView {
        TokenView::of(*token)
    }
}

} // verus!
