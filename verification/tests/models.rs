use token_blocks::{
    Block, BlockPhase, BlockView, Error, ErrorKind, StakeInfo, Token, TokenMetadata, TokenStatus,
    TokenView, VoteInfo,
};

const SECOND: u64 = 1_000_000_000;

fn metadata() -> TokenMetadata {
    TokenMetadata {
        title: "Test Token".to_string(),
        description: Some("Test Description".to_string()),
        media: None,
        media_hash: None,
        copies: Some(1000),
        issued_at: None,
        expires_at: None,
        starts_at: None,
        extra: Some("extra".to_string()),
    }
}

#[test]
fn phases_follow_the_clock() {
    let mut block = Block::new(0, 60 * SECOND, 120 * SECOND, 120 * SECOND, 1, 10);
    assert_eq!(block.phase, BlockPhase::AcceptingTokens);
    assert_eq!(block.voting_end_time, 180 * SECOND);
    block.update_phase(0);
    assert_eq!(block.phase, BlockPhase::AcceptingTokens);
    block.update_phase(60 * SECOND + 1);
    assert_eq!(block.phase, BlockPhase::Voting);
    block.update_phase(180 * SECOND + 1);
    assert_eq!(block.phase, BlockPhase::Public);
    block.update_phase(300 * SECOND + 1);
    assert_eq!(block.phase, BlockPhase::Completed);
}

#[test]
fn phase_boundaries() {
    let block = Block::new(1000, 10, 20, 30, 1, 10);
    assert_eq!(block.compute_phase(0), BlockPhase::AcceptingTokens);
    assert_eq!(block.compute_phase(1009), BlockPhase::AcceptingTokens);
    assert_eq!(block.compute_phase(1010), BlockPhase::Voting);
    assert_eq!(block.compute_phase(1029), BlockPhase::Voting);
    assert_eq!(block.compute_phase(1030), BlockPhase::Public);
    assert_eq!(block.compute_phase(1059), BlockPhase::Public);
    assert_eq!(block.compute_phase(1060), BlockPhase::Completed);
    assert_eq!(block.compute_phase(u64::MAX), BlockPhase::Completed);
    // A schedule that reaches past the end of time has no overflow.
    let far = Block::new(u64::MAX - 30, 10, 20, u64::MAX, 1, 10);
    assert_eq!(far.compute_phase(u64::MAX - 1), BlockPhase::Voting);
    assert_eq!(far.compute_phase(u64::MAX), BlockPhase::Public);
    // Empty phases are skipped.
    let instant = Block::new(5, 0, 0, 0, 1, 10);
    assert_eq!(instant.compute_phase(4), BlockPhase::AcceptingTokens);
    assert_eq!(instant.compute_phase(5), BlockPhase::Completed);
}

#[test]
fn phase_never_goes_back() {
    fn index(p: BlockPhase) -> u8 {
        match p {
            BlockPhase::AcceptingTokens => 0,
            BlockPhase::Voting => 1,
            BlockPhase::Public => 2,
            BlockPhase::Completed => 3,
        }
    }
    let block = Block::new(7, 3, 0, 5, 1, 10);
    let mut last = 0;
    for now in 0..30 {
        let phase = index(block.compute_phase(now));
        assert!(phase >= last);
        last = phase;
    }
    assert_eq!(last, 3);
}

#[test]
fn update_phase_changes_the_cache_only() {
    let mut block = Block::new(0, 10, 20, 30, 5, 2);
    block.add_token(4);
    block.add_token(9);
    block.total_stakes = 77;
    let mut expected = Block::new(0, 10, 20, 30, 5, 2);
    expected.tokens = vec![4, 9];
    expected.total_stakes = 77;
    expected.phase = BlockPhase::Voting;
    block.update_phase(15);
    assert_eq!(block, expected);
    block.update_phase(15);
    assert_eq!(block, expected);
}

#[test]
fn phase_predicates_need_cache_and_clock() {
    let mut block = Block::new(0, 10, 20, 30, 5, 2);
    assert!(block.is_accepting_tokens(9));
    assert!(!block.is_accepting_tokens(10));
    assert!(!block.is_voting_phase(10));
    block.update_phase(10);
    assert!(block.is_voting_phase(10));
    assert!(block.is_voting_phase(29));
    assert!(!block.is_voting_phase(30));
    assert!(!block.is_voting_phase(9));
    assert!(!block.is_accepting_tokens(9));
    assert!(!block.is_public_phase(30));
    block.update_phase(30);
    assert!(block.is_public_phase(30));
    assert!(block.is_public_phase(59));
    assert!(!block.is_public_phase(60));
    assert!(!block.is_public_phase(29));
}

#[test]
fn block_view_names_the_phase() {
    let mut block = Block::new(3, 10, 20, 30, 5, 2);
    block.add_token(8);
    block.total_stakes = 12;
    let names = ["AcceptingTokens", "Voting", "Public", "Completed"];
    for (now, name) in [0u64, 13, 33, 63].iter().zip(names) {
        block.update_phase(*now);
        let view = BlockView::from(&block);
        assert_eq!(
            view,
            BlockView {
                start_time: 3,
                accepting_tokens_duration: 10,
                voting_duration: 20,
                public_duration: 30,
                min_stake: 5,
                max_winners: 2,
                tokens: vec![8],
                total_stakes: 12,
                phase: name.to_string(),
            }
        );
    }
}

#[test]
fn token_supply_is_set_once() {
    let mut token = Token::new(3, "a.near".into(), "ipfs://x".into(), metadata(), 9);
    assert_eq!(token.status, TokenStatus::Queued);
    assert_eq!((token.total_supply, token.circulating_supply, token.pool_reserve), (0, 0, 0));
    assert_eq!(token.available_for_purchase(), 0);
    assert!(!token.is_active());

    assert_eq!(token.initialize_supply(1_000_003), Ok(()));
    assert_eq!(token.total_supply, 1_000_003);
    // A fifth, rounded down; the remainder is not handed out.
    assert_eq!(token.pool_reserve, 200_000);
    assert_eq!(token.available_for_purchase(), 800_003);

    let before = token.clone();
    assert_eq!(token.initialize_supply(5), Err(Error::SupplyAlreadyInitialized));
    assert_eq!(token, before);
    assert_eq!(Error::SupplyAlreadyInitialized.kind(), ErrorKind::Invariant);

    token.circulating_supply = 3;
    assert_eq!(token.available_for_purchase(), 800_000);
    token.status = TokenStatus::InVoting;
    assert!(token.is_active());
    token.status = TokenStatus::Winner;
    assert!(token.is_active());
    token.status = TokenStatus::Lost;
    assert!(!token.is_active());
}

#[test]
fn token_view_shows_every_field() {
    let mut token = Token::new(3, "a.near".into(), "ipfs://x".into(), metadata(), 9);
    token.initialize_supply(100).unwrap();
    token.circulating_supply = 4;
    token.status = TokenStatus::Trading;
    let view = TokenView::from(&token);
    assert_eq!(
        view,
        TokenView {
            id: 3,
            creator: "a.near".to_string(),
            content_hash: "ipfs://x".to_string(),
            created_at: 9,
            total_supply: 100,
            circulating_supply: 4,
            pool_reserve: 20,
            status: TokenStatus::Trading,
            metadata: metadata(),
        }
    );
    assert_eq!(metadata().clone(), metadata());
}

#[test]
fn votes_add_up_per_voter() {
    let mut info = VoteInfo::new();
    assert_eq!(info.total_votes, 0);
    assert!(info.voters.is_empty());
    let (a, b) = ("alice.near".to_string(), "bob.near".to_string());
    info.add_vote(&a, 5);
    info.add_vote(&b, 7);
    info.add_vote(&a, 11);
    info.add_vote(&b, 0);
    assert_eq!(info.voters, vec![(a.clone(), 16), (b.clone(), 7)]);
    assert_eq!(info.total_votes, 23);
    assert_eq!(info.total_votes, info.voters.iter().map(|v| v.1).sum::<u128>());
    assert_eq!(info.find_voter(&b), Some(1));
    assert_eq!(info.find_voter(&"carol.near".to_string()), None);
}

#[test]
fn stakes_add_up_per_token() {
    let mut info = StakeInfo::new("alice.near".to_string());
    assert_eq!(info.account_id, "alice.near");
    assert_eq!(info.total_staked, 0);
    info.add_stake(4, 5);
    info.add_stake(2, 7);
    info.add_stake(4, 11);
    assert_eq!(info.stakes, vec![(4, 16), (2, 7)]);
    assert_eq!(info.total_staked, 23);
    assert_eq!(info.total_staked, info.stakes.iter().map(|s| s.1).sum::<u128>());
    assert_eq!(info.find_token(2), Some(1));
    assert_eq!(info.find_token(3), None);
}

#[test]
fn every_error_has_its_family() {
    for e in [
        Error::EmptyContentHash,
        Error::TitleTooLong,
        Error::DescriptionTooLong,
        Error::EmptyMedia,
        Error::InvalidMediaProtocol,
        Error::ZeroCopies,
        Error::TooManyCopies,
        Error::InsufficientDeposit,
        Error::StakeTooLow,
        Error::InsufficientBalance,
        Error::ZeroAmount,
        Error::InsufficientPayment,
        Error::InvalidTimeRange,
        Error::EndTimeNotInFuture,
        Error::StorageNotCovered,
        Error::BelowMinimumStorage,
        Error::NotOwner,
    ] {
        assert_eq!(e.kind(), ErrorKind::Validation);
    }
    for e in [
        Error::NoActiveBlock,
        Error::EmptyQueue,
        Error::NotInVotingPhase,
        Error::VotingNotEnded,
        Error::TokenNotInBlock,
        Error::TokenNotInVoting,
        Error::InvalidBlockPhase,
        Error::VotingPeriodEnded,
        Error::NotInPublicPeriod,
        Error::NotVoter,
    ] {
        assert_eq!(e.kind(), ErrorKind::Phase);
    }
    assert_eq!(Error::TokenNotFound.kind(), ErrorKind::NotFound);
    for e in [
        Error::InsufficientTokensAvailable,
        Error::InsufficientReserves,
        Error::InsufficientLiquidity,
        Error::PoolAlreadyInitialized,
        Error::InsufficientNativeTokens,
        Error::AmountOverflow,
    ] {
        assert_eq!(e.kind(), ErrorKind::Invariant);
    }
}
