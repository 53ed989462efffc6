use token_blocks::{
    Error, ErrorKind, TokenBlocks, TokenMetadata, TokenStatus, ACCEPTING_TOKENS_DURATION,
    BLOCK_DURATION, MAX_WINNERS, MIN_STAKE_AMOUNT, VOTING_DURATION, WINNER_SUPPLY,
};

fn test_metadata() -> TokenMetadata {
    TokenMetadata {
        title: "Test Token".to_string(),
        description: Some("Test Description".to_string()),
        media: None,
        media_hash: None,
        copies: Some(1000),
        issued_at: None,
        expires_at: None,
        starts_at: None,
        extra: None,
    }
}

fn new_contract() -> TokenBlocks {
    TokenBlocks::new("owner.near".to_string()).unwrap()
}

fn create(contract: &mut TokenBlocks, creator: &str, now: u64) -> u64 {
    let (token_id, _) = contract
        .create_token(creator.to_string(), "ipfs://".to_string(), test_metadata(), 0, now)
        .unwrap();
    token_id
}

#[test]
fn basic_tests_test_token_creation() {
    let mut contract = new_contract();
    let token_id = create(&mut contract, "user.near", 0);
    let stored_token = contract.get_token(token_id).unwrap();
    assert_eq!(stored_token.metadata.title, "Test Token");
    assert_eq!(stored_token.metadata.copies, Some(1000));
}

#[test]
fn block_integration_tests_test_block_lifecycle() {
    let mut contract = new_contract();

    let token_id = create(&mut contract, "user.near", 0);
    assert!(contract.get_queued_tokens().contains(&token_id));

    contract.start_block(0).unwrap();
    let block = contract.get_current_block().unwrap();
    assert_eq!(block.tokens.len(), 1);
    assert_eq!(block.phase, "AcceptingTokens");

    contract.update_block_phase(ACCEPTING_TOKENS_DURATION + 1).unwrap();
    let block = contract.get_current_block().unwrap();
    assert_eq!(block.phase, "Voting");

    contract.update_block_phase(ACCEPTING_TOKENS_DURATION + VOTING_DURATION + 1).unwrap();
    let block = contract.get_current_block().unwrap();
    assert_eq!(block.phase, "Public");

    contract.update_block_phase(BLOCK_DURATION + 1).unwrap();
    assert!(
        contract.get_current_block().is_none(),
        "Current block should be None after completion"
    );
}

#[test]
fn block_integration_tests_test_token_creation() {
    let mut contract = new_contract();
    let token_id = create(&mut contract, "user.near", 0);
    let stored_token = contract.get_token(token_id).unwrap();
    assert_eq!(stored_token.metadata.title, "Test Token");
}

#[test]
fn create_test_create_token() {
    let mut contract = new_contract();
    contract.update_platform_fee(&"owner.near".to_string(), 1000).unwrap();

    let (token_id, refund) = contract
        .create_token(
            "creator.near".to_string(),
            "ipfs://test".to_string(),
            test_metadata(),
            1000,
            0,
        )
        .unwrap();

    assert_eq!(token_id, 0);
    assert_eq!(contract.token_queue.len(), 1);
    assert_eq!(refund, 0);
}

#[test]
fn lib_test_create_token() {
    let mut contract = new_contract();
    let token_id = create(&mut contract, "owner.near", 0);
    assert_eq!(token_id, 0);

    let token = contract.get_token(token_id).unwrap();
    assert_eq!(token.metadata.title, "Test Token");
}

#[test]
fn lib_test_block_lifecycle() {
    let mut contract = new_contract();

    let token_id = create(&mut contract, "owner.near", 0);
    assert!(contract.get_queued_tokens().contains(&token_id));

    contract.start_block(0).unwrap();
    let block = contract.get_current_block().unwrap();
    assert_eq!(block.tokens.len(), 1);

    let voting_end_time = ACCEPTING_TOKENS_DURATION + VOTING_DURATION;
    let public_phase_time = voting_end_time + 1;
    contract.update_block_phase(public_phase_time).unwrap();
    let block = contract.get_current_block().unwrap();

    assert!(block.phase == "Public", "Block should be in Public phase");
}

#[test]
fn lib_test_voting() {
    let mut contract = new_contract();

    let token_id = create(&mut contract, "owner.near", 0);
    contract.start_block(0).unwrap();

    let voting_start_time = ACCEPTING_TOKENS_DURATION + 1;
    contract.update_block_phase(voting_start_time).unwrap();

    contract.tokens[token_id as usize].status = TokenStatus::InVoting;

    let vote_result = contract
        .vote(token_id, "owner.near".to_string(), MIN_STAKE_AMOUNT, voting_start_time)
        .unwrap();
    assert!(vote_result);

    let votes = contract.get_votes(token_id).unwrap();
    assert_eq!(votes, MIN_STAKE_AMOUNT);
}

#[test]
fn vote_tests_test_voting() {
    let mut contract = new_contract();

    let token_id = create(&mut contract, "owner.near", 0);
    contract.start_block(0).unwrap();

    assert!(contract.get_current_block().is_some());

    contract.update_block_phase(ACCEPTING_TOKENS_DURATION + 1).unwrap();

    assert_eq!(contract.get_current_block().unwrap().phase, "Voting");

    let vote_result = contract
        .vote(
            token_id,
            "voter.near".to_string(),
            10_000_000_000_000_000_000_000,
            ACCEPTING_TOKENS_DURATION + 1,
        )
        .unwrap();
    assert!(vote_result);
}

#[test]
fn test_vote_with_low_stake() {
    let mut contract = new_contract();

    let token_id = create(&mut contract, "owner.near", 0);
    contract.start_block(0).unwrap();

    contract.update_block_phase(ACCEPTING_TOKENS_DURATION + 1).unwrap();

    let before = format!("{:?}", contract);
    let result = contract.vote(token_id, "voter.near".to_string(), 1, ACCEPTING_TOKENS_DURATION + 1);
    assert_eq!(result, Err(Error::StakeTooLow));
    assert_eq!(format!("{:?}", contract), before);
}

#[test]
fn test_contract_setup() {
    let owner_id = "owner.near".to_string();
    let contract = TokenBlocks::new(owner_id.clone()).unwrap();
    assert_eq!(contract.owner_id, owner_id);
}

#[test]
fn test_utils_test_token_creation() {
    let mut contract = new_contract();
    let deposit = 1u128 * 10u128.pow(24);
    let (token_id, refund) = contract
        .create_token(
            "owner.near".to_string(),
            "ipfs://test".to_string(),
            test_metadata(),
            deposit,
            0,
        )
        .unwrap();
    assert_eq!(token_id, 0);
    assert_eq!(refund, deposit);
}

#[test]
fn new_rejects_malformed_owner() {
    assert_eq!(TokenBlocks::new("Owner.near".to_string()), Err(Error::InvalidAccountId));
    assert_eq!(TokenBlocks::new("a".to_string()), Err(Error::InvalidAccountId));
    assert_eq!(TokenBlocks::new(".near".to_string()), Err(Error::InvalidAccountId));
    assert_eq!(TokenBlocks::new("near.".to_string()), Err(Error::InvalidAccountId));
    assert_eq!(TokenBlocks::new("a..b".to_string()), Err(Error::InvalidAccountId));
    assert_eq!(TokenBlocks::new("a b".to_string()), Err(Error::InvalidAccountId));
    assert_eq!(TokenBlocks::new("x".repeat(65)), Err(Error::InvalidAccountId));
    assert!(TokenBlocks::new("x".repeat(64)).is_ok());
    assert!(TokenBlocks::new("a-b_c.d0".to_string()).is_ok());
    assert_eq!(Error::InvalidAccountId.kind(), ErrorKind::Validation);
}

#[test]
fn new_ledger_is_empty() {
    let contract = new_contract();
    assert_eq!(contract.token_counter, 0);
    assert!(contract.tokens.is_empty());
    assert!(contract.current_block.is_none());
    assert!(contract.token_queue.is_empty());
    assert_eq!(contract.min_stake, MIN_STAKE_AMOUNT);
    assert_eq!(contract.platform_fee, 0);
    assert_eq!(contract.get_block_info(), (BLOCK_DURATION, MIN_STAKE_AMOUNT, MAX_WINNERS));
    assert_eq!(contract.get_votes(0), None);
    assert_eq!(contract.get_user_stakes(&"nobody.near".to_string()), None);
    assert!(contract.get_token(0).is_none());
}

#[test]
fn create_token_errors_leave_the_state_alone() {
    let mut contract = new_contract();
    contract.update_platform_fee(&"owner.near".to_string(), 10).unwrap();
    let before = format!("{:?}", contract);

    let r = contract.create_token("a.near".into(), "ipfs://x".into(), test_metadata(), 9, 0);
    assert_eq!(r, Err(Error::InsufficientDeposit));
    let r = contract.create_token("a.near".into(), "".into(), test_metadata(), 10, 0);
    assert_eq!(r, Err(Error::EmptyContentHash));
    let mut untitled = test_metadata();
    untitled.title = String::new();
    let r = contract.create_token("a.near".into(), "ipfs://x".into(), untitled, 10, 0);
    assert_eq!(r, Err(Error::EmptyTitle));
    assert_eq!(format!("{:?}", contract), before);

    // The deposit is checked before the fields.
    let r = contract.create_token("a.near".into(), "".into(), test_metadata(), 0, 0);
    assert_eq!(r, Err(Error::InsufficientDeposit));

    contract.token_counter = u64::MAX;
    let r = contract.create_token("a.near".into(), "ipfs://x".into(), test_metadata(), 10, 0);
    assert_eq!(r, Err(Error::RegistryFull));
    assert_eq!(Error::RegistryFull.kind(), ErrorKind::Invariant);
}

#[test]
fn create_token_returns_the_excess_payment() {
    let mut contract = new_contract();
    contract.update_platform_fee(&"owner.near".to_string(), 10).unwrap();
    let r = contract.create_token("a.near".into(), "ipfs://x".into(), test_metadata(), 25, 7);
    assert_eq!(r, Ok((0, 15)));
    let token = contract.get_token(0).unwrap();
    assert_eq!(token.id, 0);
    assert_eq!(token.creator, "a.near");
    assert_eq!(token.content_hash, "ipfs://x");
    assert_eq!(token.created_at, 7);
    assert_eq!(token.total_supply, 0);
    assert_eq!(token.status, TokenStatus::Queued);
}

#[test]
fn only_the_owner_sets_the_fee() {
    let mut contract = new_contract();
    let r = contract.update_platform_fee(&"user.near".to_string(), 5);
    assert_eq!(r, Err(Error::NotOwner));
    assert_eq!(contract.platform_fee, 0);
    contract.update_platform_fee(&"owner.near".to_string(), 5).unwrap();
    assert_eq!(contract.platform_fee, 5);
}

#[test]
fn tokens_are_routed_to_the_batch_or_the_queue() {
    let mut contract = new_contract();
    let first = create(&mut contract, "a.near", 0);
    assert_eq!(contract.get_queued_tokens(), vec![first]);
    contract.start_block(0).unwrap();
    assert!(contract.get_queued_tokens().is_empty());

    // While the batch accepts tokens, a new token joins it.
    let second = create(&mut contract, "b.near", ACCEPTING_TOKENS_DURATION - 1);
    assert_eq!(contract.get_current_block().unwrap().tokens, vec![first, second]);
    assert!(contract.get_queued_tokens().is_empty());

    // Once the time for that is over, it waits in the queue.
    let third = create(&mut contract, "c.near", ACCEPTING_TOKENS_DURATION);
    assert_eq!(contract.get_current_block().unwrap().tokens, vec![first, second]);
    assert_eq!(contract.get_queued_tokens(), vec![third]);
}

#[test]
fn start_block_keeps_the_order_of_the_queue() {
    let mut contract = new_contract();
    let a = create(&mut contract, "a.near", 0);
    let b = create(&mut contract, "b.near", 0);
    let c = create(&mut contract, "c.near", 0);
    contract.start_block(5).unwrap();
    let block = contract.get_current_block().unwrap();
    assert_eq!(block.tokens, vec![a, b, c]);
    assert_eq!(block.start_time, 5);
    assert_eq!(block.total_stakes, 0);
    assert_eq!(block.min_stake, MIN_STAKE_AMOUNT);
    assert_eq!(block.max_winners, MAX_WINNERS);
    assert_eq!(block.phase, "AcceptingTokens");
    assert_eq!(
        contract.current_block.as_ref().unwrap().voting_end_time,
        5 + ACCEPTING_TOKENS_DURATION + VOTING_DURATION
    );
}

#[test]
fn start_block_errors() {
    let mut contract = new_contract();
    assert_eq!(contract.start_block(0), Err(Error::EmptyQueue));
    create(&mut contract, "a.near", 0);
    assert_eq!(contract.start_block(u64::MAX), Err(Error::TimeOverflow));
    assert!(contract.current_block.is_none());
    assert_eq!(contract.token_queue.len(), 1);
    contract.start_block(0).unwrap();
    create(&mut contract, "a.near", ACCEPTING_TOKENS_DURATION);
    assert_eq!(contract.start_block(0), Err(Error::BlockInProgress));
    assert_eq!(Error::BlockInProgress.kind(), ErrorKind::Phase);
    assert_eq!(Error::TimeOverflow.kind(), ErrorKind::Invariant);
}

#[test]
fn refresh_sets_the_status_of_the_members() {
    let mut contract = new_contract();
    let a = create(&mut contract, "a.near", 0);
    contract.start_block(0).unwrap();
    let waiting = create(&mut contract, "b.near", ACCEPTING_TOKENS_DURATION);
    assert_eq!(contract.tokens[a as usize].status, TokenStatus::Queued);

    contract.update_block_phase(ACCEPTING_TOKENS_DURATION).unwrap();
    assert_eq!(contract.tokens[a as usize].status, TokenStatus::InVoting);
    assert_eq!(contract.tokens[waiting as usize].status, TokenStatus::Queued);

    contract.update_block_phase(ACCEPTING_TOKENS_DURATION + VOTING_DURATION).unwrap();
    assert_eq!(contract.tokens[a as usize].status, TokenStatus::Public);
}

#[test]
fn refresh_is_idempotent() {
    let mut contract = new_contract();
    create(&mut contract, "a.near", 0);
    contract.start_block(0).unwrap();
    for now in [0, ACCEPTING_TOKENS_DURATION + 1, BLOCK_DURATION - 1, BLOCK_DURATION] {
        contract.update_block_phase(now).unwrap();
        let once = format!("{:?}", contract);
        contract.update_block_phase(now).unwrap();
        assert_eq!(format!("{:?}", contract), once);
    }
}

#[test]
fn refresh_without_a_batch_does_nothing() {
    let mut contract = new_contract();
    create(&mut contract, "a.near", 0);
    let before = format!("{:?}", contract);
    contract.update_block_phase(12345).unwrap();
    assert_eq!(format!("{:?}", contract), before);
}

#[test]
fn a_completed_batch_gives_way_to_the_queue() {
    let mut contract = new_contract();
    let a = create(&mut contract, "a.near", 0);
    contract.start_block(0).unwrap();
    let b = create(&mut contract, "b.near", ACCEPTING_TOKENS_DURATION);
    contract.update_block_phase(ACCEPTING_TOKENS_DURATION + VOTING_DURATION).unwrap();
    assert_eq!(contract.tokens[a as usize].status, TokenStatus::Public);

    contract.update_block_phase(BLOCK_DURATION).unwrap();
    // The member keeps the status it had, and the next batch starts at once.
    assert_eq!(contract.tokens[a as usize].status, TokenStatus::Public);
    let block = contract.get_current_block().unwrap();
    assert_eq!(block.tokens, vec![b]);
    assert_eq!(block.start_time, BLOCK_DURATION);
    assert_eq!(block.phase, "AcceptingTokens");
    assert!(contract.token_queue.is_empty());
}

#[test]
fn refresh_fails_whole_when_the_next_batch_cannot_be_scheduled() {
    let mut contract = new_contract();
    create(&mut contract, "a.near", 0);
    contract.start_block(0).unwrap();
    create(&mut contract, "b.near", ACCEPTING_TOKENS_DURATION);
    let before = format!("{:?}", contract);
    assert_eq!(contract.update_block_phase(u64::MAX), Err(Error::TimeOverflow));
    assert_eq!(format!("{:?}", contract), before);
}

fn voting_contract(tokens: usize) -> (TokenBlocks, u64) {
    let mut contract = new_contract();
    for _ in 0..tokens {
        create(&mut contract, "creator.near", 0);
    }
    contract.start_block(0).unwrap();
    let now = ACCEPTING_TOKENS_DURATION + 1;
    contract.update_block_phase(now).unwrap();
    (contract, now)
}

#[test]
fn vote_updates_tally_stakes_and_batch_together() {
    let (mut contract, now) = voting_contract(2);
    let stake = MIN_STAKE_AMOUNT;
    assert_eq!(contract.vote(0, "alice.near".into(), stake, now), Ok(true));
    assert_eq!(contract.vote(0, "bob.near".into(), 2 * stake, now), Ok(true));
    assert_eq!(contract.vote(1, "alice.near".into(), 3 * stake, now), Ok(true));
    assert_eq!(contract.vote(0, "alice.near".into(), 4 * stake, now), Ok(true));

    assert_eq!(contract.get_votes(0), Some(7 * stake));
    assert_eq!(contract.get_votes(1), Some(3 * stake));
    assert_eq!(contract.get_user_stakes(&"alice.near".to_string()), Some(8 * stake));
    assert_eq!(contract.get_user_stakes(&"bob.near".to_string()), Some(2 * stake));
    assert_eq!(contract.get_user_stakes(&"carol.near".to_string()), None);
    assert_eq!(contract.get_current_block().unwrap().total_stakes, 10 * stake);

    let tally = contract.votes[0].as_ref().unwrap();
    assert_eq!(
        tally.voters,
        vec![("alice.near".to_string(), 5 * stake), ("bob.near".to_string(), 2 * stake)]
    );
    assert_eq!(tally.total_votes, tally.voters.iter().map(|v| v.1).sum::<u128>());
    let alice = &contract.stakes[0];
    assert_eq!(alice.account_id, "alice.near");
    assert_eq!(alice.stakes, vec![(0, 5 * stake), (1, 3 * stake)]);
    assert_eq!(alice.total_staked, alice.stakes.iter().map(|s| s.1).sum::<u128>());
}

#[test]
fn vote_errors_leave_the_state_alone() {
    let mut contract = new_contract();
    let stake = MIN_STAKE_AMOUNT;
    assert_eq!(contract.vote(0, "alice.near".into(), stake, 0), Err(Error::NoActiveBlock));

    create(&mut contract, "creator.near", 0);
    contract.start_block(0).unwrap();
    let late = create(&mut contract, "creator.near", ACCEPTING_TOKENS_DURATION);
    // Before the refresh the cached phase still says that tokens are accepted.
    let now = ACCEPTING_TOKENS_DURATION + 1;
    assert_eq!(contract.vote(0, "alice.near".into(), stake, now), Err(Error::NotInVotingPhase));
    contract.update_block_phase(now).unwrap();
    let before = format!("{:?}", contract);

    assert_eq!(contract.vote(0, "alice.near".into(), stake - 1, now), Err(Error::StakeTooLow));
    assert_eq!(contract.vote(9, "alice.near".into(), stake, now), Err(Error::TokenNotFound));
    assert_eq!(contract.vote(late, "alice.near".into(), stake, now), Err(Error::TokenNotInBlock));
    // The clock decides, whatever the cache says.
    let after_voting = ACCEPTING_TOKENS_DURATION + VOTING_DURATION;
    assert_eq!(
        contract.vote(0, "alice.near".into(), stake, after_voting),
        Err(Error::NotInVotingPhase)
    );
    assert_eq!(format!("{:?}", contract), before);

    contract.tokens[0].status = TokenStatus::Pending;
    assert_eq!(contract.vote(0, "alice.near".into(), stake, now), Err(Error::TokenNotInVoting));
    contract.tokens[0].status = TokenStatus::InVoting;

    assert_eq!(contract.vote(0, "alice.near".into(), u128::MAX, now), Ok(true));
    let before = format!("{:?}", contract);
    assert_eq!(contract.vote(0, "bob.near".into(), stake, now), Err(Error::AmountOverflow));
    assert_eq!(format!("{:?}", contract), before);
}

#[test]
fn settlement_picks_winners_by_tally_then_by_batch_order() {
    let (mut contract, now) = voting_contract(12);
    let stake = MIN_STAKE_AMOUNT;
    // Token 0 gets nothing; tokens 1..=11 get a stake each, token 11 the most.
    // Tokens 3 and 4 tie with tokens 1 and 2 at the lowest stake.
    for id in 1..=11u64 {
        let amount = if id <= 4 { stake } else { stake * (id as u128) };
        contract.vote(id, format!("voter{}.near", id), amount, now).unwrap();
    }
    contract.vote(2, "second.near".into(), stake / 2 + stake, now).unwrap();

    let end = ACCEPTING_TOKENS_DURATION + VOTING_DURATION;
    let refunds = contract.process_voting_results(end).unwrap();

    // Ranking: 11, 10, 9, 8, 7, 6, 5, then 2 (more votes), then 1, 3 (tie, batch order).
    let winners: Vec<u64> = contract
        .tokens
        .iter()
        .filter(|t| t.status == TokenStatus::Winner)
        .map(|t| t.id)
        .collect();
    assert_eq!(winners, vec![1, 2, 3, 5, 6, 7, 8, 9, 10, 11]);
    assert!(winners.len() <= MAX_WINNERS as usize);
    assert_eq!(contract.tokens[0].status, TokenStatus::Lost);
    assert_eq!(contract.tokens[4].status, TokenStatus::Lost);

    for id in winners {
        let token = &contract.tokens[id as usize];
        assert_eq!(token.total_supply, WINNER_SUPPLY);
        assert_eq!(token.pool_reserve, WINNER_SUPPLY / 5);
        assert_eq!(token.circulating_supply, 0);
        assert_eq!(token.available_for_purchase(), 800_000);
        let pool = contract.pools[id as usize].unwrap();
        assert_eq!(pool.token_id, id);
        assert_eq!(pool.get_reserves(), (200_000, 0));
        assert_eq!(pool.last_updated, end);
    }
    assert_eq!(contract.tokens[4].total_supply, 0);
    assert!(contract.pools[4].is_none());
    // Only the stake placed on the loser is handed back.
    assert_eq!(refunds, vec![("voter4.near".to_string(), stake)]);
    // The tallies stay as history.
    assert_eq!(contract.get_votes(4), Some(stake));
    assert!(contract.current_block.is_none());
}

#[test]
fn settlement_returns_stakes_in_batch_and_voter_order() {
    let mut contract = new_contract();
    for _ in 0..3 {
        create(&mut contract, "creator.near", 0);
    }
    contract.start_block(0).unwrap();
    let now = ACCEPTING_TOKENS_DURATION;
    contract.update_block_phase(now).unwrap();
    contract.current_block.as_mut().unwrap().max_winners = 1;
    let stake = MIN_STAKE_AMOUNT;
    contract.vote(2, "zed.near".into(), stake, now).unwrap();
    contract.vote(0, "bob.near".into(), stake, now).unwrap();
    contract.vote(2, "amy.near".into(), 2 * stake, now).unwrap();
    contract.vote(1, "cat.near".into(), 5 * stake, now).unwrap();
    contract.vote(0, "amy.near".into(), stake, now).unwrap();
    contract.vote(2, "zed.near".into(), stake, now).unwrap();

    let refunds = contract.process_voting_results(now + VOTING_DURATION).unwrap();
    assert_eq!(contract.tokens[1].status, TokenStatus::Winner);
    assert_eq!(
        refunds,
        vec![
            ("bob.near".to_string(), stake),
            ("amy.near".to_string(), stake),
            ("zed.near".to_string(), 2 * stake),
            ("amy.near".to_string(), 2 * stake),
        ]
    );
}

#[test]
fn settlement_with_no_votes_lets_the_first_members_win() {
    let mut contract = new_contract();
    for _ in 0..3 {
        create(&mut contract, "creator.near", 0);
    }
    contract.start_block(0).unwrap();
    contract.current_block.as_mut().unwrap().max_winners = 2;
    let refunds = contract
        .process_voting_results(ACCEPTING_TOKENS_DURATION + VOTING_DURATION)
        .unwrap();
    assert!(refunds.is_empty());
    assert_eq!(contract.tokens[0].status, TokenStatus::Winner);
    assert_eq!(contract.tokens[1].status, TokenStatus::Winner);
    assert_eq!(contract.tokens[2].status, TokenStatus::Lost);
}

#[test]
fn settlement_errors_leave_the_state_alone() {
    let mut contract = new_contract();
    assert_eq!(contract.process_voting_results(0), Err(Error::NoActiveBlock));
    assert!(!contract.is_voting_phase_ended(u64::MAX));

    create(&mut contract, "creator.near", 0);
    contract.start_block(0).unwrap();
    create(&mut contract, "creator.near", ACCEPTING_TOKENS_DURATION);
    let before = format!("{:?}", contract);
    let end = ACCEPTING_TOKENS_DURATION + VOTING_DURATION;
    assert_eq!(contract.process_voting_results(end - 1), Err(Error::VotingNotEnded));
    assert!(!contract.is_voting_phase_ended(end - 1));
    assert!(contract.is_voting_phase_ended(end));
    assert_eq!(contract.process_voting_results(u64::MAX), Err(Error::TimeOverflow));
    assert_eq!(format!("{:?}", contract), before);
}

#[test]
fn settlement_starts_the_next_batch_from_the_queue() {
    let mut contract = new_contract();
    create(&mut contract, "creator.near", 0);
    contract.start_block(0).unwrap();
    let waiting = create(&mut contract, "creator.near", ACCEPTING_TOKENS_DURATION);
    let end = ACCEPTING_TOKENS_DURATION + VOTING_DURATION;
    contract.process_voting_results(end).unwrap();
    let block = contract.get_current_block().unwrap();
    assert_eq!(block.tokens, vec![waiting]);
    assert_eq!(block.start_time, end);
    assert!(contract.token_queue.is_empty());
    assert_eq!(contract.tokens[waiting as usize].status, TokenStatus::Queued);
}

#[test]
fn tokens_by_creator_come_in_registry_order() {
    let mut contract = new_contract();
    create(&mut contract, "a.near", 0);
    create(&mut contract, "b.near", 1);
    create(&mut contract, "a.near", 2);
    let ids: Vec<u64> = contract
        .get_tokens_by_creator(&"a.near".to_string())
        .iter()
        .map(|t| t.id)
        .collect();
    assert_eq!(ids, vec![0, 2]);
    assert!(contract.get_tokens_by_creator(&"c.near".to_string()).is_empty());
}

#[test]
fn soundness_check_tells_sound_states_from_others() {
    let (mut contract, now) = voting_contract(3);
    contract.vote(1, "alice.near".into(), MIN_STAKE_AMOUNT, now).unwrap();
    contract.vote(2, "bob.near".into(), 2 * MIN_STAKE_AMOUNT, now).unwrap();
    create(&mut contract, "late.near", now);
    assert!(contract.is_well_formed());
    let end = ACCEPTING_TOKENS_DURATION + VOTING_DURATION;
    let mut settled = TokenBlocks::new("owner.near".to_string()).unwrap();
    assert!(settled.is_well_formed());
    create(&mut settled, "a.near", 0);
    settled.start_block(0).unwrap();
    settled.process_voting_results(end).unwrap();
    settled.add_liquidity(0, 100, 100, end).unwrap();
    settled.swap_native_for_tokens(0, 10, 0, end).unwrap();
    assert!(settled.is_well_formed());

    // The total of the batch is the sum of the tallies of its members.
    assert_eq!(contract.current_block.as_ref().unwrap().total_stakes, 3 * MIN_STAKE_AMOUNT);
    contract.current_block.as_mut().unwrap().total_stakes += 1;
    assert!(!contract.is_well_formed());
    contract.current_block.as_mut().unwrap().total_stakes -= 1;
    assert!(contract.is_well_formed());

    contract.token_counter += 1;
    assert!(!contract.is_well_formed());
    contract.token_counter -= 1;

    contract.tokens[0].id = 5;
    assert!(!contract.is_well_formed());
    contract.tokens[0].id = 0;

    contract.tokens[0].circulating_supply = 1;
    assert!(!contract.is_well_formed());
    contract.tokens[0].circulating_supply = 0;

    contract.votes[1].as_mut().unwrap().total_votes += 1;
    assert!(!contract.is_well_formed());
    contract.votes[1].as_mut().unwrap().total_votes -= 1;

    contract.stakes[0].total_staked += 1;
    assert!(!contract.is_well_formed());
    contract.stakes[0].total_staked -= 1;

    let twin = contract.stakes[0].account_id.clone();
    contract.stakes[1].account_id = twin;
    assert!(!contract.is_well_formed());
    contract.stakes[1].account_id = "bob.near".to_string();

    contract.token_queue.push(0);
    assert!(!contract.is_well_formed());
    contract.token_queue.pop();

    contract.current_block.as_mut().unwrap().voting_end_time += 1;
    assert!(!contract.is_well_formed());
    contract.current_block.as_mut().unwrap().voting_end_time -= 1;

    contract.current_block.as_mut().unwrap().tokens.push(0);
    assert!(!contract.is_well_formed());
    contract.current_block.as_mut().unwrap().tokens.pop();

    contract.pools[0] = Some(token_blocks::Pool::new(0, 5, 0));
    assert!(!contract.is_well_formed());
    contract.pools[0] = None;
    assert!(contract.is_well_formed());

    settled.pools[0].as_mut().unwrap().fee_rate = 10_001;
    assert!(!settled.is_well_formed());
}
