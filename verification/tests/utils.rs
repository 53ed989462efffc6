use token_blocks::{
    Block, BlockPhase, Error, ErrorKind, StakeInfo, Storage, Time, TokenMetadata, Validation,
};

fn metadata(title: &str) -> TokenMetadata {
    TokenMetadata {
        title: title.to_string(),
        description: None,
        media: None,
        media_hash: None,
        copies: None,
        issued_at: None,
        expires_at: None,
        starts_at: None,
        extra: None,
    }
}

#[test]
fn test_metadata_validation() {
    let valid_metadata = TokenMetadata {
        title: "Test Token".to_string(),
        description: Some("Valid description".to_string()),
        media: Some("ipfs://hash".to_string()),
        media_hash: None,
        copies: Some(1000),
        issued_at: None,
        expires_at: None,
        starts_at: None,
        extra: None,
    };
    assert!(Validation::assert_valid_metadata(&valid_metadata).unwrap());
}

#[test]
fn test_invalid_metadata() {
    let invalid_metadata = TokenMetadata {
        title: "".to_string(),
        description: None,
        media: None,
        media_hash: None,
        copies: None,
        issued_at: None,
        expires_at: None,
        starts_at: None,
        extra: None,
    };
    assert_eq!(Validation::assert_valid_metadata(&invalid_metadata), Err(Error::EmptyTitle));
}

#[test]
fn test_stake_validation() {
    assert!(Validation::assert_valid_stake(100, 10, 1000).unwrap());
}

#[test]
fn test_invalid_stake() {
    assert_eq!(Validation::assert_valid_stake(1000, 10, 100), Err(Error::InsufficientBalance));
}

#[test]
fn test_validation() {
    let valid_metadata = TokenMetadata {
        title: "Test Token".to_string(),
        description: Some("Description".to_string()),
        media: Some("ipfs://hash".to_string()),
        media_hash: None,
        copies: Some(1000),
        issued_at: None,
        expires_at: None,
        starts_at: None,
        extra: None,
    };
    assert!(Validation::assert_valid_metadata(&valid_metadata).unwrap());

    assert!(Validation::assert_valid_stake(100, 10, 1000).unwrap());
}

#[test]
fn metadata_checks_in_order() {
    let mut m = metadata(&"x".repeat(100));
    assert_eq!(Validation::assert_valid_metadata(&m), Ok(true));
    m.title = "x".repeat(101);
    assert_eq!(Validation::assert_valid_metadata(&m), Err(Error::TitleTooLong));
    // The limit counts bytes: fifty two-byte letters fit, fifty-one do not.
    m.title = "é".repeat(50);
    assert_eq!(Validation::assert_valid_metadata(&m), Ok(true));
    m.title = "é".repeat(51);
    assert_eq!(Validation::assert_valid_metadata(&m), Err(Error::TitleTooLong));

    let mut m = metadata("t");
    m.description = Some("d".repeat(1000));
    assert_eq!(Validation::assert_valid_metadata(&m), Ok(true));
    m.description = Some("d".repeat(1001));
    assert_eq!(Validation::assert_valid_metadata(&m), Err(Error::DescriptionTooLong));

    let mut m = metadata("t");
    m.media = Some(String::new());
    assert_eq!(Validation::assert_valid_metadata(&m), Err(Error::EmptyMedia));
    m.media = Some("http://hash".to_string());
    assert_eq!(Validation::assert_valid_metadata(&m), Err(Error::InvalidMediaProtocol));
    m.media = Some("ipfs:/".to_string());
    assert_eq!(Validation::assert_valid_metadata(&m), Err(Error::InvalidMediaProtocol));
    m.media = Some("xipfs://hash".to_string());
    assert_eq!(Validation::assert_valid_metadata(&m), Err(Error::InvalidMediaProtocol));
    m.media = Some("ar://hash".to_string());
    assert_eq!(Validation::assert_valid_metadata(&m), Ok(true));
    m.media = Some("ipfs://".to_string());
    assert_eq!(Validation::assert_valid_metadata(&m), Ok(true));

    let mut m = metadata("t");
    m.copies = Some(0);
    assert_eq!(Validation::assert_valid_metadata(&m), Err(Error::ZeroCopies));
    m.copies = Some(1_000_000_001);
    assert_eq!(Validation::assert_valid_metadata(&m), Err(Error::TooManyCopies));
    m.copies = Some(1_000_000_000);
    assert_eq!(Validation::assert_valid_metadata(&m), Ok(true));

    // The first failing check decides.
    let mut m = metadata("");
    m.media = Some("http://hash".to_string());
    m.copies = Some(0);
    assert_eq!(Validation::assert_valid_metadata(&m), Err(Error::EmptyTitle));
    m.title = "t".to_string();
    assert_eq!(Validation::assert_valid_metadata(&m), Err(Error::InvalidMediaProtocol));
    assert_eq!(Error::EmptyTitle.kind(), ErrorKind::Validation);
}

#[test]
fn stake_and_purchase_checks() {
    assert_eq!(Validation::assert_valid_stake(9, 10, 1000), Err(Error::StakeTooLow));
    assert_eq!(Validation::assert_valid_stake(10, 10, 10), Ok(true));
    assert_eq!(Validation::assert_valid_stake(5, 10, 1), Err(Error::StakeTooLow));

    assert_eq!(Validation::assert_valid_purchase(1, 1, 5, 5), Ok(true));
    assert_eq!(Validation::assert_valid_purchase(0, 1, 5, 5), Err(Error::ZeroAmount));
    assert_eq!(
        Validation::assert_valid_purchase(2, 1, 5, 5),
        Err(Error::InsufficientTokensAvailable)
    );
    assert_eq!(Validation::assert_valid_purchase(1, 1, 5, 4), Err(Error::InsufficientPayment));
}

#[test]
fn block_phase_checks() {
    let mut block = Block::new(100, 10, 20, 30, 1, 1);
    assert_eq!(
        Validation::assert_valid_block_phase(&block, 100, BlockPhase::Voting),
        Err(Error::InvalidBlockPhase)
    );
    assert_eq!(
        Validation::assert_valid_block_phase(&block, 100, BlockPhase::AcceptingTokens),
        Err(Error::InvalidPhaseCheck)
    );
    block.update_phase(110);
    assert_eq!(Validation::assert_valid_block_phase(&block, 129, BlockPhase::Voting), Ok(true));
    assert_eq!(Validation::assert_valid_block_phase(&block, 0, BlockPhase::Voting), Ok(true));
    assert_eq!(
        Validation::assert_valid_block_phase(&block, 130, BlockPhase::Voting),
        Err(Error::VotingPeriodEnded)
    );
    block.update_phase(130);
    assert_eq!(Validation::assert_valid_block_phase(&block, 130, BlockPhase::Public), Ok(true));
    assert_eq!(Validation::assert_valid_block_phase(&block, 159, BlockPhase::Public), Ok(true));
    assert_eq!(
        Validation::assert_valid_block_phase(&block, 160, BlockPhase::Public),
        Err(Error::NotInPublicPeriod)
    );
    assert_eq!(
        Validation::assert_valid_block_phase(&block, 129, BlockPhase::Public),
        Err(Error::NotInPublicPeriod)
    );
    block.update_phase(160);
    assert_eq!(
        Validation::assert_valid_block_phase(&block, 160, BlockPhase::Completed),
        Err(Error::InvalidPhaseCheck)
    );
    assert_eq!(Error::InvalidPhaseCheck.kind(), ErrorKind::Phase);
}

#[test]
fn owner_and_voter_checks() {
    let owner = "owner.near".to_string();
    assert_eq!(Validation::assert_owner(&owner, &"owner.near".to_string()), Ok(()));
    assert_eq!(Validation::assert_owner(&"user.near".to_string(), &owner), Err(Error::NotOwner));

    let mut stakes = vec![StakeInfo::new("alice.near".to_string())];
    stakes[0].add_stake(1, 5);
    assert_eq!(Validation::assert_voter_access(&"alice.near".to_string(), &stakes), Ok(true));
    assert_eq!(
        Validation::assert_voter_access(&"bob.near".to_string(), &stakes),
        Err(Error::NotVoter)
    );
    assert_eq!(
        Validation::assert_voter_access(&"alice.near".to_string(), &Vec::new()),
        Err(Error::NotVoter)
    );
}

#[test]
fn test_time_ranges() {
    let current = 1_000_000;
    let start = current - 1_000;
    let end = current + 1_000;

    assert!(Time::is_within_range(current, start, end));
    assert!(Time::assert_valid_time_range(start, end, 0).unwrap());
}

#[test]
fn test_block_timings() {
    let start_time = 1_000_000;
    let block_end = Time::get_block_end_time(start_time);
    let priority_end = Time::get_priority_end_time(block_end);
    let public_end = Time::get_public_end_time(block_end);

    assert_eq!(block_end - start_time, Time::BLOCK_DURATION);
    assert_eq!(priority_end - block_end, Time::PRIORITY_DURATION);
    assert_eq!(public_end - block_end, Time::PUBLIC_DURATION);
}

#[test]
fn test_day_calculations() {
    let time1 = Time::ONE_DAY * 2;
    let time2 = Time::ONE_DAY * 3;

    assert_eq!(Time::get_days_between(time1, time2), 1);
    assert!(!Time::is_same_day(time1, time2));
}

#[test]
fn test_time_functions() {
    let current_time = 1000000;
    let start_time = current_time - 1000;
    let end_time = current_time + 1000;

    assert!(Time::is_within_range(current_time, start_time, end_time));
    assert!(Time::assert_valid_time_range(start_time, end_time, 0).unwrap());

    let block_end = Time::get_block_end_time(current_time);
    assert_eq!(block_end, current_time + 300_000_000_000);
}

#[test]
fn time_edges() {
    assert_eq!(Time::assert_valid_time_range(5, 5, 0), Err(Error::InvalidTimeRange));
    assert_eq!(Time::assert_valid_time_range(6, 5, 0), Err(Error::InvalidTimeRange));
    assert_eq!(Time::assert_valid_time_range(4, 5, 5), Err(Error::EndTimeNotInFuture));
    assert_eq!(Time::assert_valid_time_range(4, 5, 4), Ok(true));
    assert!(Time::is_within_range(5, 5, 5));
    assert!(!Time::is_within_range(4, 5, 6));
    assert!(!Time::is_within_range(7, 5, 6));
    assert!(Time::is_same_day(0, Time::ONE_DAY - 1));
    assert!(!Time::is_same_day(Time::ONE_DAY - 1, Time::ONE_DAY));
    assert_eq!(Time::get_days_between(Time::ONE_DAY * 3, Time::ONE_DAY), 2);
    assert_eq!(Time::get_days_between(0, Time::ONE_DAY - 1), 0);
    assert_eq!(Time::get_days_between(7, 7), 0);
    assert_eq!(Time::get_days_between(0, u64::MAX), u64::MAX / Time::ONE_DAY);
}

#[test]
fn storage_test_storage_calculations() {
    let test_data = near_sdk::borsh::to_vec(&"test data".to_string()).unwrap();
    let storage_usage = Storage::get_storage_usage(&test_data);
    assert!(storage_usage > 0);

    let required_deposit = storage_usage * Storage::STORAGE_PRICE_PER_BYTE;
    assert_eq!(Storage::assert_storage_covered(storage_usage, required_deposit), Ok(()));
}

#[test]
fn tests_test_storage_calculations() {
    let test_data = near_sdk::borsh::to_vec(&"test data".to_string()).unwrap();
    let storage_usage = Storage::get_storage_usage(&test_data);
    assert!(storage_usage > 0);

    assert_eq!(
        Storage::assert_storage_covered(
            storage_usage,
            storage_usage * Storage::STORAGE_PRICE_PER_BYTE
        ),
        Ok(())
    );
}

#[test]
fn test_storage_refund() {
    let initial_storage = 100;
    let deposit = Storage::STORAGE_PRICE_PER_BYTE * 200;
    let current_usage = 150;
    let expected_refund =
        deposit - (current_usage - initial_storage) as u128 * Storage::STORAGE_PRICE_PER_BYTE;
    assert!(expected_refund > 0);
    assert_eq!(Storage::refund_storage(initial_storage, current_usage, deposit), expected_refund);
}

#[test]
fn storage_edges() {
    let price = Storage::STORAGE_PRICE_PER_BYTE;
    assert_eq!(Storage::get_storage_usage(&[]), 0);
    assert_eq!(Storage::get_storage_usage(&[1, 2, 3]), 3);
    assert_eq!(Storage::assert_storage_covered(3, 3 * price - 1), Err(Error::StorageNotCovered));
    assert_eq!(Storage::assert_storage_covered(0, 0), Ok(()));
    // A cost beyond every balance is never covered.
    assert_eq!(Storage::assert_storage_covered(u128::MAX, u128::MAX), Err(Error::StorageNotCovered));
    assert_eq!(Storage::refund_storage(100, 150, 50 * price), 0);
    assert_eq!(Storage::refund_storage(100, 150, 50 * price + 1), 1);
    assert_eq!(Storage::refund_storage(100, 100, 9), 9);
    assert_eq!(Storage::refund_storage(0, u64::MAX, u128::MAX), u128::MAX - u64::MAX as u128 * price);
    assert_eq!(Storage::calculate_required_storage(&[0; 13], 7), 20 * price);
    assert_eq!(Storage::assert_minimum_storage(Storage::MINIMUM_STORAGE_BALANCE), Ok(()));
    assert_eq!(
        Storage::assert_minimum_storage(Storage::MINIMUM_STORAGE_BALANCE - 1),
        Err(Error::BelowMinimumStorage)
    );
}
