//! The price of storage.

use vstd::prelude::*;

use crate::error::Error;
use crate::Balance;

verus! {

/// The storage helpers, gathered under one name.
pub struct Storage;

impl Storage {
    /// What one byte of storage costs.
    pub const STORAGE_PRICE_PER_BYTE: Balance = 10_000_000_000_000_000_000;

    /// What an account must keep to pay for its storage.
    pub const MINIMUM_STORAGE_BALANCE: Balance = 1_000_000_000_000_000_000_000;

    /// What is handed back of `attached_deposit` once storage that grew from
    /// `initial_storage` to `current_storage` bytes is paid for: nothing
    /// where the deposit does not exceed the cost.
    pub open spec fn refund(initial_storage: u64, current_storage: u64, attached_deposit: Balance)
        -> int {
        let cost = (current_storage - initial_storage) * 10_000_000_000_000_000_000;
        if attached_deposit > cost {
            attached_deposit - cost
        } else {
            0
        }
    }

    /// The number of bytes that data takes once it is serialized.
    pub fn get_storage_usage(serialized: &[u8]) -> (bytes: Balance)
        ensures
            bytes == serialized@.len(),
    {
        serialized.len() as Balance
    }

    /// Accepts a deposit that covers `storage_used` bytes.
    pub fn assert_storage_covered(storage_used: Balance, attached_deposit: Balance) -> (result:
        Result<(), Error>)
        ensures
            attached_deposit >= storage_used * 10_000_000_000_000_000_000 ==> result.is_ok(),
            attached_deposit < storage_used * 10_000_000_000_000_000_000 ==> result == Err::<
                (),
                Error,
            >(Error::StorageNotCovered),
    {
        match storage_used.checked_mul(Self::STORAGE_PRICE_PER_BYTE) {
            Some(required_cost) => {
                if attached_deposit >= required_cost {
                    Ok(())
                } else {
                    Err(Error::StorageNotCovered)
                }
            },
            None => Err(Error::StorageNotCovered),
        }
    }

    /// What is handed back of `attached_deposit` once the storage added
    /// since `initial_storage` is paid for.
    pub fn refund_storage(initial_storage: u64, current_storage: u64, attached_deposit: Balance)
        -> (refund: Balance)
        requires
            initial_storage <= current_storage,
        ensures
            refund == Self::refund(initial_storage, current_storage, attached_deposit),
    {
        let storage_used = current_storage - initial_storage;
        assert(storage_used * 10_000_000_000_000_000_000 <= 0xffff_ffff_ffff_ffff
            * 10_000_000_000_000_000_000) by (nonlinear_arith)
            requires
                0 <= storage_used <= 0xffff_ffff_ffff_ffff,
        ;
        let storage_cost = storage_used as Balance * Self::STORAGE_PRICE_PER_BYTE;
        if attached_deposit > storage_cost {
            attached_deposit - storage_cost
        } else {
            0
        }
    }

    /// What storing serialized data and `extra_bytes` bytes more costs.
    pub fn calculate_required_storage(serialized: &[u8], extra_bytes: u64) -> (cost: Balance)
        requires
            (serialized@.len() + extra_bytes) * 10_000_000_000_000_000_000 <= Balance::MAX,
        ensures
            cost == (serialized@.len() + extra_bytes) * 10_000_000_000_000_000_000,
    {
        let size = Self::get_storage_usage(serialized) + extra_bytes as Balance;
        size * Self::STORAGE_PRICE_PER_BYTE
    }

    /// Accepts a balance of at least the minimum.
    pub fn assert_minimum_storage(account_balance: Balance) -> (result: Result<(), Error>)
        ensures
            account_balance >= 1_000_000_000_000_000_000_000 ==> result.is_ok(),
            account_balance < 1_000_000_000_000_000_000_000 ==> result == Err::<(), Error>(
                Error::BelowMinimumStorage,
            ),
    {
        if account_balance >= Self::MINIMUM_STORAGE_BALANCE {
            Ok(())
        } else {
            Err(Error::BelowMinimumStorage)
        }
    }
}

} // verus!
