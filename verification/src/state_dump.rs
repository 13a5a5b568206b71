//! The whole-number decisions of the state dump: whether its ranges are in
//! order, how large the dump will be, and in which unit a size is shown.

use vstd::prelude::*;

verus! {

/// Why the ranges of a state dump are not in order.
#[derive(Clone, Copy, Debug, PartialEq, Eq, Structural)]
pub enum RangeError {
    /// The least number of storage slots is above the greatest.
    StorageRange { min: usize, max: usize },
    /// The least size of code is above the greatest.
    CodeRange { min: usize, max: usize },
}

/// Checks the ranges of a state dump: that of the storage slots first, then
/// that of the code sizes.
pub fn validate_ranges(
    storage_min: usize,
    storage_max: usize,
    code_size_min: usize,
    code_size_max: usize,
) -> (r: Result<(), RangeError>)
    ensures
        r == if storage_min > storage_max {
            Err::<(), RangeError>(RangeError::StorageRange { min: storage_min, max: storage_max })
        } else if code_size_min > code_size_max {
            Err::<(), RangeError>(RangeError::CodeRange { min: code_size_min, max: code_size_max })
        } else {
            Ok::<(), RangeError>(())
        },
{
    if storage_min > storage_max {
        Err(RangeError::StorageRange { min: storage_min, max: storage_max })
    } else if code_size_min > code_size_max {
        Err(RangeError::CodeRange { min: code_size_min, max: code_size_max })
    } else {
        Ok(())
    }
}

/// The bytes of the line of the state root.
pub const STATE_ROOT_LINE: u64 = 80;

/// The bytes of an account without code and storage.
pub const BASE_ACCOUNT_SIZE: u64 = 250;

/// The bytes of one storage entry.
pub const STORAGE_ENTRY_SIZE: u64 = 140;

/// The bytes that code of the mean size takes in the dump: two digits for each
/// byte, the `0x` in front, and the name of the field.
pub open spec fn code_json_size(code_size_min: nat, code_size_max: nat) -> nat {
    2 + ((code_size_min + code_size_max) / 2) * 2 + 10
}

/// The estimated size of a dump of `accounts` accounts, of which
/// `accounts_with_code` have code of a size between the two bounds and
/// `accounts_with_storage` have `avg_storage_slots` storage slots each.
pub open spec fn estimated_size(
    accounts: nat,
    accounts_with_code: nat,
    code_size_min: nat,
    code_size_max: nat,
    accounts_with_storage: nat,
    avg_storage_slots: nat,
) -> nat {
    STATE_ROOT_LINE as nat + BASE_ACCOUNT_SIZE as nat * accounts + code_json_size(
        code_size_min,
        code_size_max,
    ) * accounts_with_code + STORAGE_ENTRY_SIZE as nat * (avg_storage_slots
        * accounts_with_storage)
}

/// The product of two numbers, where it is within the range of a `u64`.
fn checked_product(a: u64, b: u64) -> (r: Option<u64>)
    ensures
        r is Some <==> a * b <= u64::MAX,
        r is Some ==> r->0 == a * b,
{
    if b == 0 || a <= u64::MAX / b {
        assert(a * b <= u64::MAX) by (nonlinear_arith)
            requires
                b == 0 || a <= u64::MAX / b,
        ;
        Some(a * b)
    } else {
        assert(a * b > u64::MAX) by (nonlinear_arith)
            requires
                b > 0,
                a > u64::MAX / b,
        ;
        None
    }
}

/// The sum of two numbers, where it is within the range of a `u64`.
fn checked_sum(a: u64, b: u64) -> (r: Option<u64>)
    ensures
        r is Some <==> a + b <= u64::MAX,
        r is Some ==> r->0 == a + b,
{
    if a <= u64::MAX - b {
        Some(a + b)
    } else {
        None
    }
}

/// Estimates the size of a dump in bytes. There is no estimate where it is
/// beyond the range of the counter.
pub fn estimate_size(
    accounts: u64,
    accounts_with_code: u64,
    code_size_min: u64,
    code_size_max: u64,
    accounts_with_storage: u64,
    avg_storage_slots: u64,
) -> (r: Option<u64>)
    ensures
        r is Some <==> estimated_size(
            accounts as nat,
            accounts_with_code as nat,
            code_size_min as nat,
            code_size_max as nat,
            accounts_with_storage as nat,
            avg_storage_slots as nat,
        ) <= u64::MAX,
        r is Some ==> r->0 == estimated_size(
            accounts as nat,
            accounts_with_code as nat,
            code_size_min as nat,
            code_size_max as nat,
            accounts_with_storage as nat,
            avg_storage_slots as nat,
        ),
{
    let avg_code: u64 = ((code_size_min as u128 + code_size_max as u128) / 2) as u64;
    let code_json: u128 = 2 + (avg_code as u128) * 2 + 10;
    let base: u128 = STATE_ROOT_LINE as u128 + (BASE_ACCOUNT_SIZE as u128) * (accounts as u128);
    let ghost entries = avg_storage_slots * accounts_with_storage;
    proof {
        assert(code_json == code_json_size(code_size_min as nat, code_size_max as nat));
        assert(code_json * accounts_with_code >= 0 && entries >= 0) by (nonlinear_arith)
            requires
                code_json >= 0,
                accounts_with_code >= 0,
                entries == avg_storage_slots * accounts_with_storage,
                avg_storage_slots >= 0,
                accounts_with_storage >= 0,
        ;
    }
    let code: u64 = if accounts_with_code == 0 {
        0
    } else if code_json > u64::MAX as u128 {
        proof {
            assert(code_json * accounts_with_code >= code_json) by (nonlinear_arith)
                requires
                    accounts_with_code >= 1,
                    code_json >= 0,
            ;
        }
        return None;
    } else {
        match checked_product(code_json as u64, accounts_with_code) {
            Some(code) => code,
            None => {
                return None;
            },
        }
    };
    let storage_entries = match checked_product(avg_storage_slots, accounts_with_storage) {
        Some(n) => n,
        None => {
            return None;
        },
    };
    let storage = match checked_product(STORAGE_ENTRY_SIZE, storage_entries) {
        Some(n) => n,
        None => {
            return None;
        },
    };
    let total: u128 = base + code as u128 + storage as u128;
    if total > u64::MAX as u128 {
        None
    } else {
        Some(total as u64)
    }
}

/// The number of storage slots halfway between the two bounds.
pub fn midpoint_slots(storage_min: u64, storage_max: u64) -> (r: u64)
    ensures
        r == (storage_min + storage_max) / 2,
{
    ((storage_min as u128 + storage_max as u128) / 2) as u64
}

/// The unit that a size is shown in.
#[derive(Clone, Copy, Debug, PartialEq, Eq, Structural)]
pub enum SizeUnit {
    Bytes,
    KB,
    MB,
    GB,
}

/// The unit that `bytes` is shown in: the largest of which it is at least one.
pub fn size_unit(bytes: u64) -> (r: SizeUnit)
    ensures
        r == if bytes >= 1024 * 1024 * 1024 {
            SizeUnit::GB
        } else if bytes >= 1024 * 1024 {
            SizeUnit::MB
        } else if bytes >= 1024 {
            SizeUnit::KB
        } else {
            SizeUnit::Bytes
        },
{
    if bytes >= 1024 * 1024 * 1024 {
        SizeUnit::GB
    } else if bytes >= 1024 * 1024 {
        SizeUnit::MB
    } else if bytes >= 1024 {
        SizeUnit::KB
    } else {
        SizeUnit::Bytes
    }
}

/// The seed of the generator of one thread: the seed of the run and the number
/// of the thread. There is none where the sum is beyond the range of a seed.
pub fn thread_seed(seed: u64, thread: u64) -> (r: Option<u64>)
    ensures
        r is Some <==> seed + thread <= u64::MAX,
        r is Some ==> r->0 == seed + thread,
{
    checked_sum(seed, thread)
}

} // verus!
