//! Model of a host-supplied account as the instruction processor sees it,
//! and the snapshot of host parameters an instruction executes under.

use vstd::prelude::*;

use crate::addr::{copy_bytes, Address};
use crate::state::LOOKUP_TABLE_MAX_ADDRESSES;

verus! {

/// One account handed to an instruction: its identity, balance, data,
/// owner, and whether it signed the transaction.
#[derive(Debug)]
pub struct AccountState {
    pub key: Address,
    pub lamports: u64,
    pub data: Vec<u8>,
    pub owner: Address,
    pub is_signer: bool,
}

/// Mathematical model of an account.
pub struct AccountView {
    pub key: Seq<u8>,
    pub lamports: u64,
    pub data: Seq<u8>,
    pub owner: Seq<u8>,
    pub is_signer: bool,
}

impl View for AccountState {
    type V = AccountView;

    open spec fn view(&self) -> AccountView {
        AccountView {
            key: self.key@,
            lamports: self.lamports,
            data: self.data@,
            owner: self.owner@,
            is_signer: self.is_signer,
        }
    }
}

impl AccountState {
    /// Key and owner are real 32-byte identities.
    pub open spec fn wf(&self) -> bool {
        self.key.wf() && self.owner.wf()
    }
}

impl Clone for AccountState {
    fn clone(&self) -> (r: Self)
        ensures
            r@ == self@,
            r.wf() == self.wf(),
    {
        AccountState {
            key: self.key.clone(),
            lamports: self.lamports,
            data: copy_bytes(&self.data),
            owner: self.owner.clone(),
            is_signer: self.is_signer,
        }
    }
}

/// Snapshot of the host parameters an instruction executes under: the
/// current slot, the recent-history list (newest first), and the rent
/// schedule sampled at every account length a table can take.
#[derive(Debug)]
pub struct HostContext {
    /// The clock's current slot.
    pub current_slot: u64,
    /// Recently valid slots, newest first.
    pub recent_slots: Vec<u64>,
    /// Rent-exempt minimum balance for a table of `k` addresses, indexed by
    /// `k`, for every count from zero through the capacity bound.
    pub rent_minimums: Vec<u64>,
}

impl HostContext {
    /// The rent schedule covers every possible address count.
    pub open spec fn wf(&self) -> bool {
        self.rent_minimums@.len() == LOOKUP_TABLE_MAX_ADDRESSES + 1
    }
}

/// Lamports still owed to reach the rent-exempt minimum (never less than
/// one lamport) from the given balance.
pub open spec fn spec_required_lamports(min_balance: u64, have: u64) -> u64 {
    let floor = if min_balance > 1 {
        min_balance
    } else {
        1u64
    };
    if floor > have {
        (floor - have) as u64
    } else {
        0u64
    }
}

/// Computes the lamports still owed to reach the rent-exempt minimum.
pub fn required_lamports(min_balance: u64, have: u64) -> (r: u64)
    ensures
        r == spec_required_lamports(min_balance, have),
        have + r <= u64::MAX,
{
    let floor = if min_balance > 1 {
        min_balance
    } else {
        1
    };
    if floor > have {
        floor - have
    } else {
        0
    }
}

} // verus!
