//! Global laws of the table lifecycle, stated over the spec-level gates and
//! transitions of the processor and proved once and for all.

use vstd::prelude::*;

use crate::accounts::AccountView;
use crate::codec::spec_parse_table;
use crate::error::{AddressLookupError, ProgramFailure};
use crate::processor::{
    spec_close_gate_err, spec_deactivate_gate_err, spec_extend_gate_err, spec_freeze_gate_err,
};
use crate::state::{
    spec_deactivated_meta, spec_extended_meta, spec_frozen_meta, spec_is_recent_window,
    spec_status, spec_status_rank, MetaView, DEACTIVATION_SENTINEL, LOOKUP_TABLE_MAX_ADDRESSES,
};

verus! {

/// Address count after a sequence of extension attempts, each carrying a
/// batch of the given size: an attempt succeeds exactly when its batch is
/// non-empty and fits under the capacity bound, as the extension gate
/// demands; a rejected attempt leaves the count unchanged.
pub open spec fn spec_extend_counts(count: nat, batches: Seq<nat>) -> nat
    decreases batches.len(),
{
    if batches.len() == 0 {
        count
    } else {
        let b = batches.first();
        let next: nat = if b > 0 && count + b <= LOOKUP_TABLE_MAX_ADDRESSES {
            (count + b) as nat
        } else {
            count
        };
        spec_extend_counts(next, batches.drop_first())
    }
}

/// Capacity invariant: starting at or under the capacity bound, the address
/// count stays at or under it after every sequence of extension attempts.
pub proof fn lemma_capacity_invariant(count: nat, batches: Seq<nat>)
    requires
        count <= LOOKUP_TABLE_MAX_ADDRESSES,
    ensures
        spec_extend_counts(count, batches) <= LOOKUP_TABLE_MAX_ADDRESSES,
    decreases batches.len(),
{
    if batches.len() > 0 {
        let b = batches.first();
        let next: nat = if b > 0 && count + b <= LOOKUP_TABLE_MAX_ADDRESSES {
            (count + b) as nat
        } else {
            count
        };
        lemma_capacity_invariant(next, batches.drop_first());
    }
}

/// An extension the processor admits is exactly a step of
/// `spec_extend_counts`: its batch is non-empty and the resulting count is
/// at most the capacity bound.
pub proof fn lemma_extend_gate_capacity(
    table: AccountView,
    authority: AccountView,
    program_id: Seq<u8>,
    new_addresses: Seq<Seq<u8>>,
)
    requires
        spec_extend_gate_err(table, authority, program_id, new_addresses) is None,
    ensures
        new_addresses.len() > 0,
        spec_parse_table(table.data).unwrap().addresses.len() + new_addresses.len()
            <= LOOKUP_TABLE_MAX_ADDRESSES,
{
}

/// Monotonic deactivation: freezing and extending preserve the deactivation
/// slot, and once it holds a concrete value, deactivation itself is
/// rejected — so no operation ever resets it to the sentinel or moves it to
/// another value.
pub proof fn lemma_deactivation_monotonic(m: MetaView, current_slot: u64, prior_count: u8)
    ensures
        spec_frozen_meta(m).deactivation_slot == m.deactivation_slot,
        spec_extended_meta(m, current_slot, prior_count).deactivation_slot == m.deactivation_slot,
        m.deactivation_slot == DEACTIVATION_SENTINEL ==> spec_deactivated_meta(
            m,
            current_slot,
        ).deactivation_slot == current_slot,
{
}

/// Monotonic deactivation at the account level: a table whose deactivation
/// slot already holds a concrete value cannot be deactivated again.
pub proof fn lemma_deactivation_set_once(
    table: AccountView,
    authority: AccountView,
    program_id: Seq<u8>,
)
    requires
        spec_parse_table(table.data) is Some,
        spec_parse_table(table.data).unwrap().meta.deactivation_slot != DEACTIVATION_SENTINEL,
    ensures
        spec_deactivate_gate_err(table, authority, program_id) is Some,
{
}

/// Freeze terminality: once the authority is gone, every further freeze,
/// extension, or deactivation by a properly signing caller on the properly
/// owned account fails with the immutability error, and a close is never
/// permitted either (it would first need a deactivation, which no longer
/// has an authority to sign it).
pub proof fn lemma_freeze_terminal(
    table: AccountView,
    authority: AccountView,
    recipient: AccountView,
    program_id: Seq<u8>,
    new_addresses: Seq<Seq<u8>>,
    recent_slots: Seq<u64>,
)
    requires
        table.owner == program_id,
        authority.is_signer,
        spec_parse_table(table.data) is Some,
        spec_parse_table(table.data).unwrap().meta.authority is None,
    ensures
        spec_freeze_gate_err(table, authority, program_id) == Some(
            ProgramFailure::Lookup(AddressLookupError::LookupTableImmutable),
        ),
        spec_extend_gate_err(table, authority, program_id, new_addresses) == Some(
            ProgramFailure::Lookup(AddressLookupError::LookupTableImmutable),
        ),
        spec_deactivate_gate_err(table, authority, program_id) == Some(
            ProgramFailure::Lookup(AddressLookupError::LookupTableImmutable),
        ),
        spec_close_gate_err(table, authority, recipient, program_id, recent_slots) is Some,
{
}

/// Status monotonicity: for a fixed concrete deactivation slot, as the
/// clock advances and the recent-history window slides forward, the status
/// only moves along `Activated -> Deactivating -> Deactivated`, never
/// backward. The two snapshots are contiguous newest-first windows, the
/// second taken no earlier and retaining nothing older than the first, and
/// the deactivation happened no later than the first snapshot's newest
/// slot.
pub proof fn lemma_status_monotonic(d: u64, h1: Seq<u64>, n1: u64, h2: Seq<u64>, n2: u64)
    requires
        d != DEACTIVATION_SENTINEL,
        spec_is_recent_window(h1, n1),
        spec_is_recent_window(h2, n2),
        n1 <= n2,
        n1 - h1.len() <= n2 - h2.len(),
        d <= n1,
    ensures
        spec_status_rank(spec_status(d, h1)) <= spec_status_rank(spec_status(d, h2)),
{
    h1.index_of_first_ensures(d);
    h2.index_of_first_ensures(d);
    match h2.index_of_first(d) {
        Some(i2) => {
            assert(h2[i2] == d);
            assert(d == n2 - i2);
            match h1.index_of_first(d) {
                Some(i1) => {},
                None => {
                    assert(!h1.contains(d));
                    let w = n1 - d;
                    assert(i2 < h2.len());
                    assert(n2 - h2.len() < d);
                    assert(w < h1.len());
                    assert(0 <= w);
                    assert(h1[w] == n1 - w);
                    assert(h1[w] == d);
                    assert(h1.contains(d));
                    assert(false);
                },
            }
        },
        None => {},
    }
}

} // verus!
