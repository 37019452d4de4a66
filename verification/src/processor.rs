//! Instruction processor: the five operation handlers and the dispatcher,
//! acting on the account model.
//!
//! Every handler either fully applies its effect and returns `Ok`, or
//! returns an error and leaves every account exactly as it was, matching
//! the host's atomic instruction outcomes.
//!
//! The system-account service is modeled at its interface: a lamport
//! transfer fails exactly when the funding account cannot cover it;
//! allocation and assignment of the fresh table account succeed. A closed
//! account keeps this program as its owner and is left at zero length.

use vstd::prelude::*;

use crate::accounts::{required_lamports, spec_required_lamports, AccountState, AccountView, HostContext};
use crate::addr::{copy_bytes, Address, ADDRESS_BYTES};
use crate::codec::{
    lemma_addresses_bytes_roundtrip, lemma_meta_bytes_len, lemma_table_bytes_roundtrip,
    spec_addresses_bytes, spec_is_uninitialized, spec_meta_bytes, spec_parse_addresses,
    spec_parse_meta, spec_parse_table, spec_table_bytes, DecodeError,
};
use crate::derivation::{derive_table_address, spec_derived_table_address};
use crate::error::{AddressLookupError, ProgramFailure};
use crate::instruction::{decode_instruction, spec_parse_instruction, AddressLookupInstruction, InstructionView};
use crate::state::{
    spec_deactivated_meta, spec_extended_meta, spec_frozen_meta, spec_new_meta, AddressLookupTable,
    LookupTableMeta, LookupTableStatus, TableView, DEACTIVATION_SENTINEL,
    LOOKUP_TABLE_MAX_ADDRESSES,
};

verus! {

/// Shared preconditions of every operation on an existing table, checked in
/// this order: the table account is owned by this program; the authority
/// signed; the account decodes as a table; the table still has an
/// authority; the stored authority is the one supplied.
pub open spec fn spec_common_gate_err(
    table: AccountView,
    authority: AccountView,
    program_id: Seq<u8>,
) -> Option<ProgramFailure> {
    if table.owner != program_id {
        Some(ProgramFailure::InvalidAccountOwner)
    } else if !authority.is_signer {
        Some(ProgramFailure::MissingRequiredSignature)
    } else {
        match spec_parse_table(table.data) {
            None => Some(
                if spec_is_uninitialized(table.data) {
                    ProgramFailure::InvalidArgument
                } else {
                    ProgramFailure::InvalidAccountData
                },
            ),
            Some(t) => match t.meta.authority {
                None => Some(ProgramFailure::Lookup(AddressLookupError::LookupTableImmutable)),
                Some(a) => if a != authority.key {
                    Some(ProgramFailure::Lookup(AddressLookupError::IncorrectAuthority))
                } else {
                    None
                },
            },
        }
    }
}

/// Checks the shared preconditions and decodes the table. The single
/// routine every mutating handler goes through, so identical conditions are
/// reported identically.
fn check_common(
    program_id: &Address,
    table_account: &AccountState,
    authority_account: &AccountState,
) -> (r: Result<AddressLookupTable, ProgramFailure>)
    ensures
        match r {
            Ok(t) => spec_common_gate_err(table_account@, authority_account@, program_id@)
                is None && spec_parse_table(table_account@.data) == Some(t@) && t.wf()
                && t@.meta.authority == Some(authority_account@.key),
            Err(e) => spec_common_gate_err(table_account@, authority_account@, program_id@)
                == Some(e),
        },
{
    if !table_account.owner.same_as(program_id) {
        return Err(ProgramFailure::InvalidAccountOwner);
    }
    if !authority_account.is_signer {
        return Err(ProgramFailure::MissingRequiredSignature);
    }
    let lookup_table = match AddressLookupTable::deserialize(table_account.data.as_slice()) {
        Ok(t) => t,
        Err(DecodeError::Uninitialized) => {
            return Err(ProgramFailure::InvalidArgument);
        },
        Err(DecodeError::Malformed) => {
            return Err(ProgramFailure::InvalidAccountData);
        },
    };
    match &lookup_table.meta.authority {
        None => Err(ProgramFailure::Lookup(AddressLookupError::LookupTableImmutable)),
        Some(a) => {
            if !a.same_as(&authority_account.key) {
                Err(ProgramFailure::Lookup(AddressLookupError::IncorrectAuthority))
            } else {
                Ok(lookup_table)
            }
        },
    }
}

/// Parsing the account again after only its header region was rewritten
/// yields the same addresses under the new metadata.
proof fn lemma_overwrite_meta_parse(data: Seq<u8>, t: TableView, m2: crate::state::MetaView)
    requires
        spec_parse_table(data) == Some(t),
        m2.wf(),
    ensures
        spec_parse_table(spec_meta_bytes(m2) + data.skip(56)) == Some(
            TableView { meta: m2, addresses: t.addresses },
        ),
{
    vstd::bytes::lemma_auto_spec_u64_to_from_le_bytes();
    lemma_meta_bytes_len(m2);
    let header = spec_meta_bytes(m2);
    let bytes = header + data.skip(56);
    assert(bytes.len() == data.len());
    assert(bytes.subrange(0, 4) =~= seq![1u8, 0u8, 0u8, 0u8]);
    assert(bytes.subrange(4, 12) =~= vstd::bytes::spec_u64_to_le_bytes(m2.deactivation_slot));
    assert(bytes.subrange(12, 20) =~= vstd::bytes::spec_u64_to_le_bytes(m2.last_extended_slot));
    assert(bytes[20] == m2.last_extended_slot_start_index);
    match m2.authority {
        Some(a) => {
            assert(bytes[21] == 1u8);
            assert(bytes.subrange(22, 54) =~= a);
        },
        None => {
            assert(bytes[21] == 0u8);
        },
    }
    assert(spec_parse_meta(bytes) == Some(m2));
    assert(bytes.skip(56) =~= data.skip(56));
    assert(spec_parse_addresses(bytes.skip(56)) == t.addresses);
}

/// Account after its header region is rewritten to encode `m2`.
pub open spec fn spec_with_meta(table: AccountView, m2: crate::state::MetaView) -> AccountView {
    AccountView { data: spec_meta_bytes(m2) + table.data.skip(56), ..table }
}

/// Overwrites the table account's header region with the given metadata;
/// the account is known to be at least header-sized because it decoded.
fn apply_meta(table_account: &mut AccountState, new_meta: &LookupTableMeta)
    requires
        new_meta.wf(),
        old(table_account)@.data.len() >= 56,
    ensures
        final(table_account)@ == spec_with_meta(old(table_account)@, new_meta@),
{
    match AddressLookupTable::overwrite_meta_data(&mut table_account.data, new_meta) {
        Ok(()) => {},
        Err(_) => {
            proof {
                assert(false);
            }
        },
    }
}

/// Makes the table immutable forever by discarding its authority. Only a
/// live (not deactivated), non-empty table can be frozen.
pub fn process_freeze_lookup_table(
    program_id: &Address,
    table_account: &mut AccountState,
    authority_account: &AccountState,
) -> (r: Result<(), ProgramFailure>)
    ensures
        match spec_freeze_gate_err(old(table_account)@, authority_account@, program_id@) {
            Some(e) => r == Err::<(), ProgramFailure>(e) && final(table_account)@ == old(table_account)@,
            None => {
                let t = spec_parse_table(old(table_account)@.data).unwrap();
                r == Ok::<(), ProgramFailure>(()) && final(table_account)@ == spec_with_meta(
                    old(table_account)@,
                    spec_frozen_meta(t.meta),
                ) && spec_parse_table(final(table_account)@.data) == Some(
                    TableView { meta: spec_frozen_meta(t.meta), addresses: t.addresses },
                )
            },
        },
{
    let lookup_table = match check_common(program_id, table_account, authority_account) {
        Ok(t) => t,
        Err(e) => {
            return Err(e);
        },
    };
    if lookup_table.meta.deactivation_slot != DEACTIVATION_SENTINEL {
        return Err(ProgramFailure::InvalidArgument);
    }
    if lookup_table.addresses.len() == 0 {
        return Err(ProgramFailure::InvalidInstructionData);
    }
    let new_meta = LookupTableMeta { authority: None, ..lookup_table.meta };
    proof {
        lemma_overwrite_meta_parse(
            old(table_account)@.data,
            spec_parse_table(old(table_account)@.data).unwrap(),
            new_meta@,
        );
    }
    apply_meta(table_account, &new_meta);
    Ok(())
}

/// Every condition under which a freeze is rejected, with its error.
pub open spec fn spec_freeze_gate_err(
    table: AccountView,
    authority: AccountView,
    program_id: Seq<u8>,
) -> Option<ProgramFailure> {
    match spec_common_gate_err(table, authority, program_id) {
        Some(e) => Some(e),
        None => {
            let t = spec_parse_table(table.data).unwrap();
            if t.meta.deactivation_slot != DEACTIVATION_SENTINEL {
                Some(ProgramFailure::InvalidArgument)
            } else if t.addresses.len() == 0 {
                Some(ProgramFailure::InvalidInstructionData)
            } else {
                None
            }
        },
    }
}

/// Every condition under which a deactivation is rejected, with its error.
pub open spec fn spec_deactivate_gate_err(
    table: AccountView,
    authority: AccountView,
    program_id: Seq<u8>,
) -> Option<ProgramFailure> {
    match spec_common_gate_err(table, authority, program_id) {
        Some(e) => Some(e),
        None => {
            let t = spec_parse_table(table.data).unwrap();
            if t.meta.deactivation_slot != DEACTIVATION_SENTINEL {
                Some(ProgramFailure::InvalidArgument)
            } else {
                None
            }
        },
    }
}

/// Starts the deactivation cooldown by recording the current slot. Only
/// permitted while the table still holds the sentinel, so the deactivation
/// slot is set at most once in a table's lifetime.
pub fn process_deactivate_lookup_table(
    program_id: &Address,
    table_account: &mut AccountState,
    authority_account: &AccountState,
    ctx: &HostContext,
) -> (r: Result<(), ProgramFailure>)
    ensures
        match spec_deactivate_gate_err(old(table_account)@, authority_account@, program_id@) {
            Some(e) => r == Err::<(), ProgramFailure>(e) && final(table_account)@ == old(table_account)@,
            None => {
                let t = spec_parse_table(old(table_account)@.data).unwrap();
                r == Ok::<(), ProgramFailure>(()) && final(table_account)@ == spec_with_meta(
                    old(table_account)@,
                    spec_deactivated_meta(t.meta, ctx.current_slot),
                ) && spec_parse_table(final(table_account)@.data) == Some(
                    TableView {
                        meta: spec_deactivated_meta(t.meta, ctx.current_slot),
                        addresses: t.addresses,
                    },
                )
            },
        },
{
    let lookup_table = match check_common(program_id, table_account, authority_account) {
        Ok(t) => t,
        Err(e) => {
            return Err(e);
        },
    };
    if lookup_table.meta.deactivation_slot != DEACTIVATION_SENTINEL {
        return Err(ProgramFailure::InvalidArgument);
    }
    let new_meta = LookupTableMeta { deactivation_slot: ctx.current_slot, ..lookup_table.meta };
    proof {
        lemma_overwrite_meta_parse(
            old(table_account)@.data,
            spec_parse_table(old(table_account)@.data).unwrap(),
            new_meta@,
        );
    }
    apply_meta(table_account, &new_meta);
    Ok(())
}


/// Splitting a 32-byte-aligned region parses piecewise.
proof fn lemma_parse_addresses_append(a: Seq<u8>, b: Seq<u8>)
    requires
        a.len() % 32 == 0,
        b.len() % 32 == 0,
    ensures
        spec_parse_addresses(a + b) == spec_parse_addresses(a) + spec_parse_addresses(b),
{
    let na = a.len() / 32;
    let nb = b.len() / 32;
    vstd::arithmetic::div_mod::lemma_fundamental_div_mod(a.len() as int, 32);
    vstd::arithmetic::div_mod::lemma_fundamental_div_mod(b.len() as int, 32);
    vstd::arithmetic::div_mod::lemma_fundamental_div_mod((a + b).len() as int, 32);
    assert((a + b).len() == 32 * (na + nb));
    vstd::arithmetic::div_mod::lemma_mod_multiples_basic((na + nb) as int, 32);
    assert((a + b).len() % 32 == 0);
    assert((a + b).len() / 32 == na + nb) by {
        vstd::arithmetic::div_mod::lemma_div_multiples_vanish((na + nb) as int, 32);
    }
    let lhs = spec_parse_addresses(a + b);
    let rhs = spec_parse_addresses(a) + spec_parse_addresses(b);
    assert forall|k: int| 0 <= k < na + nb implies lhs[k] == rhs[k] by {
        if k < na {
            assert((a + b).subrange(32 * k, 32 * k + 32) =~= a.subrange(32 * k, 32 * k + 32));
        } else {
            assert((a + b).subrange(32 * k, 32 * k + 32) =~= b.subrange(
                32 * (k - na),
                32 * (k - na) + 32,
            ));
        }
    }
    assert(lhs =~= rhs);
}

/// Every condition under which an extension is rejected before funding is
/// considered, with its error.
pub open spec fn spec_extend_gate_err(
    table: AccountView,
    authority: AccountView,
    program_id: Seq<u8>,
    new_addresses: Seq<Seq<u8>>,
) -> Option<ProgramFailure> {
    match spec_common_gate_err(table, authority, program_id) {
        Some(e) => Some(e),
        None => {
            let t = spec_parse_table(table.data).unwrap();
            if t.meta.deactivation_slot != DEACTIVATION_SENTINEL {
                Some(ProgramFailure::InvalidArgument)
            } else if t.addresses.len() >= LOOKUP_TABLE_MAX_ADDRESSES {
                Some(ProgramFailure::InvalidInstructionData)
            } else if new_addresses.len() == 0 {
                Some(ProgramFailure::InvalidInstructionData)
            } else if t.addresses.len() + new_addresses.len() > LOOKUP_TABLE_MAX_ADDRESSES {
                Some(ProgramFailure::InvalidInstructionData)
            } else {
                None
            }
        },
    }
}

/// Appends addresses to the table. The first extension in a slot records
/// the slot and the prior address count in the header; the account is
/// topped up to the rent-exempt minimum of its new length, from the payer
/// when its own balance does not cover it. The resulting address count
/// never exceeds the capacity bound, and an extension that would exceed it
/// is rejected with the account unchanged.
pub fn process_extend_lookup_table(
    program_id: &Address,
    table_account: &mut AccountState,
    authority_account: &AccountState,
    payer_account: &mut AccountState,
    has_payer: bool,
    new_addresses: &Vec<Address>,
    ctx: &HostContext,
) -> (r: Result<(), ProgramFailure>)
    requires
        ctx.wf(),
        forall|i: int| 0 <= i < new_addresses@.len() ==> (#[trigger] new_addresses@[i]).wf(),
    ensures
        ({
            let news = new_addresses@.map_values(|a: Address| a@);
            match spec_extend_gate_err(old(table_account)@, authority_account@, program_id@, news) {
                Some(e) => r == Err::<(), ProgramFailure>(e) && final(table_account)@ == old(table_account)@ && final(payer_account)@ == old(payer_account)@,
                None => {
                    let t = spec_parse_table(old(table_account)@.data).unwrap();
                    let new_count = t.addresses.len() + news.len();
                    let m2 = spec_extended_meta(
                        t.meta,
                        ctx.current_slot,
                        t.addresses.len() as u8,
                    );
                    let required = spec_required_lamports(
                        ctx.rent_minimums@[new_count as int],
                        old(table_account)@.lamports,
                    );
                    if required > 0 && !has_payer {
                        r == Err::<(), ProgramFailure>(ProgramFailure::NotEnoughAccountKeys)
                            && final(table_account)@ == old(table_account)@ && final(payer_account)@ == old(payer_account)@
                    } else if required > 0 && !old(payer_account).is_signer {
                        r == Err::<(), ProgramFailure>(ProgramFailure::MissingRequiredSignature)
                            && final(table_account)@ == old(table_account)@ && final(payer_account)@ == old(payer_account)@
                    } else if required > 0 && old(payer_account).lamports < required {
                        r == Err::<(), ProgramFailure>(ProgramFailure::InsufficientFunds)
                            && final(table_account)@ == old(table_account)@ && final(payer_account)@ == old(payer_account)@
                    } else {
                        &&& r == Ok::<(), ProgramFailure>(())
                        &&& final(table_account)@ == (AccountView {
                            data: spec_meta_bytes(m2) + old(table_account)@.data.skip(56)
                                + spec_addresses_bytes(news),
                            lamports: (old(table_account)@.lamports + required) as u64,
                            ..old(table_account)@
                        })
                        &&& spec_parse_table(final(table_account)@.data) == Some(
                            TableView { meta: m2, addresses: t.addresses + news },
                        )
                        &&& new_count <= LOOKUP_TABLE_MAX_ADDRESSES
                        &&& final(table_account)@.data.len() == 56 + 32 * new_count
                        &&& (required > 0 ==> final(payer_account)@ == (AccountView {
                            lamports: (old(payer_account)@.lamports - required) as u64,
                            ..old(payer_account)@
                        }))
                        &&& (required == 0 ==> final(payer_account)@ == old(payer_account)@)
                    }
                },
            }
        }),
{
    let lookup_table = match check_common(program_id, table_account, authority_account) {
        Ok(t) => t,
        Err(e) => {
            return Err(e);
        },
    };
    if lookup_table.meta.deactivation_slot != DEACTIVATION_SENTINEL {
        return Err(ProgramFailure::InvalidArgument);
    }
    let old_count = lookup_table.addresses.len();
    if old_count >= LOOKUP_TABLE_MAX_ADDRESSES {
        return Err(ProgramFailure::InvalidInstructionData);
    }
    if new_addresses.len() == 0 {
        return Err(ProgramFailure::InvalidInstructionData);
    }
    if new_addresses.len() > LOOKUP_TABLE_MAX_ADDRESSES - old_count {
        return Err(ProgramFailure::InvalidInstructionData);
    }
    let new_count = old_count + new_addresses.len();
    let new_meta = if ctx.current_slot != lookup_table.meta.last_extended_slot {
        LookupTableMeta {
            last_extended_slot: ctx.current_slot,
            last_extended_slot_start_index: old_count as u8,
            ..lookup_table.meta
        }
    } else {
        lookup_table.meta
    };
    let min_balance = *vstd::std_specs::vec::vec_index(&ctx.rent_minimums, new_count);
    let required = required_lamports(min_balance, table_account.lamports);
    if required > 0 {
        if !has_payer {
            return Err(ProgramFailure::NotEnoughAccountKeys);
        }
        if !payer_account.is_signer {
            return Err(ProgramFailure::MissingRequiredSignature);
        }
        if payer_account.lamports < required {
            return Err(ProgramFailure::InsufficientFunds);
        }
    }
    let ghost t = spec_parse_table(old(table_account)@.data).unwrap();
    proof {
        lemma_overwrite_meta_parse(old(table_account)@.data, t, new_meta@);
    }
    apply_meta(table_account, &new_meta);
    let ghost mid_data = table_account@.data;
    let ghost news = new_addresses@.map_values(|a: Address| a@);
    let n = new_addresses.len();
    let mut k: usize = 0;
    while k < n
        invariant
            k <= n,
            n == new_addresses@.len(),
            forall|i: int| 0 <= i < n ==> (#[trigger] new_addresses@[i]).wf(),
            news == new_addresses@.map_values(|a: Address| a@),
            table_account@.data == mid_data + spec_addresses_bytes(news.take(k as int)),
            table_account@.key == old(table_account)@.key,
            table_account@.owner == old(table_account)@.owner,
            table_account@.lamports == old(table_account)@.lamports,
            table_account@.is_signer == old(table_account)@.is_signer,
        decreases n - k,
    {
        let mut chunk = copy_bytes(&new_addresses[k].bytes);
        table_account.data.append(&mut chunk);
        proof {
            crate::codec::lemma_addresses_bytes_push(news.take(k as int), news[k as int]);
            assert(news.take(k + 1) =~= news.take(k as int).push(news[k as int]));
            assert(table_account@.data =~= mid_data + spec_addresses_bytes(news.take(k + 1)));
        }
        k = k + 1;
    }
    if required > 0 {
        payer_account.lamports = payer_account.lamports - required;
        table_account.lamports = table_account.lamports + required;
    }
    proof {
        assert(news.take(n as int) =~= news);
        assert(forall|i: int| 0 <= i < news.len() ==> #[trigger] news[i].len() == ADDRESS_BYTES);
        lemma_addresses_bytes_roundtrip(news);
        let m2 = new_meta@;
        lemma_meta_bytes_len(m2);
        assert(final(table_account)@.data =~= spec_meta_bytes(m2) + old(table_account)@.data.skip(56) + spec_addresses_bytes(news));
        let old_body = old(table_account)@.data.skip(56);
        vstd::arithmetic::div_mod::lemma_fundamental_div_mod(old_body.len() as int, 32);
        lemma_parse_addresses_append(old_body, spec_addresses_bytes(news));
        let bytes2 = spec_meta_bytes(m2) + (old_body + spec_addresses_bytes(news));
        assert(final(table_account)@.data =~= bytes2);
        assert(bytes2.subrange(0, 4) =~= spec_meta_bytes(m2).subrange(0, 4));
        assert(bytes2.subrange(4, 12) =~= spec_meta_bytes(m2).subrange(4, 12));
        assert(bytes2.subrange(12, 20) =~= spec_meta_bytes(m2).subrange(12, 20));
        assert(bytes2.subrange(22, 54) =~= spec_meta_bytes(m2).subrange(22, 54));
        vstd::bytes::lemma_auto_spec_u64_to_from_le_bytes();
        assert(spec_meta_bytes(m2).subrange(0, 4) =~= seq![1u8, 0u8, 0u8, 0u8]);
        assert(spec_meta_bytes(m2).subrange(4, 12) =~= vstd::bytes::spec_u64_to_le_bytes(
            m2.deactivation_slot,
        ));
        assert(spec_meta_bytes(m2).subrange(12, 20) =~= vstd::bytes::spec_u64_to_le_bytes(
            m2.last_extended_slot,
        ));
        assert(bytes2[20] == m2.last_extended_slot_start_index);
        match m2.authority {
            Some(a) => {
                assert(bytes2[21] == 1u8);
                assert(spec_meta_bytes(m2).subrange(22, 54) =~= a);
            },
            None => {
                assert(false);
            },
        }
        assert(spec_parse_meta(bytes2) == Some(m2));
        let body2 = bytes2.skip(56);
        assert(body2 =~= old_body + spec_addresses_bytes(news));
        vstd::arithmetic::div_mod::lemma_mod_multiples_basic((t.addresses.len() + news.len()) as int, 32);
        assert(spec_parse_addresses(body2) == t.addresses + news);
        assert(spec_parse_table(bytes2) == Some(
            TableView { meta: m2, addresses: t.addresses + news },
        ));
    }
    Ok(())
}


/// Whether the recent-history snapshot retains the given slot.
fn slots_contain(slots: &Vec<u64>, slot: u64) -> (r: bool)
    ensures
        r == slots@.contains(slot),
{
    let n = slots.len();
    let mut i: usize = 0;
    while i < n
        invariant
            i <= n,
            n == slots@.len(),
            forall|j: int| 0 <= j < i ==> slots@[j] != slot,
        decreases n - i,
    {
        if slots[i] == slot {
            return true;
        }
        i = i + 1;
    }
    proof {
        if slots@.contains(slot) {
            let w = choose|w: int| 0 <= w < slots@.len() && slots@[w] == slot;
            assert(slots@[w] != slot);
        }
    }
    false
}

/// Every condition under which a creation is rejected before funding, with
/// its error.
pub open spec fn spec_create_gate_err(
    table: AccountView,
    authority: AccountView,
    payer: AccountView,
    recent_slot: u64,
    bump_seed: u8,
    program_id: Seq<u8>,
    recent_slots: Seq<u64>,
) -> Option<ProgramFailure> {
    if spec_parse_table(table.data) is Some {
        Some(ProgramFailure::AccountAlreadyInitialized)
    } else if !authority.is_signer {
        Some(ProgramFailure::MissingRequiredSignature)
    } else if !payer.is_signer {
        Some(ProgramFailure::MissingRequiredSignature)
    } else if !recent_slots.contains(recent_slot) {
        Some(ProgramFailure::InvalidInstructionData)
    } else {
        match spec_derived_table_address(authority.key, recent_slot, bump_seed, program_id) {
            None => Some(ProgramFailure::InvalidSeeds),
            Some(d) => if table.key != d {
                Some(ProgramFailure::InvalidArgument)
            } else {
                None
            },
        }
    }
}

/// Creates a table at the derived address: the target must not yet hold a
/// valid table, the authority and payer must both sign, the slot must be
/// retained by the recent history, and the target's identity must equal the
/// derived address. A target already owned by this program is left exactly
/// as it is and the call succeeds, so creation is idempotent. Otherwise the
/// target is topped up to the rent-exempt minimum of a header-only account,
/// allocated, assigned to this program, and given a fresh header with an
/// empty address list.
pub fn process_create_lookup_table(
    program_id: &Address,
    table_account: &mut AccountState,
    authority_account: &AccountState,
    payer_account: &mut AccountState,
    recent_slot: u64,
    bump_seed: u8,
    ctx: &HostContext,
) -> (r: Result<(), ProgramFailure>)
    requires
        program_id.wf(),
        authority_account.wf(),
        ctx.wf(),
    ensures
        match spec_create_gate_err(
            old(table_account)@,
            authority_account@,
            old(payer_account)@,
            recent_slot,
            bump_seed,
            program_id@,
            ctx.recent_slots@,
        ) {
            Some(e) => r == Err::<(), ProgramFailure>(e) && final(table_account)@ == old(table_account)@ && final(payer_account)@ == old(payer_account)@,
            None => {
                let required = spec_required_lamports(
                    ctx.rent_minimums@[0],
                    old(table_account)@.lamports,
                );
                if old(table_account)@.owner == program_id@ {
                    r == Ok::<(), ProgramFailure>(()) && final(table_account)@ == old(table_account)@ && final(payer_account)@ == old(payer_account)@
                } else if old(payer_account)@.lamports < required {
                    r == Err::<(), ProgramFailure>(ProgramFailure::InsufficientFunds) && final(table_account)@ == old(table_account)@ && final(payer_account)@ == old(payer_account)@
                } else {
                    &&& r == Ok::<(), ProgramFailure>(())
                    &&& final(table_account)@ == (AccountView {
                        lamports: (old(table_account)@.lamports + required) as u64,
                        data: spec_meta_bytes(spec_new_meta(authority_account@.key)),
                        owner: program_id@,
                        ..old(table_account)@
                    })
                    &&& spec_parse_table(final(table_account)@.data) == Some(
                        TableView {
                            meta: spec_new_meta(authority_account@.key),
                            addresses: Seq::empty(),
                        },
                    )
                    &&& final(table_account)@.data.len() == 56
                    &&& (required > 0 ==> final(payer_account)@ == (AccountView {
                        lamports: (old(payer_account)@.lamports - required) as u64,
                        ..old(payer_account)@
                    }))
                    &&& (required == 0 ==> final(payer_account)@ == old(payer_account)@)
                }
            },
        },
{
    match AddressLookupTable::deserialize(table_account.data.as_slice()) {
        Ok(_) => {
            return Err(ProgramFailure::AccountAlreadyInitialized);
        },
        Err(_) => {},
    }
    if !authority_account.is_signer {
        return Err(ProgramFailure::MissingRequiredSignature);
    }
    if !payer_account.is_signer {
        return Err(ProgramFailure::MissingRequiredSignature);
    }
    if !slots_contain(&ctx.recent_slots, recent_slot) {
        return Err(ProgramFailure::InvalidInstructionData);
    }
    let derived = match derive_table_address(
        &authority_account.key,
        recent_slot,
        bump_seed,
        program_id,
    ) {
        Some(d) => d,
        None => {
            return Err(ProgramFailure::InvalidSeeds);
        },
    };
    if !table_account.key.same_as(&derived) {
        return Err(ProgramFailure::InvalidArgument);
    }
    if table_account.owner.same_as(program_id) {
        return Ok(());
    }
    let min_balance = *vstd::std_specs::vec::vec_index(&ctx.rent_minimums, 0);
    let required = required_lamports(min_balance, table_account.lamports);
    if required > 0 {
        if payer_account.lamports < required {
            return Err(ProgramFailure::InsufficientFunds);
        }
        payer_account.lamports = payer_account.lamports - required;
        table_account.lamports = table_account.lamports + required;
    }
    let fresh = AddressLookupTable {
        meta: LookupTableMeta::new(authority_account.key.clone()),
        addresses: Vec::new(),
    };
    proof {
        lemma_table_bytes_roundtrip(fresh@);
        assert(spec_table_bytes(fresh@) =~= spec_meta_bytes(spec_new_meta(authority_account@.key)));
        assert(fresh@.addresses =~= Seq::<Seq<u8>>::empty());
    }
    table_account.data = fresh.serialize();
    table_account.owner = program_id.clone();
    Ok(())
}

/// Every condition under which a close is rejected, with its error.
pub open spec fn spec_close_gate_err(
    table: AccountView,
    authority: AccountView,
    recipient: AccountView,
    program_id: Seq<u8>,
    recent_slots: Seq<u64>,
) -> Option<ProgramFailure> {
    if table.owner != program_id {
        Some(ProgramFailure::InvalidAccountOwner)
    } else if !authority.is_signer {
        Some(ProgramFailure::MissingRequiredSignature)
    } else if recipient.key == table.key {
        Some(ProgramFailure::InvalidArgument)
    } else {
        match spec_common_gate_err(table, authority, program_id) {
            Some(e) => Some(e),
            None => {
                let t = spec_parse_table(table.data).unwrap();
                match crate::state::spec_status(t.meta.deactivation_slot, recent_slots) {
                    LookupTableStatus::Activated => Some(ProgramFailure::InvalidArgument),
                    LookupTableStatus::Deactivating { remaining_blocks } => Some(
                        ProgramFailure::InvalidArgument,
                    ),
                    LookupTableStatus::Deactivated => if table.lamports + recipient.lamports
                        > u64::MAX {
                        Some(ProgramFailure::ArithmeticOverflow)
                    } else {
                        None
                    },
                }
            },
        }
    }
}

/// Closes a fully deactivated table: every lamport it holds moves to the
/// recipient, and its data shrinks to zero length. The recipient must be a
/// different account, and the computed status must be deactivated; a table
/// still activated or cooling down is not closed.
pub fn process_close_lookup_table(
    program_id: &Address,
    table_account: &mut AccountState,
    authority_account: &AccountState,
    recipient_account: &mut AccountState,
    ctx: &HostContext,
) -> (r: Result<(), ProgramFailure>)
    ensures
        match spec_close_gate_err(
            old(table_account)@,
            authority_account@,
            old(recipient_account)@,
            program_id@,
            ctx.recent_slots@,
        ) {
            Some(e) => r == Err::<(), ProgramFailure>(e) && final(table_account)@ == old(table_account)@ && final(recipient_account)@ == old(recipient_account)@,
            None => {
                &&& r == Ok::<(), ProgramFailure>(())
                &&& final(table_account)@ == (AccountView {
                    lamports: 0u64,
                    data: Seq::empty(),
                    ..old(table_account)@
                })
                &&& final(recipient_account)@ == (AccountView {
                    lamports: (old(recipient_account)@.lamports + old(table_account)@.lamports) as u64,
                    ..old(recipient_account)@
                })
            },
        },
{
    if !table_account.owner.same_as(program_id) {
        return Err(ProgramFailure::InvalidAccountOwner);
    }
    if !authority_account.is_signer {
        return Err(ProgramFailure::MissingRequiredSignature);
    }
    if recipient_account.key.same_as(&table_account.key) {
        return Err(ProgramFailure::InvalidArgument);
    }
    let lookup_table = match check_common(program_id, table_account, authority_account) {
        Ok(t) => t,
        Err(e) => {
            return Err(e);
        },
    };
    match crate::state::table_status(
        lookup_table.meta.deactivation_slot,
        ctx.current_slot,
        &ctx.recent_slots,
    ) {
        LookupTableStatus::Activated => {
            return Err(ProgramFailure::InvalidArgument);
        },
        LookupTableStatus::Deactivating { remaining_blocks: _ } => {
            return Err(ProgramFailure::InvalidArgument);
        },
        LookupTableStatus::Deactivated => {},
    }
    if table_account.lamports > u64::MAX - recipient_account.lamports {
        return Err(ProgramFailure::ArithmeticOverflow);
    }
    recipient_account.lamports = recipient_account.lamports + table_account.lamports;
    table_account.lamports = 0;
    table_account.data = Vec::new();
    Ok(())
}


/// A placeholder account passed where an optional account is absent; never
/// read and never changed.
fn absent_account() -> (r: AccountState)
    ensures
        r.wf(),
{
    let zeros: Vec<u8> = vec![0u8; 32];
    let zeros2: Vec<u8> = vec![0u8; 32];
    AccountState {
        key: Address { bytes: zeros },
        lamports: 0,
        data: Vec::new(),
        owner: Address { bytes: zeros2 },
        is_signer: false,
    }
}

/// Processes one instruction against the account list: decodes the
/// payload, checks that enough accounts were supplied (the table account,
/// the authority, and the operation's extra accounts, in that order), and
/// dispatches to the operation's handler. On any error every account is
/// left exactly as it was; the dispatcher never touches an account its
/// operation does not name.
pub fn process(
    program_id: &Address,
    accounts: &mut Vec<AccountState>,
    input: &[u8],
    ctx: &HostContext,
) -> (r: Result<(), ProgramFailure>)
    requires
        program_id.wf(),
        ctx.wf(),
        forall|i: int| 0 <= i < old(accounts)@.len() ==> (#[trigger] old(accounts)@[i]).wf(),
    ensures
        final(accounts)@.len() == old(accounts)@.len(),
        r is Err ==> forall|i: int|
            0 <= i < old(accounts)@.len() ==> (#[trigger] final(accounts)@[i])@ == old(accounts)@[i]@,
        spec_parse_instruction(input@) is None ==> r == Err::<(), ProgramFailure>(
            ProgramFailure::InvalidInstructionData,
        ),
        ({
            let n = old(accounts)@.len();
            match spec_parse_instruction(input@) {
                None => true,
                Some(ins) => match ins {
                    InstructionView::CreateLookupTable { recent_slot, bump_seed } => {
                        if n < 3 {
                            r == Err::<(), ProgramFailure>(ProgramFailure::NotEnoughAccountKeys)
                        } else {
                            let table = old(accounts)@[0]@;
                            let authority = old(accounts)@[1]@;
                            let payer = old(accounts)@[2]@;
                            &&& (forall|i: int|
                                0 <= i < n && i != 0 && i != 2 ==> (#[trigger] final(accounts)@[i])@ == old(accounts)@[i]@)
                            &&& match spec_create_gate_err(
                                table,
                                authority,
                                payer,
                                recent_slot,
                                bump_seed,
                                program_id@,
                                ctx.recent_slots@,
                            ) {
                                Some(e) => r == Err::<(), ProgramFailure>(e),
                                None => {
                                    let required = spec_required_lamports(
                                        ctx.rent_minimums@[0],
                                        table.lamports,
                                    );
                                    if table.owner == program_id@ {
                                        r == Ok::<(), ProgramFailure>(()) && final(accounts)@[0]@ == table && final(accounts)@[2]@ == payer
                                    } else if payer.lamports < required {
                                        r == Err::<(), ProgramFailure>(
                                            ProgramFailure::InsufficientFunds,
                                        )
                                    } else {
                                        &&& r == Ok::<(), ProgramFailure>(())
                                        &&& final(accounts)@[0]@ == (AccountView {
                                            lamports: (table.lamports + required) as u64,
                                            data: spec_meta_bytes(spec_new_meta(authority.key)),
                                            owner: program_id@,
                                            ..table
                                        })
                                        &&& (required > 0 ==> final(accounts)@[2]@
                                            == (AccountView {
                                            lamports: (payer.lamports - required) as u64,
                                            ..payer
                                        }))
                                        &&& (required == 0 ==> final(accounts)@[2]@ == payer)
                                    }
                                },
                            }
                        }
                    },
                    InstructionView::FreezeLookupTable => {
                        if n < 2 {
                            r == Err::<(), ProgramFailure>(ProgramFailure::NotEnoughAccountKeys)
                        } else {
                            let table = old(accounts)@[0]@;
                            let authority = old(accounts)@[1]@;
                            &&& (forall|i: int|
                                0 <= i < n && i != 0 ==> (#[trigger] final(accounts)@[i])@ == old(accounts)@[i]@)
                            &&& match spec_freeze_gate_err(table, authority, program_id@) {
                                Some(e) => r == Err::<(), ProgramFailure>(e),
                                None => {
                                    let t = spec_parse_table(table.data).unwrap();
                                    r == Ok::<(), ProgramFailure>(()) && final(accounts)@[0]@
                                        == spec_with_meta(table, spec_frozen_meta(t.meta))
                                },
                            }
                        }
                    },
                    InstructionView::ExtendLookupTable { new_addresses } => {
                        if n < 2 {
                            r == Err::<(), ProgramFailure>(ProgramFailure::NotEnoughAccountKeys)
                        } else {
                            let table = old(accounts)@[0]@;
                            let authority = old(accounts)@[1]@;
                            &&& (forall|i: int|
                                0 <= i < n && i != 0 && i != 2 ==> (#[trigger] final(accounts)@[i])@ == old(accounts)@[i]@)
                            &&& match spec_extend_gate_err(
                                table,
                                authority,
                                program_id@,
                                new_addresses,
                            ) {
                                Some(e) => r == Err::<(), ProgramFailure>(e),
                                None => {
                                    let t = spec_parse_table(table.data).unwrap();
                                    let new_count = t.addresses.len() + new_addresses.len();
                                    let m2 = spec_extended_meta(
                                        t.meta,
                                        ctx.current_slot,
                                        t.addresses.len() as u8,
                                    );
                                    let required = spec_required_lamports(
                                        ctx.rent_minimums@[new_count as int],
                                        table.lamports,
                                    );
                                    if required > 0 && n < 3 {
                                        r == Err::<(), ProgramFailure>(
                                            ProgramFailure::NotEnoughAccountKeys,
                                        )
                                    } else if required > 0 && !old(accounts)@[2]@.is_signer {
                                        r == Err::<(), ProgramFailure>(
                                            ProgramFailure::MissingRequiredSignature,
                                        )
                                    } else if required > 0 && old(accounts)@[2]@.lamports
                                        < required {
                                        r == Err::<(), ProgramFailure>(
                                            ProgramFailure::InsufficientFunds,
                                        )
                                    } else {
                                        &&& r == Ok::<(), ProgramFailure>(())
                                        &&& final(accounts)@[0]@ == (AccountView {
                                            data: spec_meta_bytes(m2) + table.data.skip(56)
                                                + spec_addresses_bytes(new_addresses),
                                            lamports: (table.lamports + required) as u64,
                                            ..table
                                        })
                                        &&& spec_parse_table(final(accounts)@[0]@.data) == Some(
                                            TableView {
                                                meta: m2,
                                                addresses: t.addresses + new_addresses,
                                            },
                                        )
                                        &&& (required > 0 && n >= 3 ==> final(accounts)@[2]@
                                            == (AccountView {
                                            lamports: (old(accounts)@[2]@.lamports
                                                - required) as u64,
                                            ..old(accounts)@[2]@
                                        }))
                                        &&& (required == 0 && n >= 3 ==> final(accounts)@[2]@
                                            == old(accounts)@[2]@)
                                    }
                                },
                            }
                        }
                    },
                    InstructionView::DeactivateLookupTable => {
                        if n < 2 {
                            r == Err::<(), ProgramFailure>(ProgramFailure::NotEnoughAccountKeys)
                        } else {
                            let table = old(accounts)@[0]@;
                            let authority = old(accounts)@[1]@;
                            &&& (forall|i: int|
                                0 <= i < n && i != 0 ==> (#[trigger] final(accounts)@[i])@ == old(accounts)@[i]@)
                            &&& match spec_deactivate_gate_err(table, authority, program_id@) {
                                Some(e) => r == Err::<(), ProgramFailure>(e),
                                None => {
                                    let t = spec_parse_table(table.data).unwrap();
                                    r == Ok::<(), ProgramFailure>(()) && final(accounts)@[0]@
                                        == spec_with_meta(
                                        table,
                                        spec_deactivated_meta(t.meta, ctx.current_slot),
                                    )
                                },
                            }
                        }
                    },
                    InstructionView::CloseLookupTable => {
                        if n < 3 {
                            r == Err::<(), ProgramFailure>(ProgramFailure::NotEnoughAccountKeys)
                        } else {
                            let table = old(accounts)@[0]@;
                            let authority = old(accounts)@[1]@;
                            let recipient = old(accounts)@[2]@;
                            &&& (forall|i: int|
                                0 <= i < n && i != 0 && i != 2 ==> (#[trigger] final(accounts)@[i])@ == old(accounts)@[i]@)
                            &&& match spec_close_gate_err(
                                table,
                                authority,
                                recipient,
                                program_id@,
                                ctx.recent_slots@,
                            ) {
                                Some(e) => r == Err::<(), ProgramFailure>(e),
                                None => {
                                    &&& r == Ok::<(), ProgramFailure>(())
                                    &&& final(accounts)@[0]@ == (AccountView {
                                        lamports: 0u64,
                                        data: Seq::empty(),
                                        ..table
                                    })
                                    &&& final(accounts)@[2]@ == (AccountView {
                                        lamports: (recipient.lamports + table.lamports) as u64,
                                        ..recipient
                                    })
                                },
                            }
                        }
                    },
                },
            }
        }),
{
    let instruction = match decode_instruction(input) {
        Some(ins) => ins,
        None => {
            return Err(ProgramFailure::InvalidInstructionData);
        },
    };
    match instruction {
        AddressLookupInstruction::CreateLookupTable { recent_slot, bump_seed } => {
            if accounts.len() < 3 {
                return Err(ProgramFailure::NotEnoughAccountKeys);
            }
            let mut table = accounts[0].clone();
            let mut payer = accounts[2].clone();
            let r = process_create_lookup_table(
                program_id,
                &mut table,
                &accounts[1],
                &mut payer,
                recent_slot,
                bump_seed,
                ctx,
            );
            accounts[0] = table;
            accounts[2] = payer;
            r
        },
        AddressLookupInstruction::FreezeLookupTable => {
            if accounts.len() < 2 {
                return Err(ProgramFailure::NotEnoughAccountKeys);
            }
            let mut table = accounts[0].clone();
            let r = process_freeze_lookup_table(program_id, &mut table, &accounts[1]);
            accounts[0] = table;
            r
        },
        AddressLookupInstruction::ExtendLookupTable { new_addresses } => {
            if accounts.len() < 2 {
                return Err(ProgramFailure::NotEnoughAccountKeys);
            }
            let has_payer = accounts.len() >= 3;
            let mut table = accounts[0].clone();
            let mut payer = if has_payer {
                accounts[2].clone()
            } else {
                absent_account()
            };
            let r = process_extend_lookup_table(
                program_id,
                &mut table,
                &accounts[1],
                &mut payer,
                has_payer,
                &new_addresses,
                ctx,
            );
            accounts[0] = table;
            if has_payer {
                accounts[2] = payer;
            }
            r
        },
        AddressLookupInstruction::DeactivateLookupTable => {
            if accounts.len() < 2 {
                return Err(ProgramFailure::NotEnoughAccountKeys);
            }
            let mut table = accounts[0].clone();
            let r = process_deactivate_lookup_table(program_id, &mut table, &accounts[1], ctx);
            accounts[0] = table;
            r
        },
        AddressLookupInstruction::CloseLookupTable => {
            if accounts.len() < 3 {
                return Err(ProgramFailure::NotEnoughAccountKeys);
            }
            let mut table = accounts[0].clone();
            let mut recipient = accounts[2].clone();
            let r = process_close_lookup_table(
                program_id,
                &mut table,
                &accounts[1],
                &mut recipient,
                ctx,
            );
            accounts[0] = table;
            accounts[2] = recipient;
            r
        },
    }
}

} // verus!
