//! End-to-end exercises of the instruction handlers on the account model.

use address_lookup_table::accounts::{AccountState, HostContext};
use address_lookup_table::addr::Address;
use address_lookup_table::codec::LOOKUP_TABLE_META_SIZE;
use address_lookup_table::error::{AddressLookupError, ProgramFailure};
use address_lookup_table::processor::{
    process, process_close_lookup_table, process_create_lookup_table,
    process_deactivate_lookup_table, process_extend_lookup_table, process_freeze_lookup_table,
};
use address_lookup_table::state::AddressLookupTable;
use solana_program::pubkey::Pubkey;
use solana_program::rent::Rent;

fn addr(pk: &Pubkey) -> Address {
    Address::from_bytes(pk.to_bytes().to_vec()).unwrap()
}

fn rent_minimums() -> Vec<u64> {
    let rent = Rent::default();
    (0..=256)
        .map(|k| rent.minimum_balance(LOOKUP_TABLE_META_SIZE + 32 * k))
        .collect()
}

fn ctx(current_slot: u64, recent: Vec<u64>) -> HostContext {
    HostContext { current_slot, recent_slots: recent, rent_minimums: rent_minimums() }
}

/// A window of recent slots ending at `newest`, newest first.
fn window(newest: u64, len: u64) -> Vec<u64> {
    (0..len).map(|i| newest - i).collect()
}

fn account(key: &Pubkey, lamports: u64, data: Vec<u8>, owner: &Pubkey, is_signer: bool) -> AccountState {
    AccountState { key: addr(key), lamports, data, owner: addr(owner), is_signer }
}

fn system_program_id() -> Pubkey {
    Pubkey::default()
}

/// Creates a fresh table, returning (program id, table account, authority
/// key, payer account, context used).
fn created_table(recent_slot: u64) -> (Pubkey, AccountState, Pubkey, AccountState) {
    let program_id = Pubkey::new_unique();
    let authority = Pubkey::new_unique();
    let payer_key = Pubkey::new_unique();
    let (table_key, bump) = Pubkey::find_program_address(
        &[authority.as_ref(), &recent_slot.to_le_bytes()],
        &program_id,
    );
    let mut table = account(&table_key, 0, vec![], &system_program_id(), true);
    let authority_acc = account(&authority, 0, vec![], &system_program_id(), true);
    let mut payer = account(&payer_key, 1_000_000_000, vec![], &system_program_id(), true);
    let c = ctx(recent_slot, window(recent_slot, 10));
    let r = process_create_lookup_table(
        &addr(&program_id),
        &mut table,
        &authority_acc,
        &mut payer,
        recent_slot,
        bump,
        &c,
    );
    assert_eq!(r, Ok(()));
    (program_id, table, authority, payer)
}

fn signer(key: &Pubkey) -> AccountState {
    account(key, 0, vec![], &Pubkey::default(), true)
}

#[test]
fn create_writes_fresh_header() {
    let (program_id, table, authority, payer) = created_table(5);
    assert_eq!(table.owner.bytes, program_id.to_bytes().to_vec());
    assert_eq!(table.data.len(), LOOKUP_TABLE_META_SIZE);
    let decoded = AddressLookupTable::deserialize(&table.data).unwrap();
    assert_eq!(decoded.meta.deactivation_slot, u64::MAX);
    assert_eq!(decoded.meta.last_extended_slot, 0);
    assert_eq!(decoded.meta.last_extended_slot_start_index, 0);
    assert_eq!(
        decoded.meta.authority.as_ref().map(|a| a.bytes.clone()),
        Some(authority.to_bytes().to_vec())
    );
    assert_eq!(decoded.addresses.len(), 0);
    // The payer funded exactly the rent-exempt minimum of a header-only table.
    let min = Rent::default().minimum_balance(LOOKUP_TABLE_META_SIZE).max(1);
    assert_eq!(payer.lamports, 1_000_000_000 - min);
    assert_eq!(table.lamports, min);
}

#[test]
fn create_requires_recent_slot() {
    let program_id = Pubkey::new_unique();
    let authority = Pubkey::new_unique();
    let recent_slot = 99u64;
    let (table_key, bump) = Pubkey::find_program_address(
        &[authority.as_ref(), &recent_slot.to_le_bytes()],
        &program_id,
    );
    let mut table = account(&table_key, 0, vec![], &system_program_id(), true);
    let authority_acc = signer(&authority);
    let mut payer = account(&Pubkey::new_unique(), 10, vec![], &system_program_id(), true);
    // History that does not contain slot 99.
    let c = ctx(300, window(300, 10));
    let r = process_create_lookup_table(
        &addr(&program_id),
        &mut table,
        &authority_acc,
        &mut payer,
        recent_slot,
        bump,
        &c,
    );
    assert_eq!(r, Err(ProgramFailure::InvalidInstructionData));
    assert_eq!(table.data.len(), 0);
}

#[test]
fn create_rejects_wrong_derived_address() {
    let program_id = Pubkey::new_unique();
    let authority = Pubkey::new_unique();
    let recent_slot = 12u64;
    let (_, bump) = Pubkey::find_program_address(
        &[authority.as_ref(), &recent_slot.to_le_bytes()],
        &program_id,
    );
    // Wrong target key: not the derived address.
    let mut table = account(&Pubkey::new_unique(), 0, vec![], &system_program_id(), true);
    let authority_acc = signer(&authority);
    let mut payer = account(&Pubkey::new_unique(), 10, vec![], &system_program_id(), true);
    let c = ctx(12, window(12, 5));
    let r = process_create_lookup_table(
        &addr(&program_id),
        &mut table,
        &authority_acc,
        &mut payer,
        recent_slot,
        bump,
        &c,
    );
    assert_eq!(r, Err(ProgramFailure::InvalidArgument));
}

#[test]
fn create_requires_signers() {
    let program_id = Pubkey::new_unique();
    let authority = Pubkey::new_unique();
    let recent_slot = 7u64;
    let (table_key, bump) = Pubkey::find_program_address(
        &[authority.as_ref(), &recent_slot.to_le_bytes()],
        &program_id,
    );
    let mut table = account(&table_key, 0, vec![], &system_program_id(), true);
    let mut unsigned_authority = signer(&authority);
    unsigned_authority.is_signer = false;
    let mut payer = account(&Pubkey::new_unique(), 10, vec![], &system_program_id(), true);
    let c = ctx(7, window(7, 3));
    let r = process_create_lookup_table(
        &addr(&program_id),
        &mut table,
        &unsigned_authority,
        &mut payer,
        recent_slot,
        bump,
        &c,
    );
    assert_eq!(r, Err(ProgramFailure::MissingRequiredSignature));
}

#[test]
fn create_is_idempotent_when_owned() {
    let program_id = Pubkey::new_unique();
    let authority = Pubkey::new_unique();
    let recent_slot = 20u64;
    let (table_key, bump) = Pubkey::find_program_address(
        &[authority.as_ref(), &recent_slot.to_le_bytes()],
        &program_id,
    );
    // Already owned by the program, but holding no valid table yet: both
    // calls succeed and neither touches the account.
    let mut table = account(&table_key, 42, vec![], &program_id, true);
    let authority_acc = signer(&authority);
    let mut payer = account(&Pubkey::new_unique(), 10, vec![], &system_program_id(), true);
    let c = ctx(20, window(20, 4));
    for _ in 0..2 {
        let r = process_create_lookup_table(
            &addr(&program_id),
            &mut table,
            &authority_acc,
            &mut payer,
            recent_slot,
            bump,
            &c,
        );
        assert_eq!(r, Ok(()));
        assert_eq!(table.lamports, 42);
        assert_eq!(table.data.len(), 0);
        assert_eq!(payer.lamports, 10);
    }
}

#[test]
fn create_rejects_initialized_table() {
    // A target that already holds a valid table is reported as already
    // initialized, whoever owns it.
    let (program_id, mut table, authority, mut payer) = created_table(5);
    let authority_acc = signer(&authority);
    let (_, bump) = Pubkey::find_program_address(
        &[authority.as_ref(), &5u64.to_le_bytes()],
        &program_id,
    );
    let c = ctx(5, window(5, 3));
    let before = table.data.clone();
    let r = process_create_lookup_table(
        &addr(&program_id),
        &mut table,
        &authority_acc,
        &mut payer,
        5,
        bump,
        &c,
    );
    assert_eq!(r, Err(ProgramFailure::AccountAlreadyInitialized));
    assert_eq!(table.data, before);
}

fn extend(
    program_id: &Pubkey,
    table: &mut AccountState,
    authority: &Pubkey,
    payer: &mut AccountState,
    new: Vec<Pubkey>,
    current_slot: u64,
) -> Result<(), ProgramFailure> {
    let c = ctx(current_slot, window(current_slot, 10));
    let new_addresses: Vec<Address> = new.iter().map(addr).collect();
    process_extend_lookup_table(
        &addr(program_id),
        table,
        &signer(authority),
        payer,
        true,
        &new_addresses,
        &c,
    )
}

#[test]
fn extend_appends_and_records_slot() {
    let (program_id, mut table, authority, mut payer) = created_table(5);
    let new: Vec<Pubkey> = (0..3).map(|_| Pubkey::new_unique()).collect();
    let r = extend(&program_id, &mut table, &authority, &mut payer, new.clone(), 6);
    assert_eq!(r, Ok(()));
    let decoded = AddressLookupTable::deserialize(&table.data).unwrap();
    assert_eq!(decoded.addresses.len(), 3);
    assert_eq!(decoded.meta.last_extended_slot, 6);
    assert_eq!(decoded.meta.last_extended_slot_start_index, 0);
    assert_eq!(decoded.addresses[2].bytes, new[2].to_bytes().to_vec());
    assert_eq!(table.data.len(), LOOKUP_TABLE_META_SIZE + 3 * 32);
    // The account was topped up to the new rent-exempt minimum.
    assert_eq!(
        table.lamports,
        Rent::default().minimum_balance(LOOKUP_TABLE_META_SIZE + 3 * 32).max(1)
    );

    // A second extension in the same slot keeps the recorded start index.
    let more: Vec<Pubkey> = (0..2).map(|_| Pubkey::new_unique()).collect();
    let r = extend(&program_id, &mut table, &authority, &mut payer, more, 6);
    assert_eq!(r, Ok(()));
    let decoded = AddressLookupTable::deserialize(&table.data).unwrap();
    assert_eq!(decoded.addresses.len(), 5);
    assert_eq!(decoded.meta.last_extended_slot, 6);
    assert_eq!(decoded.meta.last_extended_slot_start_index, 0);

    // An extension in a later slot records the new slot and start index.
    let r = extend(&program_id, &mut table, &authority, &mut payer, vec![Pubkey::new_unique()], 9);
    assert_eq!(r, Ok(()));
    let decoded = AddressLookupTable::deserialize(&table.data).unwrap();
    assert_eq!(decoded.meta.last_extended_slot, 9);
    assert_eq!(decoded.meta.last_extended_slot_start_index, 5);
}

#[test]
fn extend_rejects_empty_batch() {
    let (program_id, mut table, authority, mut payer) = created_table(5);
    let r = extend(&program_id, &mut table, &authority, &mut payer, vec![], 6);
    assert_eq!(r, Err(ProgramFailure::InvalidInstructionData));
}

#[test]
fn extend_enforces_capacity() {
    let (program_id, mut table, authority, mut payer) = created_table(5);
    // Fill to exactly the capacity bound in several batches.
    for _ in 0..8 {
        let batch: Vec<Pubkey> = (0..32).map(|_| Pubkey::new_unique()).collect();
        let r = extend(&program_id, &mut table, &authority, &mut payer, batch, 6);
        assert_eq!(r, Ok(()));
    }
    let decoded = AddressLookupTable::deserialize(&table.data).unwrap();
    assert_eq!(decoded.addresses.len(), 256);

    // One more address is rejected and the account is byte-for-byte
    // unchanged.
    let before_data = table.data.clone();
    let before_lamports = table.lamports;
    let r = extend(&program_id, &mut table, &authority, &mut payer, vec![Pubkey::new_unique()], 7);
    assert_eq!(r, Err(ProgramFailure::InvalidInstructionData));
    assert_eq!(table.data, before_data);
    assert_eq!(table.lamports, before_lamports);
}

#[test]
fn extend_rejects_batch_exceeding_capacity() {
    let (program_id, mut table, authority, mut payer) = created_table(5);
    let batch: Vec<Pubkey> = (0..255).map(|_| Pubkey::new_unique()).collect();
    let r = extend(&program_id, &mut table, &authority, &mut payer, batch, 6);
    assert_eq!(r, Ok(()));
    let before = table.data.clone();
    let two: Vec<Pubkey> = (0..2).map(|_| Pubkey::new_unique()).collect();
    let r = extend(&program_id, &mut table, &authority, &mut payer, two, 6);
    assert_eq!(r, Err(ProgramFailure::InvalidInstructionData));
    assert_eq!(table.data, before);
    // Exactly one more still fits.
    let r = extend(&program_id, &mut table, &authority, &mut payer, vec![Pubkey::new_unique()], 6);
    assert_eq!(r, Ok(()));
    let decoded = AddressLookupTable::deserialize(&table.data).unwrap();
    assert_eq!(decoded.addresses.len(), 256);
}

#[test]
fn extend_rejects_wrong_authority() {
    let (program_id, mut table, _authority, mut payer) = created_table(5);
    let imposter = Pubkey::new_unique();
    let r = extend(&program_id, &mut table, &imposter, &mut payer, vec![Pubkey::new_unique()], 6);
    assert_eq!(r, Err(ProgramFailure::Lookup(AddressLookupError::IncorrectAuthority)));
}

#[test]
fn extend_rejects_foreign_owner() {
    let (program_id, mut table, authority, mut payer) = created_table(5);
    table.owner = addr(&Pubkey::new_unique());
    let r = extend(&program_id, &mut table, &authority, &mut payer, vec![Pubkey::new_unique()], 6);
    assert_eq!(r, Err(ProgramFailure::InvalidAccountOwner));
}

#[test]
fn freeze_discards_authority_terminally() {
    let (program_id, mut table, authority, mut payer) = created_table(5);
    let r = extend(&program_id, &mut table, &authority, &mut payer, vec![Pubkey::new_unique()], 6);
    assert_eq!(r, Ok(()));
    let r = process_freeze_lookup_table(&addr(&program_id), &mut table, &signer(&authority));
    assert_eq!(r, Ok(()));
    let decoded = AddressLookupTable::deserialize(&table.data).unwrap();
    assert!(decoded.meta.authority.is_none());
    // The address list survives the freeze untouched.
    assert_eq!(decoded.addresses.len(), 1);

    // Every further mutation fails with the immutability error.
    let r = extend(&program_id, &mut table, &authority, &mut payer, vec![Pubkey::new_unique()], 7);
    assert_eq!(r, Err(ProgramFailure::Lookup(AddressLookupError::LookupTableImmutable)));
    let r = process_freeze_lookup_table(&addr(&program_id), &mut table, &signer(&authority));
    assert_eq!(r, Err(ProgramFailure::Lookup(AddressLookupError::LookupTableImmutable)));
    let c = ctx(8, window(8, 4));
    let r = process_deactivate_lookup_table(&addr(&program_id), &mut table, &signer(&authority), &c);
    assert_eq!(r, Err(ProgramFailure::Lookup(AddressLookupError::LookupTableImmutable)));
    // Close requires a prior deactivation, which a frozen table can never
    // get: the frozen table is permanently irrecoverable by design.
    let mut recipient = account(&Pubkey::new_unique(), 0, vec![], &Pubkey::default(), false);
    let r = process_close_lookup_table(
        &addr(&program_id),
        &mut table,
        &signer(&authority),
        &mut recipient,
        &c,
    );
    assert_eq!(r, Err(ProgramFailure::Lookup(AddressLookupError::LookupTableImmutable)));
}

#[test]
fn freeze_rejects_empty_table() {
    let (program_id, mut table, authority, _payer) = created_table(5);
    let r = process_freeze_lookup_table(&addr(&program_id), &mut table, &signer(&authority));
    assert_eq!(r, Err(ProgramFailure::InvalidInstructionData));
}

#[test]
fn deactivation_slot_is_set_once() {
    let (program_id, mut table, authority, _payer) = created_table(5);
    let c = ctx(30, window(30, 10));
    let r = process_deactivate_lookup_table(&addr(&program_id), &mut table, &signer(&authority), &c);
    assert_eq!(r, Ok(()));
    let decoded = AddressLookupTable::deserialize(&table.data).unwrap();
    assert_eq!(decoded.meta.deactivation_slot, 30);

    // A second deactivation is rejected and the slot keeps its value.
    let c2 = ctx(35, window(35, 10));
    let r = process_deactivate_lookup_table(&addr(&program_id), &mut table, &signer(&authority), &c2);
    assert_eq!(r, Err(ProgramFailure::InvalidArgument));
    let decoded = AddressLookupTable::deserialize(&table.data).unwrap();
    assert_eq!(decoded.meta.deactivation_slot, 30);

    // A deactivated table cannot be frozen or extended either.
    let r = process_freeze_lookup_table(&addr(&program_id), &mut table, &signer(&authority));
    assert_eq!(r, Err(ProgramFailure::InvalidArgument));
}

#[test]
fn close_moves_all_lamports_and_empties_account() {
    let (program_id, mut table, authority, _payer) = created_table(5);
    let table_lamports = table.lamports;
    // Deactivate at slot 30, then let the window slide past it.
    let c = ctx(30, window(30, 10));
    process_deactivate_lookup_table(&addr(&program_id), &mut table, &signer(&authority), &c)
        .unwrap();

    // While the slot is still in the window, close is rejected.
    let mut recipient = account(&Pubkey::new_unique(), 77, vec![], &Pubkey::default(), false);
    let still = ctx(35, window(35, 10));
    let r = process_close_lookup_table(
        &addr(&program_id),
        &mut table,
        &signer(&authority),
        &mut recipient,
        &still,
    );
    assert_eq!(r, Err(ProgramFailure::InvalidArgument));

    // Once the slot has aged out, close succeeds and credits the recipient
    // with exactly the table's prior balance.
    let aged = ctx(300, window(300, 10));
    let r = process_close_lookup_table(
        &addr(&program_id),
        &mut table,
        &signer(&authority),
        &mut recipient,
        &aged,
    );
    assert_eq!(r, Ok(()));
    assert_eq!(table.lamports, 0);
    assert_eq!(table.data.len(), 0);
    assert_eq!(recipient.lamports, 77 + table_lamports);
}

#[test]
fn close_rejects_self_recipient() {
    let (program_id, mut table, authority, _payer) = created_table(5);
    let mut recipient = table.clone();
    let c = ctx(300, window(300, 10));
    let r = process_close_lookup_table(
        &addr(&program_id),
        &mut table,
        &signer(&authority),
        &mut recipient,
        &c,
    );
    assert_eq!(r, Err(ProgramFailure::InvalidArgument));
}

#[test]
fn close_rejects_active_table() {
    let (program_id, mut table, authority, _payer) = created_table(5);
    let mut recipient = account(&Pubkey::new_unique(), 0, vec![], &Pubkey::default(), false);
    let c = ctx(6, window(6, 3));
    let r = process_close_lookup_table(
        &addr(&program_id),
        &mut table,
        &signer(&authority),
        &mut recipient,
        &c,
    );
    assert_eq!(r, Err(ProgramFailure::InvalidArgument));
}

#[test]
fn full_scenario_through_dispatcher() {
    // Create at derived address for recent slot 100, extend twice in slot
    // 101, freeze; a second table is deactivated at slot 110 and closed
    // after the window elapses.
    let program_id = Pubkey::new_unique();
    let authority = Pubkey::new_unique();
    let payer_key = Pubkey::new_unique();
    let recent_slot = 100u64;
    let (table_key, bump) = Pubkey::find_program_address(
        &[authority.as_ref(), &recent_slot.to_le_bytes()],
        &program_id,
    );
    let mut accounts = vec![
        account(&table_key, 0, vec![], &system_program_id(), true),
        signer(&authority),
        account(&payer_key, 1_000_000_000, vec![], &system_program_id(), true),
    ];
    let c = ctx(100, window(100, 8));

    // Create: tag 0, recent slot, bump seed.
    let mut input = vec![0u8, 0, 0, 0];
    input.extend_from_slice(&recent_slot.to_le_bytes());
    input.push(bump);
    let r = process(&addr(&program_id), &mut accounts, &input, &c);
    assert_eq!(r, Ok(()));
    let decoded = AddressLookupTable::deserialize(&accounts[0].data).unwrap();
    assert_eq!(decoded.addresses.len(), 0);
    assert_eq!(
        decoded.meta.authority.as_ref().map(|a| a.bytes.clone()),
        Some(authority.to_bytes().to_vec())
    );

    // Extend with 3 addresses in slot 101: tag 2, count, addresses.
    let c = ctx(101, window(101, 9));
    let batch: Vec<Pubkey> = (0..3).map(|_| Pubkey::new_unique()).collect();
    let mut input = vec![2u8, 0, 0, 0];
    input.extend_from_slice(&3u64.to_le_bytes());
    for pk in &batch {
        input.extend_from_slice(&pk.to_bytes());
    }
    let r = process(&addr(&program_id), &mut accounts, &input, &c);
    assert_eq!(r, Ok(()));
    let decoded = AddressLookupTable::deserialize(&accounts[0].data).unwrap();
    assert_eq!(decoded.addresses.len(), 3);
    assert_eq!(decoded.meta.last_extended_slot, 101);
    assert_eq!(decoded.meta.last_extended_slot_start_index, 0);

    // Extend with 2 more in the same slot: count 5, start index still 0.
    let two: Vec<Pubkey> = (0..2).map(|_| Pubkey::new_unique()).collect();
    let mut input = vec![2u8, 0, 0, 0];
    input.extend_from_slice(&2u64.to_le_bytes());
    for pk in &two {
        input.extend_from_slice(&pk.to_bytes());
    }
    let r = process(&addr(&program_id), &mut accounts, &input, &c);
    assert_eq!(r, Ok(()));
    let decoded = AddressLookupTable::deserialize(&accounts[0].data).unwrap();
    assert_eq!(decoded.addresses.len(), 5);
    assert_eq!(decoded.meta.last_extended_slot, 101);
    assert_eq!(decoded.meta.last_extended_slot_start_index, 0);

    // Freeze: tag 1; the authority becomes absent and a further extension
    // fails with the immutability error.
    let input = vec![1u8, 0, 0, 0];
    let r = process(&addr(&program_id), &mut accounts, &input, &c);
    assert_eq!(r, Ok(()));
    let decoded = AddressLookupTable::deserialize(&accounts[0].data).unwrap();
    assert!(decoded.meta.authority.is_none());
    let mut input = vec![2u8, 0, 0, 0];
    input.extend_from_slice(&1u64.to_le_bytes());
    input.extend_from_slice(&Pubkey::new_unique().to_bytes());
    let r = process(&addr(&program_id), &mut accounts, &input, &c);
    assert_eq!(
        r,
        Err(ProgramFailure::Lookup(AddressLookupError::LookupTableImmutable))
    );

    // A second, unfrozen table: deactivate at slot 110, wait out the
    // window, then close; the recipient is credited and the account
    // zeroed.
    let (program_id2, mut table2, authority2, _payer2) = created_table(100);
    let mut accounts2 = vec![table2.clone(), signer(&authority2), signer(&payer_key)];
    let c = ctx(110, window(110, 10));
    let input = vec![3u8, 0, 0, 0];
    let r = process(&addr(&program_id2), &mut accounts2, &input, &c);
    assert_eq!(r, Ok(()));
    let decoded = AddressLookupTable::deserialize(&accounts2[0].data).unwrap();
    assert_eq!(decoded.meta.deactivation_slot, 110);

    // Still deactivating while 110 is retained.
    let c = ctx(111, window(111, 10));
    let input = vec![4u8, 0, 0, 0];
    let r = process(&addr(&program_id2), &mut accounts2, &input, &c);
    assert_eq!(r, Err(ProgramFailure::InvalidArgument));

    // Deactivated once 110 has aged out of the window.
    table2 = accounts2[0].clone();
    let table_lamports = table2.lamports;
    let recipient_key = Pubkey::new_unique();
    let mut accounts3 = vec![
        table2,
        signer(&authority2),
        account(&recipient_key, 5, vec![], &Pubkey::default(), false),
    ];
    let c = ctx(400, window(400, 10));
    let input = vec![4u8, 0, 0, 0];
    let r = process(&addr(&program_id2), &mut accounts3, &input, &c);
    assert_eq!(r, Ok(()));
    assert_eq!(accounts3[0].lamports, 0);
    assert_eq!(accounts3[0].data.len(), 0);
    assert_eq!(accounts3[2].lamports, 5 + table_lamports);
}

#[test]
fn process_rejects_malformed_input() {
    let program_id = Pubkey::new_unique();
    let mut accounts = vec![];
    let c = ctx(1, window(1, 1));
    assert_eq!(
        process(&addr(&program_id), &mut accounts, &[9, 9], &c),
        Err(ProgramFailure::InvalidInstructionData)
    );
    assert_eq!(
        process(&addr(&program_id), &mut accounts, &[7, 0, 0, 0], &c),
        Err(ProgramFailure::InvalidInstructionData)
    );
}

#[test]
fn process_requires_enough_accounts() {
    let program_id = Pubkey::new_unique();
    let mut accounts = vec![signer(&Pubkey::new_unique())];
    let c = ctx(1, window(1, 1));
    assert_eq!(
        process(&addr(&program_id), &mut accounts, &[1, 0, 0, 0], &c),
        Err(ProgramFailure::NotEnoughAccountKeys)
    );
}

#[test]
fn close_reports_lamport_overflow() {
    let (program_id, mut table, authority, _payer) = created_table(5);
    let c = ctx(30, window(30, 10));
    process_deactivate_lookup_table(&addr(&program_id), &mut table, &signer(&authority), &c)
        .unwrap();
    let mut recipient = account(&Pubkey::new_unique(), u64::MAX, vec![], &Pubkey::default(), false);
    let aged = ctx(900, window(900, 10));
    let r = process_close_lookup_table(
        &addr(&program_id),
        &mut table,
        &signer(&authority),
        &mut recipient,
        &aged,
    );
    assert_eq!(r, Err(ProgramFailure::ArithmeticOverflow));
    assert_eq!(recipient.lamports, u64::MAX);
    assert_ne!(table.lamports, 0);
}

#[test]
fn create_reports_insufficient_funds() {
    let program_id = Pubkey::new_unique();
    let authority = Pubkey::new_unique();
    let recent_slot = 8u64;
    let (table_key, bump) = Pubkey::find_program_address(
        &[authority.as_ref(), &recent_slot.to_le_bytes()],
        &program_id,
    );
    let mut table = account(&table_key, 0, vec![], &system_program_id(), true);
    let authority_acc = signer(&authority);
    // A payer that cannot cover the rent-exempt minimum.
    let mut payer = account(&Pubkey::new_unique(), 1, vec![], &system_program_id(), true);
    let c = ctx(8, window(8, 4));
    let r = process_create_lookup_table(
        &addr(&program_id),
        &mut table,
        &authority_acc,
        &mut payer,
        recent_slot,
        bump,
        &c,
    );
    assert_eq!(r, Err(ProgramFailure::InsufficientFunds));
    assert_eq!(payer.lamports, 1);
    assert_eq!(table.data.len(), 0);
}

#[test]
fn create_reports_underivable_seeds() {
    // Search for a bump seed under which no address can be derived (the
    // hash lands on the curve); with 256 candidates one almost surely
    // exists.
    let program_id = Pubkey::new_unique();
    let authority = Pubkey::new_unique();
    let recent_slot = 4u64;
    let bad_bump = (0..=255u8).find(|bump| {
        Pubkey::create_program_address(
            &[authority.as_ref(), &recent_slot.to_le_bytes(), &[*bump]],
            &program_id,
        )
        .is_err()
    });
    if let Some(bump) = bad_bump {
        let mut table = account(&Pubkey::new_unique(), 0, vec![], &system_program_id(), true);
        let mut payer = account(&Pubkey::new_unique(), 10, vec![], &system_program_id(), true);
        let c = ctx(4, window(4, 3));
        let r = process_create_lookup_table(
            &addr(&program_id),
            &mut table,
            &signer(&authority),
            &mut payer,
            recent_slot,
            bump,
            &c,
        );
        assert_eq!(r, Err(ProgramFailure::InvalidSeeds));
    }
}

#[test]
fn extend_without_needed_payer_account() {
    // Through the dispatcher: a funded extension with no payer account in
    // the list is rejected for want of accounts.
    let (program_id, table, _authority_key, _payer) = created_table(5);
    let authority = _authority_key;
    let mut accounts = vec![table, signer(&authority)];
    let c = ctx(6, window(6, 4));
    let mut input = vec![2u8, 0, 0, 0];
    input.extend_from_slice(&1u64.to_le_bytes());
    input.extend_from_slice(&Pubkey::new_unique().to_bytes());
    let r = process(&addr(&program_id), &mut accounts, &input, &c);
    assert_eq!(r, Err(ProgramFailure::NotEnoughAccountKeys));
    // Nothing changed.
    let decoded = AddressLookupTable::deserialize(&accounts[0].data).unwrap();
    assert_eq!(decoded.addresses.len(), 0);
}

#[test]
fn decode_failures_map_to_distinct_errors() {
    let program_id = Pubkey::new_unique();
    let authority = Pubkey::new_unique();
    // An uninitialized account owned by the program.
    let mut empty = account(&Pubkey::new_unique(), 0, vec![0u8; 56], &program_id, false);
    let r = process_freeze_lookup_table(&addr(&program_id), &mut empty, &signer(&authority));
    assert_eq!(r, Err(ProgramFailure::InvalidArgument));
    // A malformed account owned by the program.
    let mut garbage = account(&Pubkey::new_unique(), 0, vec![9u8; 5], &program_id, false);
    let r = process_freeze_lookup_table(&addr(&program_id), &mut garbage, &signer(&authority));
    assert_eq!(r, Err(ProgramFailure::InvalidAccountData));
}
