//! Deterministic derivation of a table's address from its authority, a
//! recent slot, a bump seed, and the program identity.

use vstd::prelude::*;

use crate::addr::Address;

verus! {

/// The address derived from (authority, recent slot, bump seed, program
/// identity), or nothing when those seeds admit no valid derivation. The
/// result depends on the arguments alone.
pub uninterp spec fn spec_derived_table_address(
    authority: Seq<u8>,
    recent_slot: u64,
    bump_seed: u8,
    program_id: Seq<u8>,
) -> Option<Seq<u8>>;

/// Relies on `solana_program::pubkey::Pubkey::create_program_address`: a
/// deterministic hash of the seeds (authority bytes, the slot's
/// little-endian bytes, the bump seed) and the program identity, yielding a
/// 32-byte address, or `InvalidSeeds` when the hash lands on the curve.
/// With these three seeds the seed count and seed lengths are always within
/// its limits.
#[verifier::external_body]
pub fn derive_table_address(
    authority: &Address,
    recent_slot: u64,
    bump_seed: u8,
    program_id: &Address,
) -> (r: Option<Address>)
    requires
        authority.wf(),
        program_id.wf(),
    ensures
        match r {
            Some(a) => a.wf() && spec_derived_table_address(
                authority@,
                recent_slot,
                bump_seed,
                program_id@,
            ) == Some(a@),
            None => spec_derived_table_address(authority@, recent_slot, bump_seed, program_id@)
                is None,
        },
{
    let program = solana_program::pubkey::Pubkey::try_from(program_id.bytes.as_slice()).unwrap();
    let slot_bytes = recent_slot.to_le_bytes();
    let seeds: [&[u8]; 3] = [authority.bytes.as_slice(), &slot_bytes, &[bump_seed]];
    match solana_program::pubkey::Pubkey::create_program_address(&seeds, &program) {
        Ok(pk) => Some(Address { bytes: pk.to_bytes().to_vec() }),
        Err(_) => None,
    }
}

} // verus!
