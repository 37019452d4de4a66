//! Instruction wire format: a tagged union of the five operations, decoded
//! from the raw instruction payload under the transport size limit.
//!
//! Layout: bytes 0..4 hold the little-endian variant tag; a creation carries
//! an 8-byte recent slot and a one-byte bump seed; an extension carries an
//! 8-byte entry count followed by that many 32-byte addresses. Trailing
//! bytes are ignored, but a payload may never read past the transport limit.

use vstd::bytes::{lemma_auto_spec_u64_to_from_le_bytes, spec_u64_from_le_bytes, u64_from_le_bytes};
use vstd::prelude::*;
use vstd::slice::{slice_subrange, slice_to_vec};

use crate::addr::{Address, ADDRESS_BYTES};

verus! {

/// Maximum over-the-wire size of an instruction transport:
/// 1280 is the IPv6 minimum MTU, less 40 bytes of IPv6 header and 8 bytes of
/// fragment header.
pub const PACKET_DATA_SIZE: usize = 1280 - 40 - 8;

/// The five operations of the program.
#[derive(Debug)]
pub enum AddressLookupInstruction {
    /// Create a new table at an address derived from the authority and a
    /// recent slot.
    CreateLookupTable { recent_slot: u64, bump_seed: u8 },
    /// Discard the authority, making the table immutable forever.
    FreezeLookupTable,
    /// Append addresses to the table.
    ExtendLookupTable { new_addresses: Vec<Address> },
    /// Begin the deactivation cooldown.
    DeactivateLookupTable,
    /// Reclaim the lamports of a fully deactivated table and empty it.
    CloseLookupTable,
}

/// Mathematical model of a decoded instruction.
pub enum InstructionView {
    CreateLookupTable { recent_slot: u64, bump_seed: u8 },
    FreezeLookupTable,
    ExtendLookupTable { new_addresses: Seq<Seq<u8>> },
    DeactivateLookupTable,
    CloseLookupTable,
}

impl View for AddressLookupInstruction {
    type V = InstructionView;

    open spec fn view(&self) -> InstructionView {
        match self {
            AddressLookupInstruction::CreateLookupTable { recent_slot, bump_seed } => (
            InstructionView::CreateLookupTable {
                recent_slot: *recent_slot,
                bump_seed: *bump_seed,
            }),
            AddressLookupInstruction::FreezeLookupTable => InstructionView::FreezeLookupTable,
            AddressLookupInstruction::ExtendLookupTable { new_addresses } => (
            InstructionView::ExtendLookupTable {
                new_addresses: new_addresses@.map_values(|a: Address| a@),
            }),
            AddressLookupInstruction::DeactivateLookupTable => (
            InstructionView::DeactivateLookupTable),
            AddressLookupInstruction::CloseLookupTable => InstructionView::CloseLookupTable,
        }
    }
}

impl AddressLookupInstruction {
    /// Every carried address holds exactly 32 bytes.
    pub open spec fn wf(&self) -> bool {
        match self {
            AddressLookupInstruction::ExtendLookupTable { new_addresses } => forall|i: int|
                0 <= i < new_addresses@.len() ==> (#[trigger] new_addresses@[i]).wf(),
            _ => true,
        }
    }
}

/// Parses the instruction payload. The tag selects the operation; an
/// extension's address list must fit, together with the tag and count,
/// within the transport limit and within the payload itself; trailing bytes
/// are ignored.
pub open spec fn spec_parse_instruction(input: Seq<u8>) -> Option<InstructionView> {
    if input.len() < 4 {
        None
    } else {
        let tag = input.subrange(0, 4);
        if tag == seq![0u8, 0u8, 0u8, 0u8] {
            if input.len() >= 13 {
                Some(
                    InstructionView::CreateLookupTable {
                        recent_slot: spec_u64_from_le_bytes(input.subrange(4, 12)),
                        bump_seed: input[12],
                    },
                )
            } else {
                None
            }
        } else if tag == seq![1u8, 0u8, 0u8, 0u8] {
            Some(InstructionView::FreezeLookupTable)
        } else if tag == seq![2u8, 0u8, 0u8, 0u8] {
            if input.len() >= 12 {
                let count = spec_u64_from_le_bytes(input.subrange(4, 12)) as int;
                if 12 + 32 * count <= PACKET_DATA_SIZE && 12 + 32 * count <= input.len() {
                    Some(
                        InstructionView::ExtendLookupTable {
                            new_addresses: Seq::new(
                                count as nat,
                                |k: int| input.subrange(12 + 32 * k, 12 + 32 * k + 32),
                            ),
                        },
                    )
                } else {
                    None
                }
            } else {
                None
            }
        } else if tag == seq![3u8, 0u8, 0u8, 0u8] {
            Some(InstructionView::DeactivateLookupTable)
        } else if tag == seq![4u8, 0u8, 0u8, 0u8] {
            Some(InstructionView::CloseLookupTable)
        } else {
            None
        }
    }
}

/// Decodes an instruction payload, rejecting any malformed or truncated
/// payload and any extension that would read past the transport limit.
pub fn decode_instruction(input: &[u8]) -> (r: Option<AddressLookupInstruction>)
    ensures
        match r {
            Some(ins) => spec_parse_instruction(input@) == Some(ins@) && ins.wf(),
            None => spec_parse_instruction(input@) is None,
        },
{
    if input.len() < 4 {
        return None;
    }
    let b0 = *vstd::slice::slice_index_get(input, 0);
    let b1 = *vstd::slice::slice_index_get(input, 1);
    let b2 = *vstd::slice::slice_index_get(input, 2);
    let b3 = *vstd::slice::slice_index_get(input, 3);
    proof {
        let s = input@.subrange(0, 4);
        assert(s[0] == b0 && s[1] == b1 && s[2] == b2 && s[3] == b3);
        assert(s.len() == 4);
        if b1 == 0 && b2 == 0 && b3 == 0 {
            assert(s =~= seq![b0, 0u8, 0u8, 0u8]);
        } else {
            assert(s != seq![0u8, 0u8, 0u8, 0u8]);
            assert(s != seq![1u8, 0u8, 0u8, 0u8]);
            assert(s != seq![2u8, 0u8, 0u8, 0u8]);
            assert(s != seq![3u8, 0u8, 0u8, 0u8]);
            assert(s != seq![4u8, 0u8, 0u8, 0u8]);
        }
    }
    if !(b1 == 0 && b2 == 0 && b3 == 0) {
        return None;
    }
    if b0 == 0 {
        if input.len() < 13 {
            return None;
        }
        let recent_slot = u64_from_le_bytes(slice_subrange(input, 4, 12));
        let bump_seed = *vstd::slice::slice_index_get(input, 12);
        Some(AddressLookupInstruction::CreateLookupTable { recent_slot, bump_seed })
    } else if b0 == 1 {
        Some(AddressLookupInstruction::FreezeLookupTable)
    } else if b0 == 2 {
        if input.len() < 12 {
            return None;
        }
        let count64 = u64_from_le_bytes(slice_subrange(input, 4, 12));
        if count64 > 38 {
            // 12 + 32 * 39 already exceeds the transport limit of 1232.
            return None;
        }
        let count = count64 as usize;
        let needed = 12 + 32 * count;
        if input.len() < needed {
            return None;
        }
        let mut new_addresses: Vec<Address> = Vec::new();
        let mut k: usize = 0;
        while k < count
            invariant
                k <= count,
                count <= 38,
                input@.len() >= 12 + 32 * count,
                new_addresses@.len() == k,
                forall|j: int| 0 <= j < k ==> (#[trigger] new_addresses@[j])@ == input@.subrange(
                    12 + 32 * j,
                    12 + 32 * j + 32,
                ),
            decreases count - k,
        {
            let start = 12 + 32 * k;
            let chunk = slice_to_vec(slice_subrange(input, start, start + 32));
            new_addresses.push(Address { bytes: chunk });
            k = k + 1;
        }
        let ins = AddressLookupInstruction::ExtendLookupTable { new_addresses };
        proof {
            let count_i = spec_u64_from_le_bytes(input@.subrange(4, 12)) as int;
            assert(count_i == count);
            match spec_parse_instruction(input@) {
                Some(v) => {
                    match (v, ins@) {
                        (
                            InstructionView::ExtendLookupTable { new_addresses: expected },
                            InstructionView::ExtendLookupTable { new_addresses: got },
                        ) => {
                            assert(got =~= expected);
                        },
                        _ => {
                            assert(false);
                        },
                    }
                },
                None => {
                    assert(false);
                },
            }
        }
        Some(ins)
    } else if b0 == 3 {
        Some(AddressLookupInstruction::DeactivateLookupTable)
    } else if b0 == 4 {
        Some(AddressLookupInstruction::CloseLookupTable)
    } else {
        None
    }
}

} // verus!
