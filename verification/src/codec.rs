//! Binary account codec: the tagged-union layout of a table account, with
//! decoding, header-only overwrite, and full encoding.
//!
//! Layout: bytes 0..4 hold the little-endian state tag (0 = uninitialized,
//! 1 = lookup table); bytes 4..22 hold the fixed metadata fields
//! (deactivation slot, last-extended slot, start index, authority presence
//! flag); a present authority occupies bytes 22..54; the header region is 56
//! bytes in all, zero-padded; addresses follow as raw 32-byte groups.

use vstd::bytes::{
    lemma_auto_spec_u64_to_from_le_bytes, spec_u64_from_le_bytes, spec_u64_to_le_bytes,
    u64_from_le_bytes, u64_to_le_bytes,
};
use vstd::prelude::*;
use vstd::slice::{slice_subrange, slice_to_vec};

use crate::addr::{copy_bytes, Address, ADDRESS_BYTES};
use crate::state::{AddressLookupTable, LookupTableMeta, MetaView, TableView};

verus! {

/// Serialized size of the header region (state tag plus metadata).
pub const LOOKUP_TABLE_META_SIZE: usize = 56;

/// How a byte string can fail to decode as a lookup table.
#[derive(Debug, Clone, Copy, PartialEq, Eq, Structural)]
pub enum DecodeError {
    /// The account holds the uninitialized program state.
    Uninitialized,
    /// The bytes are not a valid encoding of a lookup table.
    Malformed,
}

/// A run of zero bytes.
pub open spec fn spec_zeros(n: nat) -> Seq<u8> {
    Seq::new(n, |i: int| 0u8)
}

/// The 56-byte header region encoding the given metadata.
pub open spec fn spec_meta_bytes(m: MetaView) -> Seq<u8> {
    seq![1u8, 0u8, 0u8, 0u8] + spec_u64_to_le_bytes(m.deactivation_slot) + spec_u64_to_le_bytes(
        m.last_extended_slot,
    ) + seq![m.last_extended_slot_start_index] + match m.authority {
        Some(a) => seq![1u8] + a + spec_zeros(2),
        None => seq![0u8] + spec_zeros(34),
    }
}

/// Concatenation of the address list's raw bytes.
pub open spec fn spec_addresses_bytes(addrs: Seq<Seq<u8>>) -> Seq<u8>
    decreases addrs.len(),
{
    if addrs.len() == 0 {
        Seq::<u8>::empty()
    } else {
        addrs.first() + spec_addresses_bytes(addrs.drop_first())
    }
}

/// The full encoding of a table: header region then addresses.
pub open spec fn spec_table_bytes(t: TableView) -> Seq<u8> {
    spec_meta_bytes(t.meta) + spec_addresses_bytes(t.addresses)
}

/// Whether the bytes hold the uninitialized program state (tag 0).
pub open spec fn spec_is_uninitialized(data: Seq<u8>) -> bool {
    data.len() >= 4 && data.subrange(0, 4) == seq![0u8, 0u8, 0u8, 0u8]
}

/// Parses the metadata fields out of an account's bytes, reading exactly the
/// bytes the layout assigns to each field. `None` when the tag is not the
/// lookup-table tag, the authority flag is not 0 or 1, or the data ends
/// before a field.
pub open spec fn spec_parse_meta(data: Seq<u8>) -> Option<MetaView> {
    if data.len() < 22 || data.subrange(0, 4) != seq![1u8, 0u8, 0u8, 0u8] {
        None
    } else {
        let deactivation_slot = spec_u64_from_le_bytes(data.subrange(4, 12));
        let last_extended_slot = spec_u64_from_le_bytes(data.subrange(12, 20));
        let start_index = data[20];
        if data[21] == 0u8 {
            if data.len() >= 24 {
                Some(
                    MetaView {
                        deactivation_slot,
                        last_extended_slot,
                        last_extended_slot_start_index: start_index,
                        authority: None,
                    },
                )
            } else {
                None
            }
        } else if data[21] == 1u8 {
            if data.len() >= 56 {
                Some(
                    MetaView {
                        deactivation_slot,
                        last_extended_slot,
                        last_extended_slot_start_index: start_index,
                        authority: Some(data.subrange(22, 54)),
                    },
                )
            } else {
                None
            }
        } else {
            None
        }
    }
}

/// Splits the address region into 32-byte groups.
pub open spec fn spec_parse_addresses(data: Seq<u8>) -> Seq<Seq<u8>> {
    Seq::new(data.len() / 32, |k: int| data.subrange(32 * k, 32 * k + 32))
}

/// Parses an account's bytes as a lookup table: a valid header region, a
/// total length of at least the header size, and an address region that is a
/// whole number of 32-byte groups.
pub open spec fn spec_parse_table(data: Seq<u8>) -> Option<TableView> {
    match spec_parse_meta(data) {
        Some(m) => if data.len() >= 56 && (data.len() - 56) % 32 == 0 {
            Some(TableView { meta: m, addresses: spec_parse_addresses(data.skip(56)) })
        } else {
            None
        },
        None => None,
    }
}

/// The encoded header region of well-formed metadata is exactly 56 bytes.
pub proof fn lemma_meta_bytes_len(m: MetaView)
    requires
        m.wf(),
    ensures
        spec_meta_bytes(m).len() == 56,
{
    lemma_auto_spec_u64_to_from_le_bytes();
}

/// The encoded address region of a well-formed list is 32 bytes per entry,
/// and parsing it back yields the list.
pub proof fn lemma_addresses_bytes_roundtrip(addrs: Seq<Seq<u8>>)
    requires
        forall|i: int| 0 <= i < addrs.len() ==> #[trigger] addrs[i].len() == ADDRESS_BYTES,
    ensures
        spec_addresses_bytes(addrs).len() == 32 * addrs.len(),
        spec_parse_addresses(spec_addresses_bytes(addrs)) == addrs,
    decreases addrs.len(),
{
    let bytes = spec_addresses_bytes(addrs);
    if addrs.len() == 0 {
        assert(spec_parse_addresses(bytes) =~= addrs);
    } else {
        let rest = addrs.drop_first();
        lemma_addresses_bytes_roundtrip(rest);
        let rest_bytes = spec_addresses_bytes(rest);
        assert(bytes =~= addrs[0] + rest_bytes);
        assert(bytes.len() == 32 * addrs.len());
        let parsed = spec_parse_addresses(bytes);
        assert forall|k: int| 0 <= k < addrs.len() implies parsed[k] == addrs[k] by {
            if k == 0 {
                assert(parsed[0] =~= addrs[0]);
            } else {
                assert(spec_parse_addresses(rest_bytes)[k - 1] == rest[k - 1]);
                assert(bytes.subrange(32 * k, 32 * k + 32) =~= rest_bytes.subrange(
                    32 * (k - 1),
                    32 * (k - 1) + 32,
                ));
            }
        }
        assert(parsed =~= addrs);
    }
}

/// Encoding a well-formed table and parsing the bytes back yields the table:
/// the codec loses nothing.
pub proof fn lemma_table_bytes_roundtrip(t: TableView)
    requires
        t.wf(),
    ensures
        spec_table_bytes(t).len() == 56 + 32 * t.addresses.len(),
        spec_parse_table(spec_table_bytes(t)) == Some(t),
{
    lemma_auto_spec_u64_to_from_le_bytes();
    lemma_meta_bytes_len(t.meta);
    lemma_addresses_bytes_roundtrip(t.addresses);
    let header = spec_meta_bytes(t.meta);
    let bytes = spec_table_bytes(t);
    vstd::arithmetic::div_mod::lemma_mod_multiples_basic(t.addresses.len() as int, 32);
    assert((bytes.len() - 56) % 32 == 0);
    assert(bytes.subrange(0, 4) =~= seq![1u8, 0u8, 0u8, 0u8]);
    assert(bytes.subrange(4, 12) =~= spec_u64_to_le_bytes(t.meta.deactivation_slot));
    assert(bytes.subrange(12, 20) =~= spec_u64_to_le_bytes(t.meta.last_extended_slot));
    assert(bytes[20] == t.meta.last_extended_slot_start_index);
    match t.meta.authority {
        Some(a) => {
            assert(bytes[21] == 1u8);
            assert(bytes.subrange(22, 54) =~= a);
        },
        None => {
            assert(bytes[21] == 0u8);
        },
    }
    assert(spec_parse_meta(bytes) == Some(t.meta));
    assert(bytes.skip(56) =~= spec_addresses_bytes(t.addresses));
}

/// Builds the 56-byte header region for the given metadata.
fn meta_header_bytes(meta: &LookupTableMeta) -> (r: Vec<u8>)
    requires
        meta.wf(),
    ensures
        r@ == spec_meta_bytes(meta@),
        r@.len() == 56,
{
    let mut out: Vec<u8> = Vec::new();
    out.push(1u8);
    out.push(0u8);
    out.push(0u8);
    out.push(0u8);
    let mut deactivation = u64_to_le_bytes(meta.deactivation_slot);
    out.append(&mut deactivation);
    let mut last_extended = u64_to_le_bytes(meta.last_extended_slot);
    out.append(&mut last_extended);
    out.push(meta.last_extended_slot_start_index);
    match &meta.authority {
        Some(a) => {
            out.push(1u8);
            let mut authority_bytes = copy_bytes(&a.bytes);
            out.append(&mut authority_bytes);
            out.push(0u8);
            out.push(0u8);
        },
        None => {
            out.push(0u8);
            let mut i: usize = 0;
            while i < 34
                invariant
                    i <= 34,
                    out@ == seq![1u8, 0u8, 0u8, 0u8] + spec_u64_to_le_bytes(
                        meta@.deactivation_slot,
                    ) + spec_u64_to_le_bytes(meta@.last_extended_slot) + seq![
                        meta@.last_extended_slot_start_index,
                        0u8,
                    ] + spec_zeros(i as nat),
                decreases 34 - i,
            {
                out.push(0u8);
                proof {
                    assert(spec_zeros((i + 1) as nat) =~= spec_zeros(i as nat).push(0u8));
                    assert(out@ == seq![1u8, 0u8, 0u8, 0u8] + spec_u64_to_le_bytes(
                        meta@.deactivation_slot,
                    ) + spec_u64_to_le_bytes(meta@.last_extended_slot) + seq![
                        meta@.last_extended_slot_start_index,
                        0u8,
                    ] + spec_zeros((i + 1) as nat));
                }
                i = i + 1;
            }
        },
    }
    proof {
        lemma_auto_spec_u64_to_from_le_bytes();
        assert(out@ =~= spec_meta_bytes(meta@));
    }
    out
}

impl AddressLookupTable {
    /// Decodes an account's bytes as a lookup table, distinguishing the
    /// uninitialized program state from malformed data.
    pub fn deserialize(data: &[u8]) -> (r: Result<AddressLookupTable, DecodeError>)
        ensures
            match r {
                Ok(t) => spec_parse_table(data@) == Some(t@) && t.wf(),
                Err(e) => spec_parse_table(data@) is None && ((e
                    == DecodeError::Uninitialized) <==> spec_is_uninitialized(data@)),
            },
            r is Ok <==> spec_parse_table(data@) is Some,
    {
        if data.len() < 4 {
            return Err(DecodeError::Malformed);
        }
        let b0 = *vstd::slice::slice_index_get(data, 0);
        let b1 = *vstd::slice::slice_index_get(data, 1);
        let b2 = *vstd::slice::slice_index_get(data, 2);
        let b3 = *vstd::slice::slice_index_get(data, 3);
        proof {
            let s = data@.subrange(0, 4);
            assert(s[0] == b0 && s[1] == b1 && s[2] == b2 && s[3] == b3);
            assert(s.len() == 4);
            if b0 == 0 && b1 == 0 && b2 == 0 && b3 == 0 {
                assert(s =~= seq![0u8, 0u8, 0u8, 0u8]);
            } else {
                assert(s != seq![0u8, 0u8, 0u8, 0u8]);
            }
            if b0 == 1 && b1 == 0 && b2 == 0 && b3 == 0 {
                assert(s =~= seq![1u8, 0u8, 0u8, 0u8]);
            } else {
                assert(s != seq![1u8, 0u8, 0u8, 0u8]);
            }
        }
        if b0 == 0 && b1 == 0 && b2 == 0 && b3 == 0 {
            return Err(DecodeError::Uninitialized);
        }
        if !(b0 == 1 && b1 == 0 && b2 == 0 && b3 == 0) {
            return Err(DecodeError::Malformed);
        }
        if data.len() < 22 {
            return Err(DecodeError::Malformed);
        }
        let deactivation_slot = u64_from_le_bytes(slice_subrange(data, 4, 12));
        let last_extended_slot = u64_from_le_bytes(slice_subrange(data, 12, 20));
        let start_index = *vstd::slice::slice_index_get(data, 20);
        let authority_tag = *vstd::slice::slice_index_get(data, 21);
        let authority: Option<Address> = if authority_tag == 0 {
            if data.len() < 24 {
                return Err(DecodeError::Malformed);
            }
            None
        } else if authority_tag == 1 {
            if data.len() < 56 {
                return Err(DecodeError::Malformed);
            }
            Some(Address { bytes: slice_to_vec(slice_subrange(data, 22, 54)) })
        } else {
            return Err(DecodeError::Malformed);
        };
        if data.len() < 56 {
            return Err(DecodeError::Malformed);
        }
        let body_len = data.len() - 56;
        if body_len % 32 != 0 {
            return Err(DecodeError::Malformed);
        }
        let count = body_len / 32;
        proof {
            vstd::arithmetic::div_mod::lemma_fundamental_div_mod(data@.len() - 56, 32);
        }
        let mut addresses: Vec<Address> = Vec::new();
        let mut k: usize = 0;
        while k < count
            invariant
                k <= count,
                count == (data@.len() - 56) / 32,
                data@.len() == 56 + 32 * count,
                data@.len() <= usize::MAX,
                addresses@.len() == k,
                forall|j: int| 0 <= j < k ==> (#[trigger] addresses@[j])@ == data@.subrange(
                    56 + 32 * j,
                    56 + 32 * j + 32,
                ),
            decreases count - k,
        {
            let start = 56 + 32 * k;
            let chunk = slice_to_vec(slice_subrange(data, start, start + 32));
            addresses.push(Address { bytes: chunk });
            k = k + 1;
        }
        let meta = LookupTableMeta {
            deactivation_slot,
            last_extended_slot,
            last_extended_slot_start_index: start_index,
            authority,
        };
        let table = AddressLookupTable { meta, addresses };
        proof {
            assert(spec_parse_meta(data@) == Some(table.meta@));
            let parsed = spec_parse_addresses(data@.skip(56));
            assert forall|j: int| 0 <= j < count implies parsed[j] == table@.addresses[j] by {
                assert(data@.skip(56).subrange(32 * j, 32 * j + 32) =~= data@.subrange(
                    56 + 32 * j,
                    56 + 32 * j + 32,
                ));
            }
            assert(table@.addresses =~= parsed);
            assert(spec_parse_table(data@) == Some(table@));
        }
        Ok(table)
    }

    /// Rewrites only the 56-byte header region in place, leaving the address
    /// region untouched; fails when the account is shorter than a header.
    pub fn overwrite_meta_data(data: &mut Vec<u8>, meta: &LookupTableMeta) -> (r: Result<
        (),
        DecodeError,
    >)
        requires
            meta.wf(),
        ensures
            match r {
                Ok(()) => old(data)@.len() >= 56 && final(data)@ == spec_meta_bytes(meta@) + old(
                    data,
                )@.skip(56),
                Err(e) => e == DecodeError::Malformed && old(data)@.len() < 56 && final(data)@
                    == old(data)@,
            },
    {
        if data.len() < 56 {
            return Err(DecodeError::Malformed);
        }
        let header = meta_header_bytes(meta);
        let mut i: usize = 0;
        while i < 56
            invariant
                i <= 56,
                data@.len() == old(data)@.len() >= 56,
                header@ == spec_meta_bytes(meta@),
                header@.len() == 56,
                forall|j: int| 0 <= j < i ==> data@[j] == header@[j],
                forall|j: int| i <= j < data@.len() ==> data@[j] == old(data)@[j],
            decreases 56 - i,
        {
            data[i] = header[i];
            i = i + 1;
        }
        proof {
            assert(data@ =~= spec_meta_bytes(meta@) + old(data)@.skip(56));
        }
        Ok(())
    }

    /// Encodes a whole table; at creation the address list is empty and this
    /// yields exactly the 56-byte header region.
    pub fn serialize(&self) -> (r: Vec<u8>)
        requires
            self.wf(),
        ensures
            r@ == spec_table_bytes(self@),
    {
        let mut out = meta_header_bytes(&self.meta);
        let n = self.addresses.len();
        let mut k: usize = 0;
        while k < n
            invariant
                k <= n,
                n == self.addresses@.len(),
                self.wf(),
                out@ == spec_meta_bytes(self.meta@) + spec_addresses_bytes(
                    self@.addresses.take(k as int),
                ),
            decreases n - k,
        {
            let mut chunk = copy_bytes(&self.addresses[k].bytes);
            out.append(&mut chunk);
            proof {
                lemma_addresses_bytes_push(self@.addresses.take(k as int), self@.addresses[k as int]);
                assert(self@.addresses.take(k + 1) =~= self@.addresses.take(k as int).push(
                    self@.addresses[k as int],
                ));
                assert(out@ =~= spec_meta_bytes(self.meta@) + spec_addresses_bytes(
                    self@.addresses.take(k + 1),
                ));
            }
            k = k + 1;
        }
        proof {
            assert(self@.addresses.take(n as int) =~= self@.addresses);
        }
        out
    }
}

/// Appending one entry to the list appends its bytes to the encoding.
pub proof fn lemma_addresses_bytes_push(addrs: Seq<Seq<u8>>, tail: Seq<u8>)
    ensures
        spec_addresses_bytes(addrs.push(tail)) == spec_addresses_bytes(addrs) + tail,
    decreases addrs.len(),
{
    if addrs.len() == 0 {
        assert(addrs.push(tail).first() == tail);
        assert(addrs.push(tail).drop_first() =~= Seq::<Seq<u8>>::empty());
        assert(spec_addresses_bytes(Seq::<Seq<u8>>::empty()) =~= Seq::<u8>::empty());
        assert(spec_addresses_bytes(addrs.push(tail)) =~= spec_addresses_bytes(addrs) + tail);
    } else {
        assert(addrs.push(tail).drop_first() =~= addrs.drop_first().push(tail));
        lemma_addresses_bytes_push(addrs.drop_first(), tail);
        assert(spec_addresses_bytes(addrs.push(tail)) =~= spec_addresses_bytes(addrs) + tail);
    }
}

} // verus!
