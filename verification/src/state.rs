//! Table metadata, derived activation status, and the spec-level transitions
//! of the lifecycle state machine.

use vstd::prelude::*;

use crate::addr::{Address, ADDRESS_BYTES};

verus! {

/// Upper bound on the number of addresses a lookup table can hold. It equals
/// the range of the one-byte start-index field, so extension must reject
/// before that field could overflow.
pub const LOOKUP_TABLE_MAX_ADDRESSES: usize = 256;

/// Sentinel for `deactivation_slot` meaning the table is still active.
pub const DEACTIVATION_SENTINEL: u64 = u64::MAX;

/// Derived activation status of a table. Never persisted: recomputed from
/// the metadata and a recent-history snapshot on every status-sensitive
/// operation.
#[derive(Debug, Clone, Copy, PartialEq, Eq, Structural)]
pub enum LookupTableStatus {
    Activated,
    Deactivating { remaining_blocks: usize },
    Deactivated,
}

/// Fixed-size table metadata.
#[derive(Debug)]
pub struct LookupTableMeta {
    /// Slot at which the table was deactivated; the sentinel while active.
    pub deactivation_slot: u64,
    /// Slot of the most recent extension.
    pub last_extended_slot: u64,
    /// Index of the first address added during `last_extended_slot`.
    pub last_extended_slot_start_index: u8,
    /// Identity permitted to mutate the table; `None` means permanently
    /// frozen.
    pub authority: Option<Address>,
}

/// Mathematical model of the metadata.
pub struct MetaView {
    pub deactivation_slot: u64,
    pub last_extended_slot: u64,
    pub last_extended_slot_start_index: u8,
    pub authority: Option<Seq<u8>>,
}

impl View for LookupTableMeta {
    type V = MetaView;

    open spec fn view(&self) -> MetaView {
        MetaView {
            deactivation_slot: self.deactivation_slot,
            last_extended_slot: self.last_extended_slot,
            last_extended_slot_start_index: self.last_extended_slot_start_index,
            authority: match self.authority {
                Some(a) => Some(a@),
                None => None,
            },
        }
    }
}

impl MetaView {
    /// A present authority holds exactly 32 bytes.
    pub open spec fn wf(&self) -> bool {
        match self.authority {
            Some(a) => a.len() == ADDRESS_BYTES,
            None => true,
        }
    }
}

impl LookupTableMeta {
    pub open spec fn wf(&self) -> bool {
        self@.wf()
    }

    /// Fresh metadata for a newly created table.
    pub fn new(authority: Address) -> (r: LookupTableMeta)
        ensures
            r@ == spec_new_meta(authority@),
    {
        LookupTableMeta {
            deactivation_slot: DEACTIVATION_SENTINEL,
            last_extended_slot: 0,
            last_extended_slot_start_index: 0,
            authority: Some(authority),
        }
    }

    /// Current status of the table, computed from its deactivation slot and
    /// the host's recent-history snapshot (newest first).
    pub fn status(&self, current_slot: u64, recent_history: &Vec<u64>) -> (r: LookupTableStatus)
        ensures
            r == spec_status(self.deactivation_slot, recent_history@),
            self.deactivation_slot == current_slot && current_slot != DEACTIVATION_SENTINEL
                && recent_history@.contains(current_slot) ==> r matches LookupTableStatus::Deactivating { remaining_blocks },
    {
        table_status(self.deactivation_slot, current_slot, recent_history)
    }
}

/// Metadata of a table just created with the given authority.
pub open spec fn spec_new_meta(authority: Seq<u8>) -> MetaView {
    MetaView {
        deactivation_slot: DEACTIVATION_SENTINEL,
        last_extended_slot: 0,
        last_extended_slot_start_index: 0,
        authority: Some(authority),
    }
}

/// Status of a table with the given deactivation slot against a
/// recent-history snapshot (newest first): active while the sentinel is
/// held; deactivating while the deactivation slot is still retained, with a
/// remaining cooldown of the number of entries at or below it; deactivated
/// once it has aged out.
pub open spec fn spec_status(deactivation_slot: u64, recent_history: Seq<u64>) -> LookupTableStatus {
    if deactivation_slot == DEACTIVATION_SENTINEL {
        LookupTableStatus::Activated
    } else {
        match recent_history.index_of_first(deactivation_slot) {
            Some(i) => LookupTableStatus::Deactivating {
                remaining_blocks: (recent_history.len() - i) as usize,
            },
            None => LookupTableStatus::Deactivated,
        }
    }
}

/// Computes the status of a table from its deactivation slot, the current
/// slot, and the recent-history snapshot (newest first). When the table was
/// deactivated in the current slot itself, the host guarantees that slot is
/// present in the snapshot, so the result is `Deactivating`: deactivation
/// never immediately yields `Deactivated`.
pub fn table_status(deactivation_slot: u64, current_slot: u64, recent_history: &Vec<u64>) -> (r:
    LookupTableStatus)
    ensures
        r == spec_status(deactivation_slot, recent_history@),
        deactivation_slot == current_slot && current_slot != DEACTIVATION_SENTINEL
            && recent_history@.contains(current_slot) ==> r matches LookupTableStatus::Deactivating { remaining_blocks },
{
    proof {
        recent_history@.index_of_first_ensures(deactivation_slot);
    }
    if deactivation_slot == DEACTIVATION_SENTINEL {
        return LookupTableStatus::Activated;
    }
    let n = recent_history.len();
    let mut i: usize = 0;
    while i < n
        invariant
            i <= n,
            n == recent_history@.len(),
            forall|j: int| 0 <= j < i ==> recent_history@[j] != deactivation_slot,
            deactivation_slot != DEACTIVATION_SENTINEL,
        decreases n - i,
    {
        if recent_history[i] == deactivation_slot {
            proof {
                recent_history@.index_of_first_ensures(deactivation_slot);
                assert(recent_history@.index_of_first(deactivation_slot) == Some(i as int));
            }
            return LookupTableStatus::Deactivating { remaining_blocks: n - i };
        }
        i = i + 1;
    }
    proof {
        assert(!recent_history@.contains(deactivation_slot)) by {
            if recent_history@.contains(deactivation_slot) {
                let w = choose|w: int|
                    0 <= w < recent_history@.len() && recent_history@[w] == deactivation_slot;
                assert(recent_history@[w] != deactivation_slot);
            }
        }
        recent_history@.index_of_first_ensures(deactivation_slot);
    }
    LookupTableStatus::Deactivated
}

/// A table account's contents: fixed-size metadata plus the append-only,
/// capacity-bounded address list.
#[derive(Debug)]
pub struct AddressLookupTable {
    pub meta: LookupTableMeta,
    pub addresses: Vec<Address>,
}

/// Mathematical model of a table.
pub struct TableView {
    pub meta: MetaView,
    pub addresses: Seq<Seq<u8>>,
}

impl View for AddressLookupTable {
    type V = TableView;

    open spec fn view(&self) -> TableView {
        TableView { meta: self.meta@, addresses: self.addresses@.map_values(|a: Address| a@) }
    }
}

impl TableView {
    pub open spec fn wf(&self) -> bool {
        &&& self.meta.wf()
        &&& forall|i: int| 0 <= i < self.addresses.len() ==> #[trigger] self.addresses[i].len()
            == ADDRESS_BYTES
    }
}

impl AddressLookupTable {
    pub open spec fn wf(&self) -> bool {
        self@.wf()
    }
}

/// Rank of a status along the one-way progression
/// `Activated -> Deactivating -> Deactivated`.
pub open spec fn spec_status_rank(s: LookupTableStatus) -> int {
    match s {
        LookupTableStatus::Activated => 0,
        LookupTableStatus::Deactivating { remaining_blocks } => 1,
        LookupTableStatus::Deactivated => 2,
    }
}

/// The recent-history snapshot taken while `newest` is the freshest retained
/// slot: a contiguous, newest-first window of slots.
pub open spec fn spec_is_recent_window(h: Seq<u64>, newest: u64) -> bool {
    forall|i: int| 0 <= i < h.len() ==> h[i] == newest - i
}

/// Metadata after a freeze: the authority is discarded, irreversibly.
pub open spec fn spec_frozen_meta(m: MetaView) -> MetaView {
    MetaView { authority: None, ..m }
}

/// Metadata after a deactivation in `current_slot`.
pub open spec fn spec_deactivated_meta(m: MetaView, current_slot: u64) -> MetaView {
    MetaView { deactivation_slot: current_slot, ..m }
}

/// Metadata after an extension in `current_slot` of a table that held
/// `prior_count` addresses: the first extension in a slot records that slot
/// and the prior address count; later extensions in the same slot leave the
/// metadata unchanged.
pub open spec fn spec_extended_meta(m: MetaView, current_slot: u64, prior_count: u8) -> MetaView {
    if current_slot != m.last_extended_slot {
        MetaView {
            last_extended_slot: current_slot,
            last_extended_slot_start_index: prior_count,
            ..m
        }
    } else {
        m
    }
}

} // verus!
