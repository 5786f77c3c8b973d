//! The QPACK dynamic table on the decoder side (RFC 9204 §3.2): entries inserted by the
//! peer's encoder stream, newest first, evicted oldest first to stay within the capacity
//! the peer sets, addressed by absolute index.
use vstd::prelude::*;
use std::collections::VecDeque;
use crate::entry_name::{name_bytes, EntryName, EntryNameView};

verus! {

/// HTTP/3 error codes raised by the QPACK layer.
#[derive(Debug, Clone, Copy, PartialEq, Eq, Structural)]
pub enum H3ErrorCode {
    /// A field section could not be decoded (RFC 9204 §6).
    QpackDecompressionFailed,
    /// The peer's encoder stream broke a rule (RFC 9204 §6).
    QpackEncoderStreamError,
    /// The peer's decoder stream broke a rule (RFC 9204 §6).
    QpackDecoderStreamError,
    /// A decoded message is malformed (RFC 9114 §4.1.2).
    MessageError,
}

/// The value of a dynamic-table entry.
pub struct EntryView {
    pub name: EntryNameView,
    pub value: Seq<u8>,
}

/// The size an entry counts against the capacity: name, value and 32 bytes of overhead
/// (RFC 9204 §3.2.1).
pub open spec fn entry_size(entry: EntryView) -> nat {
    name_bytes(entry.name).len() + entry.value.len() + 32
}

/// The summed size of entries.
pub open spec fn total_size(entries: Seq<EntryView>) -> nat
    decreases entries.len(),
{
    if entries.len() == 0 {
        0
    } else {
        total_size(entries.drop_last()) + entry_size(entries.last())
    }
}

/// Dropping the oldest entries (the last ones) until the rest fit in `limit`.
pub open spec fn evict_to(entries: Seq<EntryView>, limit: nat) -> Seq<EntryView>
    decreases entries.len(),
{
    if entries.len() == 0 || total_size(entries) <= limit {
        entries
    } else {
        evict_to(entries.drop_last(), limit)
    }
}

/// One dynamic-table entry.
#[derive(Debug)]
pub struct DynamicEntry {
    pub name: EntryName,
    pub value: Vec<u8>,
}

impl View for DynamicEntry {
    type V = EntryView;

    open spec fn view(&self) -> EntryView {
        EntryView { name: self.name@, value: self.value@ }
    }
}

/// A section that was decoded with a non-zero Required Insert Count and still has to be
/// acknowledged on the decoder stream.
#[derive(Debug, Clone, Copy, PartialEq, Eq, Structural)]
pub struct PendingSectionAck {
    pub stream_id: u64,
    pub required_insert_count: u64,
}

/// The value of a [`DecoderDynamicTable`].
pub struct TableView {
    /// Entries, newest first: entry `i` has absolute index `insert_count - 1 - i`.
    pub entries: Seq<EntryView>,
    pub max_capacity: nat,
    pub capacity: nat,
    pub insert_count: nat,
    pub pending_acks: Seq<PendingSectionAck>,
    pub max_blocked_streams: nat,
    pub blocked_streams: nat,
    pub failed: Option<H3ErrorCode>,
}

/// The table's rules: the entries fit in the capacity, which fits in the maximum we
/// advertised, and every entry was inserted.
pub open spec fn table_wf(t: TableView) -> bool {
    &&& total_size(t.entries) <= t.capacity
    &&& t.capacity <= t.max_capacity
    &&& t.max_capacity <= usize::MAX
    &&& t.entries.len() <= t.insert_count
    &&& t.insert_count <= u64::MAX
    &&& t.blocked_streams <= t.max_blocked_streams
    &&& t.max_blocked_streams <= usize::MAX
}

/// The entry at an absolute index, if it is still in the table.
pub open spec fn table_get(t: TableView, absolute_index: int) -> Option<EntryView> {
    let i = t.insert_count - 1 - absolute_index;
    if 0 <= absolute_index && 0 <= i < t.entries.len() {
        Some(t.entries[i])
    } else {
        None
    }
}

/// Setting the capacity: refused above the advertised maximum, else the oldest entries
/// that no longer fit are evicted.
pub open spec fn table_set_capacity(t: TableView, capacity: nat) -> Result<TableView, H3ErrorCode> {
    if capacity > t.max_capacity {
        Err(H3ErrorCode::QpackEncoderStreamError)
    } else {
        Ok(TableView { capacity, entries: evict_to(t.entries, capacity), ..t })
    }
}

/// Inserting an entry: refused when it alone exceeds the capacity, else the oldest
/// entries are evicted until it fits, and it becomes the newest.
pub open spec fn table_insert(t: TableView, entry: EntryView) -> Result<TableView, H3ErrorCode> {
    if entry_size(entry) > t.capacity {
        Err(H3ErrorCode::QpackEncoderStreamError)
    } else {
        Ok(
            TableView {
                entries: seq![entry] + evict_to(t.entries, (t.capacity - entry_size(entry)) as nat),
                insert_count: t.insert_count + 1,
                ..t
            },
        )
    }
}

/// Decoding an encoded Required Insert Count (RFC 9204 §4.5.1.1) against a table with
/// `max_capacity` and `insert_count` inserts so far.
pub open spec fn required_insert_count_decoding(encoded: nat, max_capacity: nat, insert_count: nat) -> Result<nat, H3ErrorCode> {
    let max_entries = max_capacity / 32;
    let full_range = 2 * max_entries;
    if encoded == 0 {
        Ok(0)
    } else if max_entries == 0 || encoded > full_range {
        Err(H3ErrorCode::QpackDecompressionFailed)
    } else {
        let max_value = insert_count + max_entries;
        let max_wrapped = (max_value / full_range) * full_range;
        let ric = max_wrapped + encoded - 1;
        if ric > max_value {
            if ric < full_range || ric - full_range == 0 {
                Err(H3ErrorCode::QpackDecompressionFailed)
            } else {
                Ok((ric - full_range) as nat)
            }
        } else if ric == 0 {
            Err(H3ErrorCode::QpackDecompressionFailed)
        } else {
            Ok(ric as nat)
        }
    }
}

/// Encoding a Required Insert Count (RFC 9204 §4.5.1.1): zero stays zero, anything else
/// is `(ric mod (2 * max_entries)) + 1` with `max_entries = max_capacity / 32`.
pub open spec fn required_insert_count_encoding(ric: nat, max_capacity: nat) -> nat {
    if ric == 0 {
        0
    } else {
        ric % (2 * (max_capacity / 32)) + 1
    }
}

/// The QPACK dynamic table for a single HTTP/3 connection (decoder side).
#[derive(Debug)]
pub struct DecoderDynamicTable {
    entries: VecDeque<DynamicEntry>,
    max_capacity: usize,
    capacity: usize,
    current_size: usize,
    insert_count: u64,
    failed: Option<H3ErrorCode>,
    pending_section_acks: Vec<PendingSectionAck>,
    max_blocked_streams: usize,
    currently_blocked_streams: usize,
}

/// Another name for [`DecoderDynamicTable`].
pub type DynamicTable = DecoderDynamicTable;

impl View for DecoderDynamicTable {
    type V = TableView;

    closed spec fn view(&self) -> TableView {
        TableView {
            entries: self.entries@.map_values(|e: DynamicEntry| e@),
            max_capacity: self.max_capacity as nat,
            capacity: self.capacity as nat,
            insert_count: self.insert_count as nat,
            pending_acks: self.pending_section_acks@,
            max_blocked_streams: self.max_blocked_streams as nat,
            blocked_streams: self.currently_blocked_streams as nat,
            failed: self.failed,
        }
    }
}

pub(crate) proof fn lemma_total_size_prefix(entries: Seq<EntryView>, k: int)
    requires
        0 <= k <= entries.len(),
    ensures
        total_size(entries.subrange(0, k)) <= total_size(entries),
    decreases entries.len(),
{
    if k < entries.len() {
        assert(entries.drop_last().subrange(0, k) =~= entries.subrange(0, k));
        lemma_total_size_prefix(entries.drop_last(), k);
    } else {
        assert(entries.subrange(0, k) =~= entries);
    }
}

pub(crate) proof fn lemma_total_size_push_front(entry: EntryView, entries: Seq<EntryView>)
    ensures
        total_size(seq![entry] + entries) == entry_size(entry) + total_size(entries),
    decreases entries.len(),
{
    let all = seq![entry] + entries;
    if entries.len() > 0 {
        assert(all.drop_last() =~= seq![entry] + entries.drop_last());
        assert(all.last() == entries.last());
        lemma_total_size_push_front(entry, entries.drop_last());
        assert(total_size(all) == total_size(all.drop_last()) + entry_size(all.last()));
        assert(total_size(entries) == total_size(entries.drop_last()) + entry_size(entries.last()));
    } else {
        assert(all.drop_last() =~= Seq::<EntryView>::empty());
        assert(all.last() == entry);
        assert(total_size(all) == total_size(all.drop_last()) + entry_size(all.last()));
        assert(total_size(all.drop_last()) == 0);
        assert(entries =~= Seq::<EntryView>::empty());
    }
}

pub(crate) proof fn lemma_evict_to(entries: Seq<EntryView>, limit: nat)
    ensures
        total_size(evict_to(entries, limit)) <= limit || evict_to(entries, limit).len() == 0,
        evict_to(entries, limit).len() <= entries.len(),
        evict_to(entries, limit) == entries.subrange(0, evict_to(entries, limit).len() as int),
    decreases entries.len(),
{
    if !(entries.len() == 0 || total_size(entries) <= limit) {
        lemma_evict_to(entries.drop_last(), limit);
        let e = evict_to(entries.drop_last(), limit);
        assert(entries.drop_last().subrange(0, e.len() as int) =~= entries.subrange(
            0,
            e.len() as int,
        ));
    } else {
        assert(entries.subrange(0, entries.len() as int) =~= entries);
    }
}

impl DecoderDynamicTable {
    pub closed spec fn wf(&self) -> bool {
        &&& table_wf(self@)
        &&& self.current_size == total_size(self@.entries)
    }

    /// An empty table: capacity zero until the peer sets one.
    pub fn new(max_capacity: usize, max_blocked_streams: usize) -> (table: Self)
        ensures
            table.wf(),
            table@ == (TableView {
                entries: Seq::empty(),
                max_capacity: max_capacity as nat,
                capacity: 0,
                insert_count: 0,
                pending_acks: Seq::empty(),
                max_blocked_streams: max_blocked_streams as nat,
                blocked_streams: 0,
                failed: None,
            }),
    {
        let table = DecoderDynamicTable {
            entries: VecDeque::new(),
            max_capacity,
            capacity: 0,
            current_size: 0,
            insert_count: 0,
            failed: None,
            pending_section_acks: Vec::new(),
            max_blocked_streams,
            currently_blocked_streams: 0,
        };
        assert(table@.entries =~= Seq::<EntryView>::empty());
        table
    }

    /// Our advertised `SETTINGS_QPACK_MAX_TABLE_CAPACITY`.
    pub fn max_capacity(&self) -> (max: usize)
        ensures
            max == self@.max_capacity,
    {
        self.max_capacity
    }

    /// The number of entries inserted so far.
    pub fn insert_count(&self) -> (count: u64)
        ensures
            count == self@.insert_count,
    {
        self.insert_count
    }

    /// The number of streams holding a blocked-stream slot.
    pub fn currently_blocked_streams(&self) -> (count: usize)
        ensures
            count == self@.blocked_streams,
    {
        self.currently_blocked_streams
    }

    /// If this header block's `required_insert_count` is not yet met, attempt to reserve a
    /// blocked-stream slot: `Ok(true)` when one was reserved (release it with
    /// [`release_blocked_stream`](Self::release_blocked_stream)), `Ok(false)` when the
    /// table already has enough entries, and an error when the blocked-stream limit would
    /// be exceeded.
    pub fn try_reserve_blocked_stream(&mut self, required_insert_count: u64) -> (reserved: Result<bool, H3ErrorCode>)
        requires
            old(self).wf(),
        ensures
            final(self).wf(),
            old(self)@.insert_count >= required_insert_count ==> reserved == Ok::<bool, H3ErrorCode>(false)
                && final(self)@ == old(self)@,
            old(self)@.insert_count < required_insert_count && old(self)@.blocked_streams
                >= old(self)@.max_blocked_streams ==> reserved == Err::<bool, H3ErrorCode>(
                H3ErrorCode::QpackDecompressionFailed,
            ) && final(self)@ == old(self)@,
            old(self)@.insert_count < required_insert_count && old(self)@.blocked_streams
                < old(self)@.max_blocked_streams ==> reserved == Ok::<bool, H3ErrorCode>(true)
                && final(self)@ == (TableView {
                blocked_streams: old(self)@.blocked_streams + 1,
                ..old(self)@
            }),
    {
        if self.insert_count >= required_insert_count {
            return Ok(false);
        }
        if self.currently_blocked_streams >= self.max_blocked_streams {
            return Err(H3ErrorCode::QpackDecompressionFailed);
        }
        self.currently_blocked_streams = self.currently_blocked_streams + 1;
        Ok(true)
    }

    /// Give back a blocked-stream slot.
    pub fn release_blocked_stream(&mut self)
        requires
            old(self).wf(),
            old(self)@.blocked_streams > 0,
        ensures
            final(self).wf(),
            final(self)@ == (TableView {
                blocked_streams: (old(self)@.blocked_streams - 1) as nat,
                ..old(self)@
            }),
    {
        self.currently_blocked_streams = self.currently_blocked_streams - 1;
    }

    /// Reconstruct the Required Insert Count from its encoded form per RFC 9204 §4.5.1.
    ///
    /// Returns `0` for a static-only field section (encoded value 0). Returns an error if
    /// the encoded value is invalid given the current table state, or names a count past
    /// what a `u64` insert count can reach.
    pub fn decode_required_insert_count(&self, encoded: usize) -> (ric: Result<u64, H3ErrorCode>)
        requires
            self.wf(),
        ensures
            match required_insert_count_decoding(
                encoded as nat,
                self@.max_capacity,
                self@.insert_count,
            ) {
                Ok(v) => if v <= u64::MAX {
                    ric matches Ok(r) && r as nat == v
                } else {
                    ric == Err::<u64, H3ErrorCode>(H3ErrorCode::QpackDecompressionFailed)
                },
                Err(e) => ric == Err::<u64, H3ErrorCode>(e),
            },
    {
        if encoded == 0 {
            return Ok(0);
        }
        let max_entries = self.max_capacity / 32;
        if max_entries == 0 {
            return Err(H3ErrorCode::QpackDecompressionFailed);
        }
        let full_range = 2 * max_entries;
        if encoded > full_range {
            return Err(H3ErrorCode::QpackDecompressionFailed);
        }
        let total_inserts = self.insert_count as u128;
        let max_value: u128 = total_inserts + max_entries as u128;
        let full: u128 = full_range as u128;
        proof {
            assert((max_value / full) * full <= max_value) by (nonlinear_arith)
                requires
                    full > 0,
            ;
        }
        let max_wrapped: u128 = (max_value / full) * full;
        let mut ric: u128 = max_wrapped + encoded as u128 - 1;
        if ric > max_value {
            if ric < full {
                return Err(H3ErrorCode::QpackDecompressionFailed);
            }
            ric = ric - full;
        }
        if ric == 0 {
            return Err(H3ErrorCode::QpackDecompressionFailed);
        }
        assert(ric <= max_value);
        if ric > u64::MAX as u128 {
            return Err(H3ErrorCode::QpackDecompressionFailed);
        }
        Ok(ric as u64)
    }
}

/// Where a wait for `insert_count >= threshold` stands.
#[derive(Debug, Clone, Copy, PartialEq, Eq, Structural)]
pub enum ThresholdState {
    /// The encoder stream failed with this error; waiting is over.
    Failed(H3ErrorCode),
    /// Enough entries have been inserted.
    Ready,
    /// Not yet.
    Pending,
}

impl DecoderDynamicTable {
    /// Evict the oldest entries until the rest fit in `limit` bytes.
    fn evict_down_to(&mut self, limit: usize)
        requires
            old(self).current_size == total_size(old(self)@.entries),
        ensures
            final(self)@ == (TableView { entries: evict_to(old(self)@.entries, limit as nat), ..old(self)@ }),
            final(self).current_size == total_size(final(self)@.entries),
            total_size(final(self)@.entries) <= limit,
    {
        let ghost start = self@;
        while self.current_size > limit
            invariant
                self.current_size == total_size(self@.entries),
                evict_to(self@.entries, limit as nat) == evict_to(start.entries, limit as nat),
                self@ == (TableView { entries: self@.entries, ..start }),
            decreases self@.entries.len(),
        {
            let ghost before = self.entries@;
            proof {
                assert(self@.entries.len() > 0);
                assert(self@.entries.drop_last() =~= before.drop_last().map_values(
                    |e: DynamicEntry| e@,
                ));
            }
            let e = self.entries.pop_back().unwrap();
            proof {
                assert(self@.entries =~= before.drop_last().map_values(|e: DynamicEntry| e@));
                assert(e@ == before.map_values(|e: DynamicEntry| e@).last());
            }
            let size = e.name.len() + e.value.len() + 32;
            self.current_size = self.current_size - size;
        }
        proof {
            lemma_evict_to(self@.entries, limit as nat);
        }
    }

    /// Apply a Set Dynamic Table Capacity instruction from the encoder stream.
    ///
    /// Evicts oldest entries that no longer fit. Returns an error if `new_capacity` exceeds
    /// the `max_capacity` we advertised.
    pub fn set_capacity(&mut self, new_capacity: usize) -> (result: Result<(), H3ErrorCode>)
        requires
            old(self).wf(),
        ensures
            final(self).wf(),
            match table_set_capacity(old(self)@, new_capacity as nat) {
                Ok(t) => result is Ok && final(self)@ == t,
                Err(e) => result == Err::<(), H3ErrorCode>(e) && final(self)@ == old(self)@,
            },
    {
        if new_capacity > self.max_capacity {
            return Err(H3ErrorCode::QpackEncoderStreamError);
        }
        proof {
            lemma_evict_to(self@.entries, new_capacity as nat);
        }
        self.evict_down_to(new_capacity);
        self.capacity = new_capacity;
        proof {
            lemma_evict_to(old(self)@.entries, new_capacity as nat);
        }
        Ok(())
    }

    /// Insert a new entry (from an Insert instruction on the encoder stream), evicting the
    /// oldest entries to make room.
    ///
    /// Returns an error if the entry alone exceeds the current capacity (the encoder broke
    /// RFC 9204 §3.2.2).
    pub fn insert(&mut self, name: EntryName, value: Vec<u8>) -> (result: Result<(), H3ErrorCode>)
        requires
            old(self).wf(),
            old(self)@.insert_count < u64::MAX,
        ensures
            final(self).wf(),
            match table_insert(old(self)@, EntryView { name: name@, value: value@ }) {
                Ok(t) => result is Ok && final(self)@ == t,
                Err(e) => result == Err::<(), H3ErrorCode>(e) && final(self)@ == old(self)@,
            },
    {
        let ghost entry = EntryView { name: name@, value: value@ };
        let entry_size = match name.len().checked_add(value.len()) {
            Some(n) => n.checked_add(32),
            None => None,
        };
        let entry_size = match entry_size {
            Some(size) => size,
            None => {
                return Err(H3ErrorCode::QpackEncoderStreamError);
            },
        };
        if entry_size > self.capacity {
            return Err(H3ErrorCode::QpackEncoderStreamError);
        }
        self.evict_down_to(self.capacity - entry_size);
        proof {
            lemma_evict_to(old(self)@.entries, (self.capacity - entry_size) as nat);
        }
        let ghost before = self.entries@;
        self.entries.push_front(DynamicEntry { name, value });
        proof {
            assert(self@.entries =~= seq![entry] + before.map_values(|e: DynamicEntry| e@));
            lemma_total_size_push_front(entry, before.map_values(|e: DynamicEntry| e@));
        }
        self.current_size = self.current_size + entry_size;
        self.insert_count = self.insert_count + 1;
        Ok(())
    }

    /// Duplicate an existing entry by current relative index (0 = most recently
    /// inserted), for the Duplicate encoder instruction (RFC 9204 §3.2.4).
    pub fn duplicate(&mut self, relative_index: usize) -> (result: Result<(), H3ErrorCode>)
        requires
            old(self).wf(),
            old(self)@.insert_count < u64::MAX,
        ensures
            final(self).wf(),
            relative_index >= old(self)@.entries.len() ==> result == Err::<(), H3ErrorCode>(
                H3ErrorCode::QpackEncoderStreamError,
            ) && final(self)@ == old(self)@,
            relative_index < old(self)@.entries.len() ==> match table_insert(
                old(self)@,
                old(self)@.entries[relative_index as int],
            ) {
                Ok(t) => result is Ok && final(self)@ == t,
                Err(e) => result == Err::<(), H3ErrorCode>(e) && final(self)@ == old(self)@,
            },
    {
        if relative_index >= self.entries.len() {
            return Err(H3ErrorCode::QpackEncoderStreamError);
        }
        let entry = &self.entries[relative_index];
        let name = entry.name.clone();
        let value = vstd::slice::slice_to_vec(entry.value.as_slice());
        self.insert(name, value)
    }

    /// The name of the entry at a relative index (0 = most recently inserted), used when
    /// decoding an Insert With Name Reference (dynamic) encoder instruction.
    pub fn name_at_relative(&self, relative_index: usize) -> (name: Option<EntryName>)
        ensures
            relative_index < self@.entries.len() ==> (name matches Some(n) && n@
                == self@.entries[relative_index as int].name),
            relative_index >= self@.entries.len() ==> name is None,
    {
        if relative_index < self.entries.len() {
            Some(self.entries[relative_index].name.clone())
        } else {
            None
        }
    }

    /// The entry at an absolute index, if it is still in the table.
    pub fn get(&self, absolute_index: u64) -> (entry: Option<(EntryName, Vec<u8>)>)
        requires
            self.wf(),
        ensures
            match table_get(self@, absolute_index as int) {
                Some(e) => entry matches Some((n, v)) && n@ == e.name && v@ == e.value,
                None => entry is None,
            },
    {
        if self.insert_count == 0 || absolute_index > self.insert_count - 1 {
            return None;
        }
        let i = self.insert_count - 1 - absolute_index;
        if i >= self.entries.len() as u64 {
            return None;
        }
        let e = &self.entries[i as usize];
        Some((e.name.clone(), vstd::slice::slice_to_vec(e.value.as_slice())))
    }

    /// Record that a request stream's header block has been decoded with a non-zero
    /// Required Insert Count and needs a Section Acknowledgement.
    pub fn acknowledge_section(&mut self, stream_id: u64, required_insert_count: u64)
        requires
            old(self).wf(),
        ensures
            final(self).wf(),
            final(self)@ == (TableView {
                pending_acks: old(self)@.pending_acks.push(
                    PendingSectionAck { stream_id, required_insert_count },
                ),
                ..old(self)@
            }),
    {
        self.pending_section_acks.push(PendingSectionAck { stream_id, required_insert_count });
    }

    /// Drain all pending Section Acknowledgements and return them with the current insert
    /// count.
    pub fn drain_pending_acks_and_count(&mut self) -> (drained: (Vec<PendingSectionAck>, u64))
        requires
            old(self).wf(),
        ensures
            final(self).wf(),
            drained.0@ == old(self)@.pending_acks,
            drained.1 == old(self)@.insert_count,
            final(self)@ == (TableView { pending_acks: Seq::empty(), ..old(self)@ }),
    {
        let mut acks: Vec<PendingSectionAck> = Vec::new();
        std::mem::swap(&mut acks, &mut self.pending_section_acks);
        (acks, self.insert_count)
    }

    /// Signal that the encoder stream has failed: every wait ends with this error.
    pub fn fail(&mut self, code: H3ErrorCode)
        requires
            old(self).wf(),
        ensures
            final(self).wf(),
            final(self)@ == (TableView { failed: Some(code), ..old(self)@ }),
    {
        self.failed = Some(code);
    }

    /// The error the encoder stream failed with, if it failed.
    pub fn failed_code(&self) -> (code: Option<H3ErrorCode>)
        ensures
            code == self@.failed,
    {
        self.failed
    }

    /// Where a wait for `insert_count >= threshold` stands: over with the failure when
    /// the encoder stream failed, ready when enough entries are in, pending otherwise.
    pub fn threshold_state(&self, threshold: u64) -> (state: ThresholdState)
        ensures
            state == match self@.failed {
                Some(code) => ThresholdState::Failed(code),
                None => if self@.insert_count >= threshold {
                    ThresholdState::Ready
                } else {
                    ThresholdState::Pending
                },
            },
    {
        match self.failed {
            Some(code) => ThresholdState::Failed(code),
            None => if self.insert_count >= threshold {
                ThresholdState::Ready
            } else {
                ThresholdState::Pending
            },
        }
    }
}

/// Encode the Required Insert Count of a field section (RFC 9204 §4.5.1.1):
/// `(ric mod (2 * max_entries)) + 1`, where `max_entries = max_capacity / 32`.
///
/// A non-zero `ric` needs a `max_capacity` of at least 32: a section with dynamic
/// references implies an inserted entry, which needs a non-zero capacity.
pub fn encode_required_insert_count(ric: u64, max_capacity: usize) -> (encoded: usize)
    requires
        ric == 0 || max_capacity >= 32,
    ensures
        encoded == required_insert_count_encoding(ric as nat, max_capacity as nat),
{
    if ric == 0 {
        return 0;
    }
    let max_entries = (max_capacity / 32) as u64;
    let full_range = 2 * max_entries;
    let encoded = (ric % full_range) + 1;
    assert(encoded <= full_range);
    encoded as usize
}

/// Inserting an entry makes it the one at the newest absolute index.
pub proof fn lemma_insert_then_get(t: TableView, entry: EntryView)
    requires
        table_insert(t, entry) is Ok,
    ensures
        table_get(table_insert(t, entry)->Ok_0, t.insert_count as int) == Some(entry),
{
}

/// An absolute index names the same entry for as long as the entry stays: an insert only
/// evicts, never moves, the entries already there.
pub proof fn lemma_insert_keeps_indices(t: TableView, entry: EntryView, absolute_index: int)
    requires
        table_insert(t, entry) is Ok,
        0 <= absolute_index < t.insert_count,
    ensures
        table_get(table_insert(t, entry)->Ok_0, absolute_index) is None || table_get(
            table_insert(t, entry)->Ok_0,
            absolute_index,
        ) == table_get(t, absolute_index),
{
    let limit = (t.capacity - entry_size(entry)) as nat;
    lemma_evict_to(t.entries, limit);
    let kept = evict_to(t.entries, limit);
    let t2 = table_insert(t, entry)->Ok_0;
    let i = t.insert_count - 1 - absolute_index;
    if table_get(t2, absolute_index) is Some {
        assert(t2.entries[i + 1] == kept[i]);
        assert(kept[i] == t.entries.subrange(0, kept.len() as int)[i]);
    }
}

/// Setting the capacity only evicts: every entry left keeps its absolute index.
pub proof fn lemma_set_capacity_keeps_indices(t: TableView, capacity: nat, absolute_index: int)
    requires
        table_set_capacity(t, capacity) is Ok,
    ensures
        table_get(table_set_capacity(t, capacity)->Ok_0, absolute_index) is None || table_get(
            table_set_capacity(t, capacity)->Ok_0,
            absolute_index,
        ) == table_get(t, absolute_index),
{
    lemma_evict_to(t.entries, capacity);
    let kept = evict_to(t.entries, capacity);
    let t2 = table_set_capacity(t, capacity)->Ok_0;
    let i = t.insert_count - 1 - absolute_index;
    if table_get(t2, absolute_index) is Some {
        assert(kept[i] == t.entries.subrange(0, kept.len() as int)[i]);
    }
}

/// The operations keep the table's rules: an insert or a capacity change leaves entries
/// that fit in the capacity.
pub proof fn lemma_operations_keep_rules(t: TableView, entry: EntryView, capacity: nat)
    requires
        table_wf(t),
        t.insert_count < u64::MAX,
    ensures
        table_insert(t, entry) matches Ok(t2) ==> table_wf(t2),
        table_set_capacity(t, capacity) matches Ok(t2) ==> table_wf(t2),
{
    if entry_size(entry) <= t.capacity {
        let limit = (t.capacity - entry_size(entry)) as nat;
        lemma_evict_to(t.entries, limit);
        lemma_total_size_push_front(entry, evict_to(t.entries, limit));
    }
    lemma_evict_to(t.entries, capacity);
}

/// A decoded Required Insert Count is at most the table's insert count plus its entry
/// limit.
pub proof fn lemma_required_insert_count_bound(encoded: nat, max_capacity: nat, insert_count: nat)
    ensures
        required_insert_count_decoding(encoded, max_capacity, insert_count) matches Ok(v) ==> v
            <= insert_count + max_capacity / 32,
{
    let max_entries = max_capacity / 32;
    let full_range = 2 * max_entries;
    if encoded != 0 && max_entries != 0 && encoded <= full_range {
        let max_value = insert_count + max_entries;
        assert((max_value / full_range) * full_range <= max_value) by (nonlinear_arith)
            requires
                full_range > 0,
        ;
    }
}

/// A Required Insert Count inside the window the decoder can tell apart — above
/// `max_value - 2 * max_entries` and at most `max_value = insert_count + max_entries` —
/// decodes from its encoding to itself.
pub proof fn lemma_required_insert_count_roundtrip(ric: nat, max_capacity: nat, insert_count: nat)
    requires
        max_capacity / 32 > 0,
        0 < ric <= insert_count + max_capacity / 32,
        ric + 2 * (max_capacity / 32) > insert_count + max_capacity / 32,
    ensures
        required_insert_count_decoding(
            required_insert_count_encoding(ric, max_capacity),
            max_capacity,
            insert_count,
        ) == Ok::<nat, H3ErrorCode>(ric),
{
    let max_entries = max_capacity / 32;
    let full = 2 * max_entries;
    let max_value = insert_count + max_entries;
    let q = ric / full;
    let r = ric % full;
    let big_q = max_value / full;
    let big_r = max_value % full;
    vstd::arithmetic::div_mod::lemma_fundamental_div_mod(ric as int, full as int);
    vstd::arithmetic::div_mod::lemma_fundamental_div_mod(max_value as int, full as int);
    assert(0 <= r < full && 0 <= big_r < full);
    let encoded = r + 1;
    assert(required_insert_count_encoding(ric, max_capacity) == encoded);
    let ric2 = big_q * full + encoded - 1;
    assert(ric2 == big_q * full + r);
    // The window is narrower than `full`, so `ric` sits in the same or the previous block.
    assert(q == big_q || q + 1 == big_q) by (nonlinear_arith)
        requires
            ric == q * full + r,
            max_value == big_q * full + big_r,
            0 <= r < full,
            0 <= big_r < full,
            ric <= max_value,
            ric + full > max_value,
            full > 0,
    ;
    if q == big_q {
        assert(ric2 == ric);
    } else {
        assert(r > big_r) by (nonlinear_arith)
            requires
                ric == q * full + r,
                max_value == (q + 1) * full + big_r,
                ric + full > max_value,
        ;
        assert(ric2 > max_value);
        assert(ric2 - full == ric) by (nonlinear_arith)
            requires
                ric2 == (q + 1) * full + r,
                ric == q * full + r,
        ;
        assert(ric2 >= full);
    }
}

} // verus!
