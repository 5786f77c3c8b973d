//! The QPACK dynamic table on the encoder side (RFC 9204 §2.1, §3.2): the entries we have
//! inserted, newest first, the encoder-stream instructions waiting to be written, the
//! peer's Known Received Count, and the header sections still waiting for an
//! acknowledgement, whose references pin entries against eviction.
//!
//! Inserting picks the smallest instruction from what the table holds: a Duplicate when
//! the pair is already live, else an Insert With Name Reference to the static table, else
//! one to the newest live entry with the same name, else an Insert With Literal Name.
use vstd::prelude::*;
use std::collections::VecDeque;
use crate::decoder_table::{
    entry_size, evict_to, lemma_evict_to, lemma_total_size_prefix, lemma_total_size_push_front,
    total_size, DynamicEntry, EntryView, H3ErrorCode,
};
use crate::encoder_instruction::{
    duplicate_encoding, encode_duplicate, encode_insert_with_literal_name,
    encode_insert_with_name_ref, encode_set_capacity, insert_with_literal_name_encoding,
    insert_with_name_ref_encoding, set_capacity_encoding,
};
use crate::entry_name::{name_bytes, EntryName, EntryNameView};
use crate::bytes::bytes_equal;
use crate::recent_pairs::RecentPairs;
use crate::decoder_instruction::DecoderInstruction;
use crate::static_table::{first_match, spec_first_match};

verus! {

/// The references one outstanding header section holds.
#[derive(Debug, Clone, Copy, PartialEq, Eq)]
pub struct SectionRefs {
    /// One past the highest absolute index the section references.
    pub required_insert_count: u64,
    /// The lowest absolute index the section references, if it references any dynamic
    /// entry; that entry and every newer one stay in the table until the section is
    /// acknowledged.
    pub min_ref_abs_idx: Option<u64>,
}

/// The outstanding sections of one stream, oldest first.
#[derive(Debug)]
pub struct StreamSections {
    pub stream_id: u64,
    pub sections: Vec<SectionRefs>,
}

/// The value of a [`StreamSections`].
pub struct StreamSectionsView {
    pub stream_id: u64,
    pub sections: Seq<SectionRefs>,
}

impl View for StreamSections {
    type V = StreamSectionsView;

    open spec fn view(&self) -> StreamSectionsView {
        StreamSectionsView { stream_id: self.stream_id, sections: self.sections@ }
    }
}

/// The value of an [`EncoderDynamicTable`].
pub struct EncoderTableView {
    /// Entries, newest first: entry `i` has absolute index `insert_count - 1 - i`.
    pub entries: Seq<EntryView>,
    pub max_capacity: nat,
    pub capacity: nat,
    pub insert_count: nat,
    /// The peer's Known Received Count.
    pub known_received_count: nat,
    /// Encoder-stream instructions not yet written, oldest first.
    pub pending_ops: Seq<Seq<u8>>,
    /// Outstanding sections per stream, at most one record per stream.
    pub outstanding: Seq<StreamSectionsView>,
    pub failed: Option<H3ErrorCode>,
    pub max_blocked_streams: nat,
    /// Bytes of the entries inserted when the table was primed.
    pub primed_bytes: nat,
}

/// The absolute index of entry position `pos`.
pub open spec fn abs_index(t: EncoderTableView, pos: int) -> int {
    t.insert_count - 1 - pos
}

/// The absolute index of the oldest live entry.
pub open spec fn oldest_abs(t: EncoderTableView) -> int {
    t.insert_count - t.entries.len()
}

/// The live entry with this absolute index.
pub open spec fn entry_at(t: EncoderTableView, abs_idx: int) -> Option<EntryView> {
    let pos = t.insert_count - 1 - abs_idx;
    if 0 <= pos < t.entries.len() {
        Some(t.entries[pos])
    } else {
        None
    }
}

/// The first position at or after `from` whose entry has this name and value.
pub open spec fn pair_position(entries: Seq<EntryView>, name: EntryNameView, value: Seq<u8>, from: int) -> Option<int>
    decreases entries.len() - from,
{
    if from < 0 || from >= entries.len() {
        None
    } else if entries[from].name == name && entries[from].value == value {
        Some(from)
    } else {
        pair_position(entries, name, value, from + 1)
    }
}

/// The first position at or after `from` whose entry has this name.
pub open spec fn name_position(entries: Seq<EntryView>, name: EntryNameView, from: int) -> Option<int>
    decreases entries.len() - from,
{
    if from < 0 || from >= entries.len() {
        None
    } else if entries[from].name == name {
        Some(from)
    } else {
        name_position(entries, name, from + 1)
    }
}

/// The absolute index of the newest live entry with this name and value.
pub open spec fn full_match(t: EncoderTableView, name: EntryNameView, value: Seq<u8>) -> Option<nat> {
    match pair_position(t.entries, name, value, 0) {
        Some(pos) => Some((t.insert_count - 1 - pos) as nat),
        None => None,
    }
}

/// The absolute index of the newest live entry with this name.
pub open spec fn name_match(t: EncoderTableView, name: EntryNameView) -> Option<nat> {
    match name_position(t.entries, name, 0) {
        Some(pos) => Some((t.insert_count - 1 - pos) as nat),
        None => None,
    }
}

/// The lower of two optional floors.
pub open spec fn min_floor(a: Option<u64>, b: Option<u64>) -> Option<u64> {
    match (a, b) {
        (Some(x), Some(y)) => Some(if x <= y { x } else { y }),
        (Some(x), None) => Some(x),
        (None, y) => y,
    }
}

/// The lowest absolute index pinned by these sections.
pub open spec fn sections_floor(sections: Seq<SectionRefs>) -> Option<u64>
    decreases sections.len(),
{
    if sections.len() == 0 {
        None
    } else {
        min_floor(sections_floor(sections.drop_last()), sections.last().min_ref_abs_idx)
    }
}

/// The lowest absolute index pinned by any outstanding section.
pub open spec fn pinned_floor(streams: Seq<StreamSectionsView>) -> Option<u64>
    decreases streams.len(),
{
    if streams.len() == 0 {
        None
    } else {
        min_floor(pinned_floor(streams.drop_last()), sections_floor(streams.last().sections))
    }
}

/// Whether one of these sections waits for an insert the peer has not acknowledged.
pub open spec fn any_blocking(sections: Seq<SectionRefs>, krc: nat) -> bool {
    exists|i: int| 0 <= i < sections.len() && sections[i].required_insert_count > krc
}

/// How many streams have a section waiting for an unacknowledged insert.
pub open spec fn blocked_count(streams: Seq<StreamSectionsView>, krc: nat) -> nat
    decreases streams.len(),
{
    if streams.len() == 0 {
        0
    } else {
        blocked_count(streams.drop_last(), krc) + if any_blocking(streams.last().sections, krc) {
            1nat
        } else {
            0nat
        }
    }
}

/// The position of a stream's record.
pub open spec fn stream_position(streams: Seq<StreamSectionsView>, stream_id: u64) -> Option<int> {
    if exists|i: int| 0 <= i < streams.len() && streams[i].stream_id == stream_id {
        Some(choose|i: int| 0 <= i < streams.len() && streams[i].stream_id == stream_id)
    } else {
        None
    }
}

/// Whether `stream_id` has a section waiting for an unacknowledged insert.
pub open spec fn stream_blocking(t: EncoderTableView, stream_id: u64) -> bool {
    match stream_position(t.outstanding, stream_id) {
        Some(i) => any_blocking(t.outstanding[i].sections, t.known_received_count),
        None => false,
    }
}

/// The table's rules: the entries fit in the capacity, which fits in the negotiated
/// maximum; every entry was inserted; one record per stream, none of them empty.
pub open spec fn encoder_table_wf(t: EncoderTableView) -> bool {
    &&& total_size(t.entries) <= t.capacity
    &&& t.capacity <= t.max_capacity
    &&& t.max_capacity <= usize::MAX
    &&& t.entries.len() <= t.insert_count
    &&& t.insert_count <= u64::MAX
    &&& t.insert_count > 0 ==> t.max_capacity >= 32
    &&& t.known_received_count <= u64::MAX
    &&& t.max_blocked_streams <= usize::MAX
    &&& t.primed_bytes <= usize::MAX
    &&& forall|i: int, j: int|
        0 <= i < j < t.outstanding.len() ==> t.outstanding[i].stream_id != t.outstanding[j].stream_id
    &&& forall|i: int| 0 <= i < t.outstanding.len() ==> t.outstanding[i].sections.len() > 0
}

/// The encoder-side QPACK dynamic table for one HTTP/3 connection.
#[derive(Debug)]
pub struct EncoderDynamicTable {
    entries: VecDeque<DynamicEntry>,
    max_capacity: usize,
    capacity: usize,
    current_size: usize,
    insert_count: u64,
    known_received_count: u64,
    pending_ops: Vec<Vec<u8>>,
    outstanding: Vec<StreamSections>,
    failed: Option<H3ErrorCode>,
    max_blocked_streams: usize,
    primed_bytes: usize,
    /// Hashes of recently planned pairs, consulted before a warming insert.
    recent_pairs: RecentPairs,
}

impl View for EncoderDynamicTable {
    type V = EncoderTableView;

    closed spec fn view(&self) -> EncoderTableView {
        EncoderTableView {
            entries: self.entries@.map_values(|e: DynamicEntry| e@),
            max_capacity: self.max_capacity as nat,
            capacity: self.capacity as nat,
            insert_count: self.insert_count as nat,
            known_received_count: self.known_received_count as nat,
            pending_ops: self.pending_ops@.map_values(|op: Vec<u8>| op@),
            outstanding: self.outstanding@.map_values(|s: StreamSections| s@),
            failed: self.failed,
            max_blocked_streams: self.max_blocked_streams as nat,
            primed_bytes: self.primed_bytes as nat,
        }
    }
}

/// An empty, uninitialised table.
pub open spec fn empty_table() -> EncoderTableView {
    EncoderTableView {
        entries: Seq::empty(),
        max_capacity: 0,
        capacity: 0,
        insert_count: 0,
        known_received_count: 0,
        pending_ops: Seq::empty(),
        outstanding: Seq::empty(),
        failed: None,
        max_blocked_streams: 0,
        primed_bytes: 0,
    }
}

pub(crate) proof fn lemma_entry_size_in_total(entries: Seq<EntryView>, i: int)
    requires
        0 <= i < entries.len(),
    ensures
        entry_size(entries[i]) <= total_size(entries),
        total_size(entries.subrange(0, i + 1)) == total_size(entries.subrange(0, i)) + entry_size(entries[i]),
{
    let prefix = entries.subrange(0, i + 1);
    assert(prefix.drop_last() =~= entries.subrange(0, i));
    assert(prefix.last() == entries[i]);
    lemma_total_size_prefix(entries, i + 1);
}

impl EncoderDynamicTable {
    /// A well-formed table's value keeps the table's rules.
    pub proof fn lemma_wf(&self)
        requires
            self.wf(),
        ensures
            encoder_table_wf(self@),
    {
    }

    /// The ring of recently planned pair hashes.
    pub closed spec fn recent(&self) -> RecentPairs {
        self.recent_pairs
    }

    pub closed spec fn wf(&self) -> bool {
        &&& encoder_table_wf(self@)
        &&& self.current_size == total_size(self@.entries)
        &&& self.recent_pairs.wf()
    }

    /// An empty table with capacity zero; `recent_pairs` is the ring the planner consults.
    pub fn new(recent_pairs: RecentPairs) -> (table: Self)
        requires
            recent_pairs.wf(),
        ensures
            table.wf(),
            table@ == empty_table(),
            table.recent() == recent_pairs,
    {
        let table = EncoderDynamicTable {
            entries: VecDeque::new(),
            max_capacity: 0,
            capacity: 0,
            current_size: 0,
            insert_count: 0,
            known_received_count: 0,
            pending_ops: Vec::new(),
            outstanding: Vec::new(),
            failed: None,
            max_blocked_streams: 0,
            primed_bytes: 0,
            recent_pairs,
        };
        assert(table@.entries =~= Seq::<EntryView>::empty());
        assert(table@.pending_ops =~= Seq::<Seq<u8>>::empty());
        assert(table@.outstanding =~= Seq::<StreamSectionsView>::empty());
        table
    }

    /// Total entries ever inserted.
    pub fn insert_count(&self) -> (count: u64)
        ensures
            count == self@.insert_count,
    {
        self.insert_count
    }

    /// The peer's Known Received Count.
    pub fn known_received_count(&self) -> (count: u64)
        ensures
            count == self@.known_received_count,
    {
        self.known_received_count
    }

    /// The number of live entries.
    pub fn entry_count(&self) -> (count: usize)
        ensures
            count == self@.entries.len(),
    {
        self.entries.len()
    }

    /// Bytes currently used by the entries.
    pub fn current_size(&self) -> (size: usize)
        requires
            self.wf(),
        ensures
            size == total_size(self@.entries),
    {
        self.current_size
    }

    /// The working capacity.
    pub fn capacity(&self) -> (capacity: usize)
        ensures
            capacity == self@.capacity,
    {
        self.capacity
    }

    /// The negotiated maximum capacity.
    pub fn max_capacity(&self) -> (max: usize)
        ensures
            max == self@.max_capacity,
    {
        self.max_capacity
    }

    /// The peer's limit on blocked streams.
    pub fn max_blocked_streams(&self) -> (max: usize)
        ensures
            max == self@.max_blocked_streams,
    {
        self.max_blocked_streams
    }

    /// Bytes of the entries inserted when the table was primed.
    pub fn primed_bytes(&self) -> (bytes: usize)
        ensures
            bytes == self@.primed_bytes,
    {
        self.primed_bytes
    }

    /// How many encoder-stream instructions are queued.
    pub fn pending_count(&self) -> (count: usize)
        ensures
            count == self@.pending_ops.len(),
    {
        self.pending_ops.len()
    }

    /// The length of the newest queued instruction, zero when none is queued.
    pub fn last_op_len(&self) -> (len: usize)
        ensures
            self@.pending_ops.len() > 0 ==> len == self@.pending_ops.last().len(),
            self@.pending_ops.len() == 0 ==> len == 0,
    {
        let n = self.pending_ops.len();
        if n == 0 {
            0
        } else {
            self.pending_ops[n - 1].len()
        }
    }

    /// The live entry with this absolute index, if any.
    pub fn entry_at_abs(&self, abs_idx: u64) -> (entry: Option<&DynamicEntry>)
        requires
            self.wf(),
        ensures
            match entry {
                Some(e) => entry_at(self@, abs_idx as int) == Some(e@),
                None => entry_at(self@, abs_idx as int) is None,
            },
    {
        if abs_idx >= self.insert_count {
            return None;
        }
        let pos = self.insert_count - 1 - abs_idx;
        if pos >= self.entries.len() as u64 {
            return None;
        }
        Some(&self.entries[pos as usize])
    }

    /// The live entry `k` places after the oldest (the oldest itself for `k == 0`).
    pub fn entry_from_oldest(&self, k: usize) -> (entry: &DynamicEntry)
        requires
            k < self@.entries.len(),
        ensures
            entry@ == self@.entries.reverse()[k as int],
    {
        &self.entries[self.entries.len() - 1 - k]
    }

    /// The oldest live entry and its absolute index.
    pub fn oldest_entry(&self) -> (oldest: Option<(u64, &DynamicEntry)>)
        requires
            self.wf(),
        ensures
            self@.entries.len() == 0 ==> oldest is None,
            self@.entries.len() > 0 ==> (oldest matches Some((abs, e)) && abs == oldest_abs(self@)
                && e@ == self@.entries.last()),
    {
        let len = self.entries.len();
        if len == 0 {
            return None;
        }
        Some((self.insert_count - len as u64, &self.entries[len - 1]))
    }

    /// The absolute index of the newest live entry with this name and value.
    pub fn find_pair(&self, name: &EntryName, value: &[u8]) -> (found: Option<u64>)
        requires
            self.wf(),
        ensures
            match found {
                Some(abs) => full_match(self@, name@, value@) == Some(abs as nat),
                None => full_match(self@, name@, value@) is None,
            },
    {
        let mut i: usize = 0;
        while i < self.entries.len()
            invariant
                self.wf(),
                i <= self@.entries.len(),
                pair_position(self@.entries, name@, value@, 0) == pair_position(
                    self@.entries,
                    name@,
                    value@,
                    i as int,
                ),
            decreases self@.entries.len() - i,
        {
            let e = &self.entries[i];
            assert(e@ == self@.entries[i as int]);
            if e.name.same_as(name) && bytes_equal(e.value.as_slice(), value) {
                return Some(self.insert_count - 1 - i as u64);
            }
            i = i + 1;
        }
        None
    }

    /// The absolute index of the newest live entry with this name.
    pub fn find_name(&self, name: &EntryName) -> (found: Option<u64>)
        requires
            self.wf(),
        ensures
            match found {
                Some(abs) => name_match(self@, name@) == Some(abs as nat),
                None => name_match(self@, name@) is None,
            },
    {
        let mut i: usize = 0;
        while i < self.entries.len()
            invariant
                self.wf(),
                i <= self@.entries.len(),
                name_position(self@.entries, name@, 0) == name_position(self@.entries, name@, i as int),
            decreases self@.entries.len() - i,
        {
            let e = &self.entries[i];
            assert(e@ == self@.entries[i as int]);
            if e.name.same_as(name) {
                return Some(self.insert_count - 1 - i as u64);
            }
            i = i + 1;
        }
        None
    }
}

/// Whether evicting down to `target` bytes would drop an entry at or above the pin.
pub open spec fn eviction_blocked(t: EncoderTableView, target: nat, floor: Option<u64>) -> bool {
    let kept = evict_to(t.entries, target).len();
    floor is Some && kept < t.entries.len() && t.insert_count - 1 - kept >= floor->0
}

/// The entries left after evicting down to `target` bytes without touching an entry at or
/// above the pin; refused, with nothing evicted, when the pin is in the way.
pub open spec fn evicted(t: EncoderTableView, target: nat, floor: Option<u64>) -> Result<Seq<EntryView>, H3ErrorCode> {
    if eviction_blocked(t, target, floor) {
        Err(H3ErrorCode::QpackEncoderStreamError)
    } else {
        Ok(evict_to(t.entries, target))
    }
}

/// Making room for an entry of `size` bytes: refused when it alone exceeds the capacity,
/// else eviction under the outstanding sections' pin combined with `extra`.
pub open spec fn make_room(t: EncoderTableView, size: nat, extra: Option<u64>) -> Result<Seq<EntryView>, H3ErrorCode> {
    if size > t.capacity {
        Err(H3ErrorCode::QpackEncoderStreamError)
    } else {
        evicted(t, (t.capacity - size) as nat, min_floor(pinned_floor(t.outstanding), extra))
    }
}

/// The table after `entry` joins the entries that were kept, with `wire` queued.
pub open spec fn with_new_entry(t: EncoderTableView, kept: Seq<EntryView>, entry: EntryView, wire: Seq<u8>) -> EncoderTableView {
    EncoderTableView {
        entries: seq![entry] + kept,
        insert_count: t.insert_count + 1,
        pending_ops: t.pending_ops.push(wire),
        ..t
    }
}

/// Duplicating the live entry at `abs_idx`: the source is pinned while room is made, and
/// the new entry gets the next absolute index.
pub open spec fn table_duplicate(t: EncoderTableView, abs_idx: nat, extra: Option<u64>) -> Result<(EncoderTableView, nat), H3ErrorCode> {
    match entry_at(t, abs_idx as int) {
        None => Err(H3ErrorCode::QpackEncoderStreamError),
        Some(e) => match make_room(t, entry_size(e), min_floor(Some(abs_idx as u64), extra)) {
            Err(x) => Err(x),
            Ok(kept) => Ok(
                (
                    with_new_entry(t, kept, e, duplicate_encoding((t.insert_count - 1 - abs_idx) as nat)),
                    t.insert_count,
                ),
            ),
        },
    }
}

/// The instruction inserting `(name, value)` when the pair is not live: a static name
/// reference, else a reference to the newest live entry with the name (which is then
/// pinned while room is made), else a literal name.
pub open spec fn insert_instruction(t: EncoderTableView, name: EntryNameView, value: Seq<u8>) -> (Seq<u8>, Option<u64>) {
    match spec_first_match(name) {
        Some(si) => (insert_with_name_ref_encoding(si as nat, true, value), None),
        None => match name_match(t, name) {
            Some(abs) => (
                insert_with_name_ref_encoding((t.insert_count - 1 - abs) as nat, false, value),
                Some(abs as u64),
            ),
            None => (insert_with_literal_name_encoding(name_bytes(name), value), None),
        },
    }
}

/// Inserting `(name, value)` with the smallest instruction: a Duplicate when the pair is
/// live, else [`insert_instruction`].  The result is the new table and the new entry's
/// absolute index.
pub open spec fn table_insert_pair(t: EncoderTableView, name: EntryNameView, value: Seq<u8>, extra: Option<u64>) -> Result<(EncoderTableView, nat), H3ErrorCode> {
    match full_match(t, name, value) {
        Some(abs) => table_duplicate(t, abs, extra),
        None => {
            let entry = EntryView { name, value };
            let (wire, variant_floor) = insert_instruction(t, name, value);
            match make_room(t, entry_size(entry), min_floor(variant_floor, extra)) {
                Err(x) => Err(x),
                Ok(kept) => Ok((with_new_entry(t, kept, entry, wire), t.insert_count)),
            }
        },
    }
}

/// Setting the working capacity: refused above the negotiated maximum or when eviction
/// would drop a pinned entry; else the oldest entries that no longer fit are evicted and a
/// Set Dynamic Table Capacity is queued.
pub open spec fn table_set_capacity(t: EncoderTableView, capacity: nat) -> Result<EncoderTableView, H3ErrorCode> {
    if capacity > t.max_capacity {
        Err(H3ErrorCode::QpackEncoderStreamError)
    } else {
        match evicted(t, capacity, pinned_floor(t.outstanding)) {
            Err(x) => Err(x),
            Ok(kept) => Ok(
                EncoderTableView {
                    entries: kept,
                    capacity,
                    pending_ops: t.pending_ops.push(set_capacity_encoding(capacity)),
                    ..t
                },
            ),
        }
    }
}

/// Combine two optional eviction floors, keeping the lower.
pub fn combine_floor(a: Option<u64>, b: Option<u64>) -> (floor: Option<u64>)
    ensures
        floor == min_floor(a, b),
{
    match (a, b) {
        (Some(x), Some(y)) => Some(if x <= y { x } else { y }),
        (Some(x), None) => Some(x),
        (None, y) => y,
    }
}

fn floor_of_sections(sections: &Vec<SectionRefs>) -> (floor: Option<u64>)
    ensures
        floor == sections_floor(sections@),
{
    let mut floor: Option<u64> = None;
    let mut i: usize = 0;
    while i < sections.len()
        invariant
            i <= sections@.len(),
            floor == sections_floor(sections@.subrange(0, i as int)),
        decreases sections@.len() - i,
    {
        proof {
            let next = sections@.subrange(0, i + 1);
            assert(next.drop_last() =~= sections@.subrange(0, i as int));
        }
        floor = combine_floor(floor, sections[i].min_ref_abs_idx);
        i = i + 1;
    }
    assert(sections@.subrange(0, i as int) =~= sections@);
    floor
}

fn sections_blocking(sections: &Vec<SectionRefs>, krc: u64) -> (blocking: bool)
    ensures
        blocking == any_blocking(sections@, krc as nat),
{
    let mut i: usize = 0;
    while i < sections.len()
        invariant
            i <= sections@.len(),
            forall|k: int| 0 <= k < i ==> sections@[k].required_insert_count <= krc,
        decreases sections@.len() - i,
    {
        if sections[i].required_insert_count > krc {
            assert(sections@[i as int].required_insert_count > krc);
            return true;
        }
        i = i + 1;
    }
    false
}

impl EncoderDynamicTable {
    /// Whether `hash` is among the recently planned pairs.
    pub fn recently_seen(&self, hash: u32) -> (seen: bool)
        ensures
            seen == self.recent().slots().contains(hash),
    {
        self.recent_pairs.seen(hash)
    }

    /// Record the hash of a planned pair in the ring.
    pub fn remember_pair(&mut self, hash: u32)
        requires
            old(self).wf(),
        ensures
            final(self).wf(),
            final(self)@ == old(self)@,
            final(self).recent().slots() == old(self).recent().slots().update(old(self).recent().next_slot(), hash),
            final(self).recent().next_slot() == (old(self).recent().next_slot() + 1) % (old(self).recent().slots().len() as int),
    {
        self.recent_pairs.remember(hash);
    }

    /// The lowest absolute index pinned by an outstanding section.
    pub fn eviction_floor(&self) -> (floor: Option<u64>)
        ensures
            floor == pinned_floor(self@.outstanding),
    {
        let mut floor: Option<u64> = None;
        let mut i: usize = 0;
        while i < self.outstanding.len()
            invariant
                i <= self@.outstanding.len(),
                floor == pinned_floor(self@.outstanding.subrange(0, i as int)),
            decreases self@.outstanding.len() - i,
        {
            proof {
                let next = self@.outstanding.subrange(0, i + 1);
                assert(next.drop_last() =~= self@.outstanding.subrange(0, i as int));
                assert(next.last() == self.outstanding@[i as int]@);
            }
            let f = floor_of_sections(&self.outstanding[i].sections);
            floor = combine_floor(floor, f);
            i = i + 1;
        }
        assert(self@.outstanding.subrange(0, i as int) =~= self@.outstanding);
        floor
    }

    /// How many streams have a section waiting for an unacknowledged insert.
    pub fn currently_blocked_streams(&self) -> (count: usize)
        ensures
            count == blocked_count(self@.outstanding, self@.known_received_count),
    {
        let mut count: usize = 0;
        let mut i: usize = 0;
        while i < self.outstanding.len()
            invariant
                i <= self@.outstanding.len(),
                count <= i,
                count == blocked_count(self@.outstanding.subrange(0, i as int), self@.known_received_count),
            decreases self@.outstanding.len() - i,
        {
            proof {
                let next = self@.outstanding.subrange(0, i + 1);
                assert(next.drop_last() =~= self@.outstanding.subrange(0, i as int));
                assert(next.last() == self.outstanding@[i as int]@);
            }
            if sections_blocking(&self.outstanding[i].sections, self.known_received_count) {
                count = count + 1;
            }
            i = i + 1;
        }
        assert(self@.outstanding.subrange(0, i as int) =~= self@.outstanding);
        count
    }

    fn find_stream(&self, stream_id: u64) -> (pos: Option<usize>)
        requires
            self.wf(),
        ensures
            match pos {
                Some(i) => stream_position(self@.outstanding, stream_id) == Some(i as int) && i
                    < self@.outstanding.len(),
                None => stream_position(self@.outstanding, stream_id) is None,
            },
    {
        let mut i: usize = 0;
        while i < self.outstanding.len()
            invariant
                self.wf(),
                i <= self@.outstanding.len(),
                forall|k: int| 0 <= k < i ==> self@.outstanding[k].stream_id != stream_id,
            decreases self@.outstanding.len() - i,
        {
            assert(self@.outstanding[i as int] == self.outstanding@[i as int]@);
            if self.outstanding[i].stream_id == stream_id {
                proof {
                    let j = choose|j: int| 0 <= j < self@.outstanding.len() && self@.outstanding[j].stream_id == stream_id;
                    assert(j == i as int);
                }
                return Some(i);
            }
            i = i + 1;
        }
        None
    }

    /// The outstanding sections of `stream_id`, oldest first.
    pub fn outstanding_sections(&self, stream_id: u64) -> (sections: Vec<SectionRefs>)
        requires
            self.wf(),
        ensures
            match stream_position(self@.outstanding, stream_id) {
                Some(i) => sections@ == self@.outstanding[i].sections,
                None => sections@.len() == 0,
            },
    {
        let mut out: Vec<SectionRefs> = Vec::new();
        if let Some(i) = self.find_stream(stream_id) {
            let record = &self.outstanding[i];
            assert(record@ == self@.outstanding[i as int]);
            let mut k: usize = 0;
            while k < record.sections.len()
                invariant
                    k <= record.sections@.len(),
                    out@ == record.sections@.subrange(0, k as int),
                decreases record.sections@.len() - k,
            {
                out.push(record.sections[k]);
                k = k + 1;
                assert(out@ =~= record.sections@.subrange(0, k as int));
            }
            assert(record.sections@.subrange(0, k as int) =~= record.sections@);
        }
        out
    }

    /// Whether `stream_id` has a section waiting for an unacknowledged insert.
    pub fn is_stream_blocking(&self, stream_id: u64) -> (blocking: bool)
        requires
            self.wf(),
        ensures
            blocking == stream_blocking(self@, stream_id),
    {
        match self.find_stream(stream_id) {
            Some(i) => {
                assert(self@.outstanding[i as int] == self.outstanding@[i as int]@);
                sections_blocking(&self.outstanding[i].sections, self.known_received_count)
            },
            None => false,
        }
    }
}

proof fn lemma_pair_position_bounds(entries: Seq<EntryView>, name: EntryNameView, value: Seq<u8>, from: int)
    ensures
        pair_position(entries, name, value, from) matches Some(p) ==> 0 <= from <= p < entries.len()
            && entries[p].name == name && entries[p].value == value,
    decreases entries.len() - from,
{
    if !(from < 0 || from >= entries.len()) && !(entries[from].name == name && entries[from].value == value) {
        lemma_pair_position_bounds(entries, name, value, from + 1);
    }
}

proof fn lemma_name_position_bounds(entries: Seq<EntryView>, name: EntryNameView, from: int)
    ensures
        name_position(entries, name, from) matches Some(p) ==> 0 <= from <= p < entries.len()
            && entries[p].name == name,
    decreases entries.len() - from,
{
    if !(from < 0 || from >= entries.len()) && entries[from].name != name {
        lemma_name_position_bounds(entries, name, from + 1);
    }
}

/// Eviction under a pin keeps every entry at or above the pin, unchanged.
pub proof fn lemma_pinned_entry_survives(t: EncoderTableView, target: nat, pin: u64, abs_idx: int)
    requires
        !eviction_blocked(t, target, Some(pin)),
        pin <= abs_idx,
        t.entries.len() <= t.insert_count,
    ensures
        entry_at(EncoderTableView { entries: evict_to(t.entries, target), ..t }, abs_idx) == entry_at(t, abs_idx),
{
    lemma_evict_to(t.entries, target);
}

impl EncoderDynamicTable {
    fn kept_after_eviction(&self, target: usize) -> (kept: usize)
        requires
            self.wf(),
        ensures
            kept == evict_to(self@.entries, target as nat).len(),
    {
        let mut kept = self.entries.len();
        let mut size = self.current_size;
        assert(self@.entries.subrange(0, kept as int) =~= self@.entries);
        while size > target
            invariant
                self.wf(),
                kept <= self@.entries.len(),
                size == total_size(self@.entries.subrange(0, kept as int)),
                evict_to(self@.entries, target as nat) == evict_to(
                    self@.entries.subrange(0, kept as int),
                    target as nat,
                ),
            decreases kept,
        {
            proof {
                if kept == 0 {
                    assert(self@.entries.subrange(0, 0) =~= Seq::<EntryView>::empty());
                }
                lemma_entry_size_in_total(self@.entries, kept - 1);
                let sub = self@.entries.subrange(0, kept as int);
                assert(sub.drop_last() =~= self@.entries.subrange(0, kept - 1));
                assert(total_size(sub) <= total_size(self@.entries)) by {
                    lemma_total_size_prefix(self@.entries, kept as int);
                }
            }
            let e = &self.entries[kept - 1];
            assert(e@ == self@.entries[kept - 1]);
            let s = e.name.len() + e.value.len() + 32;
            size = size - s;
            kept = kept - 1;
        }
        kept
    }

    fn truncate_entries(&mut self, kept: usize)
        requires
            old(self).wf(),
            kept <= old(self)@.entries.len(),
        ensures
            final(self)@ == (EncoderTableView { entries: old(self)@.entries.subrange(0, kept as int), ..old(self)@ }),
            final(self).current_size == total_size(final(self)@.entries),
            final(self).recent() == old(self).recent(),
            final(self).recent_pairs.wf(),
    {
        let ghost start = self@;
        assert(start.entries.subrange(0, start.entries.len() as int) =~= start.entries);
        while self.entries.len() > kept
            invariant
                kept <= self@.entries.len() <= start.entries.len(),
                self@.entries == start.entries.subrange(0, self@.entries.len() as int),
                self.current_size == total_size(self@.entries),
                self@ == (EncoderTableView { entries: self@.entries, ..start }),
                self.recent_pairs == old(self).recent_pairs,
                self.recent_pairs.wf(),
            decreases self@.entries.len(),
        {
            let ghost before = self.entries@;
            proof {
                assert(self@.entries.drop_last() =~= before.drop_last().map_values(
                    |e: DynamicEntry| e@,
                ));
                assert(self@.entries.drop_last() =~= start.entries.subrange(0, self@.entries.len() - 1));
            }
            let e = self.entries.pop_back().unwrap();
            proof {
                assert(self@.entries =~= before.drop_last().map_values(|e: DynamicEntry| e@));
                assert(e@ == before.map_values(|e: DynamicEntry| e@).last());
            }
            let size = e.name.len() + e.value.len() + 32;
            self.current_size = self.current_size - size;
        }
    }

    fn evict_with_floor(&mut self, target: usize, floor: Option<u64>) -> (result: Result<(), H3ErrorCode>)
        requires
            old(self).wf(),
        ensures
            final(self).wf(),
            final(self).recent() == old(self).recent(),
            match evicted(old(self)@, target as nat, floor) {
                Ok(kept) => result is Ok && final(self)@ == (EncoderTableView { entries: kept, ..old(self)@ }),
                Err(e) => result == Err::<(), H3ErrorCode>(e) && final(self)@ == old(self)@,
            },
    {
        let kept = self.kept_after_eviction(target);
        proof {
            lemma_evict_to(self@.entries, target as nat);
            lemma_total_size_prefix(self@.entries, kept as int);
        }
        if let Some(pin) = floor {
            if kept < self.entries.len() && self.insert_count - 1 - kept as u64 >= pin {
                return Err(H3ErrorCode::QpackEncoderStreamError);
            }
        }
        self.truncate_entries(kept);
        Ok(())
    }

    fn make_room_for(&mut self, size: usize, extra: Option<u64>) -> (result: Result<(), H3ErrorCode>)
        requires
            old(self).wf(),
        ensures
            final(self).wf(),
            final(self).recent() == old(self).recent(),
            match make_room(old(self)@, size as nat, extra) {
                Ok(kept) => result is Ok && final(self)@ == (EncoderTableView { entries: kept, ..old(self)@ }),
                Err(e) => result == Err::<(), H3ErrorCode>(e) && final(self)@ == old(self)@,
            },
    {
        if size > self.capacity {
            return Err(H3ErrorCode::QpackEncoderStreamError);
        }
        let floor = combine_floor(self.eviction_floor(), extra);
        self.evict_with_floor(self.capacity - size, floor)
    }

    fn insert_entry(&mut self, entry: DynamicEntry, size: usize, wire: Vec<u8>) -> (abs_idx: u64)
        requires
            old(self).wf(),
            old(self)@.insert_count < u64::MAX,
            size == entry_size(entry@),
            total_size(old(self)@.entries) + size <= old(self)@.capacity,
        ensures
            final(self).wf(),
            final(self).recent() == old(self).recent(),
            abs_idx == old(self)@.insert_count,
            final(self)@ == with_new_entry(old(self)@, old(self)@.entries, entry@, wire@),
    {
        let abs_idx = self.insert_count;
        let ghost before = self.entries@;
        let ghost ops = self.pending_ops@;
        let ghost e = entry@;
        self.entries.push_front(entry);
        proof {
            assert(self@.entries =~= seq![e] + before.map_values(|d: DynamicEntry| d@));
            lemma_total_size_push_front(e, before.map_values(|d: DynamicEntry| d@));
        }
        self.current_size = self.current_size + size;
        self.insert_count = self.insert_count + 1;
        self.pending_ops.push(wire);
        proof {
            assert(self@.pending_ops =~= ops.map_values(|op: Vec<u8>| op@).push(wire@));
        }
        abs_idx
    }

    /// Duplicate the live entry at `abs_idx` to the head of the table (a Duplicate
    /// instruction); the source stays pinned while room is made.  Returns the new entry's
    /// absolute index.
    pub fn duplicate(&mut self, abs_idx: u64, extra_floor: Option<u64>) -> (result: Result<u64, H3ErrorCode>)
        requires
            old(self).wf(),
            old(self)@.insert_count < u64::MAX,
            entry_at(old(self)@, abs_idx as int) is Some,
        ensures
            final(self)@.max_capacity == old(self)@.max_capacity,
            final(self).wf(),
            final(self).recent() == old(self).recent(),
            match table_duplicate(old(self)@, abs_idx as nat, extra_floor) {
                Ok((t, abs)) => result == Ok::<u64, H3ErrorCode>(abs as u64) && final(self)@ == t,
                Err(e) => result == Err::<u64, H3ErrorCode>(e) && final(self)@ == old(self)@,
            },
    {
        let ghost t = self@;
        let len = self.entries.len();
        let pos = self.insert_count - 1 - abs_idx;
        assert(pos < len);
        assert(self@.entries[pos as int] == self.entries@[pos as int]@);
        proof {
            lemma_entry_size_in_total(self@.entries, pos as int);
            assert(total_size(self@.entries) == self.current_size);
        }
        let size = {
            let e = &self.entries[pos as usize];
            assert(e@ == self@.entries[pos as int]);
            assert(entry_size(e@) <= self.current_size);
            e.name.len() + e.value.len() + 32
        };
        let wire = encode_duplicate(pos as usize);
        let floor = combine_floor(Some(abs_idx), extra_floor);
        match self.make_room_for(size, floor) {
            Err(e) => {
                return Err(e);
            },
            Ok(()) => {},
        }
        proof {
            let target = (t.capacity - size) as nat;
            let pin = min_floor(pinned_floor(t.outstanding), floor)->0;
            lemma_pinned_entry_survives(t, target, pin, abs_idx as int);
            lemma_evict_to(t.entries, target);
        }
        assert(self@.entries[pos as int] == self.entries@[pos as int]@);
        let entry = {
            let e = &self.entries[pos as usize];
            DynamicEntry { name: e.name.clone(), value: vstd::slice::slice_to_vec(e.value.as_slice()) }
        };
        Ok(self.insert_entry(entry, size, wire))
    }

    /// Insert `(name, value)`, picking the smallest instruction from the table's contents
    /// (see [`table_insert_pair`]).  `extra_floor` pins one more absolute index for this
    /// insert.  Returns the new entry's absolute index.
    pub fn insert(&mut self, name: &EntryName, value: &[u8], extra_floor: Option<u64>) -> (result: Result<u64, H3ErrorCode>)
        requires
            old(self).wf(),
            old(self)@.insert_count < u64::MAX,
        ensures
            final(self)@.max_capacity == old(self)@.max_capacity,
            final(self).wf(),
            final(self).recent() == old(self).recent(),
            match table_insert_pair(old(self)@, name@, value@, extra_floor) {
                Ok((t, abs)) => result == Ok::<u64, H3ErrorCode>(abs as u64) && final(self)@ == t,
                Err(e) => result == Err::<u64, H3ErrorCode>(e) && final(self)@ == old(self)@,
            },
    {
        proof {
            lemma_pair_position_bounds(self@.entries, name@, value@, 0);
            lemma_name_position_bounds(self@.entries, name@, 0);
        }
        if let Some(abs_idx) = self.find_pair(name, value) {
            return self.duplicate(abs_idx, extra_floor);
        }
        let size = match name.len().checked_add(value.len()) {
            Some(n) => n.checked_add(32),
            None => None,
        };
        let size = match size {
            Some(s) => s,
            None => {
                return Err(H3ErrorCode::QpackEncoderStreamError);
            },
        };
        let ghost expected = insert_instruction(self@, name@, value@);
        let (wire, variant_floor): (Vec<u8>, Option<u64>) = match first_match(name) {
            Some(si) => {
                let w = encode_insert_with_name_ref(si as usize, true, value);
                assert(w@ == expected.0);
                (w, None)
            },
            None => match self.find_name(name) {
                Some(name_abs) => {
                    proof {
                        let pos = name_position(self@.entries, name@, 0)->0;
                        assert(name_abs == self@.insert_count - 1 - pos);
                    }
                    let len = self.entries.len();
                    let rel = self.insert_count - 1 - name_abs;
                    assert(rel < len);
                    let w = encode_insert_with_name_ref(rel as usize, false, value);
                    assert(w@ == expected.0);
                    (w, Some(name_abs))
                },
                None => {
                    let w = encode_insert_with_literal_name(name.as_bytes(), value);
                    assert(w@ == expected.0);
                    (w, None)
                },
            },
        };
        assert(wire@ == expected.0 && variant_floor == expected.1);
        match self.make_room_for(size, combine_floor(variant_floor, extra_floor)) {
            Err(e) => {
                return Err(e);
            },
            Ok(()) => {},
        }
        proof {
            lemma_evict_to(old(self)@.entries, (old(self)@.capacity - size) as nat);
        }
        let entry = DynamicEntry { name: name.clone(), value: vstd::slice::slice_to_vec(value) };
        assert(entry@ == EntryView { name: name@, value: value@ });
        Ok(self.insert_entry(entry, size, wire))
    }

    /// Set the working capacity and queue a Set Dynamic Table Capacity instruction,
    /// evicting the oldest entries that no longer fit.
    pub fn set_capacity(&mut self, new_capacity: usize) -> (result: Result<(), H3ErrorCode>)
        requires
            old(self).wf(),
        ensures
            final(self).wf(),
            final(self).recent() == old(self).recent(),
            match table_set_capacity(old(self)@, new_capacity as nat) {
                Ok(t) => result is Ok && final(self)@ == t,
                Err(e) => result == Err::<(), H3ErrorCode>(e) && final(self)@ == old(self)@,
            },
    {
        if new_capacity > self.max_capacity {
            return Err(H3ErrorCode::QpackEncoderStreamError);
        }
        let floor = self.eviction_floor();
        match self.evict_with_floor(new_capacity, floor) {
            Err(e) => {
                return Err(e);
            },
            Ok(()) => {},
        }
        proof {
            lemma_evict_to(old(self)@.entries, new_capacity as nat);
        }
        let ghost ops = self.pending_ops@;
        self.capacity = new_capacity;
        self.pending_ops.push(encode_set_capacity(new_capacity));
        proof {
            assert(self@.pending_ops =~= ops.map_values(|op: Vec<u8>| op@).push(
                set_capacity_encoding(new_capacity as nat),
            ));
        }
        Ok(())
    }
}

/// A Section Acknowledgement for `stream_id`: refused when no section is outstanding on
/// it; else its oldest section is retired (and the stream's record with it when it was
/// the last) and the Known Received Count rises to that section's Required Insert Count.
pub open spec fn table_section_ack(t: EncoderTableView, stream_id: u64) -> Result<EncoderTableView, H3ErrorCode> {
    match stream_position(t.outstanding, stream_id) {
        None => Err(H3ErrorCode::QpackDecoderStreamError),
        Some(i) => {
            let sections = t.outstanding[i].sections;
            let ric = sections[0].required_insert_count;
            let rest = sections.drop_first();
            Ok(
                EncoderTableView {
                    outstanding: if rest.len() == 0 {
                        t.outstanding.remove(i)
                    } else {
                        t.outstanding.update(i, StreamSectionsView { stream_id, sections: rest })
                    },
                    known_received_count: if ric > t.known_received_count {
                        ric as nat
                    } else {
                        t.known_received_count
                    },
                    ..t
                },
            )
        },
    }
}

/// A Stream Cancellation: the stream's outstanding sections are dropped; the Known
/// Received Count stays.
pub open spec fn table_stream_cancel(t: EncoderTableView, stream_id: u64) -> EncoderTableView {
    match stream_position(t.outstanding, stream_id) {
        None => t,
        Some(i) => EncoderTableView { outstanding: t.outstanding.remove(i), ..t },
    }
}

/// An Insert Count Increment: refused when zero or when it would acknowledge inserts that
/// never happened.
pub open spec fn table_insert_count_increment(t: EncoderTableView, increment: u64) -> Result<EncoderTableView, H3ErrorCode> {
    if increment == 0 || t.known_received_count + increment > t.insert_count {
        Err(H3ErrorCode::QpackDecoderStreamError)
    } else {
        Ok(EncoderTableView { known_received_count: (t.known_received_count + increment) as nat, ..t })
    }
}

/// A header section sent on `stream_id` with these references joins the stream's
/// outstanding sections.
pub open spec fn table_register_section(t: EncoderTableView, stream_id: u64, refs: SectionRefs) -> EncoderTableView {
    match stream_position(t.outstanding, stream_id) {
        Some(i) => EncoderTableView {
            outstanding: t.outstanding.update(
                i,
                StreamSectionsView { stream_id, sections: t.outstanding[i].sections.push(refs) },
            ),
            ..t
        },
        None => EncoderTableView {
            outstanding: t.outstanding.push(StreamSectionsView { stream_id, sections: seq![refs] }),
            ..t
        },
    }
}

/// A `u64` setting as a `usize`, saturating.
pub open spec fn setting_as_usize(value: Option<u64>) -> nat {
    match value {
        Some(v) => if v > usize::MAX {
            usize::MAX as nat
        } else {
            v as nat
        },
        None => 0,
    }
}

/// The capacity both sides allow: ours, or the peer's advertised maximum when lower.
pub open spec fn chosen_capacity(our_max_capacity: nat, peer_max_capacity: Option<u64>) -> nat {
    let peer = setting_as_usize(peer_max_capacity);
    if our_max_capacity <= peer {
        our_max_capacity
    } else {
        peer
    }
}

/// The negotiated capacity is the smaller of ours and the peer's advertised maximum (a
/// missing setting advertises zero): it exceeds neither, and it is one of them.
pub proof fn lemma_chosen_capacity_is_minimum(our_max_capacity: nat, peer_max_capacity: Option<u64>)
    ensures
        chosen_capacity(our_max_capacity, peer_max_capacity) <= our_max_capacity,
        chosen_capacity(our_max_capacity, peer_max_capacity) <= setting_as_usize(peer_max_capacity),
        chosen_capacity(our_max_capacity, peer_max_capacity) == our_max_capacity || chosen_capacity(
            our_max_capacity,
            peer_max_capacity,
        ) == setting_as_usize(peer_max_capacity),
        peer_max_capacity is None ==> chosen_capacity(our_max_capacity, peer_max_capacity) == 0,
        peer_max_capacity matches Some(v) ==> chosen_capacity(our_max_capacity, peer_max_capacity) <= v,
        peer_max_capacity matches Some(v) && our_max_capacity <= v && our_max_capacity <= usize::MAX
            ==> chosen_capacity(our_max_capacity, peer_max_capacity) == our_max_capacity,
        peer_max_capacity is Some && peer_max_capacity->Some_0 < our_max_capacity && our_max_capacity
            <= usize::MAX ==> chosen_capacity(our_max_capacity, peer_max_capacity)
            == peer_max_capacity->Some_0,
{
}

/// A candidate entry for priming the table: a full pair, or a name alone.
#[derive(Debug)]
pub struct PrimingCandidate {
    pub name: EntryName,
    pub value: Option<Vec<u8>>,
}

/// The pair a candidate inserts: a name alone inserts an empty value.
pub open spec fn candidate_pair(c: PrimingCandidate) -> (EntryNameView, Seq<u8>) {
    (
        c.name@,
        match c.value {
            Some(v) => v@,
            None => Seq::empty(),
        },
    )
}

/// Inserting the candidates in order until one is refused; each successful insert adds
/// its entry's size to the primed bytes, saturating.
#[verifier::opaque]
pub open spec fn prime_entries(t: EncoderTableView, candidates: Seq<(EntryNameView, Seq<u8>)>) -> EncoderTableView
    decreases candidates.len(),
{
    if candidates.len() == 0 {
        t
    } else {
        let entry = EntryView { name: candidates[0].0, value: candidates[0].1 };
        match table_insert_pair(t, candidates[0].0, candidates[0].1, None) {
            Ok((t2, _)) => prime_entries(
                EncoderTableView {
                    primed_bytes: if t2.primed_bytes + entry_size(entry) > usize::MAX {
                        usize::MAX as nat
                    } else {
                        t2.primed_bytes + entry_size(entry)
                    },
                    ..t2
                },
                candidates.drop_first(),
            ),
            Err(_) => t,
        }
    }
}

/// The primed bytes after one more successful priming insert, saturating.
pub open spec fn add_primed(t: EncoderTableView, entry: EntryView) -> EncoderTableView {
    EncoderTableView {
        primed_bytes: if t.primed_bytes + entry_size(entry) > usize::MAX {
            usize::MAX as nat
        } else {
            t.primed_bytes + entry_size(entry)
        },
        ..t
    }
}

proof fn lemma_prime_step(t: EncoderTableView, candidates: Seq<(EntryNameView, Seq<u8>)>)
    requires
        candidates.len() > 0,
    ensures
        prime_entries(t, candidates) == match table_insert_pair(t, candidates[0].0, candidates[0].1, None) {
            Ok((t2, _)) => prime_entries(
                add_primed(t2, EntryView { name: candidates[0].0, value: candidates[0].1 }),
                candidates.drop_first(),
            ),
            Err(_) => t,
        },
{
    reveal(prime_entries);
}

proof fn lemma_prime_done(t: EncoderTableView)
    ensures
        prime_entries(t, Seq::empty()) == t,
{
    reveal(prime_entries);
}

/// Initialising from the peer's settings: the negotiated capacity becomes the maximum and
/// the working capacity (announced by a Set Dynamic Table Capacity when non-zero), the
/// peer's blocked-streams limit is recorded, and with a non-zero capacity the candidates
/// are inserted.
pub open spec fn table_initialize(
    t: EncoderTableView,
    chosen: nat,
    max_blocked_streams: nat,
    candidates: Seq<(EntryNameView, Seq<u8>)>,
) -> EncoderTableView {
    let t1 = EncoderTableView { max_capacity: chosen, max_blocked_streams, ..t };
    if chosen > 0 {
        prime_entries(
            EncoderTableView {
                capacity: chosen,
                pending_ops: t1.pending_ops.push(set_capacity_encoding(chosen)),
                ..t1
            },
            candidates,
        )
    } else {
        t1
    }
}

/// A `u64` setting as a `usize`, saturating.
pub fn setting_to_usize(value: Option<u64>) -> (n: usize)
    ensures
        n == setting_as_usize(value),
{
    match value {
        Some(v) => if v > usize::MAX as u64 {
            usize::MAX
        } else {
            v as usize
        },
        None => 0,
    }
}

/// The capacity both sides allow.
pub fn negotiated_capacity(our_max_capacity: usize, peer_max_capacity: Option<u64>) -> (chosen: usize)
    ensures
        chosen == chosen_capacity(our_max_capacity as nat, peer_max_capacity),
{
    let peer = setting_to_usize(peer_max_capacity);
    if our_max_capacity <= peer {
        our_max_capacity
    } else {
        peer
    }
}

/// The byte budget handed to the priming step: the negotiated capacity, saturating at
/// `u32::MAX`.
pub fn priming_budget(chosen: usize) -> (budget: u32)
    ensures
        budget == if chosen > u32::MAX { u32::MAX as nat } else { chosen as nat },
{
    if chosen > u32::MAX as usize {
        u32::MAX
    } else {
        chosen as u32
    }
}

/// What a decoder-stream instruction does to the encoder's table.
pub open spec fn decoder_instruction_effect(t: EncoderTableView, instruction: DecoderInstruction) -> Result<EncoderTableView, H3ErrorCode> {
    match instruction {
        DecoderInstruction::SectionAcknowledgement { stream_id } => table_section_ack(t, stream_id),
        DecoderInstruction::StreamCancellation { stream_id } => Ok(table_stream_cancel(t, stream_id)),
        DecoderInstruction::InsertCountIncrement { increment } => table_insert_count_increment(t, increment),
    }
}

impl EncoderDynamicTable {
    /// Record a Section Acknowledgement from the peer's decoder stream.
    pub fn on_section_ack(&mut self, stream_id: u64) -> (result: Result<(), H3ErrorCode>)
        requires
            old(self).wf(),
        ensures
            final(self).wf(),
            final(self).recent() == old(self).recent(),
            match table_section_ack(old(self)@, stream_id) {
                Ok(t) => result is Ok && final(self)@ == t,
                Err(e) => result == Err::<(), H3ErrorCode>(e) && final(self)@ == old(self)@,
            },
    {
        let i = match self.find_stream(stream_id) {
            Some(i) => i,
            None => {
                return Err(H3ErrorCode::QpackDecoderStreamError);
            },
        };
        let ghost t = self@;
        let ghost streams = self.outstanding@;
        let mut record = self.outstanding.remove(i);
        assert(record@ == t.outstanding[i as int]);
        let section = record.sections.remove(0);
        if record.sections.len() == 0 {
            proof {
                assert(self.outstanding@ == streams.remove(i as int));
                assert(self@.outstanding =~= t.outstanding.remove(i as int));
            }
        } else {
            self.outstanding.insert(i, record);
            proof {
                assert(self@.outstanding =~= t.outstanding.update(
                    i as int,
                    StreamSectionsView { stream_id, sections: t.outstanding[i as int].sections.drop_first() },
                ));
            }
        }
        if section.required_insert_count > self.known_received_count {
            self.known_received_count = section.required_insert_count;
        }
        Ok(())
    }

    /// Record a Stream Cancellation from the peer's decoder stream.
    pub fn on_stream_cancel(&mut self, stream_id: u64)
        requires
            old(self).wf(),
        ensures
            final(self).wf(),
            final(self).recent() == old(self).recent(),
            final(self)@ == table_stream_cancel(old(self)@, stream_id),
    {
        if let Some(i) = self.find_stream(stream_id) {
            let ghost t = self@;
            let _ = self.outstanding.remove(i);
            assert(self@.outstanding =~= t.outstanding.remove(i as int));
        }
    }

    /// Record an Insert Count Increment from the peer's decoder stream.
    pub fn on_insert_count_increment(&mut self, increment: u64) -> (result: Result<(), H3ErrorCode>)
        requires
            old(self).wf(),
        ensures
            final(self).wf(),
            final(self).recent() == old(self).recent(),
            match table_insert_count_increment(old(self)@, increment) {
                Ok(t) => result is Ok && final(self)@ == t,
                Err(e) => result == Err::<(), H3ErrorCode>(e) && final(self)@ == old(self)@,
            },
    {
        if increment == 0 {
            return Err(H3ErrorCode::QpackDecoderStreamError);
        }
        let new_value = match self.known_received_count.checked_add(increment) {
            Some(v) => v,
            None => {
                return Err(H3ErrorCode::QpackDecoderStreamError);
            },
        };
        if new_value > self.insert_count {
            return Err(H3ErrorCode::QpackDecoderStreamError);
        }
        self.known_received_count = new_value;
        Ok(())
    }

    /// Apply an instruction from the peer's decoder stream: a Section Acknowledgement, a
    /// Stream Cancellation or an Insert Count Increment.
    pub fn apply_decoder_instruction(&mut self, instruction: DecoderInstruction) -> (result: Result<(), H3ErrorCode>)
        requires
            old(self).wf(),
        ensures
            final(self).wf(),
            final(self).recent() == old(self).recent(),
            match decoder_instruction_effect(old(self)@, instruction) {
                Ok(t) => result is Ok && final(self)@ == t,
                Err(e) => result == Err::<(), H3ErrorCode>(e) && final(self)@ == old(self)@,
            },
    {
        match instruction {
            DecoderInstruction::SectionAcknowledgement { stream_id } => self.on_section_ack(stream_id),
            DecoderInstruction::StreamCancellation { stream_id } => {
                self.on_stream_cancel(stream_id);
                Ok(())
            },
            DecoderInstruction::InsertCountIncrement { increment } => self.on_insert_count_increment(increment),
        }
    }

    /// Record a header section sent on `stream_id` that holds these references.
    pub fn register_outstanding_section(&mut self, stream_id: u64, refs: SectionRefs)
        requires
            old(self).wf(),
        ensures
            final(self).wf(),
            final(self).recent() == old(self).recent(),
            final(self)@ == table_register_section(old(self)@, stream_id, refs),
    {
        let ghost t = self@;
        match self.find_stream(stream_id) {
            Some(i) => {
                let mut record = self.outstanding.remove(i);
                assert(record@ == t.outstanding[i as int]);
                record.sections.push(refs);
                self.outstanding.insert(i, record);
                assert(self@.outstanding =~= t.outstanding.update(
                    i as int,
                    StreamSectionsView { stream_id, sections: t.outstanding[i as int].sections.push(refs) },
                ));
            },
            None => {
                let mut sections: Vec<SectionRefs> = Vec::new();
                sections.push(refs);
                self.outstanding.push(StreamSections { stream_id, sections });
                proof {
                    assert(sections@ =~= seq![refs]);
                    assert(self@.outstanding =~= t.outstanding.push(
                        StreamSectionsView { stream_id, sections: seq![refs] },
                    ));
                    assert forall|k: int| 0 <= k < t.outstanding.len() implies t.outstanding[k].stream_id != stream_id by {
                        if t.outstanding[k].stream_id == stream_id {
                            assert(stream_position(t.outstanding, stream_id) is Some);
                        }
                    }
                }
            },
        }
    }

    /// Mark the table failed: the encoder or decoder stream broke.
    pub fn fail(&mut self, code: H3ErrorCode)
        requires
            old(self).wf(),
        ensures
            final(self).wf(),
            final(self).recent() == old(self).recent(),
            final(self)@ == (EncoderTableView { failed: Some(code), ..old(self)@ }),
    {
        self.failed = Some(code);
    }

    /// The error the table failed with, if it did.
    pub fn failed(&self) -> (code: Option<H3ErrorCode>)
        ensures
            code == self@.failed,
    {
        self.failed
    }

    /// Take every queued encoder-stream instruction, oldest first.
    pub fn drain_pending_ops(&mut self) -> (ops: Vec<Vec<u8>>)
        requires
            old(self).wf(),
        ensures
            final(self).wf(),
            final(self).recent() == old(self).recent(),
            ops@.map_values(|op: Vec<u8>| op@) == old(self)@.pending_ops,
            final(self)@ == (EncoderTableView { pending_ops: Seq::empty(), ..old(self)@ }),
    {
        let mut ops: Vec<Vec<u8>> = Vec::new();
        std::mem::swap(&mut ops, &mut self.pending_ops);
        assert(self@.pending_ops =~= Seq::<Seq<u8>>::empty());
        ops
    }

    /// Initialise from the peer's settings (once, on a fresh table): negotiate the
    /// capacity, record the peer's blocked-streams limit, announce the capacity, and insert
    /// the priming candidates while they fit.
    #[verifier::rlimit(40)]
    pub fn initialize_from_peer_settings(
        &mut self,
        our_max_capacity: usize,
        peer_max_capacity: Option<u64>,
        peer_blocked_streams: Option<u64>,
        candidates: &Vec<PrimingCandidate>,
    )
        requires
            old(self).wf(),
            old(self)@.max_capacity == 0,
            old(self)@.insert_count == 0,
        ensures
            final(self).wf(),
            final(self).recent() == old(self).recent(),
            final(self)@ == table_initialize(
                old(self)@,
                chosen_capacity(our_max_capacity as nat, peer_max_capacity),
                setting_as_usize(peer_blocked_streams),
                candidates@.map_values(|c: PrimingCandidate| candidate_pair(c)),
            ),
    {
        let chosen = negotiated_capacity(our_max_capacity, peer_max_capacity);
        let max_blocked_streams = setting_to_usize(peer_blocked_streams);
        self.max_capacity = chosen;
        self.max_blocked_streams = max_blocked_streams;
        if chosen == 0 {
            return;
        }
        let ghost t1 = self@;
        assert(self@.entries.len() == 0);
        assert(evict_to(self@.entries, chosen as nat) == self@.entries);
        assert(!eviction_blocked(t1, chosen as nat, pinned_floor(t1.outstanding)));
        let _ = self.set_capacity(chosen);
        assert(self@ == (EncoderTableView {
            capacity: chosen as nat,
            pending_ops: t1.pending_ops.push(set_capacity_encoding(chosen as nat)),
            ..t1
        }));
        let ghost cands = candidates@.map_values(|c: PrimingCandidate| candidate_pair(c));
        assert(cands.skip(0) =~= cands);
        let mut i: usize = 0;
        while i < candidates.len()
            invariant
                self.wf(),
                self.recent() == old(self).recent(),
                i <= candidates@.len(),
                self@.insert_count <= i,
                chosen == chosen_capacity(our_max_capacity as nat, peer_max_capacity),
                max_blocked_streams == setting_as_usize(peer_blocked_streams),
                cands == candidates@.map_values(|c: PrimingCandidate| candidate_pair(c)),
                prime_entries(self@, cands.skip(i as int)) == table_initialize(
                    old(self)@,
                    chosen as nat,
                    max_blocked_streams as nat,
                    cands,
                ),
            decreases candidates@.len() - i,
        {
            let candidate = &candidates[i];
            let ghost pair = candidate_pair(*candidate);
            let ghost before = self@;
            proof {
                assert(cands.skip(i as int)[0] == pair);
                assert(cands.skip(i as int).drop_first() =~= cands.skip(i + 1));
                lemma_prime_step(before, cands.skip(i as int));
            }
            let empty: Vec<u8> = Vec::new();
            let value: &[u8] = match &candidate.value {
                Some(v) => v.as_slice(),
                None => empty.as_slice(),
            };
            assert(value@ == pair.1);
            let size = match candidate.name.len().checked_add(value.len()) {
                Some(n) => n.checked_add(32),
                None => None,
            };
            match self.insert(&candidate.name, value, None) {
                Ok(_) => {
                    let size = match size {
                        Some(s) => s,
                        None => usize::MAX,
                    };
                    self.primed_bytes = self.primed_bytes.saturating_add(size);
                },
                Err(_) => {
                    return;
                },
            }
            i = i + 1;
        }
        assert(cands.skip(i as int) =~= Seq::<(EntryNameView, Seq<u8>)>::empty());
        proof {
            lemma_prime_done(self@);
        }
    }
}

/// A full match is a live entry holding the pair.
pub proof fn lemma_full_match_live(t: EncoderTableView, name: EntryNameView, value: Seq<u8>)
    requires
        t.entries.len() <= t.insert_count,
    ensures
        full_match(t, name, value) matches Some(a) ==> a < t.insert_count && entry_at(t, a as int) == Some(
            EntryView { name, value },
        ),
        name_match(t, name) matches Some(a) ==> a < t.insert_count && entry_at(t, a as int) is Some
            && entry_at(t, a as int)->0.name == name,
{
    lemma_pair_position_bounds(t.entries, name, value, 0);
    lemma_name_position_bounds(t.entries, name, 0);
}

/// Whether the floors in force for an operation (the outstanding sections' pin and an
/// extra one) protect `abs_idx`.
pub open spec fn protected(t: EncoderTableView, extra: Option<u64>, abs_idx: int) -> bool {
    min_floor(pinned_floor(t.outstanding), extra) matches Some(f) && f <= abs_idx
}

proof fn lemma_min_floor_lower(a: Option<u64>, b: Option<u64>, c: Option<u64>, abs_idx: int)
    requires
        min_floor(a, c) matches Some(f) && f <= abs_idx,
    ensures
        min_floor(a, min_floor(b, c)) matches Some(g) && g <= abs_idx,
{
}

proof fn lemma_new_entry_keeps(t: EncoderTableView, target: nat, pin: u64, entry: EntryView, wire: Seq<u8>, abs_idx: int)
    requires
        !eviction_blocked(t, target, Some(pin)),
        pin <= abs_idx,
        abs_idx < t.insert_count,
        t.entries.len() <= t.insert_count,
    ensures
        entry_at(with_new_entry(t, evict_to(t.entries, target), entry, wire), abs_idx) == entry_at(t, abs_idx),
{
    lemma_evict_to(t.entries, target);
    let kept = evict_to(t.entries, target);
    let t2 = with_new_entry(t, kept, entry, wire);
    let pos = t.insert_count - 1 - abs_idx;
    if 0 <= pos < t.entries.len() {
        assert(t2.entries[pos + 1] == kept[pos]);
    }
}

/// An insert that succeeds makes the pair readable at the absolute index it returns, the
/// next one in sequence.
pub proof fn lemma_insert_then_read(t: EncoderTableView, name: EntryNameView, value: Seq<u8>, extra: Option<u64>)
    requires
        encoder_table_wf(t),
    ensures
        table_insert_pair(t, name, value, extra) matches Ok((t2, abs_idx)) ==> abs_idx == t.insert_count
            && t2.insert_count == t.insert_count + 1 && entry_at(t2, abs_idx as int) == Some(
            EntryView { name, value },
        ),
{
    lemma_pair_position_bounds(t.entries, name, value, 0);
}

/// An insert never evicts a live entry protected by the floors in force: the
/// outstanding sections' pin and the caller's extra floor.
pub proof fn lemma_insert_keeps_protected(
    t: EncoderTableView,
    name: EntryNameView,
    value: Seq<u8>,
    extra: Option<u64>,
    abs_idx: int,
)
    requires
        encoder_table_wf(t),
        protected(t, extra, abs_idx),
        entry_at(t, abs_idx) is Some,
    ensures
        table_insert_pair(t, name, value, extra) matches Ok((t2, _)) ==> entry_at(t2, abs_idx) == entry_at(t, abs_idx),
{
    lemma_pair_position_bounds(t.entries, name, value, 0);
    if let Ok((t2, _)) = table_insert_pair(t, name, value, extra) {
        let pinned = pinned_floor(t.outstanding);
        match full_match(t, name, value) {
            Some(dup) => {
                let e = entry_at(t, dup as int)->0;
                let floor = min_floor(pinned, min_floor(Some(dup as u64), extra));
                lemma_min_floor_lower(pinned, Some(dup as u64), extra, abs_idx);
                lemma_new_entry_keeps(
                    t,
                    (t.capacity - entry_size(e)) as nat,
                    floor->0,
                    e,
                    duplicate_encoding((t.insert_count - 1 - dup) as nat),
                    abs_idx,
                );
            },
            None => {
                let entry = EntryView { name, value };
                let (wire, variant) = insert_instruction(t, name, value);
                let floor = min_floor(pinned, min_floor(variant, extra));
                lemma_min_floor_lower(pinned, variant, extra, abs_idx);
                lemma_new_entry_keeps(t, (t.capacity - entry_size(entry)) as nat, floor->0, entry, wire, abs_idx);
            },
        }
    }
}

/// Changing the capacity never evicts an entry an outstanding section pins.
pub proof fn lemma_set_capacity_keeps_pinned(t: EncoderTableView, capacity: nat, abs_idx: int)
    requires
        encoder_table_wf(t),
        protected(t, None, abs_idx),
    ensures
        table_set_capacity(t, capacity) matches Ok(t2) ==> entry_at(t2, abs_idx) == entry_at(t, abs_idx),
{
    if let Ok(t2) = table_set_capacity(t, capacity) {
        lemma_pinned_entry_survives(t, capacity, pinned_floor(t.outstanding)->0, abs_idx);
    }
}

/// The peer's acknowledgements only ever raise the Known Received Count, and an Insert
/// Count Increment never raises it past the inserts made.
pub proof fn lemma_acknowledgements_advance(t: EncoderTableView, stream_id: u64, increment: u64)
    ensures
        table_section_ack(t, stream_id) matches Ok(t2) ==> t2.known_received_count >= t.known_received_count,
        table_insert_count_increment(t, increment) matches Ok(t2) ==> t.known_received_count
            < t2.known_received_count <= t.insert_count,
        table_stream_cancel(t, stream_id).known_received_count == t.known_received_count,
{
}

} // verus!
