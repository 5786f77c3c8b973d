//! Encoding a field section against the encoder's dynamic table (RFC 9204 §4.5).
//!
//! Planning walks the lines in order and decides each one's representation, making any
//! warming insert on the way: a static full match, else a dynamic full match the
//! blocked-streams budget allows, else (after an optional warming insert) a literal with
//! the best name reference available before that insert.  A line is warmed the second
//! time its `(name, value)` is seen on the connection; sensitive names and never-indexed
//! lines are never hashed, remembered or inserted.  Emitting then writes the section
//! prefix (base = Required Insert Count) and the planned lines.
use vstd::prelude::*;
use crate::decoder_table::{encode_required_insert_count, required_insert_count_encoding, total_size, EntryView};
use crate::encoder_table::{
    encoder_table_wf, full_match, name_match, oldest_abs, entry_at, table_duplicate, table_insert_pair,
    table_register_section, EncoderDynamicTable, EncoderTableView, SectionRefs,
};
use crate::entry_name::{name_bytes, uncacheable_name, EntryName, EntryNameView};
use crate::field_section::{
    field_line_encoding, prefix_encoding, FieldLine, FieldLineInstruction, FieldSectionPrefix,
};
use crate::recent_pairs::{pair_hash, ring_remember, RecentPairs};
use crate::static_table::{spec_static_lookup, static_table_lookup, StaticLookup};

verus! {

/// One planned field line.  Dynamic references are held by absolute index and turned
/// into relative ones (base = the section's Required Insert Count) when emitted.
#[derive(Debug)]
pub enum Emission {
    IndexedStatic(u8),
    IndexedDynamicPreBase(u64),
    LiteralStaticNameRef { name_index: u8, value: Vec<u8>, never_indexed: bool },
    LiteralDynamicNameRefPreBase { abs_idx: u64, value: Vec<u8>, never_indexed: bool },
    LiteralLiteralName { name: EntryName, value: Vec<u8>, never_indexed: bool },
}

/// The value of an [`Emission`].
pub enum EmissionView {
    IndexedStatic(u8),
    IndexedDynamicPreBase(u64),
    LiteralStaticNameRef { name_index: u8, value: Seq<u8>, never_indexed: bool },
    LiteralDynamicNameRefPreBase { abs_idx: u64, value: Seq<u8>, never_indexed: bool },
    LiteralLiteralName { name: EntryNameView, value: Seq<u8>, never_indexed: bool },
}

impl View for Emission {
    type V = EmissionView;

    open spec fn view(&self) -> EmissionView {
        match self {
            Emission::IndexedStatic(i) => EmissionView::IndexedStatic(*i),
            Emission::IndexedDynamicPreBase(a) => EmissionView::IndexedDynamicPreBase(*a),
            Emission::LiteralStaticNameRef { name_index, value, never_indexed } =>
                EmissionView::LiteralStaticNameRef {
                name_index: *name_index,
                value: value@,
                never_indexed: *never_indexed,
            },
            Emission::LiteralDynamicNameRefPreBase { abs_idx, value, never_indexed } =>
                EmissionView::LiteralDynamicNameRefPreBase {
                abs_idx: *abs_idx,
                value: value@,
                never_indexed: *never_indexed,
            },
            Emission::LiteralLiteralName { name, value, never_indexed } =>
                EmissionView::LiteralLiteralName {
                name: name@,
                value: value@,
                never_indexed: *never_indexed,
            },
        }
    }
}

/// The absolute index a planned line references in the dynamic table, if any.
pub open spec fn emission_ref(e: EmissionView) -> Option<u64> {
    match e {
        EmissionView::IndexedDynamicPreBase(a) => Some(a),
        EmissionView::LiteralDynamicNameRefPreBase { abs_idx, .. } => Some(abs_idx),
        _ => None,
    }
}

/// A count as a `usize`, saturating.
pub open spec fn sat_usize(n: int) -> usize {
    if n > usize::MAX {
        usize::MAX
    } else {
        n as usize
    }
}

/// A count as a `u32`, saturating.
pub open spec fn sat_u32(n: nat) -> nat {
    if n > u32::MAX {
        u32::MAX as nat
    } else {
        n
    }
}

/// The wire line of a planned line, pre-base references made relative to `base`.
pub open spec fn emission_line(e: EmissionView, base: nat) -> FieldLine {
    match e {
        EmissionView::IndexedStatic(i) => FieldLine::IndexedStatic { index: i as usize },
        EmissionView::IndexedDynamicPreBase(a) => FieldLine::IndexedDynamic {
            relative_index: sat_usize(base - 1 - a),
        },
        EmissionView::LiteralStaticNameRef { name_index, value, never_indexed } =>
            FieldLine::LiteralStaticNameRef { name_index: name_index as usize, value, never_indexed },
        EmissionView::LiteralDynamicNameRefPreBase { abs_idx, value, never_indexed } =>
            FieldLine::LiteralDynamicNameRef {
            relative_index: sat_usize(base - 1 - abs_idx),
            value,
            never_indexed,
        },
        EmissionView::LiteralLiteralName { name, value, never_indexed } => FieldLine::LiteralLiteralName {
            name,
            value,
            never_indexed,
        },
    }
}

/// The wire form of planned lines.
pub open spec fn lines_encoding(emissions: Seq<EmissionView>, base: nat) -> Seq<u8>
    decreases emissions.len(),
{
    if emissions.len() == 0 {
        Seq::empty()
    } else {
        lines_encoding(emissions.drop_last(), base) + field_line_encoding(
            emission_line(emissions.last(), base),
        )
    }
}

/// The section prefix: the encoded Required Insert Count and a zero Delta Base.
pub open spec fn section_prefix(ric: nat, max_capacity: nat) -> FieldSectionPrefix {
    FieldSectionPrefix {
        encoded_required_insert_count: required_insert_count_encoding(ric, max_capacity) as usize,
        base_is_negative: false,
        delta_base: 0,
    }
}

/// Write the section prefix for a section with Required Insert Count `section_ric`.
pub fn emit_section_prefix(section_ric: u64, max_capacity: usize, buf: &mut Vec<u8>)
    requires
        section_ric == 0 || max_capacity >= 32,
    ensures
        final(buf)@ == old(buf)@ + prefix_encoding(section_prefix(section_ric as nat, max_capacity as nat)),
{
    let encoded_required_insert_count = if section_ric == 0 {
        0
    } else {
        encode_required_insert_count(section_ric, max_capacity)
    };
    let prefix = FieldSectionPrefix { encoded_required_insert_count, base_is_negative: false, delta_base: 0 };
    prefix.encode(buf);
}

/// Write one planned line, its dynamic reference made relative to `section_ric`.
pub fn emit(emission: &Emission, section_ric: u64, buf: &mut Vec<u8>)
    requires
        emission_ref(emission@) matches Some(a) ==> a < section_ric,
    ensures
        final(buf)@ == old(buf)@ + field_line_encoding(emission_line(emission@, section_ric as nat)),
{
    let instruction = match emission {
        Emission::IndexedStatic(index) => FieldLineInstruction::IndexedStatic { index: *index as usize },
        Emission::IndexedDynamicPreBase(abs_idx) => FieldLineInstruction::IndexedDynamic {
            relative_index: to_usize(section_ric - 1 - *abs_idx),
        },
        Emission::LiteralStaticNameRef { name_index, value, never_indexed } =>
            FieldLineInstruction::LiteralStaticNameRef {
            name_index: *name_index as usize,
            value: vstd::slice::slice_to_vec(value.as_slice()),
            never_indexed: *never_indexed,
        },
        Emission::LiteralDynamicNameRefPreBase { abs_idx, value, never_indexed } =>
            FieldLineInstruction::LiteralDynamicNameRef {
            relative_index: to_usize(section_ric - 1 - *abs_idx),
            value: vstd::slice::slice_to_vec(value.as_slice()),
            never_indexed: *never_indexed,
        },
        Emission::LiteralLiteralName { name, value, never_indexed } =>
            FieldLineInstruction::LiteralLiteralName {
            name: name.clone(),
            value: vstd::slice::slice_to_vec(value.as_slice()),
            never_indexed: *never_indexed,
        },
    };
    instruction.encode(buf);
}

fn to_usize(n: u64) -> (m: usize)
    ensures
        m == sat_usize(n as int),
{
    if n > usize::MAX as u64 {
        usize::MAX
    } else {
        n as usize
    }
}

/// The value of a [`Planner`].
pub struct PlannerView {
    pub emissions: Seq<EmissionView>,
    pub section_ric: nat,
    pub min_ref: Option<u64>,
    pub can_block: bool,
    pub made_inserts: bool,
    pub enc_stream_bytes: nat,
}

/// Planning state for one field section.
#[derive(Debug)]
pub struct Planner {
    emissions: Vec<Emission>,
    section_ric: u64,
    min_ref_abs_idx: Option<u64>,
    /// The section may reference entries the peer has not acknowledged: its stream is
    /// already blocking, or a blocked-stream slot is free.
    can_block_section: bool,
    made_inserts: bool,
    enc_stream_bytes: u32,
}

impl View for Planner {
    type V = PlannerView;

    closed spec fn view(&self) -> PlannerView {
        PlannerView {
            emissions: self.emissions@.map_values(|e: Emission| e@),
            section_ric: self.section_ric as nat,
            min_ref: self.min_ref_abs_idx,
            can_block: self.can_block_section,
            made_inserts: self.made_inserts,
            enc_stream_bytes: self.enc_stream_bytes as nat,
        }
    }
}

/// Every planned reference lies below the section's Required Insert Count, which no
/// insert has outrun.
pub open spec fn planner_wf(p: PlannerView, t: EncoderTableView) -> bool {
    &&& p.section_ric <= t.insert_count
    &&& p.enc_stream_bytes <= u32::MAX
    &&& forall|i: int| 0 <= i < p.emissions.len() ==> (emission_ref(#[trigger] p.emissions[i]) matches Some(
        a,
    ) ==> a < p.section_ric)
    &&& p.min_ref matches Some(m) ==> m < p.section_ric
}

/// Whether the section may reference `abs_idx`: acknowledged entries always, others only
/// when the section may block.
pub open spec fn can_ref(p: PlannerView, t: EncoderTableView, abs_idx: nat) -> bool {
    abs_idx < t.known_received_count || p.can_block
}

/// Recording a reference raises the Required Insert Count past it and lowers the
/// smallest referenced index to it.
pub open spec fn record_ref(p: PlannerView, abs_idx: nat) -> PlannerView {
    PlannerView {
        section_ric: if abs_idx + 1 > p.section_ric {
            abs_idx + 1
        } else {
            p.section_ric
        },
        min_ref: Some(
            match p.min_ref {
                Some(m) => if m <= abs_idx {
                    m
                } else {
                    abs_idx as u64
                },
                None => abs_idx as u64,
            },
        ),
        ..p
    }
}

/// Accounting for an encoder-stream instruction queued between `before` and `after`.
pub open spec fn note_ops(p: PlannerView, before: EncoderTableView, after: EncoderTableView) -> PlannerView {
    if after.pending_ops.len() > before.pending_ops.len() {
        PlannerView {
            made_inserts: true,
            enc_stream_bytes: sat_u32(p.enc_stream_bytes + after.pending_ops.last().len()),
            ..p
        }
    } else {
        p
    }
}

/// Refreshing a hot entry at the tail: when the table was primed and its free room has
/// dropped below the primed bytes, the oldest entry, if still hot, is duplicated.
pub open spec fn refresh_step(p: PlannerView, t: EncoderTableView, oldest_hot: bool) -> (PlannerView, EncoderTableView) {
    let headroom = if t.capacity >= total_size(t.entries) {
        t.capacity - total_size(t.entries)
    } else {
        0
    };
    if t.primed_bytes == 0 || headroom >= t.primed_bytes || t.entries.len() == 0 || !oldest_hot {
        (p, t)
    } else {
        match table_duplicate(t, oldest_abs(t) as nat, p.min_ref) {
            Ok((t2, _)) => (note_ops(p, t, t2), t2),
            Err(_) => (p, t),
        }
    }
}

/// A warming insert of `(name, value)`, pinning what the section already references; a
/// refused insert changes nothing.
pub open spec fn insert_step(p: PlannerView, t: EncoderTableView, name: EntryNameView, value: Seq<u8>) -> (PlannerView, EncoderTableView) {
    match table_insert_pair(t, name, value, p.min_ref) {
        Ok((t2, _)) => (note_ops(p, t, t2), t2),
        Err(_) => (p, t),
    }
}

/// The indexed representations: a static full match, else a dynamic full match the
/// section may reference.  A never-indexed line takes neither.
pub open spec fn fast_path(
    p: PlannerView,
    t: EncoderTableView,
    name: EntryNameView,
    value: Seq<u8>,
    never_indexed: bool,
) -> Option<(PlannerView, EmissionView)> {
    if !never_indexed && spec_static_lookup(name, Some(value)) is FullMatch {
        Some((p, EmissionView::IndexedStatic(spec_static_lookup(name, Some(value))->FullMatch_0)))
    } else if !never_indexed && full_match(t, name, value) is Some && can_ref(
        p,
        t,
        full_match(t, name, value)->0,
    ) {
        let a = full_match(t, name, value)->0;
        Some((record_ref(p, a), EmissionView::IndexedDynamicPreBase(a as u64)))
    } else {
        None
    }
}

/// The literal representations: a static name reference, else a reference to the name
/// match found before any warming insert, if it is still live and may be referenced, else
/// a literal name.
pub open spec fn literal_form(
    p: PlannerView,
    t: EncoderTableView,
    name: EntryNameView,
    value: Seq<u8>,
    never_indexed: bool,
    static_match: StaticLookup,
    dyn_name: Option<nat>,
) -> (PlannerView, EmissionView) {
    let static_name = match static_match {
        StaticLookup::NameMatch(i) => Some(i),
        StaticLookup::FullMatch(i) => if never_indexed {
            Some(i)
        } else {
            None
        },
        StaticLookup::NoMatch => None,
    };
    if static_name is Some {
        (p, EmissionView::LiteralStaticNameRef { name_index: static_name->0, value, never_indexed })
    } else if dyn_name is Some && entry_at(t, dyn_name->0 as int) is Some && can_ref(p, t, dyn_name->0) {
        (
            record_ref(p, dyn_name->0),
            EmissionView::LiteralDynamicNameRefPreBase { abs_idx: dyn_name->0 as u64, value, never_indexed },
        )
    } else {
        (p, EmissionView::LiteralLiteralName { name, value, never_indexed })
    }
}

/// Planning one line once the indexing decision is made.
pub open spec fn plan_emission(
    p: PlannerView,
    t: EncoderTableView,
    name: EntryNameView,
    value: Seq<u8>,
    should_index: bool,
    never_indexed: bool,
    oldest_hot: bool,
) -> (PlannerView, EncoderTableView, EmissionView) {
    match fast_path(p, t, name, value, never_indexed) {
        Some((p2, e)) => (p2, t, e),
        None => {
            let (p1, t1) = if should_index {
                let (pa, ta) = refresh_step(p, t, oldest_hot);
                insert_step(pa, ta, name, value)
            } else {
                (p, t)
            };
            let (p2, e) = literal_form(
                p1,
                t1,
                name,
                value,
                never_indexed,
                spec_static_lookup(name, Some(value)),
                name_match(t, name),
            );
            (p2, t1, e)
        },
    }
}

/// Whether a line's pair is hashed into the ring: not for sensitive names or
/// never-indexed lines.
pub open spec fn hashed_line(name: EntryNameView, never_indexed: bool) -> bool {
    !(uncacheable_name(name) || never_indexed)
}

/// Planning one line: a hashed pair already in the ring is warmed; the line's emission
/// is appended; the pair's hash is remembered afterwards.
pub open spec fn plan_line(
    p: PlannerView,
    t: EncoderTableView,
    ring: (Seq<u32>, int),
    name: EntryNameView,
    value: Seq<u8>,
    never_indexed: bool,
    oldest_hot: bool,
) -> (PlannerView, EncoderTableView, (Seq<u32>, int)) {
    let hash = pair_hash(name_bytes(name), value);
    let hashed = hashed_line(name, never_indexed);
    let (p2, t2, e) = plan_emission(p, t, name, value, hashed && ring.0.contains(hash), never_indexed, oldest_hot);
    (
        PlannerView { emissions: p2.emissions.push(e), ..p2 },
        t2,
        if hashed {
            ring_remember(ring.0, ring.1, hash)
        } else {
            ring
        },
    )
}

/// A finished plan: the planned lines and the references the section holds.
#[derive(Debug)]
pub struct Plan {
    pub emissions: Vec<Emission>,
    pub section_ric: u64,
    pub min_ref_abs_idx: Option<u64>,
}

/// The planner a section starts with on `stream_id`.
pub open spec fn initial_planner(t: EncoderTableView, stream_id: u64) -> PlannerView {
    PlannerView {
        emissions: Seq::empty(),
        section_ric: 0,
        min_ref: None,
        can_block: crate::encoder_table::stream_blocking(t, stream_id) || crate::encoder_table::blocked_count(
            t.outstanding,
            t.known_received_count,
        ) < t.max_blocked_streams,
        made_inserts: false,
        enc_stream_bytes: 0,
    }
}

impl Planner {
    /// Start planning a section for `stream_id`.
    pub fn new(table: &EncoderDynamicTable, stream_id: u64) -> (planner: Planner)
        requires
            table.wf(),
        ensures
            planner@ == initial_planner(table@, stream_id),
            planner_wf(planner@, table@),
    {
        let can_block_section = table.is_stream_blocking(stream_id)
            || table.currently_blocked_streams() < table.max_blocked_streams();
        let planner = Planner {
            emissions: Vec::new(),
            section_ric: 0,
            min_ref_abs_idx: None,
            can_block_section,
            made_inserts: false,
            enc_stream_bytes: 0,
        };
        assert(planner@.emissions =~= Seq::<EmissionView>::empty());
        planner
    }

    fn can_ref(&self, table: &EncoderDynamicTable, abs_idx: u64) -> (allowed: bool)
        ensures
            allowed == can_ref(self@, table@, abs_idx as nat),
    {
        abs_idx < table.known_received_count() || self.can_block_section
    }

    fn record_ref(&mut self, abs_idx: u64)
        requires
            abs_idx < u64::MAX,
        ensures
            final(self)@ == record_ref(old(self)@, abs_idx as nat),
    {
        let needed_ric = abs_idx + 1;
        if needed_ric > self.section_ric {
            self.section_ric = needed_ric;
        }
        self.min_ref_abs_idx = Some(
            match self.min_ref_abs_idx {
                Some(cur) => if cur <= abs_idx {
                    cur
                } else {
                    abs_idx
                },
                None => abs_idx,
            },
        );
    }

    fn note_ops(&mut self, table: &EncoderDynamicTable, pre_count: usize, Ghost(before): Ghost<EncoderTableView>)
        requires
            pre_count == before.pending_ops.len(),
        ensures
            final(self)@ == note_ops(old(self)@, before, table@),
    {
        if table.pending_count() > pre_count {
            self.made_inserts = true;
            let len = table.last_op_len();
            let add: u32 = if len > u32::MAX as usize {
                u32::MAX
            } else {
                len as u32
            };
            self.enc_stream_bytes = self.enc_stream_bytes.saturating_add(add);
        }
    }

    fn refresh_hot_tail(&mut self, table: &mut EncoderDynamicTable, oldest_hot: bool)
        requires
            old(table).wf(),
            planner_wf(old(self)@, old(table)@),
            old(table)@.insert_count < u64::MAX,
        ensures
            final(table)@.max_capacity == old(table)@.max_capacity,
            final(table).wf(),
            final(table).recent() == old(table).recent(),
            planner_wf(final(self)@, final(table)@),
            (final(self)@, final(table)@) == refresh_step(old(self)@, old(table)@, oldest_hot),
            final(table)@.insert_count <= old(table)@.insert_count + 1,
    {
        let primed = table.primed_bytes();
        if primed == 0 {
            return;
        }
        let current = table.current_size();
        let capacity = table.capacity();
        let headroom = if capacity >= current {
            capacity - current
        } else {
            0
        };
        if headroom >= primed {
            return;
        }
        let oldest_abs = match table.oldest_entry() {
            Some((abs_idx, _)) => abs_idx,
            None => {
                return;
            },
        };
        if !oldest_hot {
            return;
        }
        let ghost before = table@;
        let pre_count = table.pending_count();
        proof {
            assert(entry_at(before, oldest_abs as int) == Some(before.entries.last()));
        }
        let result = table.duplicate(oldest_abs, self.min_ref_abs_idx);
        if result.is_ok() {
            self.note_ops(table, pre_count, Ghost(before));
        }
    }

    fn warm_insert(&mut self, table: &mut EncoderDynamicTable, name: &EntryName, value: &[u8])
        requires
            old(table).wf(),
            planner_wf(old(self)@, old(table)@),
            old(table)@.insert_count < u64::MAX,
        ensures
            final(table)@.max_capacity == old(table)@.max_capacity,
            final(table).wf(),
            final(table).recent() == old(table).recent(),
            planner_wf(final(self)@, final(table)@),
            (final(self)@, final(table)@) == insert_step(old(self)@, old(table)@, name@, value@),
            final(table)@.insert_count <= old(table)@.insert_count + 1,
    {
        let ghost before = table@;
        let pre_count = table.pending_count();
        let result = table.insert(name, value, self.min_ref_abs_idx);
        if result.is_ok() {
            self.note_ops(table, pre_count, Ghost(before));
        }
    }

    fn try_indexed(
        &mut self,
        table: &EncoderDynamicTable,
        name: &EntryName,
        value: &[u8],
        never_indexed: bool,
        static_match: StaticLookup,
    ) -> (emission: Option<Emission>)
        requires
            table.wf(),
            planner_wf(old(self)@, table@),
            static_match == spec_static_lookup(name@, Some(value@)),
        ensures
            planner_wf(final(self)@, table@),
            match fast_path(old(self)@, table@, name@, value@, never_indexed) {
                Some((p2, e)) => emission matches Some(em) && em@ == e && final(self)@ == p2
                    && (emission_ref(e) matches Some(a) ==> a < p2.section_ric),
                None => emission is None && final(self)@ == old(self)@,
            },
    {
        if !never_indexed {
            if let StaticLookup::FullMatch(i) = static_match {
                return Some(Emission::IndexedStatic(i));
            }
        }
        let dyn_full = table.find_pair(name, value);
        if !never_indexed {
            if let Some(abs_idx) = dyn_full {
                if self.can_ref(table, abs_idx) {
                    proof {
                        table.lemma_wf();
                        crate::encoder_table::lemma_full_match_live(table@, name@, value@);
                    }
                    self.record_ref(abs_idx);
                    return Some(Emission::IndexedDynamicPreBase(abs_idx));
                }
            }
        }
        None
    }

    fn pick_literal(
        &mut self,
        table: &EncoderDynamicTable,
        name: &EntryName,
        value: &[u8],
        never_indexed: bool,
        static_match: StaticLookup,
        dyn_name_pre: Option<u64>,
    ) -> (emission: Emission)
        requires
            table.wf(),
            planner_wf(old(self)@, table@),
        ensures
            planner_wf(final(self)@, table@),
            emission_ref(emission@) matches Some(a) ==> a < final(self)@.section_ric,
            (final(self)@, emission@) == literal_form(
                old(self)@,
                table@,
                name@,
                value@,
                never_indexed,
                static_match,
                match dyn_name_pre {
                    Some(a) => Some(a as nat),
                    None => None,
                },
            ),
    {
        let static_name_index = match static_match {
            StaticLookup::NameMatch(i) => Some(i),
            StaticLookup::FullMatch(i) => if never_indexed {
                Some(i)
            } else {
                None
            },
            StaticLookup::NoMatch => None,
        };
        if let Some(i) = static_name_index {
            return Emission::LiteralStaticNameRef {
                name_index: i,
                value: vstd::slice::slice_to_vec(value),
                never_indexed,
            };
        }
        if let Some(abs_idx) = dyn_name_pre {
            if table.entry_at_abs(abs_idx).is_some() && self.can_ref(table, abs_idx) {
                proof {
                    table.lemma_wf();
                }
                self.record_ref(abs_idx);
                return Emission::LiteralDynamicNameRefPreBase {
                    abs_idx,
                    value: vstd::slice::slice_to_vec(value),
                    never_indexed,
                };
            }
        }
        Emission::LiteralLiteralName { name: name.clone(), value: vstd::slice::slice_to_vec(value), never_indexed }
    }

    fn plan_emission(
        &mut self,
        table: &mut EncoderDynamicTable,
        name: &EntryName,
        value: &[u8],
        should_index: bool,
        never_indexed: bool,
        oldest_hot: bool,
    ) -> (emission: Emission)
        requires
            old(table).wf(),
            planner_wf(old(self)@, old(table)@),
            old(table)@.insert_count + 2 <= u64::MAX,
        ensures
            final(table)@.max_capacity == old(table)@.max_capacity,
            final(table).wf(),
            final(table).recent() == old(table).recent(),
            planner_wf(final(self)@, final(table)@),
            emission_ref(emission@) matches Some(a) ==> a < final(self)@.section_ric,
            (final(self)@, final(table)@, emission@) == plan_emission(
                old(self)@,
                old(table)@,
                name@,
                value@,
                should_index,
                never_indexed,
                oldest_hot,
            ),
            final(table)@.insert_count <= old(table)@.insert_count + 2,
    {
        let static_match = static_table_lookup(name, Some(value));
        if let Some(e) = self.try_indexed(table, name, value, never_indexed, static_match) {
            return e;
        }
        let dyn_name_pre = table.find_name(name);
        if should_index {
            self.refresh_hot_tail(table, oldest_hot);
            self.warm_insert(table, name, value);
        }
        self.pick_literal(table, name, value, never_indexed, static_match, dyn_name_pre)
    }

    /// Plan one field line: decide its representation and make any warming insert.
    /// `oldest_hot` says whether the observer still counts the table's oldest entry as
    /// hot; it matters only for a primed table whose free room has dropped below the
    /// primed bytes.
    pub fn plan_header_line(
        &mut self,
        table: &mut EncoderDynamicTable,
        name: &EntryName,
        value: &[u8],
        never_indexed: bool,
        oldest_hot: bool,
    )
        requires
            old(table).wf(),
            planner_wf(old(self)@, old(table)@),
            old(table)@.insert_count + 2 <= u64::MAX,
        ensures
            final(table)@.max_capacity == old(table)@.max_capacity,
            final(table).wf(),
            planner_wf(final(self)@, final(table)@),
            (final(self)@, final(table)@, (final(table).recent().slots(), final(table).recent().next_slot()))
                == plan_line(
                old(self)@,
                old(table)@,
                (old(table).recent().slots(), old(table).recent().next_slot()),
                name@,
                value@,
                never_indexed,
                oldest_hot,
            ),
            final(table)@.insert_count <= old(table)@.insert_count + 2,
    {
        let hashed = !(name.has_uncacheable_value() || never_indexed);
        let hash = RecentPairs::hash(name.as_bytes(), value);
        let should_index = hashed && table.recently_seen(hash);
        let emission = self.plan_emission(table, name, value, should_index, never_indexed, oldest_hot);
        let ghost before = self.emissions@;
        self.emissions.push(emission);
        proof {
            assert(self@.emissions =~= before.map_values(|e: Emission| e@).push(emission@));
        }
        if hashed {
            table.remember_pair(hash);
        }
    }

    /// End planning: the plan, the inserts made, and the encoder-stream bytes queued.
    pub fn finish(self) -> (result: (Plan, bool, u32))
        ensures
            result.0.emissions@.map_values(|e: Emission| e@) == self@.emissions,
            result.0.section_ric == self@.section_ric,
            result.0.min_ref_abs_idx == self@.min_ref,
            result.1 == self@.made_inserts,
            result.2 == self@.enc_stream_bytes,
    {
        (
            Plan {
                emissions: self.emissions,
                section_ric: self.section_ric,
                min_ref_abs_idx: self.min_ref_abs_idx,
            },
            self.made_inserts,
            self.enc_stream_bytes,
        )
    }
}

/// The values of the `(name, value)` pairs counted as hot.
pub open spec fn hot_view(hot: Seq<(EntryName, Vec<u8>)>) -> Seq<(EntryNameView, Seq<u8>)> {
    hot.map_values(|h: (EntryName, Vec<u8>)| (h.0@, h.1@))
}

/// Whether the table's oldest entry is among the pairs counted as hot.
pub open spec fn oldest_is_hot(t: EncoderTableView, hot: Seq<(EntryNameView, Seq<u8>)>) -> bool {
    t.entries.len() > 0 && hot.contains((t.entries.last().name, t.entries.last().value))
}

/// Planning lines in order; before each line the table's oldest entry counts as hot when
/// it is among the `hot` pairs.
pub open spec fn plan_lines(
    p: PlannerView,
    t: EncoderTableView,
    ring: (Seq<u32>, int),
    lines: Seq<(EntryNameView, Seq<u8>, bool)>,
    hot: Seq<(EntryNameView, Seq<u8>)>,
) -> (PlannerView, EncoderTableView, (Seq<u32>, int))
    decreases lines.len(),
{
    if lines.len() == 0 {
        (p, t, ring)
    } else {
        let (p1, t1, r1) = plan_lines(p, t, ring, lines.drop_last(), hot);
        let l = lines.last();
        plan_line(p1, t1, r1, l.0, l.1, l.2, oldest_is_hot(t1, hot))
    }
}

/// Whether the table's oldest entry is one of the `hot` pairs.
pub fn oldest_entry_hot(table: &EncoderDynamicTable, hot: &Vec<(EntryName, Vec<u8>)>) -> (is_hot: bool)
    requires
        table.wf(),
    ensures
        is_hot == oldest_is_hot(table@, hot_view(hot@)),
{
    let oldest = match table.oldest_entry() {
        Some((_, e)) => e,
        None => {
            return false;
        },
    };
    let ghost target = (table@.entries.last().name, table@.entries.last().value);
    let mut i: usize = 0;
    while i < hot.len()
        invariant
            i <= hot@.len(),
            table@.entries.len() > 0,
            oldest@ == table@.entries.last(),
            target == (oldest@.name, oldest@.value),
            forall|j: int| 0 <= j < i ==> hot_view(hot@)[j] != target,
        decreases hot@.len() - i,
    {
        if hot[i].0.same_as(&oldest.name) && crate::bytes::bytes_equal(hot[i].1.as_slice(), oldest.value.as_slice()) {
            assert(hot_view(hot@)[i as int] == target);
            return true;
        }
        i = i + 1;
    }
    proof {
        if hot_view(hot@).contains(target) {
            let j = choose|j: int| 0 <= j < hot_view(hot@).len() && hot_view(hot@)[j] == target;
            assert(hot_view(hot@)[j] != target);
        }
    }
    false
}

/// The pairs that can be the table's oldest entry while `field_lines` are planned: the
/// entries it holds, oldest first, then the lines' own pairs (a refresh only copies an
/// entry already held; a warming insert adds a line's pair).
pub fn hot_candidates(table: &EncoderDynamicTable, field_lines: &Vec<(EntryName, Vec<u8>, bool)>) -> (candidates: Vec<(EntryName, Vec<u8>)>)
    requires
        table.wf(),
    ensures
        hot_view(candidates@) == table@.entries.reverse().map_values(|e: EntryView| (e.name, e.value))
            + lines_view(field_lines@).map_values(|l: (EntryNameView, Seq<u8>, bool)| (l.0, l.1)),
{
    let mut candidates: Vec<(EntryName, Vec<u8>)> = Vec::new();
    let count = table.entry_count();
    let mut k: usize = 0;
    let ghost held = table@.entries.reverse().map_values(|e: EntryView| (e.name, e.value));
    while k < count
        invariant
            table.wf(),
            count == table@.entries.len(),
            k <= count,
            held == table@.entries.reverse().map_values(|e: EntryView| (e.name, e.value)),
            hot_view(candidates@) == held.subrange(0, k as int),
        decreases count - k,
    {
        let e = table.entry_from_oldest(k);
        let ghost before = candidates@;
        candidates.push((e.name.clone(), vstd::slice::slice_to_vec(e.value.as_slice())));
        assert(hot_view(candidates@) =~= held.subrange(0, k + 1)) by {
            assert(hot_view(candidates@) =~= hot_view(before).push(hot_view(candidates@).last()));
        }
        k = k + 1;
    }
    let ghost lines = lines_view(field_lines@).map_values(|l: (EntryNameView, Seq<u8>, bool)| (l.0, l.1));
    let mut i: usize = 0;
    while i < field_lines.len()
        invariant
            i <= field_lines@.len(),
            lines == lines_view(field_lines@).map_values(|l: (EntryNameView, Seq<u8>, bool)| (l.0, l.1)),
            hot_view(candidates@) == held + lines.subrange(0, i as int),
        decreases field_lines@.len() - i,
    {
        let ghost before = candidates@;
        candidates.push((field_lines[i].0.clone(), vstd::slice::slice_to_vec(field_lines[i].1.as_slice())));
        assert(hot_view(candidates@) =~= held + lines.subrange(0, i + 1)) by {
            assert(hot_view(candidates@) =~= hot_view(before).push(hot_view(candidates@).last()));
        }
        i = i + 1;
    }
    assert(held.subrange(0, count as int) =~= held);
    assert(lines.subrange(0, i as int) =~= lines);
    candidates
}

/// A section with dynamic references joins its stream's outstanding sections.
pub open spec fn register_plan(t: EncoderTableView, stream_id: u64, p: PlannerView) -> EncoderTableView {
    if p.section_ric > 0 {
        table_register_section(
            t,
            stream_id,
            SectionRefs { required_insert_count: p.section_ric as u64, min_ref_abs_idx: p.min_ref },
        )
    } else {
        t
    }
}

/// The values of field lines handed to the encoder.
pub open spec fn lines_view(lines: Seq<(EntryName, Vec<u8>, bool)>) -> Seq<(EntryNameView, Seq<u8>, bool)> {
    lines.map_values(|l: (EntryName, Vec<u8>, bool)| (l.0@, l.1@, l.2))
}

/// Write a planned section: its prefix, then its lines.
pub fn write_section(plan: &Plan, max_capacity: usize, buf: &mut Vec<u8>)
    requires
        plan.section_ric == 0 || max_capacity >= 32,
        forall|i: int|
            0 <= i < plan.emissions@.len() ==> (emission_ref(#[trigger] plan.emissions@[i]@) matches Some(a)
                ==> a < plan.section_ric),
    ensures
        final(buf)@ == old(buf)@ + prefix_encoding(section_prefix(plan.section_ric as nat, max_capacity as nat))
            + lines_encoding(plan.emissions@.map_values(|e: Emission| e@), plan.section_ric as nat),
{
    emit_section_prefix(plan.section_ric, max_capacity, buf);
    let ghost start = buf@;
    let ghost es = plan.emissions@.map_values(|e: Emission| e@);
    let mut i: usize = 0;
    assert(es.subrange(0, 0) =~= Seq::<EmissionView>::empty());
    while i < plan.emissions.len()
        invariant
            i <= plan.emissions@.len(),
            es == plan.emissions@.map_values(|e: Emission| e@),
            buf@ == start + lines_encoding(es.subrange(0, i as int), plan.section_ric as nat),
            forall|k: int|
                0 <= k < plan.emissions@.len() ==> (emission_ref(#[trigger] plan.emissions@[k]@) matches Some(
                    a,
                ) ==> a < plan.section_ric),
        decreases plan.emissions@.len() - i,
    {
        proof {
            let next = es.subrange(0, i + 1);
            assert(next.drop_last() =~= es.subrange(0, i as int));
            assert(next.last() == plan.emissions@[i as int]@);
        }
        emit(&plan.emissions[i], plan.section_ric, buf);
        i = i + 1;
    }
    assert(es.subrange(0, i as int) =~= es);
}

/// Encode field lines for `stream_id`: plan every line (making warming inserts, and, on a
/// primed table short of room, refreshing an oldest entry that is among the `hot` pairs),
/// register the section when it references the dynamic table, and write its prefix and
/// lines to `buf`.  Returns whether any insert was queued.
pub fn encode_field_lines(
    table: &mut EncoderDynamicTable,
    field_lines: &Vec<(EntryName, Vec<u8>, bool)>,
    hot: &Vec<(EntryName, Vec<u8>)>,
    stream_id: u64,
    buf: &mut Vec<u8>,
) -> (made_inserts: bool)
    requires
        old(table).wf(),
        old(table)@.insert_count + 2 * field_lines@.len() <= u64::MAX,
    ensures
        final(table).wf(),
        ({
            let (p, t, ring) = plan_lines(
                initial_planner(old(table)@, stream_id),
                old(table)@,
                (old(table).recent().slots(), old(table).recent().next_slot()),
                lines_view(field_lines@),
                hot_view(hot@),
            );
            &&& final(table)@ == register_plan(t, stream_id, p)
            &&& (final(table).recent().slots(), final(table).recent().next_slot()) == ring
            &&& final(buf)@ == old(buf)@ + prefix_encoding(section_prefix(p.section_ric, old(table)@.max_capacity))
                + lines_encoding(p.emissions, p.section_ric)
            &&& made_inserts == p.made_inserts
        }),
{
    let max_capacity = table.max_capacity();
    let ghost t0 = table@;
    let ghost r0 = (table.recent().slots(), table.recent().next_slot());
    let ghost lines = lines_view(field_lines@);
    let mut planner = Planner::new(table, stream_id);
    let mut i: usize = 0;
    assert(lines.subrange(0, 0) =~= Seq::<(EntryNameView, Seq<u8>, bool)>::empty());
    while i < field_lines.len()
        invariant
            table.wf(),
            planner_wf(planner@, table@),
            i <= field_lines@.len(),
            lines == lines_view(field_lines@),
            table@.max_capacity == t0.max_capacity,
            t0.max_capacity == max_capacity,
            table@.insert_count <= t0.insert_count + 2 * i,
            t0.insert_count + 2 * field_lines@.len() <= u64::MAX,
            (planner@, table@, (table.recent().slots(), table.recent().next_slot())) == plan_lines(
                initial_planner(t0, stream_id),
                t0,
                r0,
                lines.subrange(0, i as int),
                hot_view(hot@),
            ),
        decreases field_lines@.len() - i,
    {
        proof {
            let next = lines.subrange(0, i + 1);
            assert(next.drop_last() =~= lines.subrange(0, i as int));
        }
        let line = &field_lines[i];
        let oldest_hot = oldest_entry_hot(table, hot);
        planner.plan_header_line(table, &line.0, line.1.as_slice(), line.2, oldest_hot);
        i = i + 1;
    }
    assert(lines.subrange(0, i as int) =~= lines);
    let ghost p = planner@;
    proof {
        table.lemma_wf();
    }
    let (plan, made_inserts, _) = planner.finish();
    if plan.section_ric > 0 {
        table.register_outstanding_section(
            stream_id,
            SectionRefs { required_insert_count: plan.section_ric, min_ref_abs_idx: plan.min_ref_abs_idx },
        );
    }
    proof {
        assert forall|k: int| 0 <= k < plan.emissions@.len() implies (emission_ref(
            #[trigger] plan.emissions@[k]@,
        ) matches Some(a) ==> a < plan.section_ric) by {
            assert(plan.emissions@[k]@ == p.emissions[k]);
        }
    }
    write_section(&plan, max_capacity, buf);
    made_inserts
}

/// A representation that carries the N bit: a literal of any kind.
pub open spec fn literal_with_flag(e: EmissionView, never_indexed: bool) -> bool {
    match e {
        EmissionView::LiteralStaticNameRef { never_indexed: n, .. } => n == never_indexed,
        EmissionView::LiteralDynamicNameRefPreBase { never_indexed: n, .. } => n == never_indexed,
        EmissionView::LiteralLiteralName { never_indexed: n, .. } => n == never_indexed,
        _ => false,
    }
}

proof fn lemma_steps_keep_budget(p: PlannerView, t: EncoderTableView, name: EntryNameView, value: Seq<u8>, oldest_hot: bool)
    requires
        encoder_table_wf(t),
    ensures
        ({
            let (pa, ta) = refresh_step(p, t, oldest_hot);
            let (pb, tb) = insert_step(pa, ta, name, value);
            &&& pa.can_block == p.can_block && pb.can_block == p.can_block
            &&& ta.known_received_count == t.known_received_count
            &&& tb.known_received_count == t.known_received_count
            &&& pa.emissions == p.emissions && pb.emissions == p.emissions
        }),
{
}

/// What planning a line guarantees: exactly one representation is appended; it
/// references only an entry that was in the table before the line was planned (never the
/// line's own warming insert) and that the blocked-streams budget allows; a never-indexed
/// line gets a literal carrying the N bit; and a never-indexed line or a sensitive name
/// leaves the table and the ring untouched.
pub proof fn lemma_plan_line_guarantees(
    p: PlannerView,
    t: EncoderTableView,
    ring: (Seq<u32>, int),
    name: EntryNameView,
    value: Seq<u8>,
    never_indexed: bool,
    oldest_hot: bool,
)
    requires
        encoder_table_wf(t),
    ensures
        ({
            let (p2, t2, r2) = plan_line(p, t, ring, name, value, never_indexed, oldest_hot);
            let e = p2.emissions.last();
            &&& p2.emissions.len() == p.emissions.len() + 1
            &&& p2.emissions.drop_last() == p.emissions
            &&& emission_ref(e) matches Some(a) ==> a < t.insert_count && can_ref(p, t, a as nat)
            &&& never_indexed ==> literal_with_flag(e, true)
            &&& (never_indexed || uncacheable_name(name)) ==> t2 == t && r2 == ring
        }),
{
    crate::encoder_table::lemma_full_match_live(t, name, value);
    lemma_steps_keep_budget(p, t, name, value, oldest_hot);
    let (p2, t2, r2) = plan_line(p, t, ring, name, value, never_indexed, oldest_hot);
    assert(p2.emissions.drop_last() =~= p.emissions);
}

} // verus!
