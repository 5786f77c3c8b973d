//! Tallies of which per-line program the planner picked, for comparing how often each
//! encoding strategy fires.
use vstd::prelude::*;
use crate::encoder_policy::{
    may_block, BudgetCtx, DynRef, EncStreamAction, EncoderProgram, HeaderBlockAction, IndexingAllowance,
    MatchState,
};

verus! {

/// How many lines each strategy served.
#[derive(Debug, Default, Clone, Copy, PartialEq, Eq)]
pub struct StrategyCounters {
    /// An existing dynamic entry referenced with no encoder-stream action.
    pub indexed_dynamic_existing: u64,
    /// A static full match.
    pub indexed_static: u64,
    /// An insert referenced by the same section.
    pub insert_then_reference: u64,
    /// A background Duplicate while the original is referenced.
    pub main_path_dup_refresh: u64,
    /// A warming insert with a literal name in the section.
    pub warming_insert_no_match: u64,
    /// A warming insert with a static name reference in the section.
    pub warming_insert_static_name: u64,
    /// A warming insert with a dynamic name reference in the section.
    pub warming_insert_dyn_name: u64,
    /// A name-only insert referenced by name in the section.
    pub name_only_insert: u64,
    /// A familiar name that no name-only insert could serve for want of a blocking slot.
    pub name_only_skipped_no_slot: u64,
    /// Duplicates emitted by a draining pass.
    pub dup_draining_pass_emits: u64,
    /// A plain literal with a static name reference.
    pub literal_static_name: u64,
    /// A plain literal with a dynamic name reference.
    pub literal_dyn_name: u64,
    /// A plain literal with a literal name.
    pub literal_literal_name: u64,
    /// Lines re-planned with indexing disabled.
    pub inflation_retry: u64,
    /// Lines whose insert an insert budget refused.
    pub insert_budget_blocked: u64,
    /// Lines planned with no indexing allowed.
    pub allowance_none: u64,
    /// Lines planned with a name-only allowance.
    pub allowance_name_only: u64,
    /// Lines planned with full indexing allowed.
    pub allowance_full: u64,
    /// Sections planned.
    pub n_sections: u64,
    /// Sections longer than the ring at their start.
    pub n_saturating_sections: u64,
    /// Times the ring grew because a section filled it.
    pub saturation_grow_events: u64,
    /// The ring size each connection ended with, summed.
    pub final_ring_size: u64,
}

/// Whether adding two tallies overflows no counter.
pub open spec fn sums_fit(a: StrategyCounters, b: StrategyCounters) -> bool {
    &&& a.indexed_dynamic_existing + b.indexed_dynamic_existing <= u64::MAX
    &&& a.indexed_static + b.indexed_static <= u64::MAX
    &&& a.insert_then_reference + b.insert_then_reference <= u64::MAX
    &&& a.main_path_dup_refresh + b.main_path_dup_refresh <= u64::MAX
    &&& a.warming_insert_no_match + b.warming_insert_no_match <= u64::MAX
    &&& a.warming_insert_static_name + b.warming_insert_static_name <= u64::MAX
    &&& a.warming_insert_dyn_name + b.warming_insert_dyn_name <= u64::MAX
    &&& a.name_only_insert + b.name_only_insert <= u64::MAX
    &&& a.name_only_skipped_no_slot + b.name_only_skipped_no_slot <= u64::MAX
    &&& a.dup_draining_pass_emits + b.dup_draining_pass_emits <= u64::MAX
    &&& a.literal_static_name + b.literal_static_name <= u64::MAX
    &&& a.literal_dyn_name + b.literal_dyn_name <= u64::MAX
    &&& a.literal_literal_name + b.literal_literal_name <= u64::MAX
    &&& a.inflation_retry + b.inflation_retry <= u64::MAX
    &&& a.insert_budget_blocked + b.insert_budget_blocked <= u64::MAX
    &&& a.allowance_none + b.allowance_none <= u64::MAX
    &&& a.allowance_name_only + b.allowance_name_only <= u64::MAX
    &&& a.allowance_full + b.allowance_full <= u64::MAX
    &&& a.n_sections + b.n_sections <= u64::MAX
    &&& a.n_saturating_sections + b.n_saturating_sections <= u64::MAX
    &&& a.saturation_grow_events + b.saturation_grow_events <= u64::MAX
    &&& a.final_ring_size + b.final_ring_size <= u64::MAX
}

/// Two tallies added field by field.
pub open spec fn sum_counters(a: StrategyCounters, b: StrategyCounters) -> StrategyCounters {
    StrategyCounters {
        indexed_dynamic_existing: (a.indexed_dynamic_existing + b.indexed_dynamic_existing) as u64,
        indexed_static: (a.indexed_static + b.indexed_static) as u64,
        insert_then_reference: (a.insert_then_reference + b.insert_then_reference) as u64,
        main_path_dup_refresh: (a.main_path_dup_refresh + b.main_path_dup_refresh) as u64,
        warming_insert_no_match: (a.warming_insert_no_match + b.warming_insert_no_match) as u64,
        warming_insert_static_name: (a.warming_insert_static_name + b.warming_insert_static_name) as u64,
        warming_insert_dyn_name: (a.warming_insert_dyn_name + b.warming_insert_dyn_name) as u64,
        name_only_insert: (a.name_only_insert + b.name_only_insert) as u64,
        name_only_skipped_no_slot: (a.name_only_skipped_no_slot + b.name_only_skipped_no_slot) as u64,
        dup_draining_pass_emits: (a.dup_draining_pass_emits + b.dup_draining_pass_emits) as u64,
        literal_static_name: (a.literal_static_name + b.literal_static_name) as u64,
        literal_dyn_name: (a.literal_dyn_name + b.literal_dyn_name) as u64,
        literal_literal_name: (a.literal_literal_name + b.literal_literal_name) as u64,
        inflation_retry: (a.inflation_retry + b.inflation_retry) as u64,
        insert_budget_blocked: (a.insert_budget_blocked + b.insert_budget_blocked) as u64,
        allowance_none: (a.allowance_none + b.allowance_none) as u64,
        allowance_name_only: (a.allowance_name_only + b.allowance_name_only) as u64,
        allowance_full: (a.allowance_full + b.allowance_full) as u64,
        n_sections: (a.n_sections + b.n_sections) as u64,
        n_saturating_sections: (a.n_saturating_sections + b.n_saturating_sections) as u64,
        saturation_grow_events: (a.saturation_grow_events + b.saturation_grow_events) as u64,
        final_ring_size: (a.final_ring_size + b.final_ring_size) as u64,
    }
}

impl StrategyCounters {
    /// Add `other` into `self`, field by field.
    pub fn add(&mut self, other: &StrategyCounters)
        requires
            sums_fit(*old(self), *other),
        ensures
            *final(self) == sum_counters(*old(self), *other),
    {
        self.indexed_dynamic_existing = self.indexed_dynamic_existing + other.indexed_dynamic_existing;
        self.indexed_static = self.indexed_static + other.indexed_static;
        self.insert_then_reference = self.insert_then_reference + other.insert_then_reference;
        self.main_path_dup_refresh = self.main_path_dup_refresh + other.main_path_dup_refresh;
        self.warming_insert_no_match = self.warming_insert_no_match + other.warming_insert_no_match;
        self.warming_insert_static_name = self.warming_insert_static_name + other.warming_insert_static_name;
        self.warming_insert_dyn_name = self.warming_insert_dyn_name + other.warming_insert_dyn_name;
        self.name_only_insert = self.name_only_insert + other.name_only_insert;
        self.name_only_skipped_no_slot = self.name_only_skipped_no_slot + other.name_only_skipped_no_slot;
        self.dup_draining_pass_emits = self.dup_draining_pass_emits + other.dup_draining_pass_emits;
        self.literal_static_name = self.literal_static_name + other.literal_static_name;
        self.literal_dyn_name = self.literal_dyn_name + other.literal_dyn_name;
        self.literal_literal_name = self.literal_literal_name + other.literal_literal_name;
        self.inflation_retry = self.inflation_retry + other.inflation_retry;
        self.insert_budget_blocked = self.insert_budget_blocked + other.insert_budget_blocked;
        self.allowance_none = self.allowance_none + other.allowance_none;
        self.allowance_name_only = self.allowance_name_only + other.allowance_name_only;
        self.allowance_full = self.allowance_full + other.allowance_full;
        self.n_sections = self.n_sections + other.n_sections;
        self.n_saturating_sections = self.n_saturating_sections + other.n_saturating_sections;
        self.saturation_grow_events = self.saturation_grow_events + other.saturation_grow_events;
        self.final_ring_size = self.final_ring_size + other.final_ring_size;
    }
}

/// The bucket a program falls in: by its encoder-stream action and header block.  A
/// plain literal-name line also counts as a skipped name-only insert when the allowance
/// was name-only, nothing else matched and no blocking slot was free.
pub open spec fn classified(
    c: StrategyCounters,
    state: MatchState,
    indexing: IndexingAllowance,
    budget: BudgetCtx,
    program: EncoderProgram,
) -> StrategyCounters {
    let c1 = match indexing {
        IndexingAllowance::Never => StrategyCounters { allowance_none: (c.allowance_none + 1) as u64, ..c },
        IndexingAllowance::NameOnly => StrategyCounters { allowance_name_only: (c.allowance_name_only + 1) as u64, ..c },
        IndexingAllowance::Full => StrategyCounters { allowance_full: (c.allowance_full + 1) as u64, ..c },
    };
    match (program.enc_stream, program.header_block) {
        (EncStreamAction::Nothing, HeaderBlockAction::IndexedDynamic(_)) => StrategyCounters {
            indexed_dynamic_existing: (c1.indexed_dynamic_existing + 1) as u64,
            ..c1
        },
        (EncStreamAction::Nothing, HeaderBlockAction::IndexedStatic(_)) => StrategyCounters {
            indexed_static: (c1.indexed_static + 1) as u64,
            ..c1
        },
        (EncStreamAction::Insert, HeaderBlockAction::IndexedDynamic(DynRef::NewlyInserted)) => StrategyCounters {
            insert_then_reference: (c1.insert_then_reference + 1) as u64,
            ..c1
        },
        (EncStreamAction::Duplicate(_), HeaderBlockAction::IndexedDynamic(_)) => StrategyCounters {
            main_path_dup_refresh: (c1.main_path_dup_refresh + 1) as u64,
            ..c1
        },
        (EncStreamAction::Insert, HeaderBlockAction::LiteralStaticNameRef { .. }) => StrategyCounters {
            warming_insert_static_name: (c1.warming_insert_static_name + 1) as u64,
            ..c1
        },
        (EncStreamAction::Insert, HeaderBlockAction::LiteralDynamicNameRef { .. }) => StrategyCounters {
            warming_insert_dyn_name: (c1.warming_insert_dyn_name + 1) as u64,
            ..c1
        },
        (EncStreamAction::Insert, HeaderBlockAction::LiteralLiteralName) => StrategyCounters {
            warming_insert_no_match: (c1.warming_insert_no_match + 1) as u64,
            ..c1
        },
        (EncStreamAction::InsertNameOnly, HeaderBlockAction::LiteralDynamicNameRef { .. }) => StrategyCounters {
            name_only_insert: (c1.name_only_insert + 1) as u64,
            ..c1
        },
        (EncStreamAction::Nothing, HeaderBlockAction::LiteralStaticNameRef { .. }) => StrategyCounters {
            literal_static_name: (c1.literal_static_name + 1) as u64,
            ..c1
        },
        (EncStreamAction::Nothing, HeaderBlockAction::LiteralDynamicNameRef { .. }) => StrategyCounters {
            literal_dyn_name: (c1.literal_dyn_name + 1) as u64,
            ..c1
        },
        (EncStreamAction::Nothing, HeaderBlockAction::LiteralLiteralName) => {
            let c2 = StrategyCounters { literal_literal_name: (c1.literal_literal_name + 1) as u64, ..c1 };
            if indexing == IndexingAllowance::NameOnly && state.dynamic_full is None && state.static_full is None
                && state.static_name is None && state.dynamic_name is None && !may_block(budget) {
                StrategyCounters { name_only_skipped_no_slot: (c2.name_only_skipped_no_slot + 1) as u64, ..c2 }
            } else {
                c2
            }
        },
        _ => c1,
    }
}

/// No counter is at its maximum.
pub open spec fn room_to_count(c: StrategyCounters) -> bool {
    &&& c.indexed_dynamic_existing < u64::MAX
    &&& c.indexed_static < u64::MAX
    &&& c.insert_then_reference < u64::MAX
    &&& c.main_path_dup_refresh < u64::MAX
    &&& c.warming_insert_no_match < u64::MAX
    &&& c.warming_insert_static_name < u64::MAX
    &&& c.warming_insert_dyn_name < u64::MAX
    &&& c.name_only_insert < u64::MAX
    &&& c.name_only_skipped_no_slot < u64::MAX
    &&& c.dup_draining_pass_emits < u64::MAX
    &&& c.literal_static_name < u64::MAX
    &&& c.literal_dyn_name < u64::MAX
    &&& c.literal_literal_name < u64::MAX
    &&& c.inflation_retry < u64::MAX
    &&& c.insert_budget_blocked < u64::MAX
    &&& c.allowance_none < u64::MAX
    &&& c.allowance_name_only < u64::MAX
    &&& c.allowance_full < u64::MAX
    &&& c.n_sections < u64::MAX
    &&& c.n_saturating_sections < u64::MAX
    &&& c.saturation_grow_events < u64::MAX
    &&& c.final_ring_size < u64::MAX
}

/// Count one planned line in its bucket.
pub fn classify_program(
    match_state: &MatchState,
    indexing: IndexingAllowance,
    budget: &BudgetCtx,
    program: &EncoderProgram,
    counters: &mut StrategyCounters,
)
    requires
        room_to_count(*old(counters)),
    ensures
        *final(counters) == classified(*old(counters), *match_state, indexing, *budget, *program),
{
    match indexing {
        IndexingAllowance::Never => counters.allowance_none = counters.allowance_none + 1,
        IndexingAllowance::NameOnly => counters.allowance_name_only = counters.allowance_name_only + 1,
        IndexingAllowance::Full => counters.allowance_full = counters.allowance_full + 1,
    }
    match (program.enc_stream, program.header_block) {
        (EncStreamAction::Nothing, HeaderBlockAction::IndexedDynamic(_)) => {
            counters.indexed_dynamic_existing = counters.indexed_dynamic_existing + 1;
        },
        (EncStreamAction::Nothing, HeaderBlockAction::IndexedStatic(_)) => {
            counters.indexed_static = counters.indexed_static + 1;
        },
        (EncStreamAction::Insert, HeaderBlockAction::IndexedDynamic(DynRef::NewlyInserted)) => {
            counters.insert_then_reference = counters.insert_then_reference + 1;
        },
        (EncStreamAction::Duplicate(_), HeaderBlockAction::IndexedDynamic(_)) => {
            counters.main_path_dup_refresh = counters.main_path_dup_refresh + 1;
        },
        (EncStreamAction::Insert, HeaderBlockAction::LiteralStaticNameRef { .. }) => {
            counters.warming_insert_static_name = counters.warming_insert_static_name + 1;
        },
        (EncStreamAction::Insert, HeaderBlockAction::LiteralDynamicNameRef { .. }) => {
            counters.warming_insert_dyn_name = counters.warming_insert_dyn_name + 1;
        },
        (EncStreamAction::Insert, HeaderBlockAction::LiteralLiteralName) => {
            counters.warming_insert_no_match = counters.warming_insert_no_match + 1;
        },
        (EncStreamAction::InsertNameOnly, HeaderBlockAction::LiteralDynamicNameRef { .. }) => {
            counters.name_only_insert = counters.name_only_insert + 1;
        },
        (EncStreamAction::Nothing, HeaderBlockAction::LiteralStaticNameRef { .. }) => {
            counters.literal_static_name = counters.literal_static_name + 1;
        },
        (EncStreamAction::Nothing, HeaderBlockAction::LiteralDynamicNameRef { .. }) => {
            counters.literal_dyn_name = counters.literal_dyn_name + 1;
        },
        (EncStreamAction::Nothing, HeaderBlockAction::LiteralLiteralName) => {
            counters.literal_literal_name = counters.literal_literal_name + 1;
            let name_only = match indexing {
                IndexingAllowance::NameOnly => true,
                _ => false,
            };
            if name_only && match_state.dynamic_full.is_none() && match_state.static_full.is_none()
                && match_state.static_name.is_none() && match_state.dynamic_name.is_none()
                && !budget.can_take_blocking_slot() {
                counters.name_only_skipped_no_slot = counters.name_only_skipped_no_slot + 1;
            }
        },
        _ => {},
    }
}

} // verus!
