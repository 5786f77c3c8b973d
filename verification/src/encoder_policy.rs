//! The encoder's per-line decision: given what a field line matches in the static and
//! dynamic tables, how much indexing is allowed and the blocked-streams budget, pick the
//! encoder-stream action, the table action and the header-block representation.
//!
//! Nothing here touches a table: [`select_program`] is a pure function of its inputs.
use vstd::prelude::*;

verus! {

/// What a field line `(name, value)` matches in the static and dynamic tables.
#[derive(Clone, Copy, Debug, PartialEq, Eq)]
pub struct MatchState {
    /// Absolute index of a dynamic entry matching both name and value.
    pub dynamic_full: Option<u64>,
    /// The full dynamic match sits in the draining region near the oldest end of a full
    /// table.  Always `false` when `dynamic_full` is `None`.
    pub dynamic_full_is_draining: bool,
    /// A Duplicate of the draining full match is known to be safe.  Only set together with
    /// `dynamic_full_is_draining`.
    pub dynamic_full_safe_to_dup: bool,
    /// Static index of an entry matching both name and value.
    pub static_full: Option<u8>,
    /// Absolute index of the latest dynamic entry with this name.
    pub dynamic_name: Option<u64>,
    /// Static index of an entry with this name.
    pub static_name: Option<u8>,
}

impl Default for MatchState {
    fn default() -> (state: MatchState)
        ensures
            state == (MatchState {
                dynamic_full: None,
                dynamic_full_is_draining: false,
                dynamic_full_safe_to_dup: false,
                static_full: None,
                dynamic_name: None,
                static_name: None,
            }),
    {
        MatchState {
            dynamic_full: None,
            dynamic_full_is_draining: false,
            dynamic_full_safe_to_dup: false,
            static_full: None,
            dynamic_name: None,
            static_name: None,
        }
    }
}

/// Encoder-stream side effect of one field line.
#[derive(Clone, Copy, Debug, PartialEq, Eq)]
pub enum EncStreamAction {
    /// No encoder-stream bytes.
    Nothing,
    /// Insert the full `(name, value)` pair.
    Insert,
    /// Insert `(name, "")`: a name-only entry for later name references.
    InsertNameOnly,
    /// Duplicate the live entry at this absolute index.
    Duplicate(u64),
}

/// Dynamic-table side effect of one field line.
#[derive(Clone, Copy, Debug, PartialEq, Eq)]
pub enum TableAction {
    /// The table is unchanged.
    Unchanged,
    /// A new entry is added.
    InsertNew,
}

/// How a header-block reference names its dynamic entry.
#[derive(Clone, Copy, Debug, PartialEq, Eq)]
pub enum DynRef {
    /// An entry already in the table, by absolute index.
    Existing(u64),
    /// The entry this line's table action inserts.
    NewlyInserted,
}

/// Header-block representation of one field line.
#[derive(Clone, Copy, Debug, PartialEq, Eq)]
pub enum HeaderBlockAction {
    /// Indexed field line, static table.
    IndexedStatic(u8),
    /// Indexed field line, dynamic table, pre-base.
    IndexedDynamic(DynRef),
    /// Literal with a static name reference.
    LiteralStaticNameRef { name_index: u8 },
    /// Literal with a dynamic name reference, pre-base.
    LiteralDynamicNameRef { dyn_ref: DynRef },
    /// Literal name and literal value.
    LiteralLiteralName,
}

/// The plan for one field line.
#[derive(Clone, Copy, Debug, PartialEq, Eq)]
pub struct EncoderProgram {
    pub enc_stream: EncStreamAction,
    pub table: TableAction,
    pub header_block: HeaderBlockAction,
    /// The N bit of a literal representation.
    pub never_indexed: bool,
}

/// How much indexing is cleared for a field line.
#[derive(Clone, Copy, Debug, PartialEq, Eq, Structural)]
pub enum IndexingAllowance {
    /// No insertion.
    Never,
    /// The name is familiar but this value is not: a name-only insert is allowed.
    NameOnly,
    /// The full pair is familiar: every inserting strategy is allowed.
    Full,
}

impl IndexingAllowance {
    /// Whether a full `(name, value)` insertion is allowed.
    pub fn full(self) -> (full: bool)
        ensures
            full == (self == IndexingAllowance::Full),
    {
        match self {
            IndexingAllowance::Full => true,
            _ => false,
        }
    }
}

/// The blocked-streams budget when a line is planned.
#[derive(Clone, Copy, Debug, PartialEq, Eq)]
pub struct BudgetCtx {
    /// The peer's Known Received Count: entries below it never block.
    pub krc: u64,
    /// An earlier reference of this section already took the blocking slot.
    pub committed_to_blocking: bool,
    /// The stream is already blocked by an earlier section.
    pub stream_already_blocking: bool,
    /// A fresh blocked-stream slot is available.
    pub blocked_slot_available: bool,
}

/// Whether the section may block its stream.
pub open spec fn may_block(budget: BudgetCtx) -> bool {
    budget.committed_to_blocking || budget.stream_already_blocking || budget.blocked_slot_available
}

/// Whether a reference to `abs_idx` fits the budget: acknowledged entries always do.
pub open spec fn ref_allowed(budget: BudgetCtx, abs_idx: u64) -> bool {
    abs_idx < budget.krc || may_block(budget)
}

impl BudgetCtx {
    /// Whether a header-block reference to `abs_idx` is allowed.
    pub fn allows_ref(&self, abs_idx: u64) -> (allowed: bool)
        ensures
            allowed == ref_allowed(*self, abs_idx),
    {
        if abs_idx < self.krc {
            return true;
        }
        self.committed_to_blocking || self.stream_already_blocking || self.blocked_slot_available
    }

    /// Whether the section may take a blocking slot (a reference to a new insert always
    /// blocks).
    pub fn can_take_blocking_slot(&self) -> (allowed: bool)
        ensures
            allowed == may_block(*self),
    {
        self.committed_to_blocking || self.stream_already_blocking || self.blocked_slot_available
    }
}

/// The best literal form: static name reference, else a dynamic name reference the
/// budget allows, else a literal name.
pub open spec fn literal_action(state: MatchState, budget: BudgetCtx) -> HeaderBlockAction {
    match state.static_name {
        Some(name_index) => HeaderBlockAction::LiteralStaticNameRef { name_index },
        None => match state.dynamic_name {
            Some(abs_idx) if ref_allowed(budget, abs_idx) => HeaderBlockAction::LiteralDynamicNameRef {
                dyn_ref: DynRef::Existing(abs_idx),
            },
            _ => HeaderBlockAction::LiteralLiteralName,
        },
    }
}

/// A program with no side effect.
pub open spec fn plain(header_block: HeaderBlockAction, never_indexed: bool) -> EncoderProgram {
    EncoderProgram {
        enc_stream: EncStreamAction::Nothing,
        table: TableAction::Unchanged,
        header_block,
        never_indexed,
    }
}

/// The strategy chain, first applicable wins:
/// 1. a draining full dynamic match that may be duplicated: duplicate it in the
///    background and reference the original;
/// 2. a full dynamic match the budget allows: reference it;
/// 3. a full static match: reference it;
/// 4. full indexing and a blocking slot: insert, then reference the new entry;
/// 5. full indexing without a full dynamic match: insert for later sections, literal now;
/// 6. a familiar name with no name reference available and a blocking slot: insert
///    `(name, "")` and reference its name;
/// 7. otherwise the best literal form.
pub open spec fn program_for(
    state: MatchState,
    indexing: IndexingAllowance,
    budget: BudgetCtx,
    never_indexed: bool,
) -> EncoderProgram {
    let full = indexing == IndexingAllowance::Full;
    if state.dynamic_full is Some && state.dynamic_full_is_draining
        && state.dynamic_full_safe_to_dup && full && ref_allowed(budget, state.dynamic_full->0) {
        EncoderProgram {
            enc_stream: EncStreamAction::Duplicate(state.dynamic_full->0),
            table: TableAction::InsertNew,
            header_block: HeaderBlockAction::IndexedDynamic(DynRef::Existing(state.dynamic_full->0)),
            never_indexed,
        }
    } else if state.dynamic_full is Some && ref_allowed(budget, state.dynamic_full->0) {
        plain(HeaderBlockAction::IndexedDynamic(DynRef::Existing(state.dynamic_full->0)), never_indexed)
    } else if state.static_full is Some {
        plain(HeaderBlockAction::IndexedStatic(state.static_full->0), never_indexed)
    } else if full && may_block(budget) {
        EncoderProgram {
            enc_stream: EncStreamAction::Insert,
            table: TableAction::InsertNew,
            header_block: HeaderBlockAction::IndexedDynamic(DynRef::NewlyInserted),
            never_indexed,
        }
    } else if full && state.dynamic_full is None {
        EncoderProgram {
            enc_stream: EncStreamAction::Insert,
            table: TableAction::InsertNew,
            header_block: literal_action(state, budget),
            never_indexed,
        }
    } else if indexing == IndexingAllowance::NameOnly && state.dynamic_full is None
        && state.static_full is None && state.static_name is None && state.dynamic_name is None
        && may_block(budget) {
        EncoderProgram {
            enc_stream: EncStreamAction::InsertNameOnly,
            table: TableAction::InsertNew,
            header_block: HeaderBlockAction::LiteralDynamicNameRef { dyn_ref: DynRef::NewlyInserted },
            never_indexed,
        }
    } else {
        plain(literal_action(state, budget), never_indexed)
    }
}

/// Pick the program for one field line.
pub fn select_program(
    match_state: &MatchState,
    indexing: IndexingAllowance,
    budget: &BudgetCtx,
    never_indexed: bool,
) -> (program: EncoderProgram)
    ensures
        program == program_for(*match_state, indexing, *budget, never_indexed),
{
    if let Some(abs_idx) = match_state.dynamic_full {
        if match_state.dynamic_full_is_draining && match_state.dynamic_full_safe_to_dup
            && indexing.full() && budget.allows_ref(abs_idx) {
            return EncoderProgram {
                enc_stream: EncStreamAction::Duplicate(abs_idx),
                table: TableAction::InsertNew,
                header_block: HeaderBlockAction::IndexedDynamic(DynRef::Existing(abs_idx)),
                never_indexed,
            };
        }
        if budget.allows_ref(abs_idx) {
            return EncoderProgram {
                enc_stream: EncStreamAction::Nothing,
                table: TableAction::Unchanged,
                header_block: HeaderBlockAction::IndexedDynamic(DynRef::Existing(abs_idx)),
                never_indexed,
            };
        }
    }
    if let Some(idx) = match_state.static_full {
        return EncoderProgram {
            enc_stream: EncStreamAction::Nothing,
            table: TableAction::Unchanged,
            header_block: HeaderBlockAction::IndexedStatic(idx),
            never_indexed,
        };
    }
    if indexing.full() && budget.can_take_blocking_slot() {
        return EncoderProgram {
            enc_stream: EncStreamAction::Insert,
            table: TableAction::InsertNew,
            header_block: HeaderBlockAction::IndexedDynamic(DynRef::NewlyInserted),
            never_indexed,
        };
    }
    if indexing.full() && match_state.dynamic_full.is_none() {
        return EncoderProgram {
            enc_stream: EncStreamAction::Insert,
            table: TableAction::InsertNew,
            header_block: pick_literal_action(match_state, budget),
            never_indexed,
        };
    }
    let name_only = match indexing {
        IndexingAllowance::NameOnly => true,
        _ => false,
    };
    if name_only && match_state.dynamic_full.is_none() && match_state.static_full.is_none()
        && match_state.static_name.is_none() && match_state.dynamic_name.is_none()
        && budget.can_take_blocking_slot() {
        return EncoderProgram {
            enc_stream: EncStreamAction::InsertNameOnly,
            table: TableAction::InsertNew,
            header_block: HeaderBlockAction::LiteralDynamicNameRef { dyn_ref: DynRef::NewlyInserted },
            never_indexed,
        };
    }
    EncoderProgram {
        enc_stream: EncStreamAction::Nothing,
        table: TableAction::Unchanged,
        header_block: pick_literal_action(match_state, budget),
        never_indexed,
    }
}

/// Pick the best literal form for a line.
pub fn pick_literal_action(match_state: &MatchState, budget: &BudgetCtx) -> (action: HeaderBlockAction)
    ensures
        action == literal_action(*match_state, *budget),
{
    if let Some(name_index) = match_state.static_name {
        return HeaderBlockAction::LiteralStaticNameRef { name_index };
    }
    if let Some(abs_idx) = match_state.dynamic_name {
        if budget.allows_ref(abs_idx) {
            return HeaderBlockAction::LiteralDynamicNameRef { dyn_ref: DynRef::Existing(abs_idx) };
        }
    }
    HeaderBlockAction::LiteralLiteralName
}

/// The dynamic reference a header-block action makes, if any.
pub open spec fn dyn_ref_of(action: HeaderBlockAction) -> Option<DynRef> {
    match action {
        HeaderBlockAction::IndexedDynamic(r) => Some(r),
        HeaderBlockAction::LiteralDynamicNameRef { dyn_ref } => Some(dyn_ref),
        _ => None,
    }
}

/// The pairings a program may have: an encoder-stream action exactly when the table
/// changes, a reference to the new entry only when there is one, every existing dynamic
/// reference within the budget, a reference to the new entry only with a blocking slot,
/// and insertion only as far as the indexing allowance goes.
pub open spec fn program_well_formed(
    program: EncoderProgram,
    indexing: IndexingAllowance,
    budget: BudgetCtx,
) -> bool {
    &&& (program.enc_stream == EncStreamAction::Nothing) == (program.table == TableAction::Unchanged)
    &&& dyn_ref_of(program.header_block) == Some(DynRef::NewlyInserted) ==> program.table
        == TableAction::InsertNew && may_block(budget)
    &&& forall|i: u64| dyn_ref_of(program.header_block) == Some(DynRef::Existing(i)) ==> ref_allowed(budget, i)
    &&& (program.enc_stream is Insert || program.enc_stream is Duplicate) ==> indexing
        == IndexingAllowance::Full
    &&& program.enc_stream is InsertNameOnly ==> indexing == IndexingAllowance::NameOnly
}

/// Every program of the strategy chain is well formed, keeps the N bit it was given, and
/// duplicates only the full dynamic match.
pub proof fn lemma_program_well_formed(
    state: MatchState,
    indexing: IndexingAllowance,
    budget: BudgetCtx,
    never_indexed: bool,
)
    ensures
        program_well_formed(program_for(state, indexing, budget, never_indexed), indexing, budget),
        program_for(state, indexing, budget, never_indexed).never_indexed == never_indexed,
        forall|i: u64| program_for(state, indexing, budget, never_indexed).enc_stream
            == EncStreamAction::Duplicate(i) ==> state.dynamic_full == Some(i),
{
}

/// A usable full match is never passed over: a full dynamic match within the budget is
/// referenced, and otherwise a full static match is referenced.
pub proof fn lemma_full_match_referenced(
    state: MatchState,
    indexing: IndexingAllowance,
    budget: BudgetCtx,
    never_indexed: bool,
)
    ensures
        state.dynamic_full is Some && ref_allowed(budget, state.dynamic_full->0) ==> program_for(
            state,
            indexing,
            budget,
            never_indexed,
        ).header_block == HeaderBlockAction::IndexedDynamic(DynRef::Existing(state.dynamic_full->0)),
        !(state.dynamic_full is Some && ref_allowed(budget, state.dynamic_full->0))
            && state.static_full is Some ==> program_for(state, indexing, budget, never_indexed)
            == plain(HeaderBlockAction::IndexedStatic(state.static_full->0), never_indexed),
{
}

} // verus!
