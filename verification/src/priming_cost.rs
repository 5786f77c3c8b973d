//! What priming a dynamic-table entry costs and saves: the integer cost model used to
//! rank candidates for priming a new connection's table, and which values are never
//! worth caching.
use vstd::prelude::*;
use crate::entry_name::{entry_name_bytes, uncacheable_name, EntryName, EntryNameView};
use crate::static_table::{spec_static_lookup, static_table_lookup, KnownHeaderName, StaticLookup};

verus! {

/// Estimated bytes of inserting an entry and bytes saved by each reference to it.
#[derive(Debug, Clone, Copy, PartialEq, Eq, Structural)]
pub struct CostModel {
    /// Encoder-stream bytes to insert the entry.
    pub insert_cost: u32,
    /// Bytes saved per reference against the encoding used without it.
    pub savings_per_ref: u32,
}

/// A length as a `u32`, saturating.
pub open spec fn len_u32(n: nat) -> nat {
    if n > u32::MAX {
        u32::MAX as nat
    } else {
        n
    }
}

/// Saturating `u32` addition.
pub open spec fn add_u32(a: nat, b: nat) -> nat {
    if a + b > u32::MAX {
        u32::MAX as nat
    } else {
        a + b
    }
}

/// The cost model of priming `(name, value)`, or of the name alone when `value` is
/// `None`; nothing when the encoder already has something as cheap: a full static match
/// for a pair, a static name match for a name alone.
pub open spec fn cost_estimate(name: EntryNameView, value: Option<Seq<u8>>) -> Option<CostModel> {
    let name_len = len_u32(crate::entry_name::name_bytes(name).len());
    match (value, spec_static_lookup(name, value)) {
        (Some(_), StaticLookup::FullMatch(_)) => None,
        (Some(v), StaticLookup::NameMatch(_)) => Some(
            CostModel {
                insert_cost: add_u32(len_u32(v.len()), 2) as u32,
                savings_per_ref: len_u32(v.len()) as u32,
            },
        ),
        (Some(v), StaticLookup::NoMatch) => Some(
            CostModel {
                insert_cost: add_u32(add_u32(name_len, len_u32(v.len())), 3) as u32,
                savings_per_ref: add_u32(add_u32(name_len, len_u32(v.len())), 1) as u32,
            },
        ),
        (None, StaticLookup::NoMatch) => Some(
            CostModel { insert_cost: add_u32(name_len, 3) as u32, savings_per_ref: name_len as u32 },
        ),
        (None, _) => None,
    }
}

fn to_u32(n: usize) -> (m: u32)
    ensures
        m == len_u32(n as nat),
{
    if n > u32::MAX as usize {
        u32::MAX
    } else {
        n as u32
    }
}

impl CostModel {
    /// Estimate the cost and savings of priming `(name, value)`, or `(name, "")` when
    /// `value` is `None` (see [`cost_estimate`]).
    pub fn estimate(name: &EntryName, value: Option<&[u8]>) -> (cost: Option<CostModel>)
        ensures
            cost == cost_estimate(
                name@,
                match value {
                    Some(v) => Some(v@),
                    None => None,
                },
            ),
    {
        let name_len = to_u32(name.len());
        let lookup = static_table_lookup(name, value);
        match (value, lookup) {
            (Some(_), StaticLookup::FullMatch(_)) => None,
            (Some(v), StaticLookup::NameMatch(_)) => {
                let value_len = to_u32(v.len());
                Some(CostModel { insert_cost: value_len.saturating_add(2), savings_per_ref: value_len })
            },
            (Some(v), StaticLookup::NoMatch) => {
                let value_len = to_u32(v.len());
                Some(
                    CostModel {
                        insert_cost: name_len.saturating_add(value_len).saturating_add(3),
                        savings_per_ref: name_len.saturating_add(value_len).saturating_add(1),
                    },
                )
            },
            (None, StaticLookup::NoMatch) => Some(
                CostModel { insert_cost: name_len.saturating_add(3), savings_per_ref: name_len },
            ),
            (None, _) => None,
        }
    }
}

/// Whether values under this name are never cached for priming: the sensitive names,
/// and `date`, which changes every second.
pub open spec fn uncacheable_value(name: EntryNameView) -> bool {
    uncacheable_name(name) || name == EntryNameView::Known(KnownHeaderName::Date)
}

/// Whether values under this name are never cached for priming.
pub fn value_is_uncacheable(name: &EntryName) -> (skip: bool)
    ensures
        skip == uncacheable_value(name@),
{
    if name.has_uncacheable_value() {
        return true;
    }
    match name {
        EntryName::Known(KnownHeaderName::Date) => true,
        _ => false,
    }
}

} // verus!
