//! The hashes a recency predictor keys its rings by: one of a name alone, one of a
//! `(name, value)` pair.
use vstd::prelude::*;
use std::hash::{DefaultHasher, Hasher};
use vstd::std_specs::hash::DefaultHasherAdditionalSpecFns;
use crate::recent_pairs::pair_hash;

verus! {

/// The hash of a name: `DefaultHasher` fed the name, truncated to 32 bits.
pub open spec fn name_hash_of(name: Seq<u8>) -> u32 {
    DefaultHasher::spec_finish(seq![name]) as u32
}

/// Hash a name.
pub fn name_hash(name: &[u8]) -> (hash: u32)
    ensures
        hash == name_hash_of(name@),
{
    let mut h = DefaultHasher::new();
    h.write(name);
    assert(h@ =~= seq![name@]);
    h.finish() as u32
}

/// Hash a `(name, value)` pair, with a separator byte between the two so that `"ab" +
/// "c"` and `"a" + "bc"` differ.
pub fn nameval_hash(name: &[u8], value: &[u8]) -> (hash: u32)
    ensures
        hash == pair_hash(name@, value@),
{
    let mut h = DefaultHasher::new();
    h.write(name);
    let separator: [u8; 1] = [0xff];
    let sep: &[u8] = &separator;
    assert(sep@ =~= seq![0xffu8]);
    h.write(sep);
    h.write(value);
    assert(h@ =~= seq![name@, seq![0xffu8], value@]);
    h.finish() as u32
}

} // verus!
