//! Per-connection ring of recently-seen `(name, value)` pair hashes.
//!
//! A small ring buffer tracking the hashes of recent header lines. The encoder consults it
//! to decide whether to invest in a dynamic-table insert: first sighting of a pair returns
//! `false`, subsequent sightings within the ring's retention window return `true`.
//!
//! Callers compute the hash once via [`RecentPairs::hash`], call
//! [`seen`](RecentPairs::seen) for the indexing decision, and defer
//! [`remember`](RecentPairs::remember) until after planning the line. A header is never
//! visible to its own earlier `seen` query.
//!
//! The ring starts zero-filled, so a header whose hash happens to be `0` reads as seen
//! during warm-up.
use vstd::prelude::*;
use std::hash::{DefaultHasher, Hasher};
use vstd::std_specs::hash::DefaultHasherAdditionalSpecFns;

verus! {

/// The byte written between name and value, so that `"ab" + "c"` and `"a" + "bc"` hash
/// differently.
const SEPARATOR: [u8; 1] = [0xff];

/// The hash of a pair: `DefaultHasher` fed the name, the separator and the value,
/// truncated to 32 bits.
pub open spec fn pair_hash(name: Seq<u8>, value: Seq<u8>) -> u32 {
    DefaultHasher::spec_finish(seq![name, seq![0xffu8], value]) as u32
}

/// How many times `hash` occurs in `hashes`.
pub open spec fn occurrences(hashes: Seq<u32>, hash: u32) -> nat
    decreases hashes.len(),
{
    if hashes.len() == 0 {
        0
    } else {
        occurrences(hashes.drop_last(), hash) + if hashes.last() == hash {
            1nat
        } else {
            0nat
        }
    }
}

/// A fixed-size ring of pair hashes with a write cursor.
#[derive(Debug)]
pub struct RecentPairs {
    hashes: Vec<u32>,
    cursor: usize,
}

impl RecentPairs {
    /// The slots of the ring, oldest write position first from the start of the buffer.
    pub closed spec fn slots(&self) -> Seq<u32> {
        self.hashes@
    }

    /// Where the next hash is written.
    pub closed spec fn next_slot(&self) -> int {
        self.cursor as int
    }

    /// The ring always has at least one slot and its cursor points into it.
    pub closed spec fn wf(&self) -> bool {
        self.hashes@.len() >= 1 && self.cursor < self.hashes@.len()
    }

    /// Construct a ring of `size` slots, all zero. `size` is clamped to at least 1 so the
    /// ring is always usable.
    pub fn with_size(size: usize) -> (ring: RecentPairs)
        ensures
            ring.wf(),
            ring.slots() == Seq::new(if size == 0 { 1 } else { size as nat }, |i: int| 0u32),
            ring.next_slot() == 0,
    {
        let size = if size == 0 {
            1
        } else {
            size
        };
        let mut hashes: Vec<u32> = Vec::new();
        let mut i: usize = 0;
        while i < size
            invariant
                i <= size,
                hashes@ == Seq::new(i as nat, |k: int| 0u32),
            decreases size - i,
        {
            hashes.push(0);
            i = i + 1;
            assert(hashes@ =~= Seq::new(i as nat, |k: int| 0u32));
        }
        RecentPairs { hashes, cursor: 0 }
    }

    /// Derive a ring size from a negotiated dynamic-table capacity (bytes): roughly twice
    /// the entry count the table can hold, clamped to `[8, 256]`.
    pub fn auto_size(table_capacity: usize) -> (size: usize)
        ensures
            size == if table_capacity / 32 < 8 {
                8
            } else if table_capacity / 32 > 256 {
                256
            } else {
                table_capacity / 32
            },
    {
        let entries = table_capacity / 32;
        if entries < 8 {
            8
        } else if entries > 256 {
            256
        } else {
            entries
        }
    }

    /// Derive the warming-insert sighting threshold from a negotiated dynamic-table
    /// capacity (bytes): insert on the 2nd sighting for tiny tables, the 3rd otherwise.
    pub fn auto_seen_k(table_capacity: usize) -> (k: u8)
        ensures
            k == if table_capacity >= 512 {
                3u8
            } else {
                2u8
            },
    {
        if table_capacity >= 512 {
            3
        } else {
            2
        }
    }

    /// Compute the ring-indexable hash for one `(name, value)` pair.
    pub fn hash(name: &[u8], value: &[u8]) -> (hash: u32)
        ensures
            hash == pair_hash(name@, value@),
    {
        let mut h = DefaultHasher::new();
        h.write(name);
        let separator: &[u8] = &SEPARATOR;
        assert(separator@ =~= seq![0xffu8]);
        h.write(separator);
        h.write(value);
        assert(h@ =~= seq![name@, seq![0xffu8], value@]);
        h.finish() as u32
    }

    /// Number of slots in the ring.
    pub fn size(&self) -> (size: usize)
        ensures
            size == self.slots().len(),
    {
        self.hashes.len()
    }

    /// Report whether `hash` is in the ring. Pure read — the ring is unchanged.
    pub fn seen(&self, hash: u32) -> (seen: bool)
        ensures
            seen == self.slots().contains(hash),
    {
        let mut i: usize = 0;
        while i < self.hashes.len()
            invariant
                0 <= i <= self.hashes@.len(),
                forall|k: int| 0 <= k < i ==> self.hashes@[k] != hash,
            decreases self.hashes@.len() - i,
        {
            if self.hashes[i] == hash {
                assert(self.hashes@[i as int] == hash);
                return true;
            }
            i = i + 1;
        }
        false
    }

    /// Count occurrences of `hash` in the ring. [`remember`](Self::remember) never dedupes,
    /// so each past sighting within the window occupies its own slot.
    pub fn count(&self, hash: u32) -> (count: usize)
        ensures
            count == occurrences(self.slots(), hash),
    {
        let mut count: usize = 0;
        let mut i: usize = 0;
        while i < self.hashes.len()
            invariant
                0 <= i <= self.hashes@.len(),
                count == occurrences(self.hashes@.subrange(0, i as int), hash),
                count <= i,
            decreases self.hashes@.len() - i,
        {
            proof {
                let next = self.hashes@.subrange(0, i + 1);
                assert(next.drop_last() =~= self.hashes@.subrange(0, i as int));
            }
            if self.hashes[i] == hash {
                count = count + 1;
            }
            i = i + 1;
        }
        assert(self.hashes@.subrange(0, i as int) =~= self.hashes@);
        count
    }

    /// Write `hash` at the cursor and advance.
    pub fn remember(&mut self, hash: u32)
        requires
            old(self).wf(),
        ensures
            final(self).wf(),
            (final(self).slots(), final(self).next_slot()) == ring_remember(
                old(self).slots(),
                old(self).next_slot(),
                hash,
            ),
    {
        let len = self.hashes.len();
        let cursor = self.cursor;
        assert(cursor < len);
        self.hashes.set(cursor, hash);
        self.cursor = (cursor + 1) % len;
    }
}

/// The ring of recently seen pair hashes after one more is remembered: its slots and
/// where the next hash goes.
pub open spec fn ring_remember(slots: Seq<u32>, cursor: int, hash: u32) -> (Seq<u32>, int) {
    (slots.update(cursor, hash), (cursor + 1) % (slots.len() as int))
}

/// The ring after each of `hashes` is remembered, in order.
pub open spec fn ring_remember_all(slots: Seq<u32>, cursor: int, hashes: Seq<u32>) -> (Seq<u32>, int)
    decreases hashes.len(),
{
    if hashes.len() == 0 {
        (slots, cursor)
    } else {
        let (s, c) = ring_remember_all(slots, cursor, hashes.drop_last());
        ring_remember(s, c, hashes.last())
    }
}

proof fn lemma_next_cursor(c: int, k: int)
    requires
        0 <= c < k,
    ensures
        (c + 1) % k == if c + 1 < k { c + 1 } else { 0 },
{
    if c + 1 < k {
        vstd::arithmetic::div_mod::lemma_small_mod((c + 1) as nat, k as nat);
    } else {
        vstd::arithmetic::div_mod::lemma_mod_self_0(k);
    }
}

/// Where the ring stands `m` remembers after `h` was written at `c`, while fewer than a
/// ring's worth have followed: the cursor has moved `m + 1` slots on, `h` still sits at
/// `c` and nowhere else; from a ring's worth on, `h` is gone.
proof fn lemma_ring_window_steps(slots: Seq<u32>, c: int, h: u32, later: Seq<u32>)
    requires
        0 <= c < slots.len(),
        !slots.contains(h),
        forall|j: int| 0 <= j < later.len() ==> later[j] != h,
    ensures
        ({
            let (s, cur) = ring_remember_all(slots, c, seq![h] + later);
            let k = slots.len() as int;
            let m = later.len() as int;
            &&& s.len() == k
            &&& 0 <= cur < k
            &&& m < k ==> cur == (if c + m + 1 < k { c + m + 1 } else { c + m + 1 - k }) && s[c] == h
                && forall|p: int| 0 <= p < k && p != c ==> s[p] != h
            &&& m >= k ==> !s.contains(h)
        }),
    decreases later.len(),
{
    let k = slots.len() as int;
    let all = seq![h] + later;
    if later.len() == 0 {
        assert(all.drop_last() =~= Seq::<u32>::empty());
        assert(ring_remember_all(slots, c, Seq::<u32>::empty()) == (slots, c));
        assert(all.last() == h);
        lemma_next_cursor(c, k);
        let s = slots.update(c, h);
        assert(ring_remember_all(slots, c, all) == (s, (c + 1) % k));
        assert forall|p: int| 0 <= p < k && p != c implies s[p] != h by {
            assert(slots[p] != h);
        }
    } else {
        let prev = later.drop_last();
        lemma_ring_window_steps(slots, c, h, prev);
        assert(all.drop_last() =~= seq![h] + prev);
        let (s0, cur0) = ring_remember_all(slots, c, seq![h] + prev);
        let x = later.last();
        assert(all.last() == x);
        lemma_next_cursor(cur0, k);
        let s = s0.update(cur0, x);
        assert(ring_remember_all(slots, c, all) == (s, (cur0 + 1) % k));
        let m = later.len() as int;
        if m < k {
            assert(cur0 != c);
            assert forall|p: int| 0 <= p < k && p != c implies s[p] != h by {
                if p != cur0 {
                    assert(s[p] == s0[p]);
                }
            }
        } else if m == k {
            assert(cur0 == c);
            assert forall|p: int| 0 <= p < k implies s[p] != h by {
                if p != cur0 {
                    assert(s0[p] != h);
                }
            }
            assert(!s.contains(h));
        } else {
            assert forall|p: int| 0 <= p < k implies s[p] != h by {
                if p != cur0 {
                    if s0[p] == h {
                        assert(s0.contains(h));
                    }
                }
            }
            assert(!s.contains(h));
        }
    }
}

/// A hash occurs nowhere in the ring exactly when it is not seen.
pub proof fn lemma_occurrences_zero(hashes: Seq<u32>, hash: u32)
    ensures
        occurrences(hashes, hash) == 0 <==> !hashes.contains(hash),
    decreases hashes.len(),
{
    if hashes.len() > 0 {
        let init = hashes.drop_last();
        lemma_occurrences_zero(init, hash);
        if init.contains(hash) {
            let k = choose|k: int| 0 <= k < init.len() && init[k] == hash;
            assert(hashes[k] == hash);
        }
        if hashes.contains(hash) {
            let k = choose|k: int| 0 <= k < hashes.len() && hashes[k] == hash;
            if k < init.len() {
                assert(init[k] == hash);
            }
        }
    }
}

/// A ring keeps a hash visible for exactly its size in remembers: once `h`, counted
/// nowhere in the ring, is remembered, it is seen after `m` more remembers of other
/// hashes exactly when `m` is smaller than the ring's size, and the ring keeps its size
/// throughout.
pub proof fn lemma_ring_window(slots: Seq<u32>, cursor: int, h: u32, later: Seq<u32>)
    requires
        0 <= cursor < slots.len(),
        occurrences(slots, h) == 0,
        forall|j: int| 0 <= j < later.len() ==> later[j] != h,
    ensures
        ring_remember_all(slots, cursor, seq![h] + later).0.len() == slots.len(),
        ring_remember_all(slots, cursor, seq![h] + later).0.contains(h) <==> later.len() < slots.len(),
{
    lemma_occurrences_zero(slots, h);
    lemma_ring_window_steps(slots, cursor, h, later);
    let (s, cur) = ring_remember_all(slots, cursor, seq![h] + later);
    if later.len() < slots.len() {
        assert(s[cursor] == h);
    }
}

/// A remembered hash is seen: the slot just written holds it.
pub proof fn lemma_remember_then_seen(slots: Seq<u32>, cursor: int, hash: u32)
    requires
        0 <= cursor < slots.len(),
    ensures
        slots.update(cursor, hash).contains(hash),
{
    assert(slots.update(cursor, hash)[cursor] == hash);
}

/// Remembering a hash changes what else is seen only through the one slot it overwrites:
/// any other hash is seen afterwards exactly when some other slot held it.
pub proof fn lemma_remember_keeps_others(slots: Seq<u32>, cursor: int, hash: u32, other: u32)
    requires
        0 <= cursor < slots.len(),
        other != hash,
    ensures
        slots.update(cursor, hash).contains(other) <==> exists|k: int|
            0 <= k < slots.len() && k != cursor && slots[k] == other,
{
    let after = slots.update(cursor, hash);
    if after.contains(other) {
        let k = choose|k: int| 0 <= k < after.len() && after[k] == other;
        assert(k != cursor);
        assert(slots[k] == other);
    }
    if exists|k: int| 0 <= k < slots.len() && k != cursor && slots[k] == other {
        let k = choose|k: int| 0 <= k < slots.len() && k != cursor && slots[k] == other;
        assert(after[k] == other);
    }
}

} // verus!
