use qpack::recent_pairs::RecentPairs;

/// Combined check+write helper: query `seen` for the (name, value) hash, then `remember`
/// it, returning the seen result.
fn check(p: &mut RecentPairs, name: &[u8], value: &[u8]) -> bool {
    let h = RecentPairs::hash(name, value);
    let seen = p.seen(h);
    p.remember(h);
    seen
}

#[test]
fn recent_pairs_first_sighting_is_unseen_second_is_seen() {
    let mut p = RecentPairs::with_size(12);
    assert!(!check(&mut p, b"x-a", b"1"));
    assert!(check(&mut p, b"x-a", b"1"));
}

#[test]
fn different_values_under_same_name_are_independent() {
    let mut p = RecentPairs::with_size(12);
    assert!(!check(&mut p, b"x-a", b"1"));
    assert!(!check(&mut p, b"x-a", b"2"));
    assert!(check(&mut p, b"x-a", b"1"));
    assert!(check(&mut p, b"x-a", b"2"));
}

#[test]
fn recent_pairs_nameval_separator_prevents_concat_collision() {
    let mut p = RecentPairs::with_size(12);
    assert!(!check(&mut p, b"x-ab", b"c"));
    assert!(!check(&mut p, b"x-a", b"bc"));
}

#[test]
fn recent_pairs_seen_does_not_mutate_the_ring() {
    let mut p = RecentPairs::with_size(12);
    let h1 = RecentPairs::hash(b"x-a", b"1");
    p.remember(h1);
    let h2 = RecentPairs::hash(b"x-b", b"1");
    let _ = p.seen(h2);
    let _ = p.seen(h2);
    let _ = p.seen(h2);
    assert!(p.seen(h1));
    assert!(!p.seen(h2));
}

#[test]
fn ring_evicts_oldest_after_full_cycle() {
    let ring_size = 12;
    let mut p = RecentPairs::with_size(ring_size);
    assert!(!check(&mut p, b"x-target", b"v"));
    for i in 0..ring_size {
        let name = format!("pad-{i}");
        assert!(!check(&mut p, name.as_bytes(), b"v"));
    }
    // After ring_size + 1 distinct remembers, the target's slot has been overwritten.
    assert!(!check(&mut p, b"x-target", b"v"));
}

#[test]
fn with_size_clamps_zero_to_one() {
    let mut p = RecentPairs::with_size(0);
    assert_eq!(p.size(), 1);
    // A 1-slot ring is functional (degenerate but doesn't panic on modulo).
    let h = RecentPairs::hash(b"x", b"y");
    p.remember(h);
    assert!(p.seen(h));
}

#[test]
fn count_tracks_each_sighting_in_the_window() {
    let mut p = RecentPairs::with_size(3);
    let h = RecentPairs::hash(b"x-a", b"1");
    assert_eq!(p.count(h), 0);
    p.remember(h);
    p.remember(h);
    assert_eq!(p.count(h), 2);
    p.remember(RecentPairs::hash(b"x-b", b"1"));
    p.remember(RecentPairs::hash(b"x-c", b"1"));
    assert_eq!(p.count(h), 1);
}

#[test]
fn auto_sizes_follow_the_table_capacity() {
    assert_eq!(RecentPairs::auto_size(0), 8);
    assert_eq!(RecentPairs::auto_size(1024), 32);
    assert_eq!(RecentPairs::auto_size(1 << 20), 256);
    assert_eq!(RecentPairs::auto_seen_k(511), 2);
    assert_eq!(RecentPairs::auto_seen_k(512), 3);
}

#[test]
fn hash_is_deterministic() {
    assert_eq!(RecentPairs::hash(b"x-a", b"1"), RecentPairs::hash(b"x-a", b"1"));
}

#[test]
fn remembered_hash_stays_for_exactly_the_ring_size() {
    let mut ring = RecentPairs::with_size(3);
    ring.remember(7);
    ring.remember(1);
    ring.remember(2);
    assert!(ring.seen(7));
    assert_eq!(ring.size(), 3);
    ring.remember(3);
    assert!(!ring.seen(7));
    assert_eq!(ring.size(), 3);
}
