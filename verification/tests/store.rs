//! Handle-store behaviour: stable handles, stale lookups, slot reuse.
use orbit_scene::handle::Handle;
use orbit_scene::handle::Store;

#[test]
fn insert_then_get_returns_value() {
    let mut s: Store<u64> = Store::new();
    let h = s.insert(41);
    assert_eq!(s.get(h).copied(), Some(41));
}

#[test]
fn remove_returns_value_and_invalidates_handle() {
    let mut s: Store<u64> = Store::new();
    let h = s.insert(7);
    assert_eq!(s.remove(h), Some(7));
    assert!(s.get(h).is_none());
    assert!(s.remove(h).is_none());
}

#[test]
fn handle_stability_after_slot_reuse() {
    // Removing entry A then inserting entry B must never let A's handle
    // resolve to B, even though B reuses A's slot.
    let mut s: Store<u64> = Store::new();
    let a = s.insert(1);
    assert_eq!(s.remove(a), Some(1));
    let b = s.insert(2);
    assert_eq!(b.index, a.index, "the slot is reused");
    assert_ne!(a, b, "but the stale handle differs");
    assert!(s.get(a).is_none(), "the stale handle resolves to nothing");
    assert_eq!(s.get(b).copied(), Some(2));
}

#[test]
fn distinct_live_handles_do_not_alias() {
    let mut s: Store<u64> = Store::new();
    let a = s.insert(10);
    let b = s.insert(20);
    assert_ne!(a, b);
    assert_eq!(s.get(a).copied(), Some(10));
    assert_eq!(s.get(b).copied(), Some(20));
}

#[test]
fn handle_at_reports_slots() {
    let mut s: Store<u64> = Store::new();
    let a = s.insert(10);
    let b = s.insert(20);
    assert_eq!(s.slot_count(), 2);
    assert_eq!(s.handle_at(0), Some(a));
    assert_eq!(s.handle_at(1), Some(b));
    s.remove(a);
    assert_eq!(s.handle_at(0), None);
    let c = s.insert(30);
    assert_eq!(s.handle_at(0), Some(c));
    assert_ne!(s.handle_at(0), Some(a));
}

#[test]
fn stale_handle_with_forged_generation_misses() {
    let mut s: Store<u64> = Store::new();
    let a = s.insert(5);
    let forged = Handle { index: a.index, generation: a.generation + 1 };
    assert!(s.get(forged).is_none());
}
