use iwm_runtime_core::context::{merged_statement_overlay, RuntimeRoomInstanceOverlay};
use iwm_runtime_core::instance_updates::{
    commit_instance_updates, sync_current_instance_from_updates, sync_instance_from_updates,
};
use iwm_runtime_core::overlay::RuntimeSparseInstanceOverlay;
use std::collections::HashMap;

#[test]
fn sparse_overlay_set_get_take() {
    let mut overlay: RuntimeSparseInstanceOverlay<u32> = RuntimeSparseInstanceOverlay::new();
    assert_eq!(overlay.get(3), None);
    overlay.set(3, 30);
    overlay.set(1, 10);
    overlay.set(3, 31);
    assert_eq!(overlay.get(3), Some(&31));
    assert_eq!(overlay.get(1), Some(&10));
    assert_eq!(overlay.get(2), None);
    assert_eq!(overlay.dirty_indices(), &[3, 1]);
    assert_eq!(overlay.take(3), Some(31));
    assert_eq!(overlay.take(3), None);
    assert_eq!(overlay.get(3), None);
    assert_eq!(overlay.dirty_indices(), &[3, 1]);
    assert_eq!(overlay.take(99), None);
}

#[test]
fn sparse_overlay_drain_in_first_write_order() {
    let mut overlay: RuntimeSparseInstanceOverlay<u32> = RuntimeSparseInstanceOverlay::new();
    overlay.set(5, 50);
    overlay.set(2, 20);
    overlay.set(5, 51);
    overlay.set(7, 70);
    let _ = overlay.take(2);
    assert_eq!(overlay.drain_dirty_updates(), vec![(5, 51), (7, 70)]);
    assert_eq!(overlay.dirty_indices(), &[] as &[usize]);
    assert_eq!(overlay.get(5), None);
    overlay.set(2, 21);
    assert_eq!(overlay.drain_dirty_updates(), vec![(2, 21)]);
}

#[test]
fn drain_then_commit_writes_back_every_held_instance() {
    let mut overlay: RuntimeSparseInstanceOverlay<u32> = RuntimeSparseInstanceOverlay::new();
    overlay.set(4, 40);
    overlay.set(0, 1);
    overlay.set(4, 41);
    let mut committed: HashMap<usize, u32> = HashMap::new();
    committed.insert(4, 400);
    committed.insert(9, 900);
    let updates = overlay.drain_dirty_updates();
    commit_instance_updates(&mut committed, updates);
    assert_eq!(committed.len(), 3);
    assert_eq!(committed[&4], 41);
    assert_eq!(committed[&0], 1);
    assert_eq!(committed[&9], 900);
}

#[test]
fn sparse_overlay_snapshot_and_extend() {
    let mut overlay: RuntimeSparseInstanceOverlay<u32> = RuntimeSparseInstanceOverlay::new();
    overlay.set(2, 20);
    overlay.set(0, 0);
    let snapshot = overlay.snapshot();
    assert_eq!(snapshot.dirty_indices(), &[2, 0]);
    assert_eq!(snapshot.get(2), Some(&20));
    let mut other: RuntimeSparseInstanceOverlay<u32> = RuntimeSparseInstanceOverlay::new();
    other.set(0, 5);
    other.set(8, 80);
    other.extend_from_overlay(&overlay);
    assert_eq!(other.dirty_indices(), &[0, 8, 2]);
    assert_eq!(other.get(0), Some(&0));
    assert_eq!(other.get(8), Some(&80));
    other.clear_dirty();
    assert_eq!(other.get(8), None);
    assert_eq!(other.dirty_indices(), &[] as &[usize]);
    other.ensure_capacity(20);
    assert_eq!(other.get(20), None);
}

#[test]
fn room_overlay_prefers_current_then_last_pending_then_committed() {
    let mut committed: HashMap<usize, u32> = HashMap::new();
    committed.insert(0, 100);
    committed.insert(1, 101);
    let pending = vec![(1, 11), (2, 12), (1, 21)];
    let overlay = RuntimeRoomInstanceOverlay::with_current(&committed, &pending, 3, &33);
    let fallback = 999;
    assert_eq!(*overlay.instance_at(3, &fallback), 33);
    assert_eq!(*overlay.instance_at(1, &fallback), 21);
    assert_eq!(*overlay.instance_at(2, &fallback), 12);
    assert_eq!(*overlay.instance_at(0, &fallback), 100);
    assert_eq!(*overlay.instance_at(5, &fallback), 999);
    assert_eq!(overlay.extra_current_instance(3), Some((3, &33)));
    assert_eq!(overlay.extra_current_instance(4), None);

    let merged = overlay.merge_pending_current(&[(0, 50)], 2, &42);
    assert_eq!(*merged.instance_at(0, &fallback), 50);
    assert_eq!(*merged.instance_at(2, &fallback), 42);
    assert_eq!(*merged.instance_at(3, &fallback), 999);
    assert_eq!(*merged.instance_at(1, &fallback), 21);

    let empty: RuntimeRoomInstanceOverlay<u32> = RuntimeRoomInstanceOverlay::empty();
    assert_eq!(*empty.instance_at(0, &fallback), 999);
    assert_eq!(empty.extra_current_instance(0), None);
}

#[test]
fn room_overlay_without_current_matches_commit() {
    let mut committed: HashMap<usize, u32> = HashMap::new();
    committed.insert(0, 100);
    let pending = vec![(1, 11), (0, 10), (1, 12)];
    let base: RuntimeRoomInstanceOverlay<u32> = RuntimeRoomInstanceOverlay::empty();
    let overlay = base.merge_pending_current(&pending, 7, &7);
    let mut after = committed.clone();
    commit_instance_updates(&mut after, pending.clone());
    let with_committed = RuntimeRoomInstanceOverlay::with_current(&committed, &pending, 7, &7);
    for index in 0..3 {
        let fallback = 999;
        let expected = after.get(&index).copied().unwrap_or(fallback);
        assert_eq!(*with_committed.instance_at(index, &fallback), expected);
    }
    assert_eq!(*overlay.instance_at(1, &0), 12);
}

#[test]
fn merged_statement_overlay_adds_the_sparse_updates() {
    let committed: HashMap<usize, u32> = HashMap::new();
    let base = RuntimeRoomInstanceOverlay::with_current(&committed, &[(4, 40)], 0, &1);
    let mut pending: RuntimeSparseInstanceOverlay<u32> = RuntimeSparseInstanceOverlay::new();
    pending.set(4, 44);
    pending.set(6, 66);
    let merged = merged_statement_overlay(&base, &pending, 9, &90);
    assert_eq!(*merged.instance_at(4, &0), 44);
    assert_eq!(*merged.instance_at(6, &0), 66);
    assert_eq!(*merged.instance_at(9, &0), 90);
    assert_eq!(*merged.instance_at(0, &0), 0);
}

#[test]
fn sync_instance_takes_the_pending_update() {
    let mut pending: RuntimeSparseInstanceOverlay<u32> = RuntimeSparseInstanceOverlay::new();
    pending.set(2, 22);
    let mut current = 2;
    sync_instance_from_updates(2, &mut current, &mut pending);
    assert_eq!(current, 22);
    assert_eq!(pending.get(2), None);
    sync_instance_from_updates(2, &mut current, &mut pending);
    assert_eq!(current, 22);
}

#[test]
fn sync_current_instance_clears_only_its_index() {
    let mut updates = vec![(1, 10), (2, 20), (1, 11), (3, 30)];
    let mut current = 0;
    sync_current_instance_from_updates(1, &mut current, &mut updates);
    assert_eq!(current, 11);
    assert_eq!(updates, vec![(2, 20), (3, 30)]);
    sync_current_instance_from_updates(5, &mut current, &mut updates);
    assert_eq!(current, 11);
    assert_eq!(updates, vec![(2, 20), (3, 30)]);
}

#[test]
fn commit_writes_updates_in_order() {
    let mut committed: HashMap<usize, u32> = HashMap::new();
    committed.insert(1, 1);
    commit_instance_updates(&mut committed, vec![(2, 20), (1, 10), (2, 21)]);
    assert_eq!(committed.len(), 2);
    assert_eq!(committed[&1], 10);
    assert_eq!(committed[&2], 21);
    commit_instance_updates(&mut committed, Vec::new());
    assert_eq!(committed.len(), 2);
}
