use wgpu_hub::{Id, IdentityManager, Storage, TextureId};

type Kind = wgpu_hub::id::TextureKind;

#[test]
fn spec_example_walkthrough() {
    let mut ids: IdentityManager<Kind> = IdentityManager::new();
    let mut data: Storage<String, Kind> = Storage::new();
    let h0 = ids.allocate();
    assert_eq!(h0, Id::new(0, 1));
    data.insert(h0.index(), "A".to_string(), h0.epoch());
    assert_eq!(data.get(h0), "A");
    let (value, epoch) = data.remove(h0.index());
    assert_eq!(value, "A");
    assert_eq!(epoch, 1);
    ids.free(h0);
    let h1 = ids.allocate();
    data.insert(h1.index(), "B".to_string(), h1.epoch());
    assert_eq!(h1, Id::new(0, 2));
    assert!(!data.contains(h0));
    assert!(data.contains(h1));
    assert_eq!(data.get(h1), "B");
}

#[test]
fn round_trip_then_lookup_fails() {
    let mut data: Storage<u64, Kind> = Storage::default();
    let h: TextureId = Id::new(0, 1);
    data.insert(h.index(), 42, h.epoch());
    assert!(data.contains(h));
    assert_eq!(*data.get(h), 42);
    assert_eq!(data.remove(h.index()), (42, 1));
    assert!(!data.contains(h));
    assert!(!data.is_occupied(0));
}

#[test]
fn wrong_epoch_is_rejected() {
    let mut data: Storage<u64, Kind> = Storage::new();
    data.insert(2, 5, 3);
    assert!(data.contains(Id::new(2, 3)));
    assert!(!data.contains(Id::new(2, 2)));
    assert!(!data.contains(Id::new(2, 4)));
    assert!(data.is_occupied(2));
}

#[test]
fn sparse_indices_leave_gaps_empty() {
    let mut data: Storage<u64, Kind> = Storage::new();
    data.insert(10, 1, 1);
    data.insert(3, 2, 1);
    assert!(data.is_occupied(10));
    assert!(data.is_occupied(3));
    for i in [0u32, 1, 2, 4, 9, 11, 1000] {
        assert!(!data.is_occupied(i));
        assert!(!data.contains(Id::new(i, 1)));
    }
    assert_eq!(*data.get(Id::new(10, 1)), 1);
    assert_eq!(*data.get(Id::new(3, 1)), 2);
}

#[test]
fn get_mut_changes_payload_and_keeps_epoch() {
    let mut data: Storage<u64, Kind> = Storage::new();
    let h: TextureId = Id::new(1, 7);
    data.insert(1, 10, 7);
    *data.get_mut(h) += 5;
    assert_eq!(*data.get(h), 15);
    assert_eq!(data.remove(1), (15, 7));
}

#[test]
fn stale_handle_rejected_after_refill() {
    let mut data: Storage<u64, Kind> = Storage::new();
    let old: TextureId = Id::new(0, 1);
    data.insert(0, 1, 1);
    data.remove(0);
    data.insert(0, 2, 2);
    assert!(!data.contains(old));
    assert!(data.contains(Id::new(0, 2)));
}

#[test]
fn empty_storage_holds_nothing() {
    let data: Storage<u64, Kind> = Storage::new();
    assert!(!data.is_occupied(0));
    assert!(!data.contains(Id::new(0, 1)));
    assert!(!data.contains(Id::new(u32::MAX, u32::MAX)));
}
