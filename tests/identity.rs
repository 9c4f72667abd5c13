use wgpu_hub::{BufferId, DeviceId, Id, IdentityManager};

#[test]
fn first_handle_is_index_zero_epoch_one() {
    let mut m: IdentityManager<wgpu_hub::id::DeviceKind> = IdentityManager::new();
    let h = m.allocate();
    assert_eq!(h.index(), 0);
    assert_eq!(h.epoch(), 1);
}

#[test]
fn allocations_without_free_have_distinct_indices() {
    let mut m: IdentityManager<wgpu_hub::id::BufferKind> = IdentityManager::default();
    let ids: Vec<BufferId> = (0..100).map(|_| m.allocate()).collect();
    for (k, id) in ids.iter().enumerate() {
        assert_eq!(id.index() as usize, k);
        assert_eq!(id.epoch(), 1);
        for other in &ids[..k] {
            assert_ne!(other.index(), id.index());
        }
    }
}

#[test]
fn freed_slot_is_reused_one_epoch_later() {
    let mut m: IdentityManager<wgpu_hub::id::DeviceKind> = IdentityManager::new();
    let a = m.allocate();
    let b = m.allocate();
    m.free(a);
    let c = m.allocate();
    assert_eq!(c, Id::new(0, 2));
    assert_ne!(c, a);
    assert_eq!(b, Id::new(1, 1));
}

#[test]
fn most_recently_freed_slot_comes_first() {
    let mut m: IdentityManager<wgpu_hub::id::DeviceKind> = IdentityManager::new();
    let a = m.allocate();
    let b = m.allocate();
    m.free(a);
    m.free(b);
    let c = m.allocate();
    let d = m.allocate();
    assert_eq!(c, Id::new(1, 2));
    assert_eq!(d, Id::new(0, 2));
    let e = m.allocate();
    assert_eq!(e, Id::new(2, 1));
}

#[test]
fn epochs_of_one_slot_strictly_increase() {
    let mut m: IdentityManager<wgpu_hub::id::DeviceKind> = IdentityManager::new();
    let mut last = 0;
    for _ in 0..10 {
        let h: DeviceId = m.allocate();
        assert_eq!(h.index(), 0);
        assert!(h.epoch() > last);
        last = h.epoch();
        m.free(h);
    }
    assert_eq!(last, 10);
}

#[test]
fn freed_handle_is_no_longer_allocated() {
    let mut m: IdentityManager<wgpu_hub::id::DeviceKind> = IdentityManager::new();
    let h = m.allocate();
    assert!(m.is_allocated(h));
    m.free(h);
    assert!(!m.is_allocated(h));
    let again = m.allocate();
    assert_eq!(again.index(), h.index());
    assert!(m.is_allocated(again));
    assert!(!m.is_allocated(h));
}

#[test]
fn unknown_index_is_not_allocated() {
    let m: IdentityManager<wgpu_hub::id::DeviceKind> = IdentityManager::new();
    assert!(!m.is_allocated(Id::new(0, 1)));
    assert!(m.has_capacity());
}

#[test]
fn handles_compare_by_index_and_epoch() {
    let a: DeviceId = Id::new(3, 4);
    let b: DeviceId = Id::new(3, 4);
    let c: DeviceId = Id::new(3, 5);
    let d: DeviceId = Id::new(2, 4);
    assert_eq!(a, b);
    assert_ne!(a, c);
    assert_ne!(a, d);
    let copied = a;
    assert_eq!(copied.index(), 3);
    assert_eq!(copied.epoch(), 4);
}
