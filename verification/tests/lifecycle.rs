//! Handle and resource lifecycle: refcounting, finalization, and stale
//! handles.

use wapc_bridge::{BridgeError, CallBridge, HandleTable, ResourceSlab};

#[test]
fn refcount_clone_then_drop_keeps_resource_alive() {
    let mut b: CallBridge<String> = CallBridge::new();
    let h = b.resource_new(String::from("res"));
    let h2 = b.resource_clone(h).unwrap();
    assert_ne!(h, h2);
    // The first drop only lowers the count: nothing is finalized yet.
    assert!(matches!(b.resource_drop(h), Ok(None)));
    // The resource is still alive through the second handle.
    assert_eq!(b.resource_get(h2).unwrap(), "res");
    // The last drop finalizes, handing the value out exactly once.
    match b.resource_drop(h2) {
        Ok(Some(v)) => assert_eq!(v, "res"),
        _ => panic!("last drop must hand the value out"),
    }
}

#[test]
fn finalizer_runs_once_first_order() {
    let mut b: CallBridge<u64> = CallBridge::new();
    let h = b.resource_new(42);
    let h2 = b.resource_clone(h).unwrap();
    let mut finalized = 0;
    if let Ok(Some(_)) = b.resource_drop(h) {
        finalized += 1;
    }
    if let Ok(Some(_)) = b.resource_drop(h2) {
        finalized += 1;
    }
    assert_eq!(finalized, 1);
}

#[test]
fn finalizer_runs_once_reverse_order() {
    let mut b: CallBridge<u64> = CallBridge::new();
    let h = b.resource_new(42);
    let h2 = b.resource_clone(h).unwrap();
    let mut finalized = 0;
    if let Ok(Some(_)) = b.resource_drop(h2) {
        finalized += 1;
    }
    if let Ok(Some(_)) = b.resource_drop(h) {
        finalized += 1;
    }
    assert_eq!(finalized, 1);
}

#[test]
fn dead_handle_never_resolves_against_reused_slot() {
    let mut b: CallBridge<u64> = CallBridge::new();
    let h0 = b.resource_new(10);
    assert!(matches!(b.resource_drop(h0), Ok(Some(10))));
    // A new resource may reuse the freed slot, but never the old handle.
    let h1 = b.resource_new(20);
    assert_ne!(h0, h1);
    assert!(matches!(b.resource_get(h0), Err(BridgeError::InvalidHandle)));
    assert!(matches!(b.resource_clone(h0), Err(BridgeError::InvalidHandle)));
    assert!(matches!(b.resource_drop(h0), Err(BridgeError::InvalidHandle)));
    assert_eq!(*b.resource_get(h1).unwrap(), 20);
}

#[test]
fn handle_table_insert_get_remove() {
    let mut t = HandleTable::new();
    let h = t.insert(5);
    assert_eq!(t.get(h).unwrap(), 5);
    assert_eq!(t.remove(h).unwrap(), 5);
    assert!(matches!(t.get(h), Err(BridgeError::InvalidHandle)));
    assert!(matches!(t.remove(h), Err(BridgeError::InvalidHandle)));
    // Handles are minted monotonically: a removed value never comes back.
    let h2 = t.insert(6);
    assert_ne!(h, h2);
    assert!(matches!(t.get(h), Err(BridgeError::InvalidHandle)));
}

#[test]
fn slab_insert_clone_get_drop() {
    let mut s: ResourceSlab<u64> = ResourceSlab::new();
    assert!(matches!(s.get(0), Err(BridgeError::InvalidSlot)));
    let i = s.insert(7);
    assert_eq!(*s.get(i).unwrap(), 7);
    s.clone_ref(i).unwrap();
    assert!(matches!(s.drop_ref(i), Ok(None)));
    assert!(matches!(s.drop_ref(i), Ok(Some(7))));
    assert!(matches!(s.drop_ref(i), Err(BridgeError::InvalidSlot)));
    assert!(matches!(s.clone_ref(i), Err(BridgeError::InvalidSlot)));
    assert!(matches!(s.get(i), Err(BridgeError::InvalidSlot)));
}

#[test]
fn slab_reuses_freed_slot() {
    let mut s: ResourceSlab<u64> = ResourceSlab::new();
    let i0 = s.insert(1);
    assert!(matches!(s.drop_ref(i0), Ok(Some(1))));
    let i1 = s.insert(2);
    assert_eq!(i0, i1);
    assert_eq!(*s.get(i1).unwrap(), 2);
}

#[test]
fn clones_share_one_resource() {
    let mut b: CallBridge<u64> = CallBridge::new();
    let h = b.resource_new(5);
    let h2 = b.resource_clone(h).unwrap();
    let h3 = b.resource_clone(h2).unwrap();
    assert_eq!(*b.resource_get(h).unwrap(), 5);
    assert_eq!(*b.resource_get(h2).unwrap(), 5);
    assert_eq!(*b.resource_get(h3).unwrap(), 5);
    assert!(matches!(b.resource_drop(h3), Ok(None)));
    assert!(matches!(b.resource_drop(h2), Ok(None)));
    assert!(matches!(b.resource_drop(h), Ok(Some(5))));
}
