use collab_core::access::PolicyAccessControl;
use collab_core::cache::CollabCache;
use collab_core::errors::AppError;
use collab_core::snapshot::InsertSnapshotParams;
use collab_core::snapshot::SnapshotControl;
use collab_core::storage::CollabStorageImpl;

fn new_storage() -> CollabStorageImpl<PolicyAccessControl> {
    CollabStorageImpl::new(CollabCache::new(), PolicyAccessControl::new(), SnapshotControl::new())
}

fn params(oid: &str, bytes: Vec<u8>) -> InsertSnapshotParams {
    InsertSnapshotParams {
        object_id: oid.to_string(),
        workspace_id: "ws1".to_string(),
        encoded_collab_v1: bytes,
    }
}

#[test]
fn snapshots_get_fresh_monotone_ids() {
    let mut storage = new_storage();
    let m1 = storage.create_snapshot(params("doc1", vec![1u8])).unwrap();
    let m2 = storage.create_snapshot(params("doc1", vec![2u8])).unwrap();
    let m3 = storage.create_snapshot(params("doc2", vec![3u8])).unwrap();
    assert_eq!(m1.snapshot_id, 0);
    assert_eq!(m2.snapshot_id, 1);
    assert_eq!(m3.snapshot_id, 2);
    assert_eq!(m1.object_id, "doc1".to_string());
}

#[test]
fn snapshot_listing_filters_by_object_in_creation_order() {
    let mut storage = new_storage();
    storage.create_snapshot(params("doc1", vec![1u8])).unwrap();
    storage.create_snapshot(params("doc2", vec![2u8])).unwrap();
    storage.create_snapshot(params("doc1", vec![3u8])).unwrap();
    let list = storage.get_collab_snapshot_list(&"doc1".to_string());
    assert_eq!(list.len(), 2);
    assert_eq!(list[0].snapshot_id, 0);
    assert_eq!(list[1].snapshot_id, 2);
    assert!(storage.get_collab_snapshot_list(&"doc3".to_string()).is_empty());
}

#[test]
fn snapshot_read_returns_the_stored_state() {
    let mut storage = new_storage();
    let meta = storage.create_snapshot(params("doc1", vec![4u8, 5])).unwrap();
    let data = storage
        .get_collab_snapshot(&"ws1".to_string(), &"doc1".to_string(), meta.snapshot_id)
        .unwrap();
    assert_eq!(data.object_id, "doc1".to_string());
    assert_eq!(data.encoded_collab_v1, vec![4u8, 5]);
}

#[test]
fn missing_snapshot_is_not_found() {
    let storage = new_storage();
    let r = storage.get_collab_snapshot(&"ws1".to_string(), &"doc1".to_string(), 7);
    assert!(matches!(r, Err(AppError::NotFound(_))));
}

#[test]
fn invalid_snapshot_params_are_rejected() {
    let mut storage = new_storage();
    let r = storage.create_snapshot(params("", vec![1u8]));
    assert!(matches!(r, Err(AppError::Validation(_))));
    let r2 = storage.create_snapshot(params("doc1", Vec::new()));
    assert!(matches!(r2, Err(AppError::Validation(_))));
    let r3 = storage.queue_snapshot(params("", vec![1u8]));
    assert!(matches!(r3, Err(AppError::Validation(_))));
}

#[test]
fn queueing_defers_creation() {
    let mut storage = new_storage();
    assert!(storage.queue_snapshot(params("doc1", vec![1u8])).is_ok());
    // the queued request created nothing yet
    assert!(storage.get_collab_snapshot_list(&"doc1".to_string()).is_empty());
    assert_eq!(storage.snapshot_control.pending.len(), 1);
}

#[test]
fn snapshot_is_due_until_one_exists() {
    let mut storage = new_storage();
    assert!(storage.should_create_snapshot(&"doc1".to_string()));
    storage.create_snapshot(params("doc1", vec![1u8])).unwrap();
    assert!(!storage.should_create_snapshot(&"doc1".to_string()));
    assert!(storage.should_create_snapshot(&"doc2".to_string()));
}
