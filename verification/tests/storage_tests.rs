use collab_core::access::AccessLevel;
use collab_core::access::PolicyAccessControl;
use collab_core::access::CollabStorageAccessControl;
use collab_core::cache::CollabCache;
use collab_core::entities::CollabParams;
use collab_core::entities::EncodedCollab;
use collab_core::entities::QueryCollab;
use collab_core::entities::QueryCollabParams;
use collab_core::entities::QueryCollabResult;
use collab_core::errors::AppError;
use collab_core::errors::CollabAction;
use collab_core::snapshot::SnapshotControl;
use collab_core::storage::CollabStorageImpl;
use collab_core::storage::EditingCollabReply;

fn new_storage() -> CollabStorageImpl<PolicyAccessControl> {
    let mut ac = PolicyAccessControl::new();
    ac.add_workspace_member(1, "ws1".to_string());
    CollabStorageImpl::new(CollabCache::new(), ac, SnapshotControl::new())
}

fn query(oid: &str) -> QueryCollabParams {
    QueryCollabParams {
        workspace_id: "ws1".to_string(),
        object_id: oid.to_string(),
    }
}

#[test]
fn creation_grants_exactly_one_full_access_policy_and_read_succeeds() {
    let mut storage = new_storage();
    let params = CollabParams::new_signed("doc1".to_string(), vec![1u8, 2, 3]);
    let r = storage.insert_or_update_collab(&"ws1".to_string(), 1, params);
    assert!(r.is_ok());
    // exactly one FullAccess policy row for the creator
    let n = storage.access_control.count_policies_for(1, &"doc1".to_string());
    assert_eq!(n, 1);
    let level = storage.access_control.get_access_level(1, &"doc1".to_string());
    assert!(matches!(level, Some(AccessLevel::FullAccess)));
    // a subsequent read by the creator succeeds
    let got = storage.get_encode_collab(1, query("doc1"), true, EditingCollabReply::TimedOut);
    assert_eq!(got.unwrap().doc_state, vec![1u8, 2, 3]);
}

#[test]
fn duplicate_creation_leaves_one_object() {
    let mut storage = new_storage();
    let p1 = CollabParams::new_signed("doc1".to_string(), vec![1u8]);
    let p2 = CollabParams::new_signed("doc1".to_string(), vec![2u8]);
    assert!(storage.insert_or_update_collab(&"ws1".to_string(), 1, p1).is_ok());
    // the second attempt for the same object id lands as an update
    assert!(storage.insert_or_update_collab(&"ws1".to_string(), 1, p2).is_ok());
    assert_eq!(storage.cache.len(), 1);
    let got = storage.get_encode_collab(1, query("doc1"), true, EditingCollabReply::TimedOut);
    assert_eq!(got.unwrap().doc_state, vec![2u8]);
}

#[test]
fn concurrent_creator_without_policy_cannot_overwrite() {
    let mut storage = new_storage();
    storage.access_control.add_workspace_member(2, "ws1".to_string());
    let p1 = CollabParams::new_signed("doc1".to_string(), vec![1u8]);
    assert!(storage.insert_or_update_collab(&"ws1".to_string(), 1, p1).is_ok());
    // the loser of the race sees the object already present and needs
    // write-collab permission on it
    let p2 = CollabParams::new_signed("doc1".to_string(), vec![2u8]);
    let r = storage.insert_or_update_collab(&"ws1".to_string(), 2, p2);
    match r {
        Err(AppError::PermissionDenied { uid, action, target }) => {
            assert_eq!(uid, 2);
            assert_eq!(action, CollabAction::UpdateCollab);
            assert_eq!(target, "doc1".to_string());
        }
        other => panic!("expected a permission denial, got {:?}", other),
    }
    assert_eq!(storage.cache.len(), 1);
}

#[test]
fn insert_rejects_invalid_params() {
    let mut storage = new_storage();
    let params = CollabParams::new_signed("".to_string(), vec![1u8]);
    let r = storage.insert_or_update_collab(&"ws1".to_string(), 1, params);
    assert!(matches!(r, Err(AppError::Validation(_))));
    assert_eq!(storage.cache.len(), 0);
}

#[test]
fn insert_rejects_corrupted_payload() {
    let mut storage = new_storage();
    let mut params = CollabParams::new_signed("doc1".to_string(), vec![1u8, 2, 3]);
    params.encoded_collab = vec![9u8, 9, 9]; // no longer matches the declared hash
    let r = storage.insert_or_update_collab(&"ws1".to_string(), 1, params);
    match r {
        Err(AppError::Validation(msg)) => {
            // the failure text names the failing object
            assert!(msg.contains("doc1"));
        }
        other => panic!("expected a validation failure, got {:?}", other),
    }
    assert_eq!(storage.cache.len(), 0);
}

#[test]
fn insert_requires_workspace_permission_for_fresh_object() {
    let mut storage = new_storage();
    let params = CollabParams::new_signed("doc1".to_string(), vec![1u8]);
    // uid 7 is not a member of ws1
    let r = storage.insert_or_update_collab(&"ws1".to_string(), 7, params);
    match r {
        Err(AppError::PermissionDenied { uid, action, target }) => {
            assert_eq!(uid, 7);
            assert_eq!(action, CollabAction::WriteWorkspace);
            assert_eq!(target, "ws1".to_string());
        }
        other => panic!("expected a permission denial, got {:?}", other),
    }
    assert_eq!(storage.cache.len(), 0);
}

#[test]
fn freshness_fallback_prefers_live_session_state() {
    let mut storage = new_storage();
    let params = CollabParams::new_signed("doc1".to_string(), vec![1u8]);
    assert!(storage.insert_or_update_collab(&"ws1".to_string(), 1, params).is_ok());
    let live = EncodedCollab { doc_state: vec![42u8, 43] };
    let got = storage.get_encode_collab(
        1,
        query("doc1"),
        false,
        EditingCollabReply::Responded(Some(live)),
    );
    // the live in-memory state wins over the persisted copy
    assert_eq!(got.unwrap().doc_state, vec![42u8, 43]);
}

#[test]
fn freshness_fallback_degrades_to_persisted_state() {
    let mut storage = new_storage();
    let params = CollabParams::new_signed("doc1".to_string(), vec![1u8]);
    assert!(storage.insert_or_update_collab(&"ws1".to_string(), 1, params).is_ok());
    for reply in [
        EditingCollabReply::TimedOut,
        EditingCollabReply::SendFailed,
        EditingCollabReply::ChannelClosed,
        EditingCollabReply::Responded(None),
    ] {
        let got = storage.get_encode_collab(1, query("doc1"), false, reply);
        assert_eq!(got.unwrap().doc_state, vec![1u8]);
    }
}

#[test]
fn read_is_permission_gated() {
    let mut storage = new_storage();
    let params = CollabParams::new_signed("doc1".to_string(), vec![1u8]);
    assert!(storage.insert_or_update_collab(&"ws1".to_string(), 1, params).is_ok());
    let r = storage.get_encode_collab(5, query("doc1"), true, EditingCollabReply::TimedOut);
    match r {
        Err(AppError::PermissionDenied { uid, action, target }) => {
            assert_eq!(uid, 5);
            assert_eq!(action, CollabAction::ReadCollab);
            assert_eq!(target, "doc1".to_string());
        }
        other => panic!("expected a permission denial, got {:?}", other),
    }
}

#[test]
fn read_of_missing_object_is_not_found() {
    let mut storage = new_storage();
    storage
        .access_control
        .update_policy(1, &"ghostdoc".to_string(), AccessLevel::ReadOnly);
    let r = storage.get_encode_collab(1, query("ghostdoc"), true, EditingCollabReply::TimedOut);
    assert!(matches!(r, Err(AppError::NotFound(_))));
}

#[test]
fn read_rejects_invalid_query() {
    let mut storage = new_storage();
    let r = storage.get_encode_collab(1, query(""), true, EditingCollabReply::TimedOut);
    assert!(matches!(r, Err(AppError::Validation(_))));
}

#[test]
fn batch_isolates_invalid_queries() {
    let mut storage = new_storage();
    let params = CollabParams::new_signed("doc1".to_string(), vec![7u8]);
    assert!(storage.insert_or_update_collab(&"ws1".to_string(), 1, params).is_ok());
    let queries = vec![
        QueryCollab { object_id: "doc1".to_string() },
        QueryCollab { object_id: "".to_string() },
    ];
    let results = storage.batch_get_collab(1, queries);
    // one entry per query, in input order
    assert_eq!(results.len(), 2);
    assert_eq!(results[0].0, "doc1".to_string());
    match &results[0].1 {
        QueryCollabResult::Success { encode_collab_v1 } => {
            assert_eq!(*encode_collab_v1, vec![7u8]);
        }
        other => panic!("expected success, got {:?}", other),
    }
    assert_eq!(results[1].0, "".to_string());
    match &results[1].1 {
        QueryCollabResult::Failed { error } => assert!(!error.is_empty()),
        other => panic!("expected failure, got {:?}", other),
    }
}

#[test]
fn batch_reports_missing_objects_per_entry() {
    let mut storage = new_storage();
    let queries = vec![QueryCollab { object_id: "absent".to_string() }];
    let results = storage.batch_get_collab(1, queries);
    assert_eq!(results.len(), 1);
    assert!(matches!(&results[0].1, QueryCollabResult::Failed { error } if !error.is_empty()));
}

#[test]
fn batch_of_nothing_is_empty() {
    let mut storage = new_storage();
    let results = storage.batch_get_collab(1, Vec::new());
    assert!(results.is_empty());
}

#[test]
fn delete_is_permission_gated_and_leaves_state_unchanged() {
    let mut storage = new_storage();
    let params = CollabParams::new_signed("doc1".to_string(), vec![1u8]);
    assert!(storage.insert_or_update_collab(&"ws1".to_string(), 1, params).is_ok());
    // uid 2 holds only read/write, not full access: enforce_delete reports false
    storage
        .access_control
        .update_policy(2, &"doc1".to_string(), AccessLevel::ReadAndWrite);
    let r = storage.delete_collab(&"ws1".to_string(), 2, &"doc1".to_string());
    match r {
        Err(AppError::PermissionDenied { uid, action, target }) => {
            assert_eq!(uid, 2);
            assert_eq!(action, CollabAction::DeleteCollab);
            assert_eq!(target, "doc1".to_string());
        }
        other => panic!("expected a permission denial, got {:?}", other),
    }
    assert!(storage.cache.is_exist(&"doc1".to_string()));
    assert_eq!(storage.cache.len(), 1);
}

#[test]
fn delete_removes_object_and_is_idempotent() {
    let mut storage = new_storage();
    let params = CollabParams::new_signed("doc1".to_string(), vec![1u8]);
    assert!(storage.insert_or_update_collab(&"ws1".to_string(), 1, params).is_ok());
    assert!(storage.delete_collab(&"ws1".to_string(), 1, &"doc1".to_string()).is_ok());
    assert!(!storage.cache.is_exist(&"doc1".to_string()));
    // removing an absent object is a success, not an error
    assert!(storage.delete_collab(&"ws1".to_string(), 1, &"doc1".to_string()).is_ok());
}

#[test]
fn query_state_counts_point_reads() {
    let mut storage = new_storage();
    let params = CollabParams::new_signed("doc1".to_string(), vec![1u8]);
    assert!(storage.insert_or_update_collab(&"ws1".to_string(), 1, params).is_ok());
    assert_eq!(storage.encode_collab_redis_query_state(), (0, 0));
    let _ = storage.get_encode_collab(1, query("doc1"), true, EditingCollabReply::TimedOut);
    assert_eq!(storage.encode_collab_redis_query_state(), (1, 1));
    storage
        .access_control
        .update_policy(1, &"missing".to_string(), AccessLevel::ReadOnly);
    let _ = storage.get_encode_collab(1, query("missing"), true, EditingCollabReply::TimedOut);
    assert_eq!(storage.encode_collab_redis_query_state(), (2, 1));
}

#[test]
fn transactional_insert_is_invisible_until_commit() {
    let mut storage = new_storage();
    let params = CollabParams::new_signed("doc1".to_string(), vec![1u8]);
    let mut txn = storage.cache.begin();
    let r = storage.insert_new_collab_with_transaction(&"ws1".to_string(), 1, params, &mut txn);
    assert!(r.is_ok());
    // the write is staged, not visible: a crash here would leave the object absent
    assert!(!storage.cache.is_exist(&"doc1".to_string()));
    // but the creator's policy grant has been recorded
    assert_eq!(storage.access_control.count_policies_for(1, &"doc1".to_string()), 1);
    storage.cache.commit(txn);
    assert!(storage.cache.is_exist(&"doc1".to_string()));
}

#[test]
fn transactional_insert_checks_workspace_permission() {
    let mut storage = new_storage();
    let params = CollabParams::new_signed("doc1".to_string(), vec![1u8]);
    let mut txn = storage.cache.begin();
    let r = storage.insert_new_collab_with_transaction(&"ws1".to_string(), 9, params, &mut txn);
    assert!(matches!(
        r,
        Err(AppError::PermissionDenied { uid: 9, action: CollabAction::WriteWorkspace, .. })
    ));
    storage.cache.commit(txn);
    assert!(!storage.cache.is_exist(&"doc1".to_string()));
}
