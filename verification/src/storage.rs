//! The access-controlled storage facade: the single entry point for all
//! collab reads and writes. Every method enforces permissions before any
//! mutation or privileged read; writes run inside one store transaction;
//! reads prefer the live editing session's state (when its holder answered
//! within the bounded wait) and otherwise fall back to the persisted store.

use vstd::prelude::*;
use crate::access::AccessLevel;
use crate::access::CollabStorageAccessControl;
use crate::cache::CollabCache;
use crate::cache::CollabRow;
use crate::cache::StoreTransaction;
use crate::cache::has_row;
use crate::cache::pending_has;
use crate::cache::pending_last;
use crate::cache::row_for;
use crate::cache::sat_inc;
use crate::entities::CollabParams;
use crate::entities::integrity_error_text;
use crate::entities::EncodedCollab;
use crate::entities::QueryCollab;
use crate::entities::QueryCollabParams;
use crate::entities::QueryCollabResult;
use crate::errors::AppError;
use crate::errors::CollabAction;
use crate::snapshot::AFSnapshotMeta;
use crate::snapshot::InsertSnapshotParams;
use crate::snapshot::SnapshotControl;
use crate::snapshot::SnapshotData;
use crate::snapshot::has_snapshot;
use crate::snapshot::has_snapshot_for_object;
use crate::snapshot::metas_of;
use crate::snapshot::snapshot_for;

verus! {

/// The outcome of the bounded-wait query to the live editing session's
/// holder, as observed by the caller of the facade: the send failed, the
/// reply channel closed, the wait timed out, or the holder responded (with or
/// without a live state).
#[derive(Debug)]
pub enum EditingCollabReply {
    SendFailed,
    ChannelClosed,
    TimedOut,
    Responded(Option<EncodedCollab>),
}

/// The live state carried by a session reply, if the holder responded with
/// one. Every other outcome degrades to the persisted fallback.
pub open spec fn live_value(reply: EditingCollabReply) -> Option<EncodedCollab> {
    match reply {
        EditingCollabReply::Responded(v) => v,
        _ => None,
    }
}

/// The effect of a committed upsert of `params` on the cache: the object's
/// row holds the new state, every other object id keeps its row, and the
/// store grew only if the object was fresh.
pub open spec fn upserted(
    pre: CollabCache,
    post: CollabCache,
    ws: Seq<char>,
    uid: i64,
    params: CollabParams,
) -> bool {
    &&& has_row(post.rows@, params.object_id@)
    &&& row_for(post.rows@, params.object_id@).encoded@ == params.encoded_collab@
    &&& row_for(post.rows@, params.object_id@).workspace_id@ == ws
    &&& row_for(post.rows@, params.object_id@).uid == uid
    &&& forall|k: Seq<char>|
        k != params.object_id@ ==> #[trigger] has_row(post.rows@, k) == has_row(pre.rows@, k)
    &&& forall|k: Seq<char>|
        k != params.object_id@ && has_row(pre.rows@, k) ==> #[trigger] row_for(post.rows@, k)
            == row_for(pre.rows@, k)
    &&& post.total_attempts == pre.total_attempts
    &&& post.success_attempts == pre.success_attempts
}

/// The policy effect of creating a fresh object: the creator is granted full
/// access over it, and no other pair's rights nor any workspace right moves.
pub open spec fn create_grants<AC: CollabStorageAccessControl>(
    pre: AC,
    post: AC,
    uid: i64,
    oid: Seq<char>,
) -> bool {
    &&& forall|ws: Seq<char>| #[trigger] post.can_read_collab(ws, uid, oid)
    &&& forall|ws: Seq<char>| #[trigger] post.can_write_collab(ws, uid, oid)
    &&& forall|ws: Seq<char>| #[trigger] post.can_delete_collab(ws, uid, oid)
    &&& forall|ws: Seq<char>, u: i64, o: Seq<char>|
        !(u == uid && o == oid) ==> #[trigger] post.can_read_collab(ws, u, o)
            == pre.can_read_collab(ws, u, o)
    &&& forall|ws: Seq<char>, u: i64, o: Seq<char>|
        !(u == uid && o == oid) ==> #[trigger] post.can_write_collab(ws, u, o)
            == pre.can_write_collab(ws, u, o)
    &&& forall|ws: Seq<char>, u: i64, o: Seq<char>|
        !(u == uid && o == oid) ==> #[trigger] post.can_delete_collab(ws, u, o)
            == pre.can_delete_collab(ws, u, o)
    &&& forall|u: i64, ws: Seq<char>|
        #[trigger] post.can_write_workspace(u, ws) == pre.can_write_workspace(u, ws)
}

/// The per-query obligation of a batched read: the entry is keyed by the
/// query's object id; an invalid query fails with a nonempty error text, a
/// valid one resolves against the store independently of the others.
pub open spec fn batch_entry_ok(
    rows: Seq<CollabRow>,
    q: QueryCollab,
    entry: (String, QueryCollabResult),
) -> bool {
    &&& entry.0@ == q.object_id@
    &&& if !q.structurally_valid() {
        entry.1 matches QueryCollabResult::Failed { error } && error@.len() > 0
    } else if has_row(rows, q.object_id@) {
        entry.1 matches QueryCollabResult::Success { encode_collab_v1 } && encode_collab_v1@
            == row_for(rows, q.object_id@).encoded@
    } else {
        entry.1 matches QueryCollabResult::Failed { error } && error@.len() > 0
    }
}

/// The storage facade: cache, access control and snapshot controller behind
/// one permission-enforcing entry point.
#[derive(Debug)]
pub struct CollabStorageImpl<AC> {
    pub cache: CollabCache,
    pub access_control: AC,
    pub snapshot_control: SnapshotControl,
}

impl<AC: CollabStorageAccessControl> CollabStorageImpl<AC> {
    pub open spec fn wf(&self) -> bool {
        &&& self.cache.wf()
        &&& self.access_control.wf()
        &&& self.snapshot_control.wf()
    }

    pub fn new(cache: CollabCache, access_control: AC, snapshot_control: SnapshotControl) -> (r:
        CollabStorageImpl<AC>)
        ensures
            r.cache == cache,
            r.access_control == access_control,
            r.snapshot_control == snapshot_control,
    {
        CollabStorageImpl { cache, access_control, snapshot_control }
    }

    /// Permission to create an object: the user can write the workspace.
    fn check_write_workspace_permission(&self, workspace_id: &String, uid: i64) -> (r: Result<
        (),
        AppError,
    >)
        requires
            self.access_control.wf(),
        ensures
            r is Ok <==> self.access_control.can_write_workspace(uid, workspace_id@),
            r matches Err(e) ==> e.denies(uid, CollabAction::WriteWorkspace, workspace_id@),
    {
        let can_write_workspace = self.access_control.enforce_write_workspace(uid, workspace_id);
        if !can_write_workspace {
            return Err(
                AppError::PermissionDenied {
                    uid,
                    action: CollabAction::WriteWorkspace,
                    target: workspace_id.clone(),
                },
            );
        }
        Ok(())
    }

    /// Permission to update an existing object: the user can write the collab.
    fn check_write_collab_permission(
        &self,
        workspace_id: &String,
        uid: i64,
        object_id: &String,
    ) -> (r: Result<(), AppError>)
        requires
            self.access_control.wf(),
        ensures
            r is Ok <==> self.access_control.can_write_collab(workspace_id@, uid, object_id@),
            r matches Err(e) ==> e.denies(uid, CollabAction::UpdateCollab, object_id@),
    {
        let can_write = self.access_control.enforce_write_collab(workspace_id, uid, object_id);
        if !can_write {
            return Err(
                AppError::PermissionDenied {
                    uid,
                    action: CollabAction::UpdateCollab,
                    target: object_id.clone(),
                },
            );
        }
        Ok(())
    }

    /// The counters of the cache's point reads: (total attempts, successful
    /// attempts). Observability only; successes never exceed attempts.
    pub fn encode_collab_redis_query_state(&self) -> (r: (u64, u64))
        requires
            self.wf(),
        ensures
            r.0 == self.cache.total_attempts,
            r.1 == self.cache.success_attempts,
            r.1 <= r.0,
    {
        self.cache.query_state()
    }

    /// Creates or updates one collab object. Validates structure and
    /// content-hash integrity; a fresh object requires write-workspace
    /// permission and grants the creator full access, an existing one
    /// requires write-collab permission. The write itself runs inside one
    /// store transaction: begin, write, commit.
    pub fn insert_or_update_collab(
        &mut self,
        workspace_id: &String,
        uid: i64,
        params: CollabParams,
    ) -> (r: Result<(), AppError>)
        requires
            old(self).wf(),
        ensures
            final(self).wf(),
            final(self).snapshot_control == old(self).snapshot_control,
            !params.structurally_valid() ==> (r matches Err(e) && e is Validation && *final(self)
                == *old(self)),
            params.structurally_valid() && !params.integrity_ok() ==> (r matches Err(e)
                && e matches AppError::Validation(m) && m@ == integrity_error_text(
                params.object_id@,
            ) && *final(self) == *old(self)),
            params.structurally_valid() && params.integrity_ok() && has_row(
                old(self).cache.rows@,
                params.object_id@,
            ) && !old(self).access_control.can_write_collab(
                workspace_id@,
                uid,
                params.object_id@,
            ) ==> (r matches Err(e) && e.denies(uid, CollabAction::UpdateCollab, params.object_id@)
                && *final(self) == *old(self)),
            params.structurally_valid() && params.integrity_ok() && !has_row(
                old(self).cache.rows@,
                params.object_id@,
            ) && !old(self).access_control.can_write_workspace(uid, workspace_id@) ==> (r matches
                Err(e) && e.denies(uid, CollabAction::WriteWorkspace, workspace_id@) && *final(self)
                == *old(self)),
            params.structurally_valid() && params.integrity_ok() && has_row(
                old(self).cache.rows@,
                params.object_id@,
            ) && old(self).access_control.can_write_collab(workspace_id@, uid, params.object_id@)
                ==> (r is Ok && upserted(old(self).cache, final(self).cache, workspace_id@, uid, params)
                && final(self).access_control == old(self).access_control),
            params.structurally_valid() && params.integrity_ok() && !has_row(
                old(self).cache.rows@,
                params.object_id@,
            ) && old(self).access_control.can_write_workspace(uid, workspace_id@) ==> (r is Ok
                && upserted(old(self).cache, final(self).cache, workspace_id@, uid, params)
                && create_grants(
                old(self).access_control,
                final(self).access_control,
                uid,
                params.object_id@,
            )),
    {
        if let Err(e) = params.validate() {
            return Err(e);
        }
        if let Err(e) = params.check_encode_collab() {
            return Err(e);
        }
        let is_exist = self.cache.is_exist(&params.object_id);
        if is_exist {
            if let Err(e) = self.check_write_collab_permission(workspace_id, uid, &params.object_id)
                {
                return Err(e);
            }
        } else {
            if let Err(e) = self.check_write_workspace_permission(workspace_id, uid) {
                return Err(e);
            }
            self.access_control.update_policy(uid, &params.object_id, AccessLevel::FullAccess);
        }
        let ghost oid = params.object_id@;
        let ghost pre_cache = self.cache;
        let mut transaction = self.cache.begin();
        self.cache.insert_encode_collab_data(workspace_id, uid, params, &mut transaction);
        let ghost pending = transaction.pending@;
        self.cache.commit(transaction);
        proof {
            assert(pending.drop_last() =~= Seq::<CollabRow>::empty());
            assert(pending.last().object_id@ == oid);
            assert(pending_has(pending, oid));
            assert(pending_last(pending, oid) == pending.last());
            assert forall|k: Seq<char>| k != oid implies !pending_has(pending, k) by {
                assert(!pending_has(Seq::<CollabRow>::empty(), k));
            }
        }
        Ok(())
    }

    /// The creation path of `insert_or_update_collab`, staged in a
    /// caller-supplied transaction so that composite multi-entity creation
    /// commits or rolls back as one unit: nothing is visible in the store
    /// until the caller commits.
    pub fn insert_new_collab_with_transaction(
        &mut self,
        workspace_id: &String,
        uid: i64,
        params: CollabParams,
        transaction: &mut StoreTransaction,
    ) -> (r: Result<(), AppError>)
        requires
            old(self).wf(),
        ensures
            final(self).wf(),
            final(self).cache == old(self).cache,
            final(self).snapshot_control == old(self).snapshot_control,
            !params.structurally_valid() ==> (r matches Err(e) && e is Validation && *final(self)
                == *old(self) && final(transaction).pending@ == old(transaction).pending@),
            params.structurally_valid() && !old(self).access_control.can_write_workspace(
                uid,
                workspace_id@,
            ) ==> (r matches Err(e) && e.denies(uid, CollabAction::WriteWorkspace, workspace_id@)
                && *final(self) == *old(self) && final(transaction).pending@ == old(transaction).pending@),
            params.structurally_valid() && old(self).access_control.can_write_workspace(
                uid,
                workspace_id@,
            ) ==> (r is Ok && final(transaction).pending@ == old(transaction).pending@.push(
                CollabRow {
                    object_id: params.object_id,
                    workspace_id: *workspace_id,
                    uid,
                    encoded: params.encoded_collab,
                },
            ) && create_grants(
                old(self).access_control,
                final(self).access_control,
                uid,
                params.object_id@,
            )),
    {
        if let Err(e) = params.validate() {
            return Err(e);
        }
        if let Err(e) = self.check_write_workspace_permission(workspace_id, uid) {
            return Err(e);
        }
        self.access_control.update_policy(uid, &params.object_id, AccessLevel::FullAccess);
        self.cache.insert_encode_collab_data(workspace_id, uid, params, transaction);
        Ok(())
    }

    /// Interprets the session holder's reply: only an affirmative response
    /// carries a usable live state; a failed send, a closed channel, a
    /// timeout, or an empty response all fall back to the persisted store.
    pub fn get_encode_collab_from_editing(&self, editing_reply: EditingCollabReply) -> (r: Option<
        EncodedCollab,
    >)
        ensures
            r == live_value(editing_reply),
    {
        match editing_reply {
            EditingCollabReply::Responded(v) => v,
            EditingCollabReply::SendFailed => None,
            EditingCollabReply::ChannelClosed => None,
            EditingCollabReply::TimedOut => None,
        }
    }

    /// Permission-gated read of one collab object. When the caller believes
    /// an editing session may be active (`is_collab_init` false) the live
    /// session's answer — obtained under a bounded wait and handed in as
    /// `editing_reply` — is preferred, because it may be ahead of the last
    /// commit; on timeout, absence or failure the read falls back to the
    /// persisted store.
    pub fn get_encode_collab(
        &mut self,
        uid: i64,
        params: QueryCollabParams,
        is_collab_init: bool,
        editing_reply: EditingCollabReply,
    ) -> (r: Result<EncodedCollab, AppError>)
        requires
            old(self).wf(),
        ensures
            final(self).wf(),
            final(self).cache.rows@ == old(self).cache.rows@,
            final(self).access_control == old(self).access_control,
            final(self).snapshot_control == old(self).snapshot_control,
            !params.structurally_valid() ==> (r matches Err(e) && e is Validation && *final(self)
                == *old(self)),
            params.structurally_valid() && !old(self).access_control.can_read_collab(
                params.workspace_id@,
                uid,
                params.object_id@,
            ) ==> (r matches Err(e) && e.denies(uid, CollabAction::ReadCollab, params.object_id@)
                && *final(self) == *old(self)),
            params.structurally_valid() && old(self).access_control.can_read_collab(
                params.workspace_id@,
                uid,
                params.object_id@,
            ) && !is_collab_init && live_value(editing_reply) is Some ==> (r matches Ok(v)
                && live_value(editing_reply) == Some(v) && *final(self) == *old(self)),
            params.structurally_valid() && old(self).access_control.can_read_collab(
                params.workspace_id@,
                uid,
                params.object_id@,
            ) && (is_collab_init || live_value(editing_reply) is None) ==> ((r is Ok <==> has_row(
                old(self).cache.rows@,
                params.object_id@,
            )) && (r matches Ok(v) ==> v.doc_state@ == row_for(
                old(self).cache.rows@,
                params.object_id@,
            ).encoded@) && (r matches Err(e) ==> e is NotFound) && final(self).cache.total_attempts
                == sat_inc(old(self).cache.total_attempts) && final(self).cache.success_attempts
                == (if has_row(old(self).cache.rows@, params.object_id@) {
                sat_inc(old(self).cache.success_attempts)
            } else {
                old(self).cache.success_attempts
            })),
    {
        if let Err(e) = params.validate() {
            return Err(e);
        }
        let can_read = self.access_control.enforce_read_collab(
            &params.workspace_id,
            uid,
            &params.object_id,
        );
        if !can_read {
            return Err(
                AppError::PermissionDenied {
                    uid,
                    action: CollabAction::ReadCollab,
                    target: params.object_id.clone(),
                },
            );
        }
        if !is_collab_init {
            // prefer the live in-memory state over the persisted copy
            if let Some(value) = self.get_encode_collab_from_editing(editing_reply) {
                return Ok(value);
            }
        } else {
            // the caller initialises the session itself: nothing to ask
        }
        let encode_collab = self.cache.get_collab_encode_data(uid, &params);
        encode_collab
    }

    /// Batched read: partitions the queries into structurally valid and
    /// invalid ones without aborting on the first invalid entry; each query
    /// yields exactly one entry, in input order, so the output size equals
    /// the input size.
    pub fn batch_get_collab(&mut self, uid: i64, queries: Vec<QueryCollab>) -> (r: Vec<
        (String, QueryCollabResult),
    >)
        requires
            old(self).wf(),
        ensures
            final(self).wf(),
            *final(self) == *old(self),
            r@.len() == queries@.len(),
            forall|i: int|
                0 <= i < queries@.len() ==> batch_entry_ok(
                    old(self).cache.rows@,
                    queries@[i],
                    #[trigger] r@[i],
                ),
    {
        let mut queries = queries;
        let ghost queries0 = queries@;
        let qlen = queries.len();
        proof {
            assert(queries0.len() == qlen as int);
        }
        let mut results: Vec<(String, QueryCollabResult)> = Vec::new();
        let mut i: usize = 0;
        while queries.len() > 0
            invariant
                self.wf(),
                *self == *old(self),
                queries0.len() <= usize::MAX,
                i <= queries0.len(),
                queries@ == queries0.subrange(i as int, queries0.len() as int),
                results@.len() == i,
                forall|j: int|
                    0 <= j < i ==> batch_entry_ok(
                        self.cache.rows@,
                        queries0[j],
                        #[trigger] results@[j],
                    ),
            decreases queries@.len(),
        {
            let q = queries.remove(0);
            assert(q == queries0[i as int]);
            let entry_result: QueryCollabResult = match q.validate() {
                Err(_) => {
                    proof {
                        reveal_strlit("invalid collab query: empty object id");
                    }
                    QueryCollabResult::Failed {
                        error: "invalid collab query: empty object id".to_owned(),
                    }
                },
                Ok(_) => {
                    match self.cache.get_encoded_bytes(&q.object_id) {
                        Some(b) => QueryCollabResult::Success { encode_collab_v1: b },
                        None => {
                            proof {
                                reveal_strlit("collab not found in store");
                            }
                            QueryCollabResult::Failed {
                                error: "collab not found in store".to_owned(),
                            }
                        },
                    }
                },
            };
            results.push((q.object_id, entry_result));
            proof {
                assert(queries@ =~= queries0.subrange(i + 1 as int, queries0.len() as int));
            }
            i += 1;
        }
        proof {
            assert(queries0.subrange(0, i as int) =~= queries0);
            assert(i as int == queries0.len());
        }
        results
    }

    /// Deletes one collab object, when the user holds delete permission: the
    /// object is gone from the store afterwards, and deleting an absent
    /// object is a success that changes nothing. A refusal leaves the store
    /// untouched.
    pub fn delete_collab(&mut self, workspace_id: &String, uid: i64, object_id: &String) -> (r:
        Result<(), AppError>)
        requires
            old(self).wf(),
        ensures
            final(self).wf(),
            final(self).access_control == old(self).access_control,
            final(self).snapshot_control == old(self).snapshot_control,
            final(self).cache.total_attempts == old(self).cache.total_attempts,
            final(self).cache.success_attempts == old(self).cache.success_attempts,
            !old(self).access_control.can_delete_collab(workspace_id@, uid, object_id@) ==> (r
                matches Err(e) && e.denies(uid, CollabAction::DeleteCollab, object_id@) && *final(self) == *old(self)),
            old(self).access_control.can_delete_collab(workspace_id@, uid, object_id@) ==> (r is Ok
                && !has_row(final(self).cache.rows@, object_id@) && (forall|k: Seq<char>|
                k != object_id@ ==> #[trigger] has_row(final(self).cache.rows@, k) == has_row(
                    old(self).cache.rows@,
                    k,
                )) && (forall|k: Seq<char>|
                k != object_id@ && has_row(old(self).cache.rows@, k) ==> #[trigger] row_for(
                    final(self).cache.rows@,
                    k,
                ) == row_for(old(self).cache.rows@, k)) && final(self).cache.rows@.len() == old(self).cache.rows@.len() - (if has_row(old(self).cache.rows@, object_id@) {
                1int
            } else {
                0int
            })),
    {
        if !self.access_control.enforce_delete(workspace_id, uid, object_id) {
            return Err(
                AppError::PermissionDenied {
                    uid,
                    action: CollabAction::DeleteCollab,
                    target: object_id.clone(),
                },
            );
        }
        self.cache.remove_collab(object_id);
        Ok(())
    }

    /// Delegates the snapshot-due policy decision to the snapshot controller.
    pub fn should_create_snapshot(&self, oid: &String) -> (r: bool)
        ensures
            r == !has_snapshot_for_object(self.snapshot_control.snapshots@, oid@),
    {
        self.snapshot_control.should_create_snapshot(oid)
    }

    /// Delegates synchronous snapshot creation to the snapshot controller.
    pub fn create_snapshot(&mut self, params: InsertSnapshotParams) -> (r: Result<
        AFSnapshotMeta,
        AppError,
    >)
        requires
            old(self).wf(),
        ensures
            final(self).wf(),
            final(self).cache == old(self).cache,
            final(self).access_control == old(self).access_control,
            final(self).snapshot_control.pending@ == old(self).snapshot_control.pending@,
            !params.structurally_valid() ==> (r matches Err(e) && e is Validation && *final(self)
                == *old(self)),
            params.structurally_valid() && old(self).snapshot_control.next_snapshot_id < i64::MAX
                ==> {
                &&& r matches Ok(meta)
                &&& meta.snapshot_id == old(self).snapshot_control.next_snapshot_id
                &&& meta.object_id@ == params.object_id@
                &&& final(self).snapshot_control.snapshots@ == old(self).snapshot_control.snapshots@.push(
                    crate::snapshot::SnapshotRecord {
                        snapshot_id: old(self).snapshot_control.next_snapshot_id,
                        object_id: params.object_id,
                        workspace_id: params.workspace_id,
                        created_at: old(self).snapshot_control.next_snapshot_id,
                        encoded: params.encoded_collab_v1,
                    },
                )
            },
    {
        self.snapshot_control.create_snapshot(params)
    }

    /// Delegates deferred snapshot creation to the snapshot controller.
    pub fn queue_snapshot(&mut self, params: InsertSnapshotParams) -> (r: Result<(), AppError>)
        requires
            old(self).wf(),
        ensures
            final(self).wf(),
            final(self).cache == old(self).cache,
            final(self).access_control == old(self).access_control,
            final(self).snapshot_control.snapshots@ == old(self).snapshot_control.snapshots@,
            !params.structurally_valid() ==> (r matches Err(e) && e is Validation && *final(self)
                == *old(self)),
            params.structurally_valid() ==> r is Ok && final(self).snapshot_control.pending@ == old(self).snapshot_control.pending@.push(params),
    {
        self.snapshot_control.queue_snapshot(params)
    }

    /// Delegates a snapshot read to the snapshot controller.
    pub fn get_collab_snapshot(
        &self,
        workspace_id: &String,
        object_id: &String,
        snapshot_id: i64,
    ) -> (r: Result<SnapshotData, AppError>)
        requires
            self.wf(),
        ensures
            r is Ok <==> has_snapshot(self.snapshot_control.snapshots@, object_id@, snapshot_id),
            r matches Ok(d) ==> d.object_id@ == object_id@ && d.encoded_collab_v1@ == snapshot_for(
                self.snapshot_control.snapshots@,
                object_id@,
                snapshot_id,
            ).encoded@,
            r matches Err(e) ==> e is NotFound,
    {
        self.snapshot_control.get_snapshot(workspace_id, object_id, snapshot_id)
    }

    /// Delegates a snapshot listing to the snapshot controller.
    pub fn get_collab_snapshot_list(&self, oid: &String) -> (r: Vec<AFSnapshotMeta>)
        ensures
            r@ == metas_of(self.snapshot_control.snapshots@, oid@),
    {
        self.snapshot_control.get_collab_snapshot_list(oid)
    }
}

/// Law: a successful create of a fresh object leaves the store and policy
/// table in exactly the state a subsequent read by the creator needs — the
/// object's row is present with the written state, and the creator may read
/// it in any workspace — so that read returns the persisted state.
pub proof fn lemma_create_then_read<AC: CollabStorageAccessControl>(
    pre_cache: CollabCache,
    post_cache: CollabCache,
    pre_ac: AC,
    post_ac: AC,
    ws: Seq<char>,
    uid: i64,
    params: CollabParams,
)
    requires
        upserted(pre_cache, post_cache, ws, uid, params),
        create_grants(pre_ac, post_ac, uid, params.object_id@),
    ensures
        has_row(post_cache.rows@, params.object_id@),
        row_for(post_cache.rows@, params.object_id@).encoded@ == params.encoded_collab@,
        forall|w: Seq<char>| #[trigger] post_ac.can_read_collab(w, uid, params.object_id@),
{
}

/// Law: two creation attempts for one object id leave exactly one persisted
/// row for it — the first adds the row, the second lands as an update of the
/// same row — and no other object appears or disappears.
pub proof fn lemma_no_duplicate_creation(
    pre: CollabCache,
    mid: CollabCache,
    post: CollabCache,
    ws1: Seq<char>,
    ws2: Seq<char>,
    uid1: i64,
    uid2: i64,
    params1: CollabParams,
    params2: CollabParams,
)
    requires
        params1.object_id@ == params2.object_id@,
        !has_row(pre.rows@, params1.object_id@),
        upserted(pre, mid, ws1, uid1, params1),
        upserted(mid, post, ws2, uid2, params2),
        post.wf(),
    ensures
        has_row(post.rows@, params1.object_id@),
        forall|k: Seq<char>|
            k != params1.object_id@ ==> #[trigger] has_row(post.rows@, k) == has_row(pre.rows@, k),
        forall|i: int, j: int|
            0 <= i < post.rows@.len() && 0 <= j < post.rows@.len() && crate::cache::matches_row(
                #[trigger] post.rows@[i],
                params1.object_id@,
            ) && crate::cache::matches_row(#[trigger] post.rows@[j], params1.object_id@) ==> i == j,
{
    assert forall|i: int, j: int|
        0 <= i < post.rows@.len() && 0 <= j < post.rows@.len() && crate::cache::matches_row(
            #[trigger] post.rows@[i],
            params1.object_id@,
        ) && crate::cache::matches_row(
            #[trigger] post.rows@[j],
            params1.object_id@,
        ) implies i == j by {
        crate::cache::lemma_row_unique(post.rows@, params1.object_id@, i, j);
    }
}

} // verus!
