//! The snapshot controller: decides when a snapshot is due, creates immutable
//! point-in-time snapshots with fresh monotone ids, queues deferred creation
//! requests, and serves snapshot reads and listings.

use vstd::prelude::*;
use crate::errors::AppError;

verus! {

/// Parameters of a snapshot creation request.
#[derive(Clone, Debug)]
pub struct InsertSnapshotParams {
    pub object_id: String,
    pub workspace_id: String,
    pub encoded_collab_v1: Vec<u8>,
}

impl InsertSnapshotParams {
    /// Structural correctness: nonempty object id and nonempty encoded state.
    pub open spec fn structurally_valid(&self) -> bool {
        self.object_id@.len() > 0 && self.encoded_collab_v1@.len() > 0
    }

    pub fn validate(&self) -> (r: Result<(), AppError>)
        ensures
            r is Ok <==> self.structurally_valid(),
            r matches Err(e) ==> e is Validation,
    {
        if self.object_id.as_str().is_empty() {
            Err(AppError::Validation("snapshot params: empty object id".to_owned()))
        } else if self.encoded_collab_v1.len() == 0 {
            Err(AppError::Validation("snapshot params: empty encoded state".to_owned()))
        } else {
            Ok(())
        }
    }
}

/// Metadata of one stored snapshot. `created_at` is a logical creation stamp
/// (wall-clock time lives outside the library); it is monotone in creation
/// order.
#[derive(Clone, Debug)]
pub struct AFSnapshotMeta {
    pub snapshot_id: i64,
    pub object_id: String,
    pub created_at: i64,
}

/// One stored snapshot: metadata plus the encoded state, immutable once
/// created.
#[derive(Clone, Debug)]
pub struct SnapshotRecord {
    pub snapshot_id: i64,
    pub object_id: String,
    pub workspace_id: String,
    pub created_at: i64,
    pub encoded: Vec<u8>,
}

/// The payload returned by a snapshot read.
#[derive(Clone, Debug)]
pub struct SnapshotData {
    pub object_id: String,
    pub workspace_id: String,
    pub encoded_collab_v1: Vec<u8>,
}

pub open spec fn meta_of(r: SnapshotRecord) -> AFSnapshotMeta {
    AFSnapshotMeta { snapshot_id: r.snapshot_id, object_id: r.object_id, created_at: r.created_at }
}

pub open spec fn matches_snapshot(r: SnapshotRecord, oid: Seq<char>, sid: i64) -> bool {
    r.object_id@ == oid && r.snapshot_id == sid
}

pub open spec fn has_snapshot(snaps: Seq<SnapshotRecord>, oid: Seq<char>, sid: i64) -> bool {
    exists|i: int| 0 <= i < snaps.len() && matches_snapshot(#[trigger] snaps[i], oid, sid)
}

/// The (unique, under `snapshots_wf`) record with id `sid` for `oid`.
pub open spec fn snapshot_for(snaps: Seq<SnapshotRecord>, oid: Seq<char>, sid: i64) -> SnapshotRecord {
    snaps[choose|i: int| 0 <= i < snaps.len() && matches_snapshot(snaps[i], oid, sid)]
}

pub open spec fn has_snapshot_for_object(snaps: Seq<SnapshotRecord>, oid: Seq<char>) -> bool {
    exists|i: int| 0 <= i < snaps.len() && (#[trigger] snaps[i]).object_id@ == oid
}

/// Snapshot ids are unique and below the id counter.
pub open spec fn snapshots_wf(snaps: Seq<SnapshotRecord>, next_id: i64) -> bool {
    &&& forall|i: int, j: int|
        0 <= i < snaps.len() && 0 <= j < snaps.len() && i != j ==> (#[trigger] snaps[i]).snapshot_id
            != (#[trigger] snaps[j]).snapshot_id
    &&& forall|i: int| 0 <= i < snaps.len() ==> (#[trigger] snaps[i]).snapshot_id < next_id
}

/// The metadata of the snapshots of `oid`, in creation order.
pub open spec fn metas_of(snaps: Seq<SnapshotRecord>, oid: Seq<char>) -> Seq<AFSnapshotMeta>
    decreases snaps.len(),
{
    if snaps.len() == 0 {
        Seq::empty()
    } else {
        let rest = metas_of(snaps.drop_last(), oid);
        if snaps.last().object_id@ == oid {
            rest.push(meta_of(snaps.last()))
        } else {
            rest
        }
    }
}

/// Law: under `snapshots_wf` two records with the same id are the same record.
pub proof fn lemma_snapshot_unique(
    snaps: Seq<SnapshotRecord>,
    next_id: i64,
    oid: Seq<char>,
    sid: i64,
    i: int,
)
    requires
        snapshots_wf(snaps, next_id),
        0 <= i < snaps.len(),
        matches_snapshot(snaps[i], oid, sid),
    ensures
        has_snapshot(snaps, oid, sid),
        snapshot_for(snaps, oid, sid) == snaps[i],
{
    assert(has_snapshot(snaps, oid, sid));
    let k = choose|k: int| 0 <= k < snaps.len() && matches_snapshot(snaps[k], oid, sid);
    if k != i {
        assert(snaps[k].snapshot_id != snaps[i].snapshot_id);
        assert(false);
    }
}

/// The snapshot controller: stored snapshots, deferred creation requests, and
/// the id counter.
#[derive(Debug)]
pub struct SnapshotControl {
    pub snapshots: Vec<SnapshotRecord>,
    pub pending: Vec<InsertSnapshotParams>,
    pub next_snapshot_id: i64,
}

impl SnapshotControl {
    pub open spec fn wf(&self) -> bool {
        snapshots_wf(self.snapshots@, self.next_snapshot_id)
    }

    pub fn new() -> (r: SnapshotControl)
        ensures
            r.wf(),
            r.snapshots@.len() == 0,
            r.pending@.len() == 0,
            r.next_snapshot_id == 0,
    {
        SnapshotControl { snapshots: Vec::new(), pending: Vec::new(), next_snapshot_id: 0 }
    }

    /// The snapshot policy: a snapshot is due exactly when the object has no
    /// stored snapshot yet. (The criteria are a policy decision; this
    /// controller snapshots each object once, on first demand.)
    pub fn should_create_snapshot(&self, oid: &String) -> (r: bool)
        ensures
            r == !has_snapshot_for_object(self.snapshots@, oid@),
    {
        let mut i: usize = 0;
        while i < self.snapshots.len()
            invariant
                i <= self.snapshots@.len(),
                forall|j: int| 0 <= j < i ==> (#[trigger] self.snapshots@[j]).object_id@ != oid@,
            decreases self.snapshots@.len() - i,
        {
            if self.snapshots[i].object_id == *oid {
                proof {
                    assert(has_snapshot_for_object(self.snapshots@, oid@));
                }
                return false;
            }
            i += 1;
        }
        true
    }

    /// Creates one immutable snapshot with a fresh id: the stored records are
    /// extended by exactly the new record, and nothing already stored changes.
    pub fn create_snapshot(&mut self, params: InsertSnapshotParams) -> (r: Result<
        AFSnapshotMeta,
        AppError,
    >)
        requires
            old(self).wf(),
        ensures
            final(self).wf(),
            final(self).pending@ == old(self).pending@,
            !params.structurally_valid() ==> (r matches Err(e) && e is Validation && *final(self)
                == *old(self)),
            params.structurally_valid() && old(self).next_snapshot_id == i64::MAX ==> (r matches Err(e) && e is Internal && *final(self) == *old(self)),
            params.structurally_valid() && old(self).next_snapshot_id < i64::MAX ==> {
                &&& r matches Ok(meta)
                &&& meta.snapshot_id == old(self).next_snapshot_id
                &&& meta.object_id@ == params.object_id@
                &&& meta.created_at == old(self).next_snapshot_id
                &&& final(self).next_snapshot_id == old(self).next_snapshot_id + 1
                &&& final(self).snapshots@ == old(self).snapshots@.push(
                    SnapshotRecord {
                        snapshot_id: old(self).next_snapshot_id,
                        object_id: params.object_id,
                        workspace_id: params.workspace_id,
                        created_at: old(self).next_snapshot_id,
                        encoded: params.encoded_collab_v1,
                    },
                )
            },
    {
        if let Err(e) = params.validate() {
            return Err(e);
        }
        if self.next_snapshot_id == i64::MAX {
            return Err(AppError::Internal("snapshot id space exhausted".to_owned()));
        }
        let sid = self.next_snapshot_id;
        let meta = AFSnapshotMeta {
            snapshot_id: sid,
            object_id: params.object_id.clone(),
            created_at: sid,
        };
        let record = SnapshotRecord {
            snapshot_id: sid,
            object_id: params.object_id,
            workspace_id: params.workspace_id,
            created_at: sid,
            encoded: params.encoded_collab_v1,
        };
        self.snapshots.push(record);
        self.next_snapshot_id = sid + 1;
        Ok(meta)
    }

    /// Queues a deferred snapshot creation request; stored snapshots are
    /// untouched.
    pub fn queue_snapshot(&mut self, params: InsertSnapshotParams) -> (r: Result<(), AppError>)
        requires
            old(self).wf(),
        ensures
            final(self).wf(),
            final(self).snapshots@ == old(self).snapshots@,
            final(self).next_snapshot_id == old(self).next_snapshot_id,
            !params.structurally_valid() ==> (r matches Err(e) && e is Validation && *final(self)
                == *old(self)),
            params.structurally_valid() ==> r is Ok && final(self).pending@ == old(
                self,
            ).pending@.push(params),
    {
        if let Err(e) = params.validate() {
            return Err(e);
        }
        self.pending.push(params);
        Ok(())
    }

    /// Reads one snapshot by object id and snapshot id.
    pub fn get_snapshot(&self, workspace_id: &String, object_id: &String, snapshot_id: i64) -> (r:
        Result<SnapshotData, AppError>)
        requires
            self.wf(),
        ensures
            r is Ok <==> has_snapshot(self.snapshots@, object_id@, snapshot_id),
            r matches Ok(d) ==> {
                &&& d.object_id@ == object_id@
                &&& d.workspace_id@ == snapshot_for(
                    self.snapshots@,
                    object_id@,
                    snapshot_id,
                ).workspace_id@
                &&& d.encoded_collab_v1@ == snapshot_for(
                    self.snapshots@,
                    object_id@,
                    snapshot_id,
                ).encoded@
            },
            r matches Err(e) ==> e is NotFound,
    {
        let mut i: usize = 0;
        while i < self.snapshots.len()
            invariant
                self.wf(),
                i <= self.snapshots@.len(),
                forall|j: int|
                    0 <= j < i ==> !matches_snapshot(
                        #[trigger] self.snapshots@[j],
                        object_id@,
                        snapshot_id,
                    ),
            decreases self.snapshots@.len() - i,
        {
            if self.snapshots[i].snapshot_id == snapshot_id && self.snapshots[i].object_id
                == *object_id {
                proof {
                    lemma_snapshot_unique(
                        self.snapshots@,
                        self.next_snapshot_id,
                        object_id@,
                        snapshot_id,
                        i as int,
                    );
                }
                return Ok(
                    SnapshotData {
                        object_id: self.snapshots[i].object_id.clone(),
                        workspace_id: self.snapshots[i].workspace_id.clone(),
                        encoded_collab_v1: crate::cache::copy_bytes(&self.snapshots[i].encoded),
                    },
                );
            }
            i += 1;
        }
        Err(AppError::NotFound("snapshot not found".to_owned()))
    }

    /// Lists the snapshot metadata of `oid`, in creation order.
    pub fn get_collab_snapshot_list(&self, oid: &String) -> (r: Vec<AFSnapshotMeta>)
        ensures
            r@ == metas_of(self.snapshots@, oid@),
    {
        let mut out: Vec<AFSnapshotMeta> = Vec::new();
        let mut i: usize = 0;
        while i < self.snapshots.len()
            invariant
                i <= self.snapshots@.len(),
                out@ == metas_of(self.snapshots@.subrange(0, i as int), oid@),
            decreases self.snapshots@.len() - i,
        {
            let ghost prefix = self.snapshots@.subrange(0, i as int);
            if self.snapshots[i].object_id == *oid {
                out.push(
                    AFSnapshotMeta {
                        snapshot_id: self.snapshots[i].snapshot_id,
                        object_id: self.snapshots[i].object_id.clone(),
                        created_at: self.snapshots[i].created_at,
                    },
                );
            }
            proof {
                let prefix1 = self.snapshots@.subrange(0, i + 1 as int);
                assert(prefix1.drop_last() =~= prefix);
                assert(prefix1.last() == self.snapshots@[i as int]);
            }
            i += 1;
        }
        proof {
            assert(self.snapshots@.subrange(0, i as int) =~= self.snapshots@);
        }
        out
    }
}

} // verus!
