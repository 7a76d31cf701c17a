//! The collab cache: fronts the persistent store with one authoritative row
//! per object id. Writes go through a transaction that holds pending rows and
//! applies them to the store only at commit, so an abandoned transaction
//! leaves the store untouched. Point reads maintain the total/success query
//! counters.

use vstd::prelude::*;
use crate::entities::CollabParams;
use crate::entities::EncodedCollab;
use crate::entities::QueryCollabParams;
use crate::errors::AppError;

verus! {

/// One authoritative persisted row: the encoded state of one collab object.
#[derive(Clone, Debug)]
pub struct CollabRow {
    pub object_id: String,
    pub workspace_id: String,
    pub uid: i64,
    pub encoded: Vec<u8>,
}

pub open spec fn matches_row(r: CollabRow, oid: Seq<char>) -> bool {
    r.object_id@ == oid
}

pub open spec fn has_row(rows: Seq<CollabRow>, oid: Seq<char>) -> bool {
    exists|i: int| 0 <= i < rows.len() && matches_row(#[trigger] rows[i], oid)
}

/// The (unique, under `rows_wf`) row for `oid`.
pub open spec fn row_for(rows: Seq<CollabRow>, oid: Seq<char>) -> CollabRow {
    rows[choose|i: int| 0 <= i < rows.len() && matches_row(rows[i], oid)]
}

/// At most one authoritative row per object id.
pub open spec fn rows_wf(rows: Seq<CollabRow>) -> bool {
    forall|i: int, j: int|
        0 <= i < rows.len() && 0 <= j < rows.len() && i != j ==> !matches_row(
            #[trigger] rows[i],
            (#[trigger] rows[j]).object_id@,
        )
}

/// `r` occurs in `s`.
pub open spec fn row_elem_in(s: Seq<CollabRow>, r: CollabRow) -> bool {
    exists|k: int| 0 <= k < s.len() && s[k] == r
}

/// Law: under `rows_wf` the store holds exactly one row per present object id
/// — two rows for the same object id are the same row.
pub proof fn lemma_row_unique(rows: Seq<CollabRow>, oid: Seq<char>, i: int, j: int)
    requires
        rows_wf(rows),
        0 <= i < rows.len(),
        0 <= j < rows.len(),
        matches_row(rows[i], oid),
        matches_row(rows[j], oid),
    ensures
        i == j,
        has_row(rows, oid),
        row_for(rows, oid) == rows[i],
{
    assert(has_row(rows, oid));
    let k = choose|k: int| 0 <= k < rows.len() && matches_row(rows[k], oid);
    assert(matches_row(rows[k], oid));
    if k != i {
        assert(!matches_row(rows[k], rows[i].object_id@));
        assert(false);
    }
}

/// The effect of an upsert (remove the old row for `oid` if one exists, then
/// append the new one): the store stays well-formed, the new row is the
/// unique row for `oid`, and every other object id keeps its row.
proof fn lemma_row_table_update(
    pre: Seq<CollabRow>,
    mid: Seq<CollabRow>,
    post: Seq<CollabRow>,
    i_opt: Option<int>,
    oid: Seq<char>,
)
    requires
        rows_wf(pre),
        match i_opt {
            Some(i) => 0 <= i < pre.len() && matches_row(pre[i], oid) && mid == pre.remove(i),
            None => mid == pre && !has_row(pre, oid),
        },
        post.len() == mid.len() + 1,
        post == mid.push(post[post.len() - 1]),
        post[post.len() - 1].object_id@ == oid,
    ensures
        rows_wf(post),
        has_row(post, oid),
        row_for(post, oid) == post[post.len() - 1],
        forall|k: Seq<char>| k != oid ==> #[trigger] has_row(post, k) == has_row(pre, k),
        forall|k: Seq<char>|
            k != oid && has_row(pre, k) ==> #[trigger] row_for(post, k) == row_for(pre, k),
        post.len() == if i_opt is Some {
            pre.len() as int
        } else {
            pre.len() + 1int
        },
{
    let n = post.len() - 1;
    assert forall|j: int| 0 <= j < mid.len() implies row_elem_in(pre, #[trigger] mid[j]) by {
        match i_opt {
            Some(i) => {
                if j < i {
                    assert(pre[j] == mid[j]);
                } else {
                    assert(pre[j + 1] == mid[j]);
                }
            },
            None => {
                assert(pre[j] == mid[j]);
            },
        }
    }
    assert forall|k: int|
        0 <= k < pre.len() && !matches_row(#[trigger] pre[k], oid) implies row_elem_in(
        mid,
        pre[k],
    ) by {
        match i_opt {
            Some(i) => {
                if k < i {
                    assert(mid[k] == pre[k]);
                } else {
                    assert(k != i);
                    assert(mid[k - 1] == pre[k]);
                }
            },
            None => {
                assert(mid[k] == pre[k]);
            },
        }
    }
    assert forall|j: int| 0 <= j < mid.len() implies !matches_row(#[trigger] mid[j], oid) by {
        match i_opt {
            Some(i) => {
                let j0 = if j < i {
                    j
                } else {
                    j + 1
                };
                assert(mid[j] == pre[j0]);
                if matches_row(pre[j0], oid) {
                    lemma_row_unique(pre, oid, j0, i);
                    assert(false);
                }
            },
            None => {
                assert(mid[j] == pre[j]);
            },
        }
    }
    assert forall|a: int, b: int|
        0 <= a < post.len() && 0 <= b < post.len() && a != b implies !matches_row(
        #[trigger] post[a],
        (#[trigger] post[b]).object_id@,
    ) by {
        if a == n {
            assert(!matches_row(post[b], oid));
        } else if b == n {
            assert(!matches_row(post[a], oid));
        } else {
            assert(mid[a] == post[a] && mid[b] == post[b]);
        }
    }
    lemma_row_unique(post, oid, n, n);
    assert forall|k: Seq<char>| k != oid implies #[trigger] has_row(post, k) == has_row(
        pre,
        k,
    ) by {
        lemma_row_frame(pre, mid, post, oid, k);
    }
    assert forall|k: Seq<char>| k != oid && has_row(pre, k) implies #[trigger] row_for(post, k)
        == row_for(pre, k) by {
        lemma_row_frame(pre, mid, post, oid, k);
    }
}

/// Frame of an upsert for object ids other than the written one.
proof fn lemma_row_frame(
    pre: Seq<CollabRow>,
    mid: Seq<CollabRow>,
    post: Seq<CollabRow>,
    oid: Seq<char>,
    k: Seq<char>,
)
    requires
        rows_wf(pre),
        rows_wf(post),
        post.len() == mid.len() + 1,
        forall|j: int| 0 <= j < mid.len() ==> post[j] == #[trigger] mid[j],
        post[post.len() - 1].object_id@ == oid,
        forall|j: int| 0 <= j < mid.len() ==> row_elem_in(pre, #[trigger] mid[j]),
        forall|j: int|
            0 <= j < pre.len() && !matches_row(#[trigger] pre[j], oid) ==> row_elem_in(
                mid,
                pre[j],
            ),
        k != oid,
    ensures
        has_row(post, k) == has_row(pre, k),
        has_row(pre, k) ==> row_for(post, k) == row_for(pre, k),
{
    let n = post.len() - 1;
    if has_row(pre, k) {
        let a = choose|a: int| 0 <= a < pre.len() && matches_row(#[trigger] pre[a], k);
        assert(!matches_row(pre[a], oid));
        assert(row_elem_in(mid, pre[a]));
        let j = choose|j: int| 0 <= j < mid.len() && mid[j] == pre[a];
        assert(matches_row(post[j], k));
        assert(has_row(post, k));
        lemma_row_unique(post, k, j, j);
        lemma_row_unique(pre, k, a, a);
    }
    if has_row(post, k) {
        let j = choose|j: int| 0 <= j < post.len() && matches_row(#[trigger] post[j], k);
        if j == n {
            assert(false);
        }
        assert(mid[j] == post[j]);
        assert(row_elem_in(pre, mid[j]));
        let a = choose|a: int| 0 <= a < pre.len() && pre[a] == mid[j];
        assert(matches_row(pre[a], k));
        assert(has_row(pre, k));
    }
}

/// The effect of removing the row for `oid`, when the removal is by index
/// `i_opt` (or a no-op when no row exists): the store stays well-formed, the
/// row is gone, and every other object id keeps its row.
proof fn lemma_row_table_remove(
    pre: Seq<CollabRow>,
    post: Seq<CollabRow>,
    i_opt: Option<int>,
    oid: Seq<char>,
)
    requires
        rows_wf(pre),
        match i_opt {
            Some(i) => 0 <= i < pre.len() && matches_row(pre[i], oid) && post == pre.remove(i),
            None => post == pre && !has_row(pre, oid),
        },
    ensures
        rows_wf(post),
        !has_row(post, oid),
        forall|k: Seq<char>| k != oid ==> #[trigger] has_row(post, k) == has_row(pre, k),
        forall|k: Seq<char>|
            k != oid && has_row(pre, k) ==> #[trigger] row_for(post, k) == row_for(pre, k),
        post.len() == if has_row(pre, oid) {
            pre.len() - 1
        } else {
            pre.len() as int
        },
{
    match i_opt {
        Some(i) => {
            assert(has_row(pre, oid));
            assert forall|a: int, b: int|
                0 <= a < post.len() && 0 <= b < post.len() && a != b implies !matches_row(
                #[trigger] post[a],
                (#[trigger] post[b]).object_id@,
            ) by {
                let a0 = if a < i {
                    a
                } else {
                    a + 1
                };
                let b0 = if b < i {
                    b
                } else {
                    b + 1
                };
                assert(post[a] == pre[a0] && post[b] == pre[b0]);
            }
            assert forall|j: int| 0 <= j < post.len() implies !matches_row(
                #[trigger] post[j],
                oid,
            ) by {
                let j0 = if j < i {
                    j
                } else {
                    j + 1
                };
                assert(post[j] == pre[j0]);
                if matches_row(pre[j0], oid) {
                    lemma_row_unique(pre, oid, j0, i);
                    assert(false);
                }
            }
            assert forall|k: Seq<char>| k != oid implies #[trigger] has_row(post, k) == has_row(
                pre,
                k,
            ) by {
                if has_row(pre, k) {
                    let a = choose|a: int| 0 <= a < pre.len() && matches_row(#[trigger] pre[a], k);
                    assert(a != i);
                    let j = if a < i {
                        a
                    } else {
                        a - 1
                    };
                    assert(post[j] == pre[a]);
                    assert(has_row(post, k));
                }
                if has_row(post, k) {
                    let j = choose|j: int|
                        0 <= j < post.len() && matches_row(#[trigger] post[j], k);
                    let j0 = if j < i {
                        j
                    } else {
                        j + 1
                    };
                    assert(post[j] == pre[j0]);
                    assert(has_row(pre, k));
                }
            }
            assert forall|k: Seq<char>| k != oid && has_row(pre, k) implies #[trigger] row_for(
                post,
                k,
            ) == row_for(pre, k) by {
                let a = choose|a: int| 0 <= a < pre.len() && matches_row(#[trigger] pre[a], k);
                assert(a != i);
                let j = if a < i {
                    a
                } else {
                    a - 1
                };
                assert(post[j] == pre[a]);
                lemma_row_unique(pre, k, a, a);
                lemma_row_unique(post, k, j, j);
            }
        },
        None => {},
    }
}

/// Uncommitted rows of one store transaction, applied in order at commit.
pub open spec fn pending_has(pending: Seq<CollabRow>, k: Seq<char>) -> bool
    decreases pending.len(),
{
    if pending.len() == 0 {
        false
    } else {
        pending.last().object_id@ == k || pending_has(pending.drop_last(), k)
    }
}

/// The last pending row for `k` — the one that wins at commit.
pub open spec fn pending_last(pending: Seq<CollabRow>, k: Seq<char>) -> CollabRow
    recommends
        pending_has(pending, k),
    decreases pending.len(),
{
    if pending.len() == 0 {
        pending.last()
    } else if pending.last().object_id@ == k {
        pending.last()
    } else {
        pending_last(pending.drop_last(), k)
    }
}

/// A caller-held transaction: rows staged for the store, invisible to reads
/// until `commit` applies them. Dropping the transaction before commit leaves
/// the store fully unchanged.
#[derive(Debug)]
pub struct StoreTransaction {
    pub pending: Vec<CollabRow>,
}

/// Copies a byte vector; used where a row's encoded state is handed out.
pub(crate) fn copy_bytes(v: &Vec<u8>) -> (r: Vec<u8>)
    ensures
        r@ == v@,
{
    let mut r: Vec<u8> = Vec::new();
    let mut i: usize = 0;
    while i < v.len()
        invariant
            i <= v@.len(),
            r@ == v@.subrange(0, i as int),
        decreases v@.len() - i,
    {
        r.push(v[i]);
        i += 1;
    }
    proof {
        assert(r@ =~= v@);
    }
    r
}

/// The cache fronting the persistent store: one row per object id, plus the
/// running counters of total and successful point-read attempts.
#[derive(Debug)]
pub struct CollabCache {
    pub rows: Vec<CollabRow>,
    pub total_attempts: u64,
    pub success_attempts: u64,
}

/// A counter bump that stops at the top of `u64` rather than wrapping.
pub open spec fn sat_inc(c: u64) -> u64 {
    if c == u64::MAX {
        c
    } else {
        (c + 1) as u64
    }
}

impl CollabCache {
    /// Rows are keyed uniquely, and the success counter never exceeds the
    /// attempt counter.
    pub open spec fn wf(&self) -> bool {
        &&& rows_wf(self.rows@)
        &&& self.success_attempts <= self.total_attempts
    }

    pub fn new() -> (r: CollabCache)
        ensures
            r.wf(),
            r.rows@.len() == 0,
            r.total_attempts == 0,
            r.success_attempts == 0,
    {
        CollabCache { rows: Vec::new(), total_attempts: 0, success_attempts: 0 }
    }

    fn find_row(&self, object_id: &String) -> (r: Option<usize>)
        ensures
            match r {
                Some(i) => i < self.rows@.len() && matches_row(self.rows@[i as int], object_id@),
                None => !has_row(self.rows@, object_id@),
            },
    {
        let mut i: usize = 0;
        while i < self.rows.len()
            invariant
                i <= self.rows@.len(),
                forall|j: int| 0 <= j < i ==> !matches_row(#[trigger] self.rows@[j], object_id@),
            decreases self.rows@.len() - i,
        {
            if self.rows[i].object_id == *object_id {
                return Some(i);
            }
            i += 1;
        }
        None
    }

    /// Existence check by object id.
    pub fn is_exist(&self, object_id: &String) -> (r: bool)
        ensures
            r == has_row(self.rows@, object_id@),
    {
        match self.find_row(object_id) {
            Some(i) => {
                proof {
                    assert(has_row(self.rows@, object_id@));
                }
                true
            },
            None => false,
        }
    }

    /// The number of persisted rows.
    pub fn len(&self) -> (n: usize)
        ensures
            n == self.rows@.len(),
    {
        self.rows.len()
    }

    /// The counters: (total point-read attempts, successful point-read
    /// attempts). Observability only; never used in decision logic. Successes
    /// never exceed attempts.
    pub fn query_state(&self) -> (r: (u64, u64))
        requires
            self.wf(),
        ensures
            r.0 == self.total_attempts,
            r.1 == self.success_attempts,
            r.1 <= r.0,
    {
        (self.total_attempts, self.success_attempts)
    }

    /// The encoded state of `object_id`, if persisted; counters untouched.
    pub fn get_encoded_bytes(&self, object_id: &String) -> (r: Option<Vec<u8>>)
        requires
            self.wf(),
        ensures
            r is Some <==> has_row(self.rows@, object_id@),
            r matches Some(b) ==> b@ == row_for(self.rows@, object_id@).encoded@,
    {
        match self.find_row(object_id) {
            Some(i) => {
                proof {
                    lemma_row_unique(self.rows@, object_id@, i as int, i as int);
                }
                Some(copy_bytes(&self.rows[i].encoded))
            },
            None => None,
        }
    }

    /// Point read of the persisted encoded state, counting the attempt and,
    /// on a hit, the success.
    pub fn get_collab_encode_data(&mut self, uid: i64, params: &QueryCollabParams) -> (r: Result<
        EncodedCollab,
        AppError,
    >)
        requires
            old(self).wf(),
        ensures
            final(self).wf(),
            final(self).rows@ == old(self).rows@,
            final(self).total_attempts == sat_inc(old(self).total_attempts),
            final(self).success_attempts == if has_row(old(self).rows@, params.object_id@) {
                sat_inc(old(self).success_attempts)
            } else {
                old(self).success_attempts
            },
            r is Ok <==> has_row(old(self).rows@, params.object_id@),
            r matches Ok(v) ==> v.doc_state@ == row_for(old(self).rows@, params.object_id@).encoded@,
            r matches Err(e) ==> e is NotFound,
    {
        if self.total_attempts < u64::MAX {
            self.total_attempts = self.total_attempts + 1;
        }
        match self.find_row(&params.object_id) {
            Some(i) => {
                proof {
                    lemma_row_unique(self.rows@, params.object_id@, i as int, i as int);
                }
                if self.success_attempts < u64::MAX {
                    self.success_attempts = self.success_attempts + 1;
                }
                Ok(EncodedCollab { doc_state: copy_bytes(&self.rows[i].encoded) })
            },
            None => Err(AppError::NotFound("collab not found in store".to_owned())),
        }
    }

    /// Opens a transaction holding no pending writes.
    pub fn begin(&self) -> (t: StoreTransaction)
        ensures
            t.pending@.len() == 0,
    {
        StoreTransaction { pending: Vec::new() }
    }

    /// Stages the encoded collab data of `params` in the transaction; the
    /// store itself is untouched until commit.
    pub fn insert_encode_collab_data(
        &self,
        workspace_id: &String,
        uid: i64,
        params: CollabParams,
        transaction: &mut StoreTransaction,
    )
        ensures
            final(transaction).pending@ == old(transaction).pending@.push(
                CollabRow {
                    object_id: params.object_id,
                    workspace_id: *workspace_id,
                    uid,
                    encoded: params.encoded_collab,
                },
            ),
    {
        transaction.pending.push(
            CollabRow {
                object_id: params.object_id,
                workspace_id: workspace_id.clone(),
                uid,
                encoded: params.encoded_collab,
            },
        );
    }

    /// Replaces or appends the row for `row.object_id`.
    fn upsert_row(&mut self, row: CollabRow)
        requires
            old(self).wf(),
        ensures
            final(self).wf(),
            final(self).total_attempts == old(self).total_attempts,
            final(self).success_attempts == old(self).success_attempts,
            has_row(final(self).rows@, row.object_id@),
            row_for(final(self).rows@, row.object_id@) == row,
            forall|k: Seq<char>|
                k != row.object_id@ ==> #[trigger] has_row(final(self).rows@, k) == has_row(
                    old(self).rows@,
                    k,
                ),
            forall|k: Seq<char>|
                k != row.object_id@ && has_row(old(self).rows@, k) ==> #[trigger] row_for(
                    final(self).rows@,
                    k,
                ) == row_for(old(self).rows@, k),
            final(self).rows@.len() == if has_row(old(self).rows@, row.object_id@) {
                old(self).rows@.len() as int
            } else {
                old(self).rows@.len() + 1int
            },
    {
        let ghost pre = self.rows@;
        let ghost oid = row.object_id@;
        let found = self.find_row(&row.object_id);
        let ghost i_opt: Option<int> = match found {
            Some(i) => Some(i as int),
            None => None,
        };
        match found {
            Some(i) => {
                self.rows.remove(i);
            },
            None => {},
        }
        let ghost mid = self.rows@;
        self.rows.push(row);
        proof {
            if i_opt is Some {
                assert(has_row(pre, oid));
            }
            lemma_row_table_update(pre, mid, self.rows@, i_opt, oid);
        }
    }

    /// Applies the transaction's pending rows to the store, in order, as one
    /// atomic batch: afterwards each object id holds its last pending row, or
    /// its prior row when the transaction never wrote it.
    pub fn commit(&mut self, transaction: StoreTransaction)
        requires
            old(self).wf(),
        ensures
            final(self).wf(),
            final(self).total_attempts == old(self).total_attempts,
            final(self).success_attempts == old(self).success_attempts,
            forall|k: Seq<char>|
                #[trigger] has_row(final(self).rows@, k) == (pending_has(transaction.pending@, k)
                    || has_row(old(self).rows@, k)),
            forall|k: Seq<char>|
                pending_has(transaction.pending@, k) ==> #[trigger] row_for(final(self).rows@, k)
                    == pending_last(transaction.pending@, k),
            forall|k: Seq<char>|
                !pending_has(transaction.pending@, k) && has_row(old(self).rows@, k)
                    ==> #[trigger] row_for(final(self).rows@, k) == row_for(old(self).rows@, k),
    {
        let StoreTransaction { mut pending } = transaction;
        let ghost pending0 = pending@;
        let plen = pending.len();
        proof {
            assert(pending0.len() == plen as int);
        }
        let ghost rows0 = self.rows@;
        let ghost t0 = self.total_attempts;
        let ghost s0 = self.success_attempts;
        let mut i: usize = 0;
        while pending.len() > 0
            invariant
                self.wf(),
                self.total_attempts == t0,
                self.success_attempts == s0,
                pending0.len() <= usize::MAX,
                i <= pending0.len(),
                pending@ == pending0.subrange(i as int, pending0.len() as int),
                forall|k: Seq<char>|
                    #[trigger] has_row(self.rows@, k) == (pending_has(
                        pending0.subrange(0, i as int),
                        k,
                    ) || has_row(rows0, k)),
                forall|k: Seq<char>|
                    pending_has(pending0.subrange(0, i as int), k) ==> #[trigger] row_for(
                        self.rows@,
                        k,
                    ) == pending_last(pending0.subrange(0, i as int), k),
                forall|k: Seq<char>|
                    !pending_has(pending0.subrange(0, i as int), k) && has_row(rows0, k)
                        ==> #[trigger] row_for(self.rows@, k) == row_for(rows0, k),
            decreases pending@.len(),
        {
            let ghost pre_rows = self.rows@;
            let ghost prefix = pending0.subrange(0, i as int);
            let row = pending.remove(0);
            assert(row == pending0[i as int]);
            self.upsert_row(row);
            proof {
                let prefix1 = pending0.subrange(0, i + 1 as int);
                assert(prefix1.drop_last() =~= prefix);
                assert(prefix1.last() == pending0[i as int]);
                assert forall|k: Seq<char>| #[trigger] pending_has(prefix1, k) == (pending0[
                    i as int
                ].object_id@ == k || pending_has(prefix, k)) by {}
                assert forall|k: Seq<char>|
                    pending_has(prefix1, k) implies #[trigger] row_for(self.rows@, k)
                    == pending_last(prefix1, k) by {
                    if pending0[i as int].object_id@ == k {
                    } else {
                        assert(pending_has(prefix, k));
                        assert(pending_last(prefix1, k) == pending_last(prefix, k));
                    }
                }
                assert(pending@ =~= pending0.subrange(i + 1 as int, pending0.len() as int));
            }
            i += 1;
        }
        proof {
            assert(pending0.subrange(0, i as int) =~= pending0);
        }
    }

    /// Removes the row for `object_id`; removal of an absent object id is a
    /// success that changes nothing.
    pub fn remove_collab(&mut self, object_id: &String)
        requires
            old(self).wf(),
        ensures
            final(self).wf(),
            final(self).total_attempts == old(self).total_attempts,
            final(self).success_attempts == old(self).success_attempts,
            !has_row(final(self).rows@, object_id@),
            forall|k: Seq<char>|
                k != object_id@ ==> #[trigger] has_row(final(self).rows@, k) == has_row(
                    old(self).rows@,
                    k,
                ),
            forall|k: Seq<char>|
                k != object_id@ && has_row(old(self).rows@, k) ==> #[trigger] row_for(
                    final(self).rows@,
                    k,
                ) == row_for(old(self).rows@, k),
            final(self).rows@.len() == if has_row(old(self).rows@, object_id@) {
                old(self).rows@.len() - 1
            } else {
                old(self).rows@.len() as int
            },
    {
        let ghost pre = self.rows@;
        let found = self.find_row(object_id);
        let ghost i_opt: Option<int> = match found {
            Some(i) => Some(i as int),
            None => None,
        };
        match found {
            Some(i) => {
                self.rows.remove(i);
            },
            None => {},
        }
        proof {
            lemma_row_table_remove(pre, self.rows@, i_opt, object_id@);
        }
    }
}

} // verus!
