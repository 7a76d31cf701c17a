//! Access control: the capability interface every storage operation consults
//! before a mutation or privileged read, and a policy-table implementation of
//! it. A policy row grants one user an access level over one object; workspace
//! membership grants the right to create objects in that workspace.

use vstd::prelude::*;

verus! {

/// The permission tier granted to a user over an object.
#[derive(Clone, Copy, Debug, PartialEq, Eq, Structural)]
pub enum AccessLevel {
    ReadOnly,
    ReadAndComment,
    ReadAndWrite,
    FullAccess,
}

impl AccessLevel {
    /// Every level grants read.
    pub open spec fn allows_read(self) -> bool {
        true
    }

    pub open spec fn allows_write(self) -> bool {
        self == AccessLevel::ReadAndWrite || self == AccessLevel::FullAccess
    }

    pub open spec fn allows_delete(self) -> bool {
        self == AccessLevel::FullAccess
    }

    pub fn grants_write(self) -> (r: bool)
        ensures
            r == self.allows_write(),
    {
        match self {
            AccessLevel::ReadAndWrite => true,
            AccessLevel::FullAccess => true,
            _ => false,
        }
    }

    pub fn grants_delete(self) -> (r: bool)
        ensures
            r == self.allows_delete(),
    {
        match self {
            AccessLevel::FullAccess => true,
            _ => false,
        }
    }
}

/// One policy row: `uid` holds `access_level` over `object_id`.
#[derive(Clone, Debug)]
pub struct AccessPolicy {
    pub uid: i64,
    pub object_id: String,
    pub access_level: AccessLevel,
}

/// One workspace membership row: `uid` may create objects in `workspace_id`.
#[derive(Clone, Debug)]
pub struct WorkspaceMember {
    pub uid: i64,
    pub workspace_id: String,
}

pub open spec fn matches_policy(p: AccessPolicy, uid: i64, oid: Seq<char>) -> bool {
    p.uid == uid && p.object_id@ == oid
}

pub open spec fn has_policy(policies: Seq<AccessPolicy>, uid: i64, oid: Seq<char>) -> bool {
    exists|i: int| 0 <= i < policies.len() && matches_policy(#[trigger] policies[i], uid, oid)
}

/// The level of the (unique, under `policies_wf`) row for `(uid, oid)`.
pub open spec fn policy_level(policies: Seq<AccessPolicy>, uid: i64, oid: Seq<char>) -> AccessLevel {
    policies[choose|i: int| 0 <= i < policies.len() && matches_policy(policies[i], uid, oid)].access_level
}

/// At most one row per `(uid, object_id)` pair.
pub open spec fn policies_wf(policies: Seq<AccessPolicy>) -> bool {
    forall|i: int, j: int|
        0 <= i < policies.len() && 0 <= j < policies.len() && i != j ==> !matches_policy(
            #[trigger] policies[i],
            (#[trigger] policies[j]).uid,
            policies[j].object_id@,
        )
}

pub open spec fn matches_member(m: WorkspaceMember, uid: i64, ws: Seq<char>) -> bool {
    m.uid == uid && m.workspace_id@ == ws
}

pub open spec fn is_member(members: Seq<WorkspaceMember>, uid: i64, ws: Seq<char>) -> bool {
    exists|i: int| 0 <= i < members.len() && matches_member(#[trigger] members[i], uid, ws)
}

/// `p` occurs in `s`.
pub open spec fn elem_in(s: Seq<AccessPolicy>, p: AccessPolicy) -> bool {
    exists|k: int| 0 <= k < s.len() && s[k] == p
}

/// Law: under `policies_wf` the policy table holds exactly one row for a
/// granted `(uid, object_id)` pair — two rows for the pair are the same row.
pub proof fn lemma_policy_row_unique(
    policies: Seq<AccessPolicy>,
    uid: i64,
    oid: Seq<char>,
    i: int,
    j: int,
)
    requires
        policies_wf(policies),
        0 <= i < policies.len(),
        0 <= j < policies.len(),
        matches_policy(policies[i], uid, oid),
        matches_policy(policies[j], uid, oid),
    ensures
        i == j,
        has_policy(policies, uid, oid),
        policy_level(policies, uid, oid) == policies[i].access_level,
{
    assert(has_policy(policies, uid, oid));
    let k = choose|k: int| 0 <= k < policies.len() && matches_policy(policies[k], uid, oid);
    assert(matches_policy(policies[k], uid, oid));
    if k != i {
        assert(!matches_policy(policies[k], policies[i].uid, policies[i].object_id@));
        assert(false);
    }
}

/// The capability interface of an access-control provider: yes/no permission
/// questions, and recording of a policy grant.
pub trait CollabStorageAccessControl: Sized {
    /// Internal consistency of the provider's state.
    spec fn wf(&self) -> bool;

    spec fn can_read_collab(&self, workspace_id: Seq<char>, uid: i64, object_id: Seq<char>) -> bool;

    spec fn can_write_collab(&self, workspace_id: Seq<char>, uid: i64, object_id: Seq<char>) -> bool;

    spec fn can_delete_collab(&self, workspace_id: Seq<char>, uid: i64, object_id: Seq<char>) -> bool;

    spec fn can_write_workspace(&self, uid: i64, workspace_id: Seq<char>) -> bool;

    fn enforce_read_collab(&self, workspace_id: &String, uid: i64, object_id: &String) -> (r: bool)
        requires
            self.wf(),
        ensures
            r == self.can_read_collab(workspace_id@, uid, object_id@),
    ;

    fn enforce_write_collab(&self, workspace_id: &String, uid: i64, object_id: &String) -> (r:
        bool)
        requires
            self.wf(),
        ensures
            r == self.can_write_collab(workspace_id@, uid, object_id@),
    ;

    fn enforce_delete(&self, workspace_id: &String, uid: i64, object_id: &String) -> (r: bool)
        requires
            self.wf(),
        ensures
            r == self.can_delete_collab(workspace_id@, uid, object_id@),
    ;

    fn enforce_write_workspace(&self, uid: i64, workspace_id: &String) -> (r: bool)
        requires
            self.wf(),
        ensures
            r == self.can_write_workspace(uid, workspace_id@),
    ;

    /// Records that `uid` holds `level` over `object_id`, leaving every other
    /// `(user, object)` pair and all workspace rights unchanged.
    fn update_policy(&mut self, uid: i64, object_id: &String, level: AccessLevel)
        requires
            old(self).wf(),
        ensures
            final(self).wf(),
            forall|ws: Seq<char>|
                #[trigger] final(self).can_read_collab(ws, uid, object_id@)
                    == level.allows_read(),
            forall|ws: Seq<char>|
                #[trigger] final(self).can_write_collab(ws, uid, object_id@)
                    == level.allows_write(),
            forall|ws: Seq<char>|
                #[trigger] final(self).can_delete_collab(ws, uid, object_id@)
                    == level.allows_delete(),
            forall|ws: Seq<char>, u: i64, o: Seq<char>|
                !(u == uid && o == object_id@) ==> #[trigger] final(self).can_read_collab(ws, u, o)
                    == old(self).can_read_collab(ws, u, o),
            forall|ws: Seq<char>, u: i64, o: Seq<char>|
                !(u == uid && o == object_id@) ==> #[trigger] final(self).can_write_collab(
                    ws,
                    u,
                    o,
                ) == old(self).can_write_collab(ws, u, o),
            forall|ws: Seq<char>, u: i64, o: Seq<char>|
                !(u == uid && o == object_id@) ==> #[trigger] final(self).can_delete_collab(
                    ws,
                    u,
                    o,
                ) == old(self).can_delete_collab(ws, u, o),
            forall|u: i64, ws: Seq<char>|
                #[trigger] final(self).can_write_workspace(u, ws) == old(self).can_write_workspace(u, ws),
    ;
}

/// An in-memory access-control provider backed by a policy table and a
/// workspace membership table.
#[derive(Clone, Debug)]
pub struct PolicyAccessControl {
    pub policies: Vec<AccessPolicy>,
    pub members: Vec<WorkspaceMember>,
}

impl PolicyAccessControl {
    pub fn new() -> (r: PolicyAccessControl)
        ensures
            r.wf(),
            r.policies@.len() == 0,
            r.members@.len() == 0,
    {
        PolicyAccessControl { policies: Vec::new(), members: Vec::new() }
    }

    /// Records that `uid` may create objects in `workspace_id`; collab-level
    /// policies are untouched.
    pub fn add_workspace_member(&mut self, uid: i64, workspace_id: String)
        requires
            old(self).wf(),
        ensures
            final(self).wf(),
            final(self).policies == old(self).policies,
            final(self).members@ == old(self).members@.push(
                WorkspaceMember { uid, workspace_id },
            ),
            final(self).can_write_workspace(uid, workspace_id@),
            forall|u: i64, ws: Seq<char>|
                old(self).can_write_workspace(u, ws) ==> #[trigger] final(self).can_write_workspace(u, ws),
    {
        let ghost ws_view = workspace_id@;
        self.members.push(WorkspaceMember { uid, workspace_id });
        proof {
            let n = self.members@.len() - 1;
            assert(matches_member(self.members@[n], uid, ws_view));
            assert forall|u: i64, ws: Seq<char>|
                is_member(old(self).members@, u, ws) implies is_member(
                self.members@,
                u,
                ws,
            ) by {
                let w = choose|i: int|
                    0 <= i < old(self).members@.len() && matches_member(
                        #[trigger] old(self).members@[i],
                        u,
                        ws,
                    );
                assert(matches_member(self.members@[w], u, ws));
            }
        }
    }

    fn find_policy(&self, uid: i64, object_id: &String) -> (r: Option<usize>)
        ensures
            match r {
                Some(i) => i < self.policies@.len() && matches_policy(
                    self.policies@[i as int],
                    uid,
                    object_id@,
                ),
                None => !has_policy(self.policies@, uid, object_id@),
            },
    {
        let mut i: usize = 0;
        while i < self.policies.len()
            invariant
                i <= self.policies@.len(),
                forall|j: int|
                    0 <= j < i ==> !matches_policy(#[trigger] self.policies@[j], uid, object_id@),
            decreases self.policies@.len() - i,
        {
            if self.policies[i].uid == uid && self.policies[i].object_id == *object_id {
                return Some(i);
            }
            i += 1;
        }
        None
    }

    /// The access level `uid` holds over `object_id`, if a policy row grants
    /// one.
    pub fn get_access_level(&self, uid: i64, object_id: &String) -> (r: Option<AccessLevel>)
        requires
            self.wf(),
        ensures
            r is Some <==> has_policy(self.policies@, uid, object_id@),
            r matches Some(l) ==> l == policy_level(self.policies@, uid, object_id@),
    {
        match self.find_policy(uid, object_id) {
            Some(i) => {
                proof {
                    lemma_policy_row_unique(self.policies@, uid, object_id@, i as int, i as int);
                }
                Some(self.policies[i].access_level)
            },
            None => None,
        }
    }

    /// The number of policy rows for `(uid, object_id)`: one when a grant
    /// exists, zero otherwise — never more.
    pub fn count_policies_for(&self, uid: i64, object_id: &String) -> (n: usize)
        requires
            self.wf(),
        ensures
            n == if has_policy(self.policies@, uid, object_id@) {
                1int
            } else {
                0int
            },
    {
        let mut n: usize = 0;
        let mut i: usize = 0;
        while i < self.policies.len()
            invariant
                self.wf(),
                i <= self.policies@.len(),
                n <= 1,
                n == 1 <==> exists|j: int|
                    0 <= j < i && matches_policy(#[trigger] self.policies@[j], uid, object_id@),
            decreases self.policies@.len() - i,
        {
            if self.policies[i].uid == uid && self.policies[i].object_id == *object_id {
                proof {
                    if n == 1 {
                        let j = choose|j: int|
                            0 <= j < i && matches_policy(
                                #[trigger] self.policies@[j],
                                uid,
                                object_id@,
                            );
                        lemma_policy_row_unique(
                            self.policies@,
                            uid,
                            object_id@,
                            j,
                            i as int,
                        );
                    }
                }
                n = n + 1;
            }
            i += 1;
        }
        proof {
            if has_policy(self.policies@, uid, object_id@) {
                let j = choose|j: int|
                    0 <= j < self.policies@.len() && matches_policy(
                        #[trigger] self.policies@[j],
                        uid,
                        object_id@,
                    );
                assert(matches_policy(self.policies@[j], uid, object_id@));
            }
        }
        n
    }
}

impl CollabStorageAccessControl for PolicyAccessControl {
    open spec fn wf(&self) -> bool {
        policies_wf(self.policies@)
    }

    open spec fn can_read_collab(
        &self,
        workspace_id: Seq<char>,
        uid: i64,
        object_id: Seq<char>,
    ) -> bool {
        has_policy(self.policies@, uid, object_id) && policy_level(
            self.policies@,
            uid,
            object_id,
        ).allows_read()
    }

    open spec fn can_write_collab(
        &self,
        workspace_id: Seq<char>,
        uid: i64,
        object_id: Seq<char>,
    ) -> bool {
        has_policy(self.policies@, uid, object_id) && policy_level(
            self.policies@,
            uid,
            object_id,
        ).allows_write()
    }

    open spec fn can_delete_collab(
        &self,
        workspace_id: Seq<char>,
        uid: i64,
        object_id: Seq<char>,
    ) -> bool {
        has_policy(self.policies@, uid, object_id) && policy_level(
            self.policies@,
            uid,
            object_id,
        ).allows_delete()
    }

    open spec fn can_write_workspace(&self, uid: i64, workspace_id: Seq<char>) -> bool {
        is_member(self.members@, uid, workspace_id)
    }

    fn enforce_read_collab(&self, workspace_id: &String, uid: i64, object_id: &String) -> (r: bool)
    {
        match self.find_policy(uid, object_id) {
            Some(i) => {
                proof {
                    lemma_policy_row_unique(self.policies@, uid, object_id@, i as int, i as int);
                }
                true
            },
            None => false,
        }
    }

    fn enforce_write_collab(&self, workspace_id: &String, uid: i64, object_id: &String) -> (r:
        bool) {
        match self.find_policy(uid, object_id) {
            Some(i) => {
                proof {
                    lemma_policy_row_unique(self.policies@, uid, object_id@, i as int, i as int);
                }
                self.policies[i].access_level.grants_write()
            },
            None => false,
        }
    }

    fn enforce_delete(&self, workspace_id: &String, uid: i64, object_id: &String) -> (r: bool) {
        match self.find_policy(uid, object_id) {
            Some(i) => {
                proof {
                    lemma_policy_row_unique(self.policies@, uid, object_id@, i as int, i as int);
                }
                self.policies[i].access_level.grants_delete()
            },
            None => false,
        }
    }

    fn enforce_write_workspace(&self, uid: i64, workspace_id: &String) -> (r: bool) {
        let mut i: usize = 0;
        while i < self.members.len()
            invariant
                i <= self.members@.len(),
                forall|j: int|
                    0 <= j < i ==> !matches_member(#[trigger] self.members@[j], uid, workspace_id@),
            decreases self.members@.len() - i,
        {
            if self.members[i].uid == uid && self.members[i].workspace_id == *workspace_id {
                proof {
                    assert(matches_member(self.members@[i as int], uid, workspace_id@));
                }
                return true;
            }
            i += 1;
        }
        false
    }

    fn update_policy(&mut self, uid: i64, object_id: &String, level: AccessLevel) {
        let ghost oid = object_id@;
        let ghost pre = self.policies@;
        let found = self.find_policy(uid, object_id);
        let ghost i_opt: Option<int> = match found {
            Some(i) => Some(i as int),
            None => None,
        };
        match found {
            Some(i) => {
                self.policies.remove(i);
            },
            None => {},
        }
        let ghost mid = self.policies@;
        self.policies.push(AccessPolicy { uid, object_id: object_id.clone(), access_level: level });
        proof {
            lemma_policy_table_update(pre, mid, self.policies@, i_opt, uid, oid);
        }
    }
}

/// The effect of replacing the `(uid, oid)` row (remove the old row if one
/// exists, then append the new one): the table stays well-formed, the new
/// grant is the unique row for the pair, and every other pair keeps its level.
proof fn lemma_policy_table_update(
    pre: Seq<AccessPolicy>,
    mid: Seq<AccessPolicy>,
    post: Seq<AccessPolicy>,
    i_opt: Option<int>,
    uid: i64,
    oid: Seq<char>,
)
    requires
        policies_wf(pre),
        match i_opt {
            Some(i) => 0 <= i < pre.len() && matches_policy(pre[i], uid, oid) && mid == pre.remove(
                i,
            ),
            None => mid == pre && !has_policy(pre, uid, oid),
        },
        post.len() == mid.len() + 1,
        post == mid.push(post[post.len() - 1]),
        post[post.len() - 1].uid == uid,
        post[post.len() - 1].object_id@ == oid,
    ensures
        policies_wf(post),
        has_policy(post, uid, oid),
        policy_level(post, uid, oid) == post[post.len() - 1].access_level,
        forall|u: i64, o: Seq<char>|
            !(u == uid && o == oid) ==> #[trigger] has_policy(post, u, o) == has_policy(pre, u, o),
        forall|u: i64, o: Seq<char>|
            !(u == uid && o == oid) && has_policy(pre, u, o) ==> #[trigger] policy_level(post, u, o)
                == policy_level(pre, u, o),
{
    let n = post.len() - 1;
    // containment of mid in pre and of the surviving pre rows in mid
    assert forall|j: int| 0 <= j < mid.len() implies elem_in(pre, #[trigger] mid[j]) by {
        match i_opt {
            Some(i) => {
                if j < i {
                    assert(pre[j] == mid[j]);
                } else {
                    assert(pre[j + 1] == mid[j]);
                }
            },
            None => {
                assert(pre[j] == mid[j]);
            },
        }
    }
    assert forall|k: int|
        0 <= k < pre.len() && !matches_policy(#[trigger] pre[k], uid, oid) implies elem_in(
        mid,
        pre[k],
    ) by {
        match i_opt {
            Some(i) => {
                if k < i {
                    assert(mid[k] == pre[k]);
                } else {
                    assert(k != i);
                    assert(mid[k - 1] == pre[k]);
                }
            },
            None => {
                assert(mid[k] == pre[k]);
            },
        }
    }
    // no row for (uid, oid) survives into mid
    assert forall|j: int| 0 <= j < mid.len() implies !matches_policy(
        #[trigger] mid[j],
        uid,
        oid,
    ) by {
        match i_opt {
            Some(i) => {
                let j0 = if j < i {
                    j
                } else {
                    j + 1
                };
                assert(mid[j] == pre[j0]);
                if matches_policy(pre[j0], uid, oid) {
                    lemma_policy_row_unique(pre, uid, oid, j0, i);
                    assert(false);
                }
            },
            None => {
                assert(mid[j] == pre[j]);
            },
        }
    }
    // well-formedness of the updated table
    assert forall|a: int, b: int|
        0 <= a < post.len() && 0 <= b < post.len() && a != b implies !matches_policy(
        #[trigger] post[a],
        (#[trigger] post[b]).uid,
        post[b].object_id@,
    ) by {
        if a == n {
            assert(!matches_policy(post[b], uid, oid));
        } else if b == n {
            assert(!matches_policy(post[a], uid, oid));
        } else {
            assert(mid[a] == post[a] && mid[b] == post[b]);
        }
    }
    // the new grant is visible and unique
    lemma_policy_row_unique(post, uid, oid, n, n);
    // every other (user, object) pair is unchanged
    assert forall|u: i64, o: Seq<char>| !(u == uid && o == oid) implies #[trigger] has_policy(
        post,
        u,
        o,
    ) == has_policy(pre, u, o) by {
        lemma_policy_frame(pre, mid, post, uid, oid, u, o);
    }
    assert forall|u: i64, o: Seq<char>|
        !(u == uid && o == oid) && has_policy(pre, u, o) implies #[trigger] policy_level(
        post,
        u,
        o,
    ) == policy_level(pre, u, o) by {
        lemma_policy_frame(pre, mid, post, uid, oid, u, o);
    }
}

/// Helper for `update_policy`'s frame: rows for pairs other than the updated
/// one survive a remove-then-push of the updated pair's row.
proof fn lemma_policy_frame(
    pre: Seq<AccessPolicy>,
    mid: Seq<AccessPolicy>,
    post: Seq<AccessPolicy>,
    uid: i64,
    oid: Seq<char>,
    u: i64,
    o: Seq<char>,
)
    requires
        policies_wf(pre),
        policies_wf(post),
        post.len() == mid.len() + 1,
        forall|j: int| 0 <= j < mid.len() ==> post[j] == #[trigger] mid[j],
        post[post.len() - 1].uid == uid,
        post[post.len() - 1].object_id@ == oid,
        // every element of mid is an element of pre, and every pre element not
        // matching (uid, oid) is an element of mid
        forall|j: int| 0 <= j < mid.len() ==> elem_in(pre, #[trigger] mid[j]),
        forall|k: int|
            0 <= k < pre.len() && !matches_policy(#[trigger] pre[k], uid, oid) ==> elem_in(
                mid,
                pre[k],
            ),
        !(u == uid && o == oid),
    ensures
        has_policy(post, u, o) == has_policy(pre, u, o),
        has_policy(pre, u, o) ==> policy_level(post, u, o) == policy_level(pre, u, o),
{
    let n = post.len() - 1;
    if has_policy(pre, u, o) {
        let k = choose|k: int| 0 <= k < pre.len() && matches_policy(#[trigger] pre[k], u, o);
        assert(!matches_policy(pre[k], uid, oid));
        assert(elem_in(mid, pre[k]));
        let j = choose|j: int| 0 <= j < mid.len() && mid[j] == pre[k];
        assert(matches_policy(post[j], u, o));
        assert(has_policy(post, u, o));
        lemma_policy_row_unique(post, u, o, j, j);
        lemma_policy_row_unique(pre, u, o, k, k);
    }
    if has_policy(post, u, o) {
        let j = choose|j: int| 0 <= j < post.len() && matches_policy(#[trigger] post[j], u, o);
        if j == n {
            assert(false);
        }
        assert(mid[j] == post[j]);
        assert(elem_in(pre, mid[j]));
        let k = choose|k: int| 0 <= k < pre.len() && pre[k] == mid[j];
        assert(matches_policy(pre[k], u, o));
        assert(has_policy(pre, u, o));
    }
}

} // verus!
