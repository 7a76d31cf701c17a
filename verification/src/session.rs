//! The revision session manager: the authoritative in-memory editing state,
//! one document per object id. A pushed revision is applied atomically and
//! exactly once — a revision whose id was already acknowledged is a no-op —
//! and every handled message is recorded in receipt order.

use vstd::prelude::*;
use crate::envelope::ClientRevisionWSDataType;
use crate::envelope::RevisionEnvelope;
use crate::user::DocumentRevisionUser;
use crate::user::RevisionData;
use crate::user::RevisionSyncResponse;
use crate::user::WSChannel;

verus! {

/// One handled inbound message, as recorded by the session manager.
#[derive(Clone, Debug)]
pub struct HandledRecord {
    pub object_id: String,
    pub data_id: String,
    pub ty: ClientRevisionWSDataType,
}

/// The record a handled envelope leaves in the session manager's log.
pub open spec fn record_of(data: RevisionEnvelope) -> HandledRecord {
    HandledRecord { object_id: data.object_id, data_id: data.data_id, ty: data.ty }
}

/// The live state of one document: the ids of the revisions acknowledged so
/// far, and the accumulated content they produced.
#[derive(Clone, Debug)]
pub struct DocumentState {
    pub object_id: String,
    pub acked_data_ids: Vec<String>,
    pub content: Vec<u8>,
}

/// `data_id` was already acknowledged for this document.
pub open spec fn acked(d: DocumentState, data_id: Seq<char>) -> bool {
    exists|i: int| 0 <= i < d.acked_data_ids@.len() && (#[trigger] d.acked_data_ids@[i])@ == data_id
}

pub open spec fn matches_doc(d: DocumentState, oid: Seq<char>) -> bool {
    d.object_id@ == oid
}

pub open spec fn has_doc(docs: Seq<DocumentState>, oid: Seq<char>) -> bool {
    exists|i: int| 0 <= i < docs.len() && matches_doc(#[trigger] docs[i], oid)
}

/// The (unique, under `docs_wf`) document for `oid`.
pub open spec fn doc_for(docs: Seq<DocumentState>, oid: Seq<char>) -> DocumentState {
    docs[choose|i: int| 0 <= i < docs.len() && matches_doc(docs[i], oid)]
}

/// At most one live document per object id.
pub open spec fn docs_wf(docs: Seq<DocumentState>) -> bool {
    forall|i: int, j: int|
        0 <= i < docs.len() && 0 <= j < docs.len() && i != j ==> !matches_doc(
            #[trigger] docs[i],
            (#[trigger] docs[j]).object_id@,
        )
}

/// `d` occurs in `s`.
pub open spec fn doc_elem_in(s: Seq<DocumentState>, d: DocumentState) -> bool {
    exists|k: int| 0 <= k < s.len() && s[k] == d
}

/// Law: under `docs_wf` two documents for the same object id are the same
/// document.
pub proof fn lemma_doc_unique(docs: Seq<DocumentState>, oid: Seq<char>, i: int, j: int)
    requires
        docs_wf(docs),
        0 <= i < docs.len(),
        0 <= j < docs.len(),
        matches_doc(docs[i], oid),
        matches_doc(docs[j], oid),
    ensures
        i == j,
        has_doc(docs, oid),
        doc_for(docs, oid) == docs[i],
{
    assert(has_doc(docs, oid));
    let k = choose|k: int| 0 <= k < docs.len() && matches_doc(docs[k], oid);
    assert(matches_doc(docs[k], oid));
    if k != i {
        assert(!matches_doc(docs[k], docs[i].object_id@));
        assert(false);
    }
}

/// The effect of replacing (or creating) the document for `oid`: the table
/// stays well-formed, the new document is the unique one for `oid`, and every
/// other object id keeps its document.
proof fn lemma_doc_table_update(
    pre: Seq<DocumentState>,
    mid: Seq<DocumentState>,
    post: Seq<DocumentState>,
    i_opt: Option<int>,
    oid: Seq<char>,
)
    requires
        docs_wf(pre),
        match i_opt {
            Some(i) => 0 <= i < pre.len() && matches_doc(pre[i], oid) && mid == pre.remove(i),
            None => mid == pre && !has_doc(pre, oid),
        },
        post.len() == mid.len() + 1,
        post == mid.push(post[post.len() - 1]),
        post[post.len() - 1].object_id@ == oid,
    ensures
        docs_wf(post),
        has_doc(post, oid),
        doc_for(post, oid) == post[post.len() - 1],
        forall|k: Seq<char>| k != oid ==> #[trigger] has_doc(post, k) == has_doc(pre, k),
        forall|k: Seq<char>|
            k != oid && has_doc(pre, k) ==> #[trigger] doc_for(post, k) == doc_for(pre, k),
{
    let n = post.len() - 1;
    assert forall|j: int| 0 <= j < mid.len() implies doc_elem_in(pre, #[trigger] mid[j]) by {
        match i_opt {
            Some(i) => {
                if j < i {
                    assert(pre[j] == mid[j]);
                } else {
                    assert(pre[j + 1] == mid[j]);
                }
            },
            None => {
                assert(pre[j] == mid[j]);
            },
        }
    }
    assert forall|k: int|
        0 <= k < pre.len() && !matches_doc(#[trigger] pre[k], oid) implies doc_elem_in(
        mid,
        pre[k],
    ) by {
        match i_opt {
            Some(i) => {
                if k < i {
                    assert(mid[k] == pre[k]);
                } else {
                    assert(k != i);
                    assert(mid[k - 1] == pre[k]);
                }
            },
            None => {
                assert(mid[k] == pre[k]);
            },
        }
    }
    assert forall|j: int| 0 <= j < mid.len() implies !matches_doc(#[trigger] mid[j], oid) by {
        match i_opt {
            Some(i) => {
                let j0 = if j < i {
                    j
                } else {
                    j + 1
                };
                assert(mid[j] == pre[j0]);
                if matches_doc(pre[j0], oid) {
                    lemma_doc_unique(pre, oid, j0, i);
                    assert(false);
                }
            },
            None => {
                assert(mid[j] == pre[j]);
            },
        }
    }
    assert forall|a: int, b: int|
        0 <= a < post.len() && 0 <= b < post.len() && a != b implies !matches_doc(
        #[trigger] post[a],
        (#[trigger] post[b]).object_id@,
    ) by {
        if a == n {
            assert(!matches_doc(post[b], oid));
        } else if b == n {
            assert(!matches_doc(post[a], oid));
        } else {
            assert(mid[a] == post[a] && mid[b] == post[b]);
        }
    }
    lemma_doc_unique(post, oid, n, n);
    assert forall|k: Seq<char>| k != oid implies #[trigger] has_doc(post, k) == has_doc(
        pre,
        k,
    ) by {
        lemma_doc_frame(pre, mid, post, oid, k);
    }
    assert forall|k: Seq<char>| k != oid && has_doc(pre, k) implies #[trigger] doc_for(post, k)
        == doc_for(pre, k) by {
        lemma_doc_frame(pre, mid, post, oid, k);
    }
}

/// Frame of a document replacement for object ids other than the written one.
proof fn lemma_doc_frame(
    pre: Seq<DocumentState>,
    mid: Seq<DocumentState>,
    post: Seq<DocumentState>,
    oid: Seq<char>,
    k: Seq<char>,
)
    requires
        docs_wf(pre),
        docs_wf(post),
        post.len() == mid.len() + 1,
        forall|j: int| 0 <= j < mid.len() ==> post[j] == #[trigger] mid[j],
        post[post.len() - 1].object_id@ == oid,
        forall|j: int| 0 <= j < mid.len() ==> doc_elem_in(pre, #[trigger] mid[j]),
        forall|j: int|
            0 <= j < pre.len() && !matches_doc(#[trigger] pre[j], oid) ==> doc_elem_in(
                mid,
                pre[j],
            ),
        k != oid,
    ensures
        has_doc(post, k) == has_doc(pre, k),
        has_doc(pre, k) ==> doc_for(post, k) == doc_for(pre, k),
{
    let n = post.len() - 1;
    if has_doc(pre, k) {
        let a = choose|a: int| 0 <= a < pre.len() && matches_doc(#[trigger] pre[a], k);
        assert(!matches_doc(pre[a], oid));
        assert(doc_elem_in(mid, pre[a]));
        let j = choose|j: int| 0 <= j < mid.len() && mid[j] == pre[a];
        assert(matches_doc(post[j], k));
        assert(has_doc(post, k));
        lemma_doc_unique(post, k, j, j);
        lemma_doc_unique(pre, k, a, a);
    }
    if has_doc(post, k) {
        let j = choose|j: int| 0 <= j < post.len() && matches_doc(#[trigger] post[j], k);
        if j == n {
            assert(false);
        }
        assert(mid[j] == post[j]);
        assert(doc_elem_in(pre, mid[j]));
        let a = choose|a: int| 0 <= a < pre.len() && pre[a] == mid[j];
        assert(matches_doc(pre[a], k));
        assert(has_doc(pre, k));
    }
}

/// The effect of handling a pushed revision: the receipt is logged, and the
/// document state either stays identical (the revision id was already
/// acknowledged) or is extended by exactly this revision; every other
/// document is untouched.
pub open spec fn revisions_applied(
    pre: ServerDocumentManager,
    post: ServerDocumentManager,
    data: RevisionEnvelope,
) -> bool {
    &&& post.handled@ == pre.handled@.push(record_of(data))
    &&& if has_doc(pre.documents@, data.object_id@) && acked(
        doc_for(pre.documents@, data.object_id@),
        data.data_id@,
    ) {
        post.documents@ == pre.documents@
    } else {
        &&& has_doc(post.documents@, data.object_id@)
        &&& doc_for(post.documents@, data.object_id@).acked_data_ids@ == (if has_doc(
            pre.documents@,
            data.object_id@,
        ) {
            doc_for(pre.documents@, data.object_id@).acked_data_ids@
        } else {
            Seq::<String>::empty()
        }).push(data.data_id)
        &&& doc_for(post.documents@, data.object_id@).content@ == (if has_doc(
            pre.documents@,
            data.object_id@,
        ) {
            doc_for(pre.documents@, data.object_id@).content@
        } else {
            Seq::<u8>::empty()
        }) + data.payload@
        &&& forall|k: Seq<char>|
            k != data.object_id@ ==> #[trigger] has_doc(post.documents@, k) == has_doc(
                pre.documents@,
                k,
            )
        &&& forall|k: Seq<char>|
            k != data.object_id@ && has_doc(pre.documents@, k) ==> #[trigger] doc_for(
                post.documents@,
                k,
            ) == doc_for(pre.documents@, k)
    }
}

/// The effect of handling a ping: the receipt is logged and no document
/// changes.
pub open spec fn ping_applied(
    pre: ServerDocumentManager,
    post: ServerDocumentManager,
    data: RevisionEnvelope,
) -> bool {
    &&& post.handled@ == pre.handled@.push(record_of(data))
    &&& post.documents@ == pre.documents@
}

/// One synchronization response with `payload` was delivered to the user (on
/// a live connection; a dead one swallows it), echoing the envelope's object
/// and revision ids on the Document channel.
pub open spec fn delivered(
    pre: DocumentRevisionUser,
    post: DocumentRevisionUser,
    data: RevisionEnvelope,
    payload: Seq<u8>,
) -> bool {
    &&& post.user == pre.user
    &&& post.socket.connected == pre.socket.connected
    &&& if pre.socket.connected {
        &&& post.socket.sent@.len() == pre.socket.sent@.len() + 1
        &&& post.socket.sent@.drop_last() == pre.socket.sent@
        &&& post.socket.sent@.last().channel == WSChannel::Document
        &&& post.socket.sent@.last().object_id@ == data.object_id@
        &&& post.socket.sent@.last().data_id@ == data.data_id@
        &&& post.socket.sent@.last().payload@ == payload
    } else {
        post.socket == pre.socket
    }
}

/// The authoritative in-memory editing state: live documents keyed by object
/// id, and the log of handled messages in receipt order.
#[derive(Debug)]
pub struct ServerDocumentManager {
    pub documents: Vec<DocumentState>,
    pub handled: Vec<HandledRecord>,
}

impl ServerDocumentManager {
    pub open spec fn wf(&self) -> bool {
        docs_wf(self.documents@)
    }

    pub fn new() -> (r: ServerDocumentManager)
        ensures
            r.wf(),
            r.documents@.len() == 0,
            r.handled@.len() == 0,
    {
        ServerDocumentManager { documents: Vec::new(), handled: Vec::new() }
    }

    fn find_doc(&self, object_id: &String) -> (r: Option<usize>)
        ensures
            match r {
                Some(i) => i < self.documents@.len() && matches_doc(
                    self.documents@[i as int],
                    object_id@,
                ),
                None => !has_doc(self.documents@, object_id@),
            },
    {
        let mut i: usize = 0;
        while i < self.documents.len()
            invariant
                i <= self.documents@.len(),
                forall|j: int| 0 <= j < i ==> !matches_doc(#[trigger] self.documents@[j], object_id@),
            decreases self.documents@.len() - i,
        {
            if self.documents[i].object_id == *object_id {
                return Some(i);
            }
            i += 1;
        }
        None
    }

    fn is_acked(doc: &DocumentState, data_id: &String) -> (r: bool)
        ensures
            r == acked(*doc, data_id@),
    {
        let mut i: usize = 0;
        while i < doc.acked_data_ids.len()
            invariant
                i <= doc.acked_data_ids@.len(),
                forall|j: int| 0 <= j < i ==> (#[trigger] doc.acked_data_ids@[j])@ != data_id@,
            decreases doc.acked_data_ids@.len() - i,
        {
            if doc.acked_data_ids[i] == *data_id {
                proof {
                    assert(acked(*doc, data_id@));
                }
                return true;
            }
            i += 1;
        }
        false
    }

    /// The current content of the document for `object_id`, if a live session
    /// holds one.
    pub fn document_content(&self, object_id: &String) -> (r: Option<Vec<u8>>)
        requires
            self.wf(),
        ensures
            r is Some <==> has_doc(self.documents@, object_id@),
            r matches Some(c) ==> c@ == doc_for(self.documents@, object_id@).content@,
    {
        match self.find_doc(object_id) {
            Some(i) => {
                proof {
                    lemma_doc_unique(self.documents@, object_id@, i as int, i as int);
                }
                Some(crate::cache::copy_bytes(&self.documents[i].content))
            },
            None => None,
        }
    }

    /// The acknowledged revision ids of the document for `object_id`.
    pub fn acked_ids(&self, object_id: &String) -> (r: Option<Vec<String>>)
        requires
            self.wf(),
        ensures
            r is Some <==> has_doc(self.documents@, object_id@),
            r matches Some(ids) ==> ids@ == doc_for(self.documents@, object_id@).acked_data_ids@,
    {
        match self.find_doc(object_id) {
            Some(i) => {
                proof {
                    lemma_doc_unique(self.documents@, object_id@, i as int, i as int);
                }
                let mut out: Vec<String> = Vec::new();
                let ids = &self.documents[i].acked_data_ids;
                let mut j: usize = 0;
                while j < ids.len()
                    invariant
                        j <= ids@.len(),
                        out@ == ids@.subrange(0, j as int),
                    decreases ids@.len() - j,
                {
                    out.push(ids[j].clone());
                    proof {
                        assert(out@ =~= ids@.subrange(0, j + 1 as int));
                    }
                    j += 1;
                }
                proof {
                    assert(out@ =~= ids@);
                }
                Some(out)
            },
            None => None,
        }
    }

    /// Applies one pushed revision atomically to the document it addresses,
    /// ignoring a revision whose id was already acknowledged, and delivers an
    /// Ack to the user.
    pub fn handle_client_revisions(
        &mut self,
        user: &mut DocumentRevisionUser,
        data: RevisionEnvelope,
    )
        requires
            old(self).wf(),
        ensures
            final(self).wf(),
            revisions_applied(*old(self), *final(self), data),
            delivered(*old(user), *final(user), data, Seq::<u8>::empty()),
    {
        let RevisionEnvelope { object_id, data_id, ty, payload, content_hash: _ } = data;
        self.handled.push(HandledRecord { object_id: object_id.clone(), data_id: data_id.clone(), ty });
        let ghost pre_docs = self.documents@;
        let ghost oid = object_id@;
        let found = self.find_doc(&object_id);
        let ghost i_opt: Option<int> = match found {
            Some(i) => Some(i as int),
            None => None,
        };
        let already = match found {
            Some(i) => {
                proof {
                    lemma_doc_unique(self.documents@, oid, i as int, i as int);
                }
                Self::is_acked(&self.documents[i], &data_id)
            },
            None => false,
        };
        if !already {
            let mut doc = match found {
                Some(i) => self.documents.remove(i),
                None => DocumentState {
                    object_id: object_id.clone(),
                    acked_data_ids: Vec::new(),
                    content: Vec::new(),
                },
            };
            let ghost mid = self.documents@;
            let mut payload = payload;
            doc.acked_data_ids.push(data_id.clone());
            doc.content.append(&mut payload);
            self.documents.push(doc);
            proof {
                lemma_doc_table_update(pre_docs, mid, self.documents@, i_opt, oid);
            }
        }
        user.receive(
            RevisionSyncResponse::Ack(
                RevisionData { object_id, data_id, payload: Vec::new() },
            ),
        );
        proof {
            if old(user).socket.connected {
                assert(user.socket.sent@.drop_last() =~= old(user).socket.sent@);
            }
        }
    }

    /// Answers a liveness/freshness probe: a client whose revision id is not
    /// yet acknowledged for a live document is out of sync and receives a
    /// Pull carrying the document's current content; otherwise the ping is
    /// acknowledged. Documents never change.
    pub fn handle_client_ping(&mut self, user: &mut DocumentRevisionUser, data: RevisionEnvelope)
        requires
            old(self).wf(),
        ensures
            final(self).wf(),
            ping_applied(*old(self), *final(self), data),
            has_doc(old(self).documents@, data.object_id@) && !acked(
                doc_for(old(self).documents@, data.object_id@),
                data.data_id@,
            ) ==> delivered(
                *old(user),
                *final(user),
                data,
                doc_for(old(self).documents@, data.object_id@).content@,
            ),
            !(has_doc(old(self).documents@, data.object_id@) && !acked(
                doc_for(old(self).documents@, data.object_id@),
                data.data_id@,
            )) ==> delivered(*old(user), *final(user), data, Seq::<u8>::empty()),
    {
        let RevisionEnvelope { object_id, data_id, ty, payload: _, content_hash: _ } = data;
        self.handled.push(HandledRecord { object_id: object_id.clone(), data_id: data_id.clone(), ty });
        let ghost oid = object_id@;
        match self.find_doc(&object_id) {
            Some(i) => {
                proof {
                    lemma_doc_unique(self.documents@, oid, i as int, i as int);
                }
                if !Self::is_acked(&self.documents[i], &data_id) {
                    let content = crate::cache::copy_bytes(&self.documents[i].content);
                    user.receive(
                        RevisionSyncResponse::Pull(
                            RevisionData { object_id, data_id, payload: content },
                        ),
                    );
                } else {
                    user.receive(
                        RevisionSyncResponse::Ack(
                            RevisionData { object_id, data_id, payload: Vec::new() },
                        ),
                    );
                }
            },
            None => {
                user.receive(
                    RevisionSyncResponse::Ack(
                        RevisionData { object_id, data_id, payload: Vec::new() },
                    ),
                );
            },
        }
        proof {
            if old(user).socket.connected {
                assert(user.socket.sent@.drop_last() =~= old(user).socket.sent@);
            }
        }
    }
}

/// Law (idempotence): reapplying a revision whose id was already acknowledged
/// for its object is a no-op — the document state after handling is identical
/// to the state before.
pub proof fn lemma_revision_idempotent(
    pre: ServerDocumentManager,
    post: ServerDocumentManager,
    data: RevisionEnvelope,
)
    requires
        revisions_applied(pre, post, data),
        has_doc(pre.documents@, data.object_id@),
        acked(doc_for(pre.documents@, data.object_id@), data.data_id@),
    ensures
        post.documents@ == pre.documents@,
{
}

} // verus!
