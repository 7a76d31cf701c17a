//! The message dispatch actor: a single sequential consumer of one inbound
//! queue. Each message's envelope is checked (a pushed revision's payload is
//! trusted only after its content hash matches) and routed to the session
//! manager; failure of one message never aborts the loop, and the per-message
//! outcome is reported back to the caller over its own reply slot. Messages
//! are handed to the session manager in exactly the order they were enqueued
//! — one global order across all documents.

use vstd::prelude::*;
use crate::envelope::ClientRevisionWSDataType;
use crate::envelope::RevisionEnvelope;
use crate::envelope::verify_md5;
use crate::errors::AppError;
use crate::session::ServerDocumentManager;
use crate::session::HandledRecord;
use crate::session::ping_applied;
use crate::session::record_of;
use crate::session::revisions_applied;
use crate::user::DocumentRevisionUser;
use crate::user::Socket;
use crate::user::WSChannel;
use crate::user::WSUser;

verus! {

/// One inbound item: the originating user and socket, and the decoded
/// envelope.
#[derive(Debug)]
pub struct WSClientData {
    pub user: WSUser,
    pub socket: Socket,
    pub data: RevisionEnvelope,
}

/// A message of the actor's queue.
#[derive(Debug)]
pub enum DocumentWSActorMessage {
    ClientData { client_data: WSClientData },
}

/// The receiving end of the actor's queue: owned by exactly one actor, and
/// consumed exactly once when the actor runs — a second run is a move error
/// at compile time, not a runtime condition.
#[derive(Debug)]
pub struct MessageQueue {
    pub items: Vec<DocumentWSActorMessage>,
}

pub open spec fn envelope_of(msg: DocumentWSActorMessage) -> RevisionEnvelope {
    match msg {
        DocumentWSActorMessage::ClientData { client_data } => client_data.data,
    }
}

/// The actor forwards a message iff its envelope is trustworthy: a ping
/// always, a pushed revision only when its content hash matches its payload.
pub open spec fn gate_passes(msg: DocumentWSActorMessage) -> bool {
    envelope_of(msg).ty == ClientRevisionWSDataType::ClientPing || envelope_of(msg).hash_matches()
}

/// The records the session manager receives from a queue, in enqueue order:
/// exactly the gated envelopes.
pub open spec fn forwarded_records(items: Seq<DocumentWSActorMessage>) -> Seq<HandledRecord>
    decreases items.len(),
{
    if items.len() == 0 {
        Seq::empty()
    } else {
        let rest = forwarded_records(items.drop_last());
        if gate_passes(items.last()) {
            rest.push(record_of(envelope_of(items.last())))
        } else {
            rest
        }
    }
}

/// The session-manager transition one dispatched message causes: a gated push
/// applies the revision, a ping is answered, and a refused message changes
/// nothing.
pub open spec fn dispatched(
    pre: ServerDocumentManager,
    post: ServerDocumentManager,
    msg: DocumentWSActorMessage,
) -> bool {
    if !gate_passes(msg) {
        post == pre
    } else if envelope_of(msg).ty == ClientRevisionWSDataType::ClientPushRev {
        revisions_applied(pre, post, envelope_of(msg))
    } else {
        ping_applied(pre, post, envelope_of(msg))
    }
}

/// What one message's user looks like after dispatch: the identity and the
/// connection state are the message's own; a refused message delivers
/// nothing; a forwarded one delivers exactly one synchronization response on
/// the Document channel, echoing the envelope's object and revision ids, to a
/// live connection (a dead one swallows it).
pub open spec fn user_outcome(msg: DocumentWSActorMessage, u: DocumentRevisionUser) -> bool {
    match msg {
        DocumentWSActorMessage::ClientData { client_data } => {
            &&& u.user == client_data.user
            &&& u.socket.connected == client_data.socket.connected
            &&& if !gate_passes(msg) || !client_data.socket.connected {
                u.socket == client_data.socket
            } else {
                &&& u.socket.sent@.len() == client_data.socket.sent@.len() + 1
                &&& u.socket.sent@.drop_last() == client_data.socket.sent@
                &&& u.socket.sent@.last().channel == WSChannel::Document
                &&& u.socket.sent@.last().object_id@ == client_data.data.object_id@
                &&& u.socket.sent@.last().data_id@ == client_data.data.data_id@
            }
        },
    }
}

/// The outcome of one actor run: the session manager's final state, the
/// per-message replies (what each connection's reply channel carries), and
/// the per-message users with their delivered responses.
#[derive(Debug)]
pub struct RunOutcome {
    pub doc_manager: ServerDocumentManager,
    pub replies: Vec<Result<(), AppError>>,
    pub users: Vec<DocumentRevisionUser>,
}

/// The dispatch actor: the queue's receiving end and the session manager it
/// feeds.
#[derive(Debug)]
pub struct DocumentWebSocketActor {
    pub actor_msg_receiver: MessageQueue,
    pub doc_manager: ServerDocumentManager,
}

impl DocumentWebSocketActor {
    pub fn new(receiver: MessageQueue, manager: ServerDocumentManager) -> (a:
        DocumentWebSocketActor)
        ensures
            a.actor_msg_receiver == receiver,
            a.doc_manager == manager,
    {
        DocumentWebSocketActor { actor_msg_receiver: receiver, doc_manager: manager }
    }

    /// Checks and routes one envelope: a pushed revision whose content hash
    /// does not match is refused as an integrity failure and never reaches
    /// the session manager; everything else is forwarded. The returned user
    /// carries whatever responses the session manager delivered.
    fn handle_document_data(manager: &mut ServerDocumentManager, client_data: WSClientData) -> (res:
        (Result<(), AppError>, DocumentRevisionUser))
        requires
            old(manager).wf(),
        ensures
            final(manager).wf(),
            dispatched(
                *old(manager),
                *final(manager),
                DocumentWSActorMessage::ClientData { client_data },
            ),
            res.0 is Ok <==> gate_passes(DocumentWSActorMessage::ClientData { client_data }),
            res.0 matches Err(e) ==> e is Validation,
            user_outcome(DocumentWSActorMessage::ClientData { client_data }, res.1),
    {
        let WSClientData { user, socket, data } = client_data;
        let mut revision_user = DocumentRevisionUser { user, socket };
        match data.ty {
            ClientRevisionWSDataType::ClientPushRev => {
                // the payload is trusted only once its content hash matches
                if let Err(e) = verify_md5(&data) {
                    return (Err(e), revision_user);
                }
                manager.handle_client_revisions(&mut revision_user, data);
                (Ok(()), revision_user)
            },
            ClientRevisionWSDataType::ClientPing => {
                manager.handle_client_ping(&mut revision_user, data);
                (Ok(()), revision_user)
            },
        }
    }

    /// Unpacks and handles one queue message.
    fn handle_message(manager: &mut ServerDocumentManager, msg: DocumentWSActorMessage) -> (res: (
        Result<(), AppError>,
        DocumentRevisionUser,
    ))
        requires
            old(manager).wf(),
        ensures
            final(manager).wf(),
            dispatched(*old(manager), *final(manager), msg),
            res.0 is Ok <==> gate_passes(msg),
            res.0 matches Err(e) ==> e is Validation,
            user_outcome(msg, res.1),
    {
        match msg {
            DocumentWSActorMessage::ClientData { client_data } => {
                Self::handle_document_data(manager, client_data)
            },
        }
    }

    /// Consumes the actor (the queue's receiving end is taken exactly once)
    /// and processes every queued message to completion, in order. The
    /// session manager receives exactly the gated envelopes, in enqueue order
    /// — the log it keeps extends by `forwarded_records` of the queue — and
    /// each message gets a reply: success iff its envelope was forwarded.
    pub fn run(self) -> (outcome: RunOutcome)
        requires
            self.doc_manager.wf(),
        ensures
            outcome.doc_manager.wf(),
            outcome.doc_manager.handled@ == self.doc_manager.handled@ + forwarded_records(
                self.actor_msg_receiver.items@,
            ),
            outcome.replies@.len() == self.actor_msg_receiver.items@.len(),
            forall|i: int|
                0 <= i < self.actor_msg_receiver.items@.len() ==> ((#[trigger] outcome.replies@[i])
                    is Ok <==> gate_passes(self.actor_msg_receiver.items@[i])),
            outcome.users@.len() == self.actor_msg_receiver.items@.len(),
            forall|i: int|
                0 <= i < self.actor_msg_receiver.items@.len() ==> user_outcome(
                    self.actor_msg_receiver.items@[i],
                    #[trigger] outcome.users@[i],
                ),
    {
        let DocumentWebSocketActor { actor_msg_receiver, doc_manager } = self;
        let MessageQueue { mut items } = actor_msg_receiver;
        let mut manager = doc_manager;
        let ghost items0 = items@;
        let ghost handled0 = manager.handled@;
        let ilen = items.len();
        proof {
            assert(items0.len() == ilen as int);
        }
        let mut replies: Vec<Result<(), AppError>> = Vec::new();
        let mut users: Vec<DocumentRevisionUser> = Vec::new();
        let mut i: usize = 0;
        while items.len() > 0
            invariant
                manager.wf(),
                items0.len() <= usize::MAX,
                i <= items0.len(),
                items@ == items0.subrange(i as int, items0.len() as int),
                replies@.len() == i,
                users@.len() == i,
                manager.handled@ == handled0 + forwarded_records(items0.subrange(0, i as int)),
                forall|j: int|
                    0 <= j < i ==> ((#[trigger] replies@[j]) is Ok <==> gate_passes(items0[j])),
                forall|j: int| 0 <= j < i ==> user_outcome(items0[j], #[trigger] users@[j]),
            decreases items@.len(),
        {
            let ghost prefix = items0.subrange(0, i as int);
            let ghost handled_pre = manager.handled@;
            let msg = items.remove(0);
            assert(msg == items0[i as int]);
            let (reply, revision_user) = Self::handle_message(&mut manager, msg);
            replies.push(reply);
            users.push(revision_user);
            proof {
                let prefix1 = items0.subrange(0, i + 1 as int);
                assert(prefix1.drop_last() =~= prefix);
                assert(prefix1.last() == items0[i as int]);
                if gate_passes(items0[i as int]) {
                    assert(manager.handled@ == handled_pre.push(record_of(envelope_of(msg))));
                    assert(manager.handled@ =~= handled0 + forwarded_records(prefix1));
                } else {
                    assert(manager.handled@ == handled_pre);
                    assert(manager.handled@ =~= handled0 + forwarded_records(prefix1));
                }
                assert(items@ =~= items0.subrange(i + 1 as int, items0.len() as int));
            }
            i += 1;
        }
        proof {
            assert(items0.subrange(0, i as int) =~= items0);
        }
        RunOutcome { doc_manager: manager, replies, users }
    }
}

/// Law (ordering): messages enqueued in order are handed to the session
/// manager in that same order — after a run, the session manager's log is the
/// prior log followed by the queue's gated records, in enqueue order.
pub proof fn lemma_dispatch_preserves_order(
    items: Seq<DocumentWSActorMessage>,
    pre: Seq<HandledRecord>,
    post: Seq<HandledRecord>,
)
    requires
        post == pre + forwarded_records(items),
        forall|i: int| 0 <= i < items.len() ==> gate_passes(#[trigger] items[i]),
    ensures
        post.len() == pre.len() + items.len(),
        forall|i: int|
            0 <= i < items.len() ==> post[pre.len() + i] == record_of(
                envelope_of(#[trigger] items[i]),
            ),
    decreases items.len(),
{
    if items.len() > 0 {
        lemma_dispatch_preserves_order(
            items.drop_last(),
            pre,
            pre + forwarded_records(items.drop_last()),
        );
        assert(forwarded_records(items) == forwarded_records(items.drop_last()).push(
            record_of(envelope_of(items.last())),
        ));
        assert forall|i: int| 0 <= i < items.len() implies post[pre.len() + i] == record_of(
            envelope_of(#[trigger] items[i]),
        ) by {
            if i < items.len() - 1 {
                assert(items.drop_last()[i] == items[i]);
                assert((pre + forwarded_records(items.drop_last()))[pre.len() + i] == post[pre.len()
                    + i]);
            } else {
                assert(items[i] == items.last());
            }
        }
    }
}

} // verus!
