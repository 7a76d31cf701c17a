use collab_core::actor::DocumentWSActorMessage;
use collab_core::actor::DocumentWebSocketActor;
use collab_core::actor::MessageQueue;
use collab_core::actor::WSClientData;
use collab_core::envelope::ClientRevisionWSDataType;
use collab_core::envelope::RevisionEnvelope;
use collab_core::envelope::verify_md5;
use collab_core::errors::AppError;
use collab_core::session::ServerDocumentManager;
use collab_core::user::DocumentRevisionUser;
use collab_core::user::RevisionData;
use collab_core::user::RevisionSyncResponse;
use collab_core::user::Socket;
use collab_core::user::WSChannel;
use collab_core::user::WSUser;

fn push_envelope(oid: &str, did: &str, payload: Vec<u8>) -> RevisionEnvelope {
    RevisionEnvelope::new_signed(
        oid.to_string(),
        did.to_string(),
        ClientRevisionWSDataType::ClientPushRev,
        payload,
    )
}

fn ping_envelope(oid: &str, did: &str) -> RevisionEnvelope {
    RevisionEnvelope::new_signed(
        oid.to_string(),
        did.to_string(),
        ClientRevisionWSDataType::ClientPing,
        Vec::new(),
    )
}

fn live_user(name: &str) -> DocumentRevisionUser {
    DocumentRevisionUser {
        user: WSUser { user_id: name.to_string() },
        socket: Socket { connected: true, sent: Vec::new() },
    }
}

fn client_message(user: &str, data: RevisionEnvelope) -> DocumentWSActorMessage {
    DocumentWSActorMessage::ClientData {
        client_data: WSClientData {
            user: WSUser { user_id: user.to_string() },
            socket: Socket { connected: true, sent: Vec::new() },
            data,
        },
    }
}

#[test]
fn payload_hash_is_stable_and_exact() {
    // the digest of b"abc" in lower hex
    let h = RevisionEnvelope::hash_of_payload(&vec![b'a', b'b', b'c']);
    assert_eq!(h, "900150983cd24fb0d6963f7d28e17f72".to_string());
    let empty = RevisionEnvelope::hash_of_payload(&Vec::new());
    assert_eq!(empty, "d41d8cd98f00b204e9800998ecf8427e".to_string());
}

#[test]
fn integrity_check_accepts_matching_hash() {
    let env = push_envelope("doc1", "r1", vec![1u8, 2, 3]);
    assert!(verify_md5(&env).is_ok());
}

#[test]
fn integrity_check_detects_mismatch() {
    let mut env = push_envelope("doc1", "r1", vec![1u8, 2, 3]);
    env.content_hash = "0000000000000000000000000000000".to_string();
    let r = verify_md5(&env);
    // a content-hash mismatch is a validation failure
    assert!(matches!(r, Err(AppError::Validation(_))));
    // tampering with the payload after signing is detected too
    let mut env2 = push_envelope("doc1", "r1", vec![1u8, 2, 3]);
    env2.payload = vec![1u8, 2, 4];
    assert!(verify_md5(&env2).is_err());
}

#[test]
fn reapplying_an_acknowledged_revision_is_a_no_op() {
    let mut manager = ServerDocumentManager::new();
    let mut user = live_user("alice");
    manager.handle_client_revisions(&mut user, push_envelope("doc1", "r1", vec![1u8, 2]));
    let content_before = manager.document_content(&"doc1".to_string()).unwrap();
    let acked_before = manager.acked_ids(&"doc1".to_string()).unwrap();
    // same revision id again: state after is identical to state before
    manager.handle_client_revisions(&mut user, push_envelope("doc1", "r1", vec![1u8, 2]));
    assert_eq!(manager.document_content(&"doc1".to_string()).unwrap(), content_before);
    assert_eq!(manager.acked_ids(&"doc1".to_string()).unwrap(), acked_before);
    // a fresh revision id extends the document
    manager.handle_client_revisions(&mut user, push_envelope("doc1", "r2", vec![3u8]));
    assert_eq!(
        manager.document_content(&"doc1".to_string()).unwrap(),
        vec![1u8, 2, 3]
    );
}

#[test]
fn revisions_are_acknowledged_to_the_user() {
    let mut manager = ServerDocumentManager::new();
    let mut user = live_user("alice");
    manager.handle_client_revisions(&mut user, push_envelope("doc1", "r1", vec![1u8]));
    assert_eq!(user.socket.sent.len(), 1);
    let msg = &user.socket.sent[0];
    assert_eq!(msg.channel, WSChannel::Document);
    assert_eq!(msg.object_id, "doc1".to_string());
    assert_eq!(msg.data_id, "r1".to_string());
    assert!(msg.payload.is_empty());
}

#[test]
fn ping_from_out_of_sync_client_pulls_current_content() {
    let mut manager = ServerDocumentManager::new();
    let mut user = live_user("alice");
    manager.handle_client_revisions(&mut user, push_envelope("doc1", "r1", vec![5u8, 6]));
    let mut other = live_user("bob");
    // bob's last revision id is unknown to the document: he is out of sync
    manager.handle_client_ping(&mut other, ping_envelope("doc1", "r9"));
    assert_eq!(other.socket.sent.len(), 1);
    assert_eq!(other.socket.sent[0].payload, vec![5u8, 6]);
    // a ping never mutates the document
    assert_eq!(
        manager.document_content(&"doc1".to_string()).unwrap(),
        vec![5u8, 6]
    );
}

#[test]
fn ping_in_sync_or_unknown_object_is_acknowledged() {
    let mut manager = ServerDocumentManager::new();
    let mut user = live_user("alice");
    manager.handle_client_revisions(&mut user, push_envelope("doc1", "r1", vec![5u8]));
    manager.handle_client_ping(&mut user, ping_envelope("doc1", "r1"));
    assert_eq!(user.socket.sent.len(), 2);
    assert!(user.socket.sent[1].payload.is_empty());
    manager.handle_client_ping(&mut user, ping_envelope("nosuchdoc", "r1"));
    assert_eq!(user.socket.sent.len(), 3);
    assert!(user.socket.sent[2].payload.is_empty());
}

#[test]
fn delivery_to_disconnected_socket_is_swallowed() {
    let mut user = DocumentRevisionUser {
        user: WSUser { user_id: "alice".to_string() },
        socket: Socket { connected: false, sent: Vec::new() },
    };
    user.receive(RevisionSyncResponse::Push(RevisionData {
        object_id: "doc1".to_string(),
        data_id: "r1".to_string(),
        payload: vec![1u8],
    }));
    assert!(user.socket.sent.is_empty());
}

#[test]
fn user_id_reports_the_bound_identity() {
    let user = live_user("alice");
    assert_eq!(user.user_id(), "alice".to_string());
}

#[test]
fn messages_are_delivered_in_enqueue_order() {
    let items = vec![
        client_message("alice", push_envelope("o1", "r1", vec![1u8])),
        client_message("bob", push_envelope("o2", "r2", vec![2u8])),
        client_message("carol", push_envelope("o3", "r3", vec![3u8])),
    ];
    let actor = DocumentWebSocketActor::new(MessageQueue { items }, ServerDocumentManager::new());
    let outcome = actor.run();
    let handled: Vec<(String, String)> = outcome
        .doc_manager
        .handled
        .iter()
        .map(|h| (h.object_id.clone(), h.data_id.clone()))
        .collect();
    assert_eq!(
        handled,
        vec![
            ("o1".to_string(), "r1".to_string()),
            ("o2".to_string(), "r2".to_string()),
            ("o3".to_string(), "r3".to_string()),
        ]
    );
    assert_eq!(outcome.replies.len(), 3);
    assert!(outcome.replies.iter().all(|r| r.is_ok()));
    assert_eq!(outcome.users.len(), 3);
}

#[test]
fn corrupted_revision_is_refused_without_stopping_the_actor() {
    let mut bad = push_envelope("o1", "r1", vec![1u8]);
    bad.payload = vec![9u8]; // hash no longer matches: integrity failure
    let items = vec![
        client_message("alice", bad),
        client_message("bob", push_envelope("o2", "r2", vec![2u8])),
    ];
    let actor = DocumentWebSocketActor::new(MessageQueue { items }, ServerDocumentManager::new());
    let outcome = actor.run();
    // the corrupted message is answered with a validation error and never forwarded
    assert!(matches!(outcome.replies[0], Err(AppError::Validation(_))));
    assert!(outcome.replies[1].is_ok());
    assert_eq!(outcome.doc_manager.handled.len(), 1);
    assert_eq!(outcome.doc_manager.handled[0].object_id, "o2".to_string());
    // the refused revision left no document behind
    assert!(outcome.doc_manager.document_content(&"o1".to_string()).is_none());
}

#[test]
fn pings_pass_the_gate_unconditionally() {
    let items = vec![client_message("alice", ping_envelope("o1", "r1"))];
    let actor = DocumentWebSocketActor::new(MessageQueue { items }, ServerDocumentManager::new());
    let outcome = actor.run();
    assert!(outcome.replies[0].is_ok());
    assert_eq!(outcome.doc_manager.handled.len(), 1);
    assert_eq!(
        outcome.doc_manager.handled[0].ty,
        ClientRevisionWSDataType::ClientPing
    );
}
