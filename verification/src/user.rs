//! The revision user: a capability binding a user identity to a delivery
//! channel. Delivery is fire-and-forget: a failed send is swallowed (the
//! client's next ping triggers resynchronisation), never retried and never
//! propagated to the session manager.

use vstd::prelude::*;
use crate::errors::AppError;

verus! {

/// The logical channel a websocket message is tagged with.
#[derive(Clone, Copy, Debug, PartialEq, Eq, Structural)]
pub enum WSChannel {
    Document,
    Folder,
}

/// Revision data carried by a synchronization response.
#[derive(Clone, Debug)]
pub struct RevisionData {
    pub object_id: String,
    pub data_id: String,
    pub payload: Vec<u8>,
}

/// A synchronization response from the session manager: request missing
/// revisions (Pull), forward a revision (Push), or confirm receipt (Ack).
#[derive(Clone, Debug)]
pub enum RevisionSyncResponse {
    Pull(RevisionData),
    Push(RevisionData),
    Ack(RevisionData),
}

/// One outbound wire message.
#[derive(Clone, Debug)]
pub struct WebSocketMessage {
    pub channel: WSChannel,
    pub object_id: String,
    pub data_id: String,
    pub payload: Vec<u8>,
}

/// The identity of one connected user.
#[derive(Clone, Debug)]
pub struct WSUser {
    pub user_id: String,
}

/// The delivery end of one connection: messages sent so far, and whether the
/// connection still accepts sends.
#[derive(Clone, Debug)]
pub struct Socket {
    pub connected: bool,
    pub sent: Vec<WebSocketMessage>,
}

impl Socket {
    /// Attempts delivery: on a live connection the message is appended to the
    /// channel; on a dead one nothing is delivered and the send errors.
    pub fn try_send(&mut self, msg: WebSocketMessage) -> (r: Result<(), AppError>)
        ensures
            final(self).connected == old(self).connected,
            old(self).connected ==> (r is Ok && final(self).sent@ == old(self).sent@.push(msg)),
            !old(self).connected ==> (r matches Err(e) && e is Internal && *final(self)
                == *old(self)),
    {
        if self.connected {
            self.sent.push(msg);
            Ok(())
        } else {
            Err(AppError::Internal("socket closed".to_owned()))
        }
    }
}

/// Wraps revision data into a wire message on the given channel.
pub fn revision_data_to_ws_message(data: RevisionData, channel: WSChannel) -> (m: WebSocketMessage)
    ensures
        m.channel == channel,
        m.object_id == data.object_id,
        m.data_id == data.data_id,
        m.payload == data.payload,
{
    WebSocketMessage {
        channel,
        object_id: data.object_id,
        data_id: data.data_id,
        payload: data.payload,
    }
}

/// The wire message a synchronization response becomes, tagged with the
/// Document channel.
pub open spec fn ws_message_of(resp: RevisionSyncResponse) -> WebSocketMessage {
    match resp {
        RevisionSyncResponse::Pull(d) => WebSocketMessage {
            channel: WSChannel::Document,
            object_id: d.object_id,
            data_id: d.data_id,
            payload: d.payload,
        },
        RevisionSyncResponse::Push(d) => WebSocketMessage {
            channel: WSChannel::Document,
            object_id: d.object_id,
            data_id: d.data_id,
            payload: d.payload,
        },
        RevisionSyncResponse::Ack(d) => WebSocketMessage {
            channel: WSChannel::Document,
            object_id: d.object_id,
            data_id: d.data_id,
            payload: d.payload,
        },
    }
}

/// A capability binding one user identity to one delivery channel; the
/// session manager pushes synchronization responses back out through it.
#[derive(Clone, Debug)]
pub struct DocumentRevisionUser {
    pub user: WSUser,
    pub socket: Socket,
}

impl DocumentRevisionUser {
    pub fn user_id(&self) -> (r: String)
        ensures
            r == self.user.user_id,
    {
        self.user.user_id.clone()
    }

    /// Fire-and-forget delivery of one synchronization response, tagged with
    /// the Document channel: on a live connection the message is delivered;
    /// a failed delivery is swallowed — redelivery is the session manager's
    /// responsibility, triggered by a later client ping.
    pub fn receive(&mut self, resp: RevisionSyncResponse)
        ensures
            final(self).user == old(self).user,
            final(self).socket.connected == old(self).socket.connected,
            old(self).socket.connected ==> final(self).socket.sent@ == old(self).socket.sent@.push(ws_message_of(resp)),
            !old(self).socket.connected ==> final(self).socket == old(self).socket,
    {
        let result = match resp {
            RevisionSyncResponse::Pull(data) => {
                let msg = revision_data_to_ws_message(data, WSChannel::Document);
                self.socket.try_send(msg)
            },
            RevisionSyncResponse::Push(data) => {
                let msg = revision_data_to_ws_message(data, WSChannel::Document);
                self.socket.try_send(msg)
            },
            RevisionSyncResponse::Ack(data) => {
                let msg = revision_data_to_ws_message(data, WSChannel::Document);
                self.socket.try_send(msg)
            },
        };
        match result {
            Ok(_) => {},
            Err(_) => {
                // delivery failure is swallowed; the client's next ping resynchronises
            },
        }
    }
}

} // verus!
