//! Direct chat streams between two peers.

use crate::ids;
use crate::model::{DirectChatOutbound, NetworkEvent, SwiftEvent};
use crate::tables::{ChatRecord, MessageRecord, OnConflict, Statement};
use vstd::prelude::*;
use vstd::string::*;

verus! {

/// The first frame of a chat stream: which workspace it belongs to.
#[derive(Debug, PartialEq, Eq)]
pub struct ChatStreamInit {
    pub workspace_id: String,
}

/// Every other frame of a chat stream.
#[derive(Debug, PartialEq, Eq)]
pub struct DirectChatMessage {
    pub message: String,
    pub parent_id: Option<String>,
}

/// What a message on a chat stream leads to.
pub struct ChatRecorded {
    pub id: String,
    pub statements: Vec<Statement>,
    pub events: Vec<SwiftEvent>,
}

/// The event that shows a chat message.
pub open spec fn chat_sent(c: ChatRecord) -> SwiftEvent {
    SwiftEvent::Network(
        NetworkEvent::ChatSent {
            id: c.id,
            workspace_id: c.workspace_id,
            message: c.message,
            author: c.author,
            parent_id: c.parent_id,
            timestamp: c.timestamp,
        },
    )
}

/// The chat message that is stored for a message that came from a peer.
pub open spec fn incoming_record(
    id: String,
    peer_id: String,
    workspace_id: String,
    msg: DirectChatMessage,
    now: i64,
) -> ChatRecord {
    ChatRecord {
        id,
        workspace_id,
        message: msg.message,
        author: peer_id,
        parent_id: msg.parent_id,
        timestamp: now,
    }
}

/// The chat message that is stored for a message that went out to a peer.
pub open spec fn outgoing_record(id: String, node_id: String, msg: DirectChatOutbound, now: i64) -> ChatRecord {
    ChatRecord {
        id,
        workspace_id: msg.workspace_id,
        message: msg.message,
        author: node_id,
        parent_id: msg.parent_id,
        timestamp: now,
    }
}

/// Records a message that came from a peer: as a chat message of the stream's workspace and as a
/// direct message.
pub fn incoming(
    peer_id: &String,
    workspace_id: &String,
    msg: DirectChatMessage,
    clock: &str,
    now: i64,
) -> (r: ChatRecorded)
    ensures
        r.id@ == ids::chat_id(peer_id@, msg.message@, clock@),
        r.statements@ == seq![
            Statement::InsertChat(
                incoming_record(r.id, *peer_id, *workspace_id, msg, now),
                OnConflict::Ignore,
            ),
            Statement::InsertMessage(
                MessageRecord {
                    id: r.id,
                    peer_id: *peer_id,
                    workspace_id: *workspace_id,
                    message: msg.message,
                    parent_id: msg.parent_id,
                    is_outgoing: false,
                    timestamp: now,
                },
                OnConflict::Ignore,
            ),
        ],
        r.events@ == seq![
            chat_sent(incoming_record(r.id, *peer_id, *workspace_id, msg, now)),
            SwiftEvent::DirectMessageReceived {
                id: r.id,
                peer_id: *peer_id,
                message: msg.message,
                timestamp: now,
                is_incoming: true,
            },
        ],
{
    let id = ids::new_chat_id(peer_id.as_str(), msg.message.as_str(), clock);
    let mut statements: Vec<Statement> = Vec::new();
    statements.push(
        Statement::InsertChat(
            ChatRecord {
                id: id.clone(),
                workspace_id: workspace_id.clone(),
                message: msg.message.clone(),
                author: peer_id.clone(),
                parent_id: msg.parent_id.clone(),
                timestamp: now,
            },
            OnConflict::Ignore,
        ),
    );
    statements.push(
        Statement::InsertMessage(
            MessageRecord {
                id: id.clone(),
                peer_id: peer_id.clone(),
                workspace_id: workspace_id.clone(),
                message: msg.message.clone(),
                parent_id: msg.parent_id.clone(),
                is_outgoing: false,
                timestamp: now,
            },
            OnConflict::Ignore,
        ),
    );
    let mut events: Vec<SwiftEvent> = Vec::new();
    events.push(
        SwiftEvent::Network(
            NetworkEvent::ChatSent {
                id: id.clone(),
                workspace_id: workspace_id.clone(),
                message: msg.message.clone(),
                author: peer_id.clone(),
                parent_id: msg.parent_id,
                timestamp: now,
            },
        ),
    );
    events.push(
        SwiftEvent::DirectMessageReceived {
            id: id.clone(),
            peer_id: peer_id.clone(),
            message: msg.message,
            timestamp: now,
            is_incoming: true,
        },
    );
    ChatRecorded { id, statements, events }
}

/// The frame content for a message that goes out.
pub fn outbound_message(msg: &DirectChatOutbound) -> (r: DirectChatMessage)
    ensures
        r == (DirectChatMessage { message: msg.message, parent_id: msg.parent_id }),
{
    DirectChatMessage { message: msg.message.clone(), parent_id: msg.parent_id.clone() }
}

/// Records a message that went out to a peer.
pub fn outgoing(node_id: &String, msg: DirectChatOutbound, clock: &str, now: i64) -> (r: ChatRecorded)
    ensures
        r.id@ == ids::chat_id(node_id@, msg.message@, clock@),
        r.statements@ == seq![
            Statement::InsertChat(
                outgoing_record(r.id, *node_id, msg, now),
                OnConflict::Ignore,
            ),
        ],
        r.events@ == seq![chat_sent(outgoing_record(r.id, *node_id, msg, now))],
{
    let id = ids::new_chat_id(node_id.as_str(), msg.message.as_str(), clock);
    let mut statements: Vec<Statement> = Vec::new();
    statements.push(
        Statement::InsertChat(
            ChatRecord {
                id: id.clone(),
                workspace_id: msg.workspace_id.clone(),
                message: msg.message.clone(),
                author: node_id.clone(),
                parent_id: msg.parent_id.clone(),
                timestamp: now,
            },
            OnConflict::Ignore,
        ),
    );
    let mut events: Vec<SwiftEvent> = Vec::new();
    events.push(
        SwiftEvent::Network(
            NetworkEvent::ChatSent {
                id: id.clone(),
                workspace_id: msg.workspace_id,
                message: msg.message,
                author: node_id.clone(),
                parent_id: msg.parent_id,
                timestamp: now,
            },
        ),
    );
    ChatRecorded { id, statements, events }
}

/// Whether a chat stream goes on after what happened on it: a frame that cannot be read or written
/// and a closed channel end it, a frame that does not parse does not.
#[derive(Clone, Copy, Debug, PartialEq, Eq, Structural)]
pub enum StreamStep {
    /// A frame came in and was a message.
    MessageIn,
    /// A frame came in and was no message.
    UnreadableIn,
    /// The peer closed the stream, or a frame was over the limit.
    ReadFailed,
    /// A message went out.
    MessageOut,
    /// A message could not be turned into a frame.
    UnwritableOut,
    /// A frame could not be sent.
    WriteFailed,
    /// Nobody is left to send messages.
    ChannelClosed,
}

/// Whether the stream stays open.
pub fn stream_continues(step: StreamStep) -> (r: bool)
    ensures
        r == !(step is ReadFailed || step is WriteFailed || step is ChannelClosed),
{
    match step {
        StreamStep::ReadFailed => false,
        StreamStep::WriteFailed => false,
        StreamStep::ChannelClosed => false,
        _ => true,
    }
}

} // verus!
