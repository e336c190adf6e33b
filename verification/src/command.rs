//! What a command of the user interface does: which rows it writes, and whom it tells.

use crate::ids;
use crate::model::{
    ChatDTO, CommandMsg, Effect, Group, NetworkCommand, NetworkEvent, SwiftEvent, Workspace,
};
use crate::tables::{BoardRecord, ChatRecord, MessageRecord, OnConflict, Statement};
use crate::text;
use vstd::prelude::*;
use vstd::string::*;
use vstd::utf8::*;

verus! {

/// Whose group a command's announcement goes to; it is looked up before the statements run.
#[derive(Debug, PartialEq, Eq)]
pub enum GroupLookup {
    Nobody,
    /// The group of a workspace.
    OfWorkspace { id: String },
    /// The group of the workspace of a board.
    OfBoard { id: String },
    /// The group of the workspace of a chat message.
    OfChat { id: String },
}

/// What a command reads back for the user interface.
#[derive(Debug, PartialEq, Eq)]
pub enum Reading {
    Nothing,
    ChatHistory { workspace_id: String },
    /// The oldest direct messages with a peer, at most this many.
    MessageHistory { peer_id: String, limit: usize },
    /// The whole tree.
    Tree,
    /// The whole tree, after the demo content went into empty tables.
    SeedThenTree,
}

/// What to do for a command before its effects are known.
pub struct CommandPlan {
    /// The identifier of what the command creates; empty where it creates nothing.
    pub id: String,
    pub lookup: GroupLookup,
    pub statements: Vec<Statement>,
    pub reading: Reading,
}

/// How many direct messages a history holds at most.
pub const MESSAGE_HISTORY_LIMIT: usize = 100;

/// The identifier of what a command creates at a time.
pub open spec fn created_id(msg: CommandMsg, clock: Seq<char>) -> Seq<char> {
    match msg {
        CommandMsg::CreateGroup { name, .. } => ids::group_id(name@, clock),
        CommandMsg::CreateWorkspace { group_id, name } => ids::workspace_id(group_id@, name@),
        CommandMsg::CreateBoard { workspace_id, name } => ids::board_id(workspace_id@, name@),
        CommandMsg::SendChat { workspace_id, message, .. } => ids::chat_id(
            workspace_id@,
            message@,
            clock,
        ),
        CommandMsg::SendDirectMessage { peer_id, workspace_id, message, .. } =>
            ids::direct_message_id(peer_id@, workspace_id@, message@, clock),
        _ => Seq::empty(),
    }
}

/// Whose group a command is announced to.
pub open spec fn lookup_of(msg: CommandMsg) -> GroupLookup {
    match msg {
        CommandMsg::RenameWorkspace { id, .. } => GroupLookup::OfWorkspace { id },
        CommandMsg::DeleteWorkspace { id } => GroupLookup::OfWorkspace { id },
        CommandMsg::CreateBoard { workspace_id, .. } => GroupLookup::OfWorkspace {
            id: workspace_id,
        },
        CommandMsg::SendChat { workspace_id, .. } => GroupLookup::OfWorkspace { id: workspace_id },
        CommandMsg::RenameBoard { id, .. } => GroupLookup::OfBoard { id },
        CommandMsg::DeleteBoard { id } => GroupLookup::OfBoard { id },
        CommandMsg::DeleteChat { id } => GroupLookup::OfChat { id },
        _ => GroupLookup::Nobody,
    }
}

/// What a command reads back.
pub open spec fn reading_of(msg: CommandMsg) -> Reading {
    match msg {
        CommandMsg::LoadChatHistory { workspace_id } => Reading::ChatHistory { workspace_id },
        CommandMsg::LoadDirectMessageHistory { peer_id } => Reading::MessageHistory {
            peer_id,
            limit: MESSAGE_HISTORY_LIMIT,
        },
        CommandMsg::Snapshot {  } => Reading::Tree,
        CommandMsg::SeedDemoIfEmpty => Reading::SeedThenTree,
        _ => Reading::Nothing,
    }
}

/// The statements of a command that creates `id` at `now`, in order.
pub open spec fn statements_of(msg: CommandMsg, id: String, node_id: String, now: i64) -> Seq<
    Statement,
> {
    match msg {
        CommandMsg::CreateGroup { name, icon, color } => seq![
            Statement::InsertGroup(
                Group { id, name, icon, color, created_at: now },
                OnConflict::Abort,
            ),
        ],
        CommandMsg::RenameGroup { id, name } => seq![Statement::RenameGroup { id, name }],
        CommandMsg::DeleteGroup { id } => seq![
            Statement::DeleteObjectsOfGroup { group_id: id },
            Statement::DeleteWorkspacesOfGroup { group_id: id },
            Statement::DeleteGroup { id },
        ],
        CommandMsg::CreateWorkspace { group_id, name } => seq![
            Statement::InsertWorkspace(
                Workspace { id, group_id, name, created_at: now },
                OnConflict::Ignore,
            ),
        ],
        CommandMsg::RenameWorkspace { id, name } => seq![Statement::RenameWorkspace { id, name }],
        CommandMsg::DeleteWorkspace { id } => seq![
            Statement::DeleteObjectsOfWorkspace { workspace_id: id },
            Statement::DeleteWorkspace { id },
        ],
        CommandMsg::CreateBoard { workspace_id, name } => seq![
            Statement::InsertBoard(
                BoardRecord { id, workspace_id, name, created_at: now },
                OnConflict::Ignore,
            ),
        ],
        CommandMsg::RenameBoard { id, name } => seq![Statement::RenameBoard { id, name }],
        CommandMsg::DeleteBoard { id } => seq![Statement::DeleteBoard { id }],
        CommandMsg::SendChat { workspace_id, message, parent_id } => seq![
            Statement::InsertChat(
                ChatRecord { id, workspace_id, message, author: node_id, parent_id, timestamp: now },
                OnConflict::Abort,
            ),
        ],
        CommandMsg::DeleteChat { id } => seq![Statement::DeleteChat { id }],
        CommandMsg::SendDirectMessage { peer_id, workspace_id, message, parent_id } => seq![
            Statement::InsertMessage(
                MessageRecord {
                    id,
                    peer_id,
                    workspace_id,
                    message,
                    parent_id,
                    is_outgoing: true,
                    timestamp: now,
                },
                OnConflict::Abort,
            ),
        ],
        _ => Seq::empty(),
    }
}

/// Plans a command: the rows it writes and what it looks up and reads.
pub fn plan_command(msg: &CommandMsg, node_id: &String, clock: &str, now: i64) -> (r: CommandPlan)
    ensures
        r.id@ == created_id(*msg, clock@),
        r.lookup == lookup_of(*msg),
        r.statements@ == statements_of(*msg, r.id, *node_id, now),
        r.reading == reading_of(*msg),
{
    let mut plan = CommandPlan {
        id: String::new(),
        lookup: GroupLookup::Nobody,
        statements: Vec::new(),
        reading: Reading::Nothing,
    };
    match msg {
        CommandMsg::CreateGroup { name, icon, color } => {
            plan.id = ids::new_group_id(name.as_str(), clock);
            let group = Group {
                id: plan.id.clone(),
                name: name.clone(),
                icon: icon.clone(),
                color: color.clone(),
                created_at: now,
            };
            plan.statements.push(Statement::InsertGroup(group, OnConflict::Abort));
        },
        CommandMsg::RenameGroup { id, name } => {
            plan.statements.push(Statement::RenameGroup { id: id.clone(), name: name.clone() });
        },
        CommandMsg::DeleteGroup { id } => {
            plan.statements.push(Statement::DeleteObjectsOfGroup { group_id: id.clone() });
            plan.statements.push(Statement::DeleteWorkspacesOfGroup { group_id: id.clone() });
            plan.statements.push(Statement::DeleteGroup { id: id.clone() });
        },
        CommandMsg::CreateWorkspace { group_id, name } => {
            plan.id = ids::new_workspace_id(group_id.as_str(), name.as_str());
            let workspace = Workspace {
                id: plan.id.clone(),
                group_id: group_id.clone(),
                name: name.clone(),
                created_at: now,
            };
            plan.statements.push(Statement::InsertWorkspace(workspace, OnConflict::Ignore));
        },
        CommandMsg::RenameWorkspace { id, name } => {
            plan.lookup = GroupLookup::OfWorkspace { id: id.clone() };
            plan.statements.push(Statement::RenameWorkspace { id: id.clone(), name: name.clone() });
        },
        CommandMsg::DeleteWorkspace { id } => {
            plan.lookup = GroupLookup::OfWorkspace { id: id.clone() };
            plan.statements.push(Statement::DeleteObjectsOfWorkspace { workspace_id: id.clone() });
            plan.statements.push(Statement::DeleteWorkspace { id: id.clone() });
        },
        CommandMsg::CreateBoard { workspace_id, name } => {
            plan.id = ids::new_board_id(workspace_id.as_str(), name.as_str());
            plan.lookup = GroupLookup::OfWorkspace { id: workspace_id.clone() };
            let board = BoardRecord {
                id: plan.id.clone(),
                workspace_id: workspace_id.clone(),
                name: name.clone(),
                created_at: now,
            };
            plan.statements.push(Statement::InsertBoard(board, OnConflict::Ignore));
        },
        CommandMsg::RenameBoard { id, name } => {
            plan.lookup = GroupLookup::OfBoard { id: id.clone() };
            plan.statements.push(Statement::RenameBoard { id: id.clone(), name: name.clone() });
        },
        CommandMsg::DeleteBoard { id } => {
            plan.lookup = GroupLookup::OfBoard { id: id.clone() };
            plan.statements.push(Statement::DeleteBoard { id: id.clone() });
        },
        CommandMsg::SendChat { workspace_id, message, parent_id } => {
            plan.id = ids::new_chat_id(workspace_id.as_str(), message.as_str(), clock);
            plan.lookup = GroupLookup::OfWorkspace { id: workspace_id.clone() };
            let chat = ChatRecord {
                id: plan.id.clone(),
                workspace_id: workspace_id.clone(),
                message: message.clone(),
                author: node_id.clone(),
                parent_id: parent_id.clone(),
                timestamp: now,
            };
            plan.statements.push(Statement::InsertChat(chat, OnConflict::Abort));
        },
        CommandMsg::DeleteChat { id } => {
            plan.lookup = GroupLookup::OfChat { id: id.clone() };
            plan.statements.push(Statement::DeleteChat { id: id.clone() });
        },
        CommandMsg::LoadChatHistory { workspace_id } => {
            plan.reading = Reading::ChatHistory { workspace_id: workspace_id.clone() };
        },
        CommandMsg::StartDirectChat { .. } => {},
        CommandMsg::SendDirectMessage { peer_id, workspace_id, message, parent_id } => {
            plan.id = ids::new_direct_message_id(
                peer_id.as_str(),
                workspace_id.as_str(),
                message.as_str(),
                clock,
            );
            let record = MessageRecord {
                id: plan.id.clone(),
                peer_id: peer_id.clone(),
                workspace_id: workspace_id.clone(),
                message: message.clone(),
                parent_id: parent_id.clone(),
                is_outgoing: true,
                timestamp: now,
            };
            plan.statements.push(Statement::InsertMessage(record, OnConflict::Abort));
        },
        CommandMsg::LoadDirectMessageHistory { peer_id } => {
            plan.reading = Reading::MessageHistory {
                peer_id: peer_id.clone(),
                limit: MESSAGE_HISTORY_LIMIT,
            };
        },
        CommandMsg::Snapshot {  } => {
            plan.reading = Reading::Tree;
        },
        CommandMsg::SeedDemoIfEmpty => {
            plan.reading = Reading::SeedThenTree;
        },
    }
    plan
}

/// The event by which a command that takes effect is announced, if it is announced as one.
pub open spec fn announcement(msg: CommandMsg, id: String, node_id: String, now: i64) -> Option<
    NetworkEvent,
> {
    match msg {
        CommandMsg::CreateGroup { name, icon, color } => Some(
            NetworkEvent::GroupCreated(Group { id, name, icon, color, created_at: now }),
        ),
        CommandMsg::RenameGroup { id, name } => Some(NetworkEvent::GroupRenamed { id, name }),
        CommandMsg::CreateWorkspace { group_id, name } => Some(
            NetworkEvent::WorkspaceCreated(Workspace { id, group_id, name, created_at: now }),
        ),
        CommandMsg::RenameWorkspace { id, name } => Some(
            NetworkEvent::WorkspaceRenamed { id, name },
        ),
        CommandMsg::CreateBoard { workspace_id, name } => Some(
            NetworkEvent::BoardCreated { id, workspace_id, name, created_at: now },
        ),
        CommandMsg::RenameBoard { id, name } => Some(NetworkEvent::BoardRenamed { id, name }),
        CommandMsg::SendChat { workspace_id, message, parent_id } => Some(
            NetworkEvent::ChatSent {
                id,
                workspace_id,
                message,
                author: node_id,
                parent_id,
                timestamp: now,
            },
        ),
        _ => None,
    }
}

/// The broadcast of an event to a group, where there is one.
pub open spec fn broadcast_to(group: Option<String>, event: NetworkEvent) -> Seq<Effect> {
    match group {
        Some(group_id) => seq![Effect::Send(NetworkCommand::Broadcast { group_id, event })],
        None => Seq::empty(),
    }
}

/// What a command leads to. `touched` says whether its last statement changed a row; `group` is
/// the group that was looked up for it.
pub open spec fn effects_of(
    msg: CommandMsg,
    id: String,
    node_id: String,
    now: i64,
    touched: bool,
    group: Option<String>,
) -> Seq<Effect> {
    match msg {
        CommandMsg::CreateGroup { .. } => {
            let event = announcement(msg, id, node_id, now)->0;
            seq![
                Effect::Send(NetworkCommand::JoinGroup { group_id: id }),
                Effect::Send(NetworkCommand::Broadcast { group_id: id, event }),
                Effect::Emit(SwiftEvent::Network(event)),
            ]
        },
        CommandMsg::CreateWorkspace { group_id, .. } => {
            let event = announcement(msg, id, node_id, now)->0;
            seq![
                Effect::Send(NetworkCommand::JoinGroup { group_id }),
                Effect::Send(NetworkCommand::Broadcast { group_id, event }),
                Effect::Emit(SwiftEvent::Network(event)),
            ]
        },
        CommandMsg::CreateBoard { .. } => {
            let event = announcement(msg, id, node_id, now)->0;
            seq![Effect::Emit(SwiftEvent::Network(event))] + broadcast_to(group, event)
        },
        CommandMsg::SendChat { .. } => {
            let event = announcement(msg, id, node_id, now)->0;
            seq![Effect::Emit(SwiftEvent::Network(event))] + broadcast_to(group, event)
        },
        CommandMsg::RenameGroup { id, .. } => if touched {
            let event = announcement(msg, id, node_id, now)->0;
            seq![Effect::Emit(SwiftEvent::Network(event))] + broadcast_to(Some(id), event)
        } else {
            Seq::empty()
        },
        CommandMsg::RenameWorkspace { .. } => if touched {
            let event = announcement(msg, id, node_id, now)->0;
            seq![Effect::Emit(SwiftEvent::Network(event))] + broadcast_to(group, event)
        } else {
            Seq::empty()
        },
        CommandMsg::RenameBoard { .. } => if touched {
            let event = announcement(msg, id, node_id, now)->0;
            seq![Effect::Emit(SwiftEvent::Network(event))] + broadcast_to(group, event)
        } else {
            Seq::empty()
        },
        CommandMsg::DeleteGroup { id } => if touched {
            seq![
                Effect::Emit(SwiftEvent::GroupDeleted { id }),
                Effect::Send(NetworkCommand::DeleteGroup { id }),
            ]
        } else {
            Seq::empty()
        },
        CommandMsg::DeleteWorkspace { id } => if touched && group is Some {
            seq![
                Effect::Emit(SwiftEvent::WorkspaceDeleted { id }),
                Effect::Send(NetworkCommand::DeleteWorkspace { id }),
            ]
        } else if touched {
            seq![Effect::Emit(SwiftEvent::WorkspaceDeleted { id })]
        } else {
            Seq::empty()
        },
        CommandMsg::DeleteBoard { id } => if touched && group is Some {
            seq![
                Effect::Emit(SwiftEvent::BoardDeleted { id }),
                Effect::Send(NetworkCommand::DeleteBoard { id }),
            ]
        } else if touched {
            seq![Effect::Emit(SwiftEvent::BoardDeleted { id })]
        } else {
            Seq::empty()
        },
        CommandMsg::DeleteChat { id } => if touched && group is Some {
            seq![
                Effect::Emit(SwiftEvent::ChatDeleted { id }),
                Effect::Send(NetworkCommand::DeleteChat { id }),
            ]
        } else if touched {
            seq![Effect::Emit(SwiftEvent::ChatDeleted { id })]
        } else {
            Seq::empty()
        },
        CommandMsg::StartDirectChat { peer_id, workspace_id } => seq![
            Effect::Send(NetworkCommand::StartChatStream { peer_id, workspace_id }),
        ],
        CommandMsg::SendDirectMessage { peer_id, workspace_id, message, parent_id } => seq![
            Effect::Send(
                NetworkCommand::SendDirectChat { peer_id, workspace_id, message, parent_id },
            ),
            Effect::Emit(
                SwiftEvent::DirectMessageReceived {
                    id,
                    peer_id,
                    message,
                    timestamp: now,
                    is_incoming: false,
                },
            ),
        ],
        _ => Seq::empty(),
    }
}

/// What to tell the user interface and the network once a command's statements have run.
pub fn command_effects(
    msg: CommandMsg,
    id: String,
    node_id: &String,
    now: i64,
    touched: bool,
    group: Option<String>,
) -> (r: Vec<Effect>)
    ensures
        r@ == effects_of(msg, id, *node_id, now, touched, group),
{
    let mut out: Vec<Effect> = Vec::new();
    match msg {
        CommandMsg::CreateGroup { name, icon, color } => {
            let group = Group { id: id.clone(), name, icon, color, created_at: now };
            out.push(Effect::Send(NetworkCommand::JoinGroup { group_id: id.clone() }));
            out.push(
                Effect::Send(
                    NetworkCommand::Broadcast {
                        group_id: id,
                        event: NetworkEvent::GroupCreated(group.clone()),
                    },
                ),
            );
            out.push(Effect::Emit(SwiftEvent::Network(NetworkEvent::GroupCreated(group))));
        },
        CommandMsg::RenameGroup { id, name } => {
            if touched {
                out.push(
                    Effect::Emit(
                        SwiftEvent::Network(
                            NetworkEvent::GroupRenamed { id: id.clone(), name: name.clone() },
                        ),
                    ),
                );
                out.push(
                    Effect::Send(
                        NetworkCommand::Broadcast {
                            group_id: id.clone(),
                            event: NetworkEvent::GroupRenamed { id, name },
                        },
                    ),
                );
            }
        },
        CommandMsg::DeleteGroup { id } => {
            if touched {
                out.push(Effect::Emit(SwiftEvent::GroupDeleted { id: id.clone() }));
                out.push(Effect::Send(NetworkCommand::DeleteGroup { id }));
            }
        },
        CommandMsg::CreateWorkspace { group_id, name } => {
            let workspace = Workspace { id, group_id: group_id.clone(), name, created_at: now };
            out.push(Effect::Send(NetworkCommand::JoinGroup { group_id: group_id.clone() }));
            out.push(
                Effect::Send(
                    NetworkCommand::Broadcast {
                        group_id,
                        event: NetworkEvent::WorkspaceCreated(workspace.clone()),
                    },
                ),
            );
            out.push(Effect::Emit(SwiftEvent::Network(NetworkEvent::WorkspaceCreated(workspace))));
        },
        CommandMsg::RenameWorkspace { id, name } => {
            if touched {
                out.push(
                    Effect::Emit(
                        SwiftEvent::Network(
                            NetworkEvent::WorkspaceRenamed { id: id.clone(), name: name.clone() },
                        ),
                    ),
                );
                if let Some(group_id) = group {
                    out.push(
                        Effect::Send(
                            NetworkCommand::Broadcast {
                                group_id,
                                event: NetworkEvent::WorkspaceRenamed { id, name },
                            },
                        ),
                    );
                }
            }
        },
        CommandMsg::DeleteWorkspace { id } => {
            if touched {
                out.push(Effect::Emit(SwiftEvent::WorkspaceDeleted { id: id.clone() }));
                if group.is_some() {
                    out.push(Effect::Send(NetworkCommand::DeleteWorkspace { id }));
                }
            }
        },
        CommandMsg::CreateBoard { workspace_id, name } => {
            out.push(
                Effect::Emit(
                    SwiftEvent::Network(
                        NetworkEvent::BoardCreated {
                            id: id.clone(),
                            workspace_id: workspace_id.clone(),
                            name: name.clone(),
                            created_at: now,
                        },
                    ),
                ),
            );
            if let Some(group_id) = group {
                out.push(
                    Effect::Send(
                        NetworkCommand::Broadcast {
                            group_id,
                            event: NetworkEvent::BoardCreated {
                                id,
                                workspace_id,
                                name,
                                created_at: now,
                            },
                        },
                    ),
                );
            }
        },
        CommandMsg::RenameBoard { id, name } => {
            if touched {
                out.push(
                    Effect::Emit(
                        SwiftEvent::Network(
                            NetworkEvent::BoardRenamed { id: id.clone(), name: name.clone() },
                        ),
                    ),
                );
                if let Some(group_id) = group {
                    out.push(
                        Effect::Send(
                            NetworkCommand::Broadcast {
                                group_id,
                                event: NetworkEvent::BoardRenamed { id, name },
                            },
                        ),
                    );
                }
            }
        },
        CommandMsg::DeleteBoard { id } => {
            if touched {
                out.push(Effect::Emit(SwiftEvent::BoardDeleted { id: id.clone() }));
                if group.is_some() {
                    out.push(Effect::Send(NetworkCommand::DeleteBoard { id }));
                }
            }
        },
        CommandMsg::SendChat { workspace_id, message, parent_id } => {
            out.push(
                Effect::Emit(
                    SwiftEvent::Network(
                        NetworkEvent::ChatSent {
                            id: id.clone(),
                            workspace_id: workspace_id.clone(),
                            message: message.clone(),
                            author: node_id.clone(),
                            parent_id: parent_id.clone(),
                            timestamp: now,
                        },
                    ),
                ),
            );
            if let Some(group_id) = group {
                out.push(
                    Effect::Send(
                        NetworkCommand::Broadcast {
                            group_id,
                            event: NetworkEvent::ChatSent {
                                id,
                                workspace_id,
                                message,
                                author: node_id.clone(),
                                parent_id,
                                timestamp: now,
                            },
                        },
                    ),
                );
            }
        },
        CommandMsg::DeleteChat { id } => {
            if touched {
                out.push(Effect::Emit(SwiftEvent::ChatDeleted { id: id.clone() }));
                if group.is_some() {
                    out.push(Effect::Send(NetworkCommand::DeleteChat { id }));
                }
            }
        },
        CommandMsg::StartDirectChat { peer_id, workspace_id } => {
            out.push(Effect::Send(NetworkCommand::StartChatStream { peer_id, workspace_id }));
        },
        CommandMsg::SendDirectMessage { peer_id, workspace_id, message, parent_id } => {
            out.push(
                Effect::Send(
                    NetworkCommand::SendDirectChat {
                        peer_id: peer_id.clone(),
                        workspace_id,
                        message: message.clone(),
                        parent_id,
                    },
                ),
            );
            out.push(
                Effect::Emit(
                    SwiftEvent::DirectMessageReceived {
                        id,
                        peer_id,
                        message,
                        timestamp: now,
                        is_incoming: false,
                    },
                ),
            );
        },
        CommandMsg::LoadChatHistory { .. } => {},
        CommandMsg::LoadDirectMessageHistory { .. } => {},
        CommandMsg::Snapshot {  } => {},
        CommandMsg::SeedDemoIfEmpty => {},
    }
    out
}

/// A chat message as it comes out of the object table.
pub struct ChatRow {
    pub id: String,
    pub workspace_id: String,
    pub message: String,
    pub author: String,
    /// The bytes of the parent's identifier.
    pub parent: Option<Vec<u8>>,
    pub timestamp: i64,
}

/// Whether `text` is what the stored bytes of an optional identifier read as: nothing where there
/// are none or where they are not text.
pub open spec fn reads_as(bytes: Option<Vec<u8>>, text: Option<String>) -> bool {
    match bytes {
        Some(b) => if valid_utf8(b@) {
            text is Some && encode_utf8(text->0@) == b@
        } else {
            text is None
        },
        None => text is None,
    }
}

/// Whether a chat message is what a row holds.
pub open spec fn chat_of_row(row: ChatRow, chat: ChatDTO) -> bool {
    &&& chat.id == row.id
    &&& chat.workspace_id == row.workspace_id
    &&& chat.message == row.message
    &&& chat.author == row.author
    &&& reads_as(row.parent, chat.parent_id)
    &&& chat.timestamp == row.timestamp
}

/// Reads one chat message.
pub fn read_chat(row: &ChatRow) -> (r: ChatDTO)
    ensures
        chat_of_row(*row, r),
{
    let parent_id = match &row.parent {
        Some(bytes) => text::utf8_text(bytes),
        None => None,
    };
    ChatDTO {
        id: row.id.clone(),
        workspace_id: row.workspace_id.clone(),
        message: row.message.clone(),
        author: row.author.clone(),
        parent_id,
        timestamp: row.timestamp,
    }
}

/// Reads chat messages, in order.
pub fn read_chats(rows: &Vec<ChatRow>) -> (r: Vec<ChatDTO>)
    ensures
        r@.len() == rows@.len(),
        forall|i: int| 0 <= i < rows@.len() ==> chat_of_row(#[trigger] rows@[i], r@[i]),
{
    let mut out: Vec<ChatDTO> = Vec::new();
    let mut i: usize = 0;
    while i < rows.len()
        invariant
            i <= rows@.len(),
            out@.len() == i,
            forall|j: int| 0 <= j < i ==> chat_of_row(#[trigger] rows@[j], out@[j]),
        decreases rows.len() - i,
    {
        out.push(read_chat(&rows[i]));
        i = i + 1;
    }
    out
}

/// Whether an event shows the chat message that a row holds.
pub open spec fn shows_chat(row: ChatRow, event: SwiftEvent) -> bool {
    &&& event matches SwiftEvent::Network(
        NetworkEvent::ChatSent { id, workspace_id, message, author, parent_id, timestamp },
    )
    &&& chat_of_row(row, ChatDTO { id, workspace_id, message, author, parent_id, timestamp })
}

/// Shows the chat history of a workspace: one event per row, in order.
pub fn chat_history(rows: &Vec<ChatRow>) -> (r: Vec<SwiftEvent>)
    ensures
        r@.len() == rows@.len(),
        forall|i: int| 0 <= i < rows@.len() ==> shows_chat(rows@[i], #[trigger] r@[i]),
{
    let mut out: Vec<SwiftEvent> = Vec::new();
    let mut i: usize = 0;
    while i < rows.len()
        invariant
            i <= rows@.len(),
            out@.len() == i,
            forall|j: int| 0 <= j < i ==> shows_chat(rows@[j], #[trigger] out@[j]),
        decreases rows.len() - i,
    {
        let chat = read_chat(&rows[i]);
        out.push(
            SwiftEvent::Network(
                NetworkEvent::ChatSent {
                    id: chat.id,
                    workspace_id: chat.workspace_id,
                    message: chat.message,
                    author: chat.author,
                    parent_id: chat.parent_id,
                    timestamp: chat.timestamp,
                },
            ),
        );
        i = i + 1;
    }
    out
}

/// A direct message as it comes out of its table.
pub struct MessageRow {
    pub id: String,
    pub peer_id: String,
    pub message: String,
    /// Not zero where this node sent it.
    pub is_outgoing: i32,
    pub timestamp: i64,
}

/// The event that shows a direct message.
pub open spec fn message_event(row: MessageRow) -> SwiftEvent {
    SwiftEvent::DirectMessageReceived {
        id: row.id,
        peer_id: row.peer_id,
        message: row.message,
        timestamp: row.timestamp,
        is_incoming: row.is_outgoing == 0,
    }
}

/// Shows the history of direct messages with a peer: one event per row, in order.
pub fn message_history(rows: &Vec<MessageRow>) -> (r: Vec<SwiftEvent>)
    ensures
        r@ == rows@.map_values(|row: MessageRow| message_event(row)),
{
    let mut out: Vec<SwiftEvent> = Vec::new();
    let mut i: usize = 0;
    while i < rows.len()
        invariant
            i <= rows@.len(),
            out@ == rows@.take(i as int).map_values(|row: MessageRow| message_event(row)),
        decreases rows.len() - i,
    {
        let row = &rows[i];
        out.push(
            SwiftEvent::DirectMessageReceived {
                id: row.id.clone(),
                peer_id: row.peer_id.clone(),
                message: row.message.clone(),
                timestamp: row.timestamp,
                is_incoming: row.is_outgoing == 0,
            },
        );
        assert(rows@.take(i + 1) =~= rows@.take(i as int).push(rows@[i as int]));
        i = i + 1;
    }
    assert(rows@.take(i as int) =~= rows@);
    out
}

} // verus!
