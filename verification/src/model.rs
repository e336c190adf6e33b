//! The records, events and commands that the parts of the backend exchange.

use vstd::prelude::*;
use vstd::string::*;

verus! {

/// A double-precision number carried by its bit pattern. Positions and sizes pass through the
/// backend unchanged, so nothing here computes with them.
#[derive(Clone, Copy, Debug, PartialEq, Eq, Structural)]
pub struct Real {
    pub bits: u64,
}

/// A group of peers that share workspaces.
#[derive(Debug, PartialEq, Eq)]
pub struct Group {
    pub id: String,
    pub name: String,
    pub icon: String,
    pub color: String,
    pub created_at: i64,
}

impl Clone for Group {
    fn clone(&self) -> (r: Self)
        ensures
            r == *self,
    {
        Group {
            id: self.id.clone(),
            name: self.name.clone(),
            icon: self.icon.clone(),
            color: self.color.clone(),
            created_at: self.created_at,
        }
    }
}

/// A workspace of a group.
#[derive(Debug, PartialEq, Eq)]
pub struct Workspace {
    pub id: String,
    pub group_id: String,
    pub name: String,
    pub created_at: i64,
}

impl Clone for Workspace {
    fn clone(&self) -> (r: Self)
        ensures
            r == *self,
    {
        Workspace {
            id: self.id.clone(),
            group_id: self.group_id.clone(),
            name: self.name.clone(),
            created_at: self.created_at,
        }
    }
}

/// What a workspace holds.
#[derive(Clone, Debug, PartialEq, Eq)]
pub enum Object {
    Whiteboard { id: String, workspace_id: String, name: String, created_at: i64 },
    File {
        id: String,
        group_id: Option<String>,
        workspace_id: Option<String>,
        name: String,
        hash: String,
        size: u64,
        created_at: i64,
    },
    Chat {
        id: String,
        workspace_id: String,
        message: String,
        author: String,
        parent_id: Option<String>,
        timestamp: i64,
    },
}

/// What peers of a group tell each other over gossip.
#[derive(Clone, Debug, PartialEq, Eq)]
pub enum NetworkEvent {
    /// The peer `source` has a snapshot of the group to hand out.
    GroupSnapshotAvailable { source: String, group_id: String },
    GroupCreated(Group),
    GroupRenamed { id: String, name: String },
    GroupDeleted { id: String },
    WorkspaceCreated(Workspace),
    WorkspaceRenamed { id: String, name: String },
    WorkspaceDeleted { id: String },
    BoardCreated { id: String, workspace_id: String, name: String, created_at: i64 },
    BoardRenamed { id: String, name: String },
    BoardDeleted { id: String },
    FileAvailable {
        id: String,
        group_id: Option<String>,
        workspace_id: Option<String>,
        board_id: Option<String>,
        name: String,
        hash: String,
        size: u64,
        source_peer: String,
        created_at: i64,
    },
    ChatSent {
        id: String,
        workspace_id: String,
        message: String,
        author: String,
        parent_id: Option<String>,
        timestamp: i64,
    },
    ChatDeleted { id: String },
    WhiteboardElementAdded {
        id: String,
        board_id: String,
        element_type: String,
        x: Real,
        y: Real,
        width: Real,
        height: Real,
        z_index: i32,
        style_json: Option<String>,
        content_json: Option<String>,
        created_at: i64,
        updated_at: i64,
    },
    WhiteboardElementUpdated {
        id: String,
        board_id: String,
        element_type: String,
        x: Real,
        y: Real,
        width: Real,
        height: Real,
        z_index: i32,
        style_json: Option<String>,
        content_json: Option<String>,
        updated_at: i64,
    },
    WhiteboardElementDeleted { id: String, board_id: String },
    WhiteboardCleared { board_id: String },
    NotebookCellAdded {
        id: String,
        board_id: String,
        cell_type: String,
        cell_order: i32,
        content: Option<String>,
    },
    NotebookCellUpdated {
        id: String,
        board_id: String,
        cell_type: String,
        cell_order: i32,
        content: Option<String>,
        output: Option<String>,
        collapsed: bool,
        height: Option<Real>,
        metadata_json: Option<String>,
    },
    NotebookCellDeleted { id: String, board_id: String },
    NotebookCellsReordered { board_id: String, cell_ids: Vec<String> },
    BoardModeChanged { board_id: String, mode: String },
    BoardMetadataUpdated {
        board_id: String,
        labels: Vec<String>,
        rating: i32,
        contains_model: Option<String>,
        contains_skills: Vec<String>,
    },
    BoardLabelsUpdated { board_id: String, labels: Vec<String> },
    BoardRated { board_id: String, rating: i32 },
    ProfileUpdated { node_id: String, display_name: String, avatar_hash: Option<String> },
}

/// What the application asks the network layer to do.
#[derive(Debug, PartialEq, Eq)]
pub enum NetworkCommand {
    /// A peer asks for a snapshot of the group on whose topic this came.
    RequestSnapshot { from_peer: String },
    JoinGroup { group_id: String },
    Broadcast { group_id: String, event: NetworkEvent },
    UploadToGroup { group_id: String, path: String },
    UploadToWorkspace { workspace_id: String, path: String },
    DeleteGroup { id: String },
    DeleteWorkspace { id: String },
    DeleteBoard { id: String },
    DeleteChat { id: String },
    /// Open a direct chat stream with a peer.
    StartChatStream { peer_id: String, workspace_id: String },
    /// Send a message on an open direct chat stream.
    SendDirectChat {
        peer_id: String,
        workspace_id: String,
        message: String,
        parent_id: Option<String>,
    },
    /// Fetch a file from the peer that has it.
    RequestFileDownload { file_id: String, hash: String, source_peer: String },
}

/// Labels, rating and the like of one board.
#[derive(Clone, Debug, PartialEq, Eq)]
pub struct BoardMetadata {
    pub board_id: String,
    pub labels: Vec<String>,
    pub rating: i32,
    pub view_count: i32,
    pub contains_model: Option<String>,
    pub contains_skills: Vec<String>,
    pub board_type: String,
    pub last_accessed: i64,
}

impl Default for BoardMetadata {
    /// Empty texts and lists, and zero everywhere else.
    fn default() -> (r: Self)
        ensures
            r.board_id@ == Seq::<char>::empty(),
            r.labels@ == Seq::<String>::empty(),
            r.rating == 0,
            r.view_count == 0,
            r.contains_model is None,
            r.contains_skills@ == Seq::<String>::empty(),
            r.board_type@ == Seq::<char>::empty(),
            r.last_accessed == 0,
    {
        BoardMetadata {
            board_id: String::new(),
            labels: Vec::new(),
            rating: 0,
            view_count: 0,
            contains_model: None,
            contains_skills: Vec::new(),
            board_type: String::new(),
            last_accessed: 0,
        }
    }
}

/// A message on its way to the writer of a direct chat stream.
#[derive(Clone, Debug, PartialEq, Eq)]
pub struct DirectChatOutbound {
    pub workspace_id: String,
    pub message: String,
    pub parent_id: Option<String>,
}

/// Messages of the file transfer protocol, each sent as one length-prefixed frame.
#[derive(Clone, Debug, PartialEq, Eq)]
pub enum FileTransferMsg {
    Request { file_id: String, hash: String },
    Metadata { file_id: String, size: u64, name: String },
    NotFound { file_id: String },
}

/// What the user interface asks the backend to do.
#[derive(Clone, Debug, PartialEq, Eq)]
pub enum CommandMsg {
    CreateGroup { name: String, icon: String, color: String },
    RenameGroup { id: String, name: String },
    DeleteGroup { id: String },
    CreateWorkspace { group_id: String, name: String },
    RenameWorkspace { id: String, name: String },
    DeleteWorkspace { id: String },
    CreateBoard { workspace_id: String, name: String },
    RenameBoard { id: String, name: String },
    DeleteBoard { id: String },
    SendChat { workspace_id: String, message: String, parent_id: Option<String> },
    DeleteChat { id: String },
    LoadChatHistory { workspace_id: String },
    StartDirectChat { peer_id: String, workspace_id: String },
    SendDirectMessage {
        peer_id: String,
        workspace_id: String,
        message: String,
        parent_id: Option<String>,
    },
    LoadDirectMessageHistory { peer_id: String },
    Snapshot {  },
    SeedDemoIfEmpty,
}

/// What the backend tells the user interface.
#[derive(Clone, Debug, PartialEq, Eq)]
pub enum SwiftEvent {
    Network(NetworkEvent),
    /// The whole tree, as JSON.
    TreeLoaded(String),
    GroupDeleted { id: String },
    WorkspaceDeleted { id: String },
    BoardDeleted { id: String },
    ChatDeleted { id: String },
    ChatStreamReady { peer_id: String, workspace_id: String },
    ChatStreamClosed { peer_id: String },
    PeerJoined { group_id: String, peer_id: String },
    PeerLeft { group_id: String, peer_id: String },
    StatusUpdate { message: String },
    /// Progress from zero to one.
    FileDownloadProgress { file_id: String, progress: Real },
    FileDownloaded { file_id: String, local_path: String },
    FileDownloadFailed { file_id: String, error: String },
    IntegrationEvent {
        id: String,
        scope_id: String,
        source: String,
        summary: String,
        context: String,
        url: Option<String>,
        ts: u64,
    },
    IntegrationStatus {
        scope_id: String,
        integration_type: String,
        status: String,
        message: Option<String>,
    },
    IntegrationGraph { scope_id: String, graph_json: String },
    AIInsight { insight_json: String },
    DirectMessageReceived {
        id: String,
        peer_id: String,
        message: String,
        timestamp: i64,
        is_incoming: bool,
    },
}

impl SwiftEvent {
    /// Whether the event belongs to the integration console.
    pub open spec fn for_console(self) -> bool {
        self is IntegrationEvent || self is AIInsight || self is IntegrationStatus
            || self is IntegrationGraph
    }

    /// Whether this event goes to the integration buffer rather than the general one.
    pub fn is_integration_event(&self) -> (r: bool)
        ensures
            r == self.for_console(),
    {
        matches!(
            self,
            SwiftEvent::IntegrationEvent { .. }
                | SwiftEvent::AIInsight { .. }
                | SwiftEvent::IntegrationStatus { .. }
                | SwiftEvent::IntegrationGraph { .. }
        )
    }
}

/// Something to do once the tables are written: tell the user interface, or ask the network.
#[derive(Debug, PartialEq, Eq)]
pub enum Effect {
    Emit(SwiftEvent),
    Send(NetworkCommand),
}

/// A board in a snapshot.
#[derive(Clone, Debug, PartialEq, Eq)]
pub struct WhiteboardDTO {
    pub id: String,
    pub workspace_id: String,
    pub name: String,
    pub created_at: i64,
}

/// A file in a snapshot.
#[derive(Clone, Debug, PartialEq, Eq)]
pub struct FileDTO {
    pub id: String,
    pub group_id: Option<String>,
    pub workspace_id: Option<String>,
    pub board_id: Option<String>,
    pub name: String,
    pub hash: String,
    pub size: u64,
    pub source_peer: Option<String>,
    pub local_path: Option<String>,
    pub created_at: i64,
}

/// A chat message in a snapshot.
#[derive(Clone, Debug, PartialEq, Eq)]
pub struct ChatDTO {
    pub id: String,
    pub workspace_id: String,
    pub message: String,
    pub author: String,
    pub parent_id: Option<String>,
    pub timestamp: i64,
}

} // verus!
