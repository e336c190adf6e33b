//! Files: where an upload belongs, what it is stored as, and where a file can be had.

use crate::actors::network_actor;
use crate::hash;
use crate::ids;
use crate::json;
use crate::json::Json;
use crate::model::{NetworkCommand, NetworkEvent};
use crate::tables::{FileRecord, OnConflict, Statement};
use crate::text::str_eq;
use vstd::prelude::*;
use vstd::string::*;

verus! {

/// Why an upload was refused.
#[derive(Clone, Copy, Debug, PartialEq, Eq, Structural)]
pub enum UploadError {
    UnknownScope,
    NoGroup,
}

impl UploadError {
    /// The reason in words.
    pub fn message(&self) -> (r: String)
        ensures
            r@ == match self {
                UploadError::UnknownScope => "Unknown scope type"@,
                UploadError::NoGroup => "Could not determine group"@,
            },
    {
        match self {
            UploadError::UnknownScope => "Unknown scope type".to_owned(),
            UploadError::NoGroup => "Could not determine group".to_owned(),
        }
    }
}

/// The kind of place that a file belongs to.
#[derive(Clone, Copy, Debug, PartialEq, Eq, Structural)]
pub enum ScopeKind {
    Group,
    Workspace,
    Board,
}

/// The kind that a name stands for.
pub open spec fn scope_kind(name: Seq<char>) -> Option<ScopeKind> {
    if name == "Group"@ {
        Some(ScopeKind::Group)
    } else if name == "Workspace"@ {
        Some(ScopeKind::Workspace)
    } else if name == "Board"@ {
        Some(ScopeKind::Board)
    } else {
        None
    }
}

fn read_scope_kind(name: &str) -> (r: Option<ScopeKind>)
    ensures
        r == scope_kind(name@),
{
    if str_eq(name, "Group") {
        Some(ScopeKind::Group)
    } else if str_eq(name, "Workspace") {
        Some(ScopeKind::Workspace)
    } else if str_eq(name, "Board") {
        Some(ScopeKind::Board)
    } else {
        None
    }
}

/// The member of a scope that holds its identifier.
pub open spec fn scope_key(kind: ScopeKind) -> Seq<char> {
    match kind {
        ScopeKind::Group => "group_id"@,
        ScopeKind::Workspace => "workspace_id"@,
        ScopeKind::Board => "board_id"@,
    }
}

/// Where an upload is meant to go.
#[derive(Debug, PartialEq, Eq)]
pub struct UploadScope {
    pub kind: ScopeKind,
    pub id: Option<String>,
}

/// Whether a scope is what a JSON object says.
pub open spec fn says_scope(scope: Json, s: UploadScope) -> bool {
    &&& scope_kind(scope.text_or("type"@, Seq::empty())) == Some(s.kind)
    &&& match s.id {
        Some(id) => scope.member_text(scope_key(s.kind)) == Some(id@),
        None => scope.member_text(scope_key(s.kind)) is None,
    }
}

/// Reads the text that says where an upload is meant to go.
pub fn read_scope_text(text: &str) -> (r: Result<Json, String>)
    ensures
        match r {
            Ok(scope) => json::parsed_json(text@) == Some(scope),
            Err(e) => json::parsed_json(text@) is None && e@ == "Invalid scope JSON: "@
                + json::json_error(text@),
        },
{
    match json::parse_json(text) {
        Some(scope) => Ok(scope),
        None => {
            let mut e = "Invalid scope JSON: ".to_owned();
            e.append(json::json_error_message(text).as_str());
            Err(e)
        },
    }
}

/// Reads where an upload is meant to go.
pub fn upload_scope(scope: &Json) -> (r: Result<UploadScope, UploadError>)
    ensures
        match r {
            Ok(s) => says_scope(*scope, s),
            Err(e) => e == UploadError::UnknownScope && scope_kind(
                scope.text_or("type"@, Seq::empty()),
            ) is None,
        },
{
    proof {
        reveal_strlit("");
        assert(""@ =~= Seq::empty());
    }
    let name = scope.get_text("type", "");
    match read_scope_kind(name.as_str()) {
        None => Err(UploadError::UnknownScope),
        Some(kind) => {
            let id = match kind {
                ScopeKind::Group => scope.get_opt_text("group_id"),
                ScopeKind::Workspace => scope.get_opt_text("workspace_id"),
                ScopeKind::Board => scope.get_opt_text("board_id"),
            };
            Ok(UploadScope { kind, id })
        },
    }
}

/// The group, workspace and board that a file belongs to.
#[derive(Debug, PartialEq, Eq)]
pub struct FilePlace {
    pub group_id: Option<String>,
    pub workspace_id: Option<String>,
    pub board_id: Option<String>,
}

/// The place of a scope. `group` is the group that was found of a workspace; `home` is the
/// workspace and group that were found of a board.
pub open spec fn place_of(
    scope: UploadScope,
    group: Option<String>,
    home: Option<(String, String)>,
) -> FilePlace {
    match scope.kind {
        ScopeKind::Group => FilePlace { group_id: scope.id, workspace_id: None, board_id: None },
        ScopeKind::Workspace => FilePlace {
            group_id: if scope.id is Some {
                group
            } else {
                None
            },
            workspace_id: scope.id,
            board_id: None,
        },
        ScopeKind::Board => match (scope.id, home) {
            (Some(id), Some((workspace_id, group_id))) => FilePlace {
                group_id: Some(group_id),
                workspace_id: Some(workspace_id),
                board_id: Some(id),
            },
            (id, _) => FilePlace { group_id: None, workspace_id: None, board_id: id },
        },
    }
}

/// Works out the place of a scope from what was looked up for it.
pub fn resolve_place(scope: UploadScope, group: Option<String>, home: Option<(String, String)>) -> (r:
    FilePlace)
    ensures
        r == place_of(scope, group, home),
{
    match scope.kind {
        ScopeKind::Group => FilePlace { group_id: scope.id, workspace_id: None, board_id: None },
        ScopeKind::Workspace => FilePlace {
            group_id: if scope.id.is_some() {
                group
            } else {
                None
            },
            workspace_id: scope.id,
            board_id: None,
        },
        ScopeKind::Board => match (scope.id, home) {
            (Some(id), Some((workspace_id, group_id))) => FilePlace {
                group_id: Some(group_id),
                workspace_id: Some(workspace_id),
                board_id: Some(id),
            },
            (id, _) => FilePlace { group_id: None, workspace_id: None, board_id: id },
        },
    }
}

/// An upload that is accepted.
pub struct FileUpload {
    pub file_id: String,
    pub hash: String,
    pub size: u64,
    pub name: String,
    pub statement: Statement,
    pub broadcast: NetworkCommand,
}

/// The name that a stored file has: a path without one that is text gives `file`.
pub open spec fn upload_name(file_name: Option<String>) -> Seq<char> {
    match file_name {
        Some(n) => n@,
        None => "file"@,
    }
}

/// Whether an upload is what becomes of a file in a place of a group.
pub open spec fn uploads(
    place: FilePlace,
    file_name: Option<String>,
    bytes: Seq<u8>,
    node_id: String,
    local_path: String,
    now: i64,
    u: FileUpload,
) -> bool {
    &&& u.name@ == upload_name(file_name)
    &&& u.hash@ == hash::content_id(bytes)
    &&& u.size == bytes.len() as u64
    &&& u.file_id@ == ids::named_file_id(place.group_id->0@, u.name@, now as int)
    &&& u.statement == Statement::InsertFile(
        FileRecord {
            id: u.file_id,
            group_id: place.group_id,
            workspace_id: place.workspace_id,
            board_id: place.board_id,
            name: u.name,
            hash: u.hash,
            size: u.size as i64,
            source_peer: node_id,
            local_path: Some(local_path),
            created_at: now,
        },
        OnConflict::Replace,
    )
    &&& u.broadcast == (NetworkCommand::Broadcast {
        group_id: place.group_id->0,
        event: NetworkEvent::FileAvailable {
            id: u.file_id,
            group_id: place.group_id,
            workspace_id: place.workspace_id,
            board_id: place.board_id,
            name: u.name,
            hash: u.hash,
            size: u.size,
            source_peer: node_id,
            created_at: now,
        },
    })
}

/// Records a file that was stored at `local_path`; a file whose group is not known is refused.
pub fn record_upload(
    place: FilePlace,
    file_name: Option<String>,
    bytes: &Vec<u8>,
    node_id: &String,
    local_path: String,
    now: i64,
) -> (r: Result<FileUpload, UploadError>)
    ensures
        match r {
            Ok(u) => place.group_id is Some && uploads(
                place,
                file_name,
                bytes@,
                *node_id,
                local_path,
                now,
                u,
            ),
            Err(e) => e == UploadError::NoGroup && place.group_id is None,
        },
{
    match place.group_id {
        None => Err(UploadError::NoGroup),
        Some(group_id) => {
            let name = match file_name {
                Some(n) => n,
                None => "file".to_owned(),
            };
            let hash = hash::hash_bytes(bytes.as_slice());
            let size: u64 = bytes.len() as u64;
            let file_id = ids::new_named_file_id(group_id.as_str(), name.as_str(), now);
            let statement = Statement::InsertFile(
                FileRecord {
                    id: file_id.clone(),
                    group_id: Some(group_id.clone()),
                    workspace_id: place.workspace_id.clone(),
                    board_id: place.board_id.clone(),
                    name: name.clone(),
                    hash: hash.clone(),
                    #[verifier::truncate]
                    size: size as i64,
                    source_peer: node_id.clone(),
                    local_path: Some(local_path),
                    created_at: now,
                },
                OnConflict::Replace,
            );
            let broadcast = NetworkCommand::Broadcast {
                group_id: group_id.clone(),
                event: NetworkEvent::FileAvailable {
                    id: file_id.clone(),
                    group_id: Some(group_id),
                    workspace_id: place.workspace_id,
                    board_id: place.board_id,
                    name: name.clone(),
                    hash: hash.clone(),
                    size,
                    source_peer: node_id.clone(),
                    created_at: now,
                },
            };
            Ok(FileUpload { file_id, hash, size, name, statement, broadcast })
        },
    }
}

/// What a request for a file leads to.
#[derive(Debug)]
pub enum FileRequest {
    /// No such file is known.
    Unknown,
    /// The file is already here.
    Here,
    /// The file has to be fetched.
    Fetch(NetworkCommand),
}

/// Decides a request for a file. `info` is the hash and the source of the file; `is_local` says
/// whether its content is on disk.
pub fn request_file(file_id: String, info: Option<(String, String)>, is_local: bool) -> (r: FileRequest)
    ensures
        r == match info {
            None => FileRequest::Unknown,
            Some((hash, source_peer)) => if is_local {
                FileRequest::Here
            } else {
                FileRequest::Fetch(
                    NetworkCommand::RequestFileDownload { file_id, hash, source_peer },
                )
            },
        },
{
    match info {
        None => FileRequest::Unknown,
        Some((hash, source_peer)) => if is_local {
            FileRequest::Here
        } else {
            FileRequest::Fetch(NetworkCommand::RequestFileDownload { file_id, hash, source_peer })
        },
    }
}

/// What a request for a file leads to where part of it may be here.
#[derive(Debug)]
pub enum TransferRequest {
    /// No such file is known.
    Unknown,
    /// The file is already here.
    Here,
    /// The file, or the rest of it, has to be fetched.
    Fetch(network_actor::NetworkCommand),
}

/// The place in a file from which a transfer goes on: behind the bytes that an unfinished one
/// recorded, or at the start.
pub open spec fn resume_offset(received: Option<i64>) -> u64 {
    match received {
        Some(n) => n as u64,
        None => 0,
    }
}

/// Decides a request for a file that may be here in part. `info` is the hash and the source of
/// the file; `is_local` says whether its content is on disk; `received` is the number of bytes
/// that an unfinished transfer recorded.
pub fn request_transfer(
    file_id: String,
    info: Option<(String, String)>,
    is_local: bool,
    received: Option<i64>,
) -> (r: TransferRequest)
    ensures
        r == match info {
            None => TransferRequest::Unknown,
            Some((hash, source_peer)) => if is_local {
                TransferRequest::Here
            } else {
                TransferRequest::Fetch(
                    network_actor::NetworkCommand::RequestFileDownload {
                        file_id,
                        hash,
                        source_peer,
                        resume_offset: resume_offset(received),
                    },
                )
            },
        },
{
    match info {
        None => TransferRequest::Unknown,
        Some((hash, source_peer)) => if is_local {
            TransferRequest::Here
        } else {
            let resume_offset: u64 = match received {
                Some(n) => n as u64,
                None => 0,
            };
            TransferRequest::Fetch(
                network_actor::NetworkCommand::RequestFileDownload {
                    file_id,
                    hash,
                    source_peer,
                    resume_offset,
                },
            )
        },
    }
}

/// Where a file is.
#[derive(Debug, PartialEq, Eq)]
pub enum FileStatus {
    Local { local_path: String },
    Remote,
}

/// Where a file is: here only if a path is recorded and something is there.
pub fn file_status(local_path: Option<String>, on_disk: bool) -> (r: FileStatus)
    ensures
        r == if local_path is Some && on_disk {
            FileStatus::Local { local_path: local_path->0 }
        } else {
            FileStatus::Remote
        },
{
    match local_path {
        Some(local_path) => if on_disk {
            FileStatus::Local { local_path }
        } else {
            FileStatus::Remote
        },
        None => FileStatus::Remote,
    }
}

/// Which files a query is about.
#[derive(Debug, PartialEq, Eq)]
pub struct FileQuery {
    pub kind: ScopeKind,
    pub id: String,
}

/// The identifier that a query names: the first of its members that may hold one.
pub open spec fn query_id(scope: Json) -> Seq<char> {
    scope.text_or(
        "id"@,
        scope.text_or(
            "group_id"@,
            scope.text_or("workspace_id"@, scope.text_or("board_id"@, Seq::empty())),
        ),
    )
}

/// Reads which files a query is about; one of an unknown kind finds nothing.
pub fn file_query(scope: &Json) -> (r: Option<FileQuery>)
    ensures
        match r {
            Some(q) => scope_kind(scope.text_or("type"@, Seq::empty())) == Some(q.kind) && q.id@
                == query_id(*scope),
            None => scope_kind(scope.text_or("type"@, Seq::empty())) is None,
        },
{
    proof {
        reveal_strlit("");
        assert(""@ =~= Seq::empty());
    }
    let name = scope.get_text("type", "");
    match read_scope_kind(name.as_str()) {
        None => None,
        Some(kind) => {
            let board = scope.get_text("board_id", "");
            let workspace = scope.get_text("workspace_id", board.as_str());
            let group = scope.get_text("group_id", workspace.as_str());
            Some(FileQuery { kind, id: scope.get_text("id", group.as_str()) })
        },
    }
}

/// Reads a query from a JSON text; what is not JSON finds nothing.
pub fn parse_file_query(text: &str) -> (r: Option<FileQuery>)
    ensures
        match json::parsed_json(text@) {
            None => r is None,
            Some(scope) => match r {
                Some(q) => scope_kind(scope.text_or("type"@, Seq::empty())) == Some(q.kind) && q.id@
                    == query_id(scope),
                None => scope_kind(scope.text_or("type"@, Seq::empty())) is None,
            },
        },
{
    match json::parse_json(text) {
        Some(scope) => file_query(&scope),
        None => None,
    }
}

} // verus!
