//! The local tables and the statements that change them.
//!
//! A `Statement` is what the storage layer is asked to execute. `Statement::apply` says what a
//! statement that the database accepts does to the tables; one that it refuses changes nothing.

use crate::model::{Group, Real, Workspace};
use vstd::prelude::*;
use vstd::string::*;
use vstd::utf8::*;

verus! {

/// What an insertion does where a row with its key is already there.
#[derive(Clone, Copy, Debug, PartialEq, Eq, Structural)]
pub enum OnConflict {
    /// The insertion is refused.
    Abort,
    /// The row that is there stays.
    Ignore,
    /// The new row takes its place.
    Replace,
}

/// A board as it is stored.
#[derive(Debug, PartialEq, Eq)]
pub struct BoardRecord {
    pub id: String,
    pub workspace_id: String,
    pub name: String,
    pub created_at: i64,
}

/// A file as it is stored; the size column is signed.
#[derive(Debug, PartialEq, Eq)]
pub struct FileRecord {
    pub id: String,
    pub group_id: Option<String>,
    pub workspace_id: Option<String>,
    pub board_id: Option<String>,
    pub name: String,
    pub hash: String,
    pub size: i64,
    pub source_peer: String,
    pub local_path: Option<String>,
    pub created_at: i64,
}

/// A chat message as it is stored: the message in the name column, the author in the hash column
/// and the bytes of the parent's id in the data column.
#[derive(Debug, PartialEq, Eq)]
pub struct ChatRecord {
    pub id: String,
    pub workspace_id: String,
    pub message: String,
    pub author: String,
    pub parent_id: Option<String>,
    pub timestamp: i64,
}

/// An element of a whiteboard as it is stored.
#[derive(Debug, PartialEq, Eq)]
pub struct ElementRecord {
    pub id: String,
    pub board_id: String,
    pub element_type: String,
    pub x: Real,
    pub y: Real,
    pub width: Real,
    pub height: Real,
    pub z_index: i32,
    pub style_json: Option<String>,
    pub content_json: Option<String>,
    pub created_at: i64,
    pub updated_at: i64,
}

/// A cell of a notebook as it is stored.
#[derive(Debug, PartialEq, Eq)]
pub struct CellRecord {
    pub id: String,
    pub board_id: String,
    pub cell_type: String,
    pub cell_order: i32,
    pub content: Option<String>,
    pub output: Option<String>,
    pub collapsed: bool,
    pub height: Option<Real>,
    pub metadata_json: Option<String>,
    pub created_at: i64,
    pub updated_at: i64,
}

/// A direct message as it is stored.
#[derive(Debug, PartialEq, Eq)]
pub struct MessageRecord {
    pub id: String,
    pub peer_id: String,
    pub workspace_id: String,
    pub message: String,
    pub parent_id: Option<String>,
    pub is_outgoing: bool,
    pub timestamp: i64,
}

/// One change to the local tables.
#[derive(Debug, PartialEq, Eq)]
pub enum Statement {
    InsertGroup(Group, OnConflict),
    RenameGroup { id: String, name: String },
    DeleteObjectsOfGroup { group_id: String },
    DeleteWorkspacesOfGroup { group_id: String },
    DeleteGroup { id: String },
    InsertWorkspace(Workspace, OnConflict),
    RenameWorkspace { id: String, name: String },
    DeleteObjectsOfWorkspace { workspace_id: String },
    DeleteWorkspace { id: String },
    InsertBoard(BoardRecord, OnConflict),
    RenameBoard { id: String, name: String },
    DeleteBoard { id: String },
    SetBoardMode { board_id: String, mode: String },
    InsertFile(FileRecord, OnConflict),
    InsertChat(ChatRecord, OnConflict),
    DeleteChat { id: String },
    InsertElement(ElementRecord, OnConflict),
    /// Changes every column of the element but its creation time and its cell.
    UpdateElement {
        id: String,
        board_id: String,
        element_type: String,
        x: Real,
        y: Real,
        width: Real,
        height: Real,
        z_index: i32,
        style_json: Option<String>,
        content_json: Option<String>,
        updated_at: i64,
    },
    DeleteElement { id: String },
    ClearElements { board_id: String },
    /// Takes every element out of a cell.
    DetachElements { cell_id: String },
    InsertCell(CellRecord, OnConflict),
    /// Changes every column of the cell but its board and its creation time.
    UpdateCell {
        id: String,
        cell_type: String,
        cell_order: i32,
        content: Option<String>,
        output: Option<String>,
        collapsed: bool,
        height: Option<Real>,
        metadata_json: Option<String>,
        updated_at: i64,
    },
    DeleteCell { id: String },
    /// Gives a cell of a board its place.
    PlaceCell { id: String, board_id: String, cell_order: i32, updated_at: i64 },
    /// Sets what peers synchronise of a board's metadata, adding the row where there is none.
    SetMetadata {
        board_id: String,
        labels: String,
        rating: i32,
        contains_model: Option<String>,
        contains_skills: String,
    },
    /// Sets the labels, adding the row where there is none.
    SetLabels { board_id: String, labels: String },
    /// Sets the labels of a row that is there.
    UpdateLabels { board_id: String, labels: String },
    SetRating { board_id: String, rating: i32 },
    /// Counts one more view.
    CountView { board_id: String, now: i64 },
    SetModel { board_id: String, model: Option<String> },
    SetSkills { board_id: String, skills: String },
    PinBoard { board_id: String },
    UnpinBoard { board_id: String },
    ReplaceMetadata {
        board_id: String,
        labels: String,
        rating: i32,
        view_count: i32,
        contains_model: Option<String>,
        contains_skills: String,
        board_type: String,
        last_accessed: i64,
    },
    /// Sets a profile and marks it online; without an avatar the one that is there stays.
    SetProfile { node_id: String, display_name: String, avatar_hash: Option<String>, now: i64 },
    SetPeerStatus { node_id: String, status: String, now: i64 },
    InsertMessage(MessageRecord, OnConflict),
}

/// What an object row stands for.
pub enum ObjectKind {
    Whiteboard,
    File,
    Chat,
}

/// A row of the object table, which holds boards, files and chat messages.
pub struct ObjectRow {
    pub kind: ObjectKind,
    pub group_id: Option<Seq<char>>,
    pub workspace_id: Option<Seq<char>>,
    pub board_id: Option<Seq<char>>,
    pub name: String,
    pub hash: Option<String>,
    pub size: Option<i64>,
    pub source_peer: Option<String>,
    pub local_path: Option<String>,
    pub data: Option<Seq<u8>>,
    pub created_at: i64,
    /// Nothing where the row was written before boards had modes.
    pub board_mode: Option<Seq<char>>,
}

/// A row of the element table.
pub struct ElementRow {
    pub element: ElementRecord,
    pub cell_id: Option<Seq<char>>,
}

/// A row of the metadata table; labels and skills are JSON lists.
pub struct MetadataRow {
    pub labels: Seq<char>,
    pub rating: i32,
    pub view_count: int,
    pub contains_model: Option<String>,
    pub contains_skills: Seq<char>,
    pub board_type: Seq<char>,
    pub last_accessed: i64,
    pub is_pinned: bool,
}

/// A row of the profile table.
pub struct ProfileRow {
    pub display_name: Option<String>,
    pub avatar_hash: Option<String>,
    pub status: Seq<char>,
    pub last_seen: Option<i64>,
    pub updated_at: i64,
}

/// The local tables, each by its key.
#[verifier::ext_equal]
pub struct Tables {
    pub groups: Map<Seq<char>, Group>,
    pub workspaces: Map<Seq<char>, Workspace>,
    pub objects: Map<Seq<char>, ObjectRow>,
    pub elements: Map<Seq<char>, ElementRow>,
    pub cells: Map<Seq<char>, CellRecord>,
    pub metadata: Map<Seq<char>, MetadataRow>,
    pub profiles: Map<Seq<char>, ProfileRow>,
    pub messages: Map<Seq<char>, MessageRecord>,
}

/// A table after an insertion.
pub open spec fn put<R>(table: Map<Seq<char>, R>, key: Seq<char>, row: R, how: OnConflict) -> Map<
    Seq<char>,
    R,
> {
    if table.dom().contains(key) && how != OnConflict::Replace {
        table
    } else {
        table.insert(key, row)
    }
}

/// A table after the row under a key, if it is there, was changed.
pub open spec fn change<R>(table: Map<Seq<char>, R>, key: Seq<char>, f: spec_fn(R) -> R) -> Map<
    Seq<char>,
    R,
> {
    if table.dom().contains(key) {
        table.insert(key, f(table[key]))
    } else {
        table
    }
}

/// A table without the rows that a condition picks.
pub open spec fn without<R>(table: Map<Seq<char>, R>, picked: spec_fn(R) -> bool) -> Map<
    Seq<char>,
    R,
> {
    table.restrict(table.dom().filter(|k: Seq<char>| !picked(table[k])))
}

/// The keys of the object rows that a condition picks.
pub open spec fn objects_where(t: Tables, picked: spec_fn(Seq<char>, ObjectRow) -> bool) -> Set<
    Seq<char>,
> {
    t.objects.dom().filter(|k: Seq<char>| picked(k, t.objects[k]))
}

/// The tables after object rows were deleted: the cells and the metadata of a board go with it.
pub open spec fn drop_objects(t: Tables, gone: Set<Seq<char>>) -> Tables {
    Tables {
        objects: t.objects.remove_keys(gone),
        cells: without(t.cells, |c: CellRecord| gone.contains(c.board_id@)),
        metadata: t.metadata.remove_keys(gone),
        ..t
    }
}

/// The tables after an object row was inserted. A row whose place it takes is deleted first.
pub open spec fn put_object(t: Tables, key: Seq<char>, row: ObjectRow, how: OnConflict) -> Tables {
    if !t.objects.dom().contains(key) {
        Tables { objects: t.objects.insert(key, row), ..t }
    } else if how == OnConflict::Replace {
        let rest = drop_objects(t, set![key]);
        Tables { objects: rest.objects.insert(key, row), ..rest }
    } else {
        t
    }
}

/// The characters of an optional text.
pub open spec fn opt_text(s: Option<String>) -> Option<Seq<char>> {
    match s {
        Some(s) => Some(s@),
        None => None,
    }
}

/// The row of a new board.
pub open spec fn board_row(b: BoardRecord) -> ObjectRow {
    ObjectRow {
        kind: ObjectKind::Whiteboard,
        group_id: None,
        workspace_id: Some(b.workspace_id@),
        board_id: None,
        name: b.name,
        hash: None,
        size: None,
        source_peer: None,
        local_path: None,
        data: None,
        created_at: b.created_at,
        board_mode: Some("canvas"@),
    }
}

/// The row of a new file.
pub open spec fn file_row(f: FileRecord) -> ObjectRow {
    ObjectRow {
        kind: ObjectKind::File,
        group_id: opt_text(f.group_id),
        workspace_id: opt_text(f.workspace_id),
        board_id: opt_text(f.board_id),
        name: f.name,
        hash: Some(f.hash),
        size: Some(f.size),
        source_peer: Some(f.source_peer),
        local_path: f.local_path,
        data: None,
        created_at: f.created_at,
        board_mode: Some("canvas"@),
    }
}

/// The row of a new chat message.
pub open spec fn chat_row(c: ChatRecord) -> ObjectRow {
    ObjectRow {
        kind: ObjectKind::Chat,
        group_id: None,
        workspace_id: Some(c.workspace_id@),
        board_id: None,
        name: c.message,
        hash: Some(c.author),
        size: None,
        source_peer: None,
        local_path: None,
        data: match c.parent_id {
            Some(p) => Some(encode_utf8(p@)),
            None => None,
        },
        created_at: c.timestamp,
        board_mode: Some("canvas"@),
    }
}

/// The metadata of a board that has none yet.
pub open spec fn blank_metadata() -> MetadataRow {
    MetadataRow {
        labels: "[]"@,
        rating: 0,
        view_count: 0,
        contains_model: None,
        contains_skills: "[]"@,
        board_type: "canvas"@,
        last_accessed: 0,
        is_pinned: false,
    }
}

/// The metadata of a board, blank where there is none.
pub open spec fn metadata_of(table: Map<Seq<char>, MetadataRow>, board_id: Seq<char>) -> MetadataRow {
    if table.dom().contains(board_id) {
        table[board_id]
    } else {
        blank_metadata()
    }
}

impl Statement {
    /// The tables after the statement, on a database that accepts it.
    pub open spec fn apply(self, t: Tables) -> Tables {
        match self {
            Statement::InsertGroup(g, how) => Tables { groups: put(t.groups, g.id@, g, how), ..t },
            Statement::RenameGroup { id, name } => Tables {
                groups: change(t.groups, id@, |g: Group| Group { name, ..g }),
                ..t
            },
            Statement::DeleteObjectsOfGroup { group_id } => drop_objects(
                t,
                objects_where(t, |k: Seq<char>, o: ObjectRow| o.group_id == Some(group_id@)),
            ),
            Statement::DeleteWorkspacesOfGroup { group_id } => Tables {
                workspaces: without(t.workspaces, |w: Workspace| w.group_id@ == group_id@),
                ..t
            },
            Statement::DeleteGroup { id } => Tables { groups: t.groups.remove(id@), ..t },
            Statement::InsertWorkspace(w, how) => Tables {
                workspaces: put(t.workspaces, w.id@, w, how),
                ..t
            },
            Statement::RenameWorkspace { id, name } => Tables {
                workspaces: change(t.workspaces, id@, |w: Workspace| Workspace { name, ..w }),
                ..t
            },
            Statement::DeleteObjectsOfWorkspace { workspace_id } => drop_objects(
                t,
                objects_where(
                    t,
                    |k: Seq<char>, o: ObjectRow| o.workspace_id == Some(workspace_id@),
                ),
            ),
            Statement::DeleteWorkspace { id } => Tables {
                workspaces: t.workspaces.remove(id@),
                ..t
            },
            Statement::InsertBoard(b, how) => put_object(t, b.id@, board_row(b), how),
            Statement::RenameBoard { id, name } => Tables {
                objects: change(
                    t.objects,
                    id@,
                    |o: ObjectRow|
                        if o.kind is Whiteboard {
                            ObjectRow { name, ..o }
                        } else {
                            o
                        },
                ),
                ..t
            },
            Statement::DeleteBoard { id } => drop_objects(
                t,
                objects_where(t, |k: Seq<char>, o: ObjectRow| k == id@ && o.kind is Whiteboard),
            ),
            Statement::SetBoardMode { board_id, mode } => Tables {
                objects: change(
                    t.objects,
                    board_id@,
                    |o: ObjectRow| ObjectRow { board_mode: Some(mode@), ..o },
                ),
                ..t
            },
            Statement::InsertFile(f, how) => put_object(t, f.id@, file_row(f), how),
            Statement::InsertChat(c, how) => put_object(t, c.id@, chat_row(c), how),
            Statement::DeleteChat { id } => drop_objects(
                t,
                objects_where(t, |k: Seq<char>, o: ObjectRow| k == id@ && o.kind is Chat),
            ),
            Statement::InsertElement(e, how) => Tables {
                elements: put(t.elements, e.id@, ElementRow { element: e, cell_id: None }, how),
                ..t
            },
            Statement::UpdateElement {
                id,
                board_id,
                element_type,
                x,
                y,
                width,
                height,
                z_index,
                style_json,
                content_json,
                updated_at,
            } => Tables {
                elements: change(
                    t.elements,
                    id@,
                    |r: ElementRow|
                        ElementRow {
                            element: ElementRecord {
                                id: r.element.id,
                                board_id,
                                element_type,
                                x,
                                y,
                                width,
                                height,
                                z_index,
                                style_json,
                                content_json,
                                created_at: r.element.created_at,
                                updated_at,
                            },
                            ..r
                        },
                ),
                ..t
            },
            Statement::DeleteElement { id } => Tables { elements: t.elements.remove(id@), ..t },
            Statement::ClearElements { board_id } => Tables {
                elements: without(t.elements, |r: ElementRow| r.element.board_id@ == board_id@),
                ..t
            },
            Statement::DetachElements { cell_id } => Tables {
                elements: t.elements.map_values(
                    |r: ElementRow|
                        if r.cell_id == Some(cell_id@) {
                            ElementRow { cell_id: None, ..r }
                        } else {
                            r
                        },
                ),
                ..t
            },
            Statement::InsertCell(c, how) => Tables { cells: put(t.cells, c.id@, c, how), ..t },
            Statement::UpdateCell {
                id,
                cell_type,
                cell_order,
                content,
                output,
                collapsed,
                height,
                metadata_json,
                updated_at,
            } => Tables {
                cells: change(
                    t.cells,
                    id@,
                    |c: CellRecord|
                        CellRecord {
                            id: c.id,
                            board_id: c.board_id,
                            cell_type,
                            cell_order,
                            content,
                            output,
                            collapsed,
                            height,
                            metadata_json,
                            created_at: c.created_at,
                            updated_at,
                        },
                ),
                ..t
            },
            Statement::DeleteCell { id } => Tables { cells: t.cells.remove(id@), ..t },
            Statement::PlaceCell { id, board_id, cell_order, updated_at } => Tables {
                cells: change(
                    t.cells,
                    id@,
                    |c: CellRecord|
                        if c.board_id@ == board_id@ {
                            CellRecord { cell_order, updated_at, ..c }
                        } else {
                            c
                        },
                ),
                ..t
            },
            Statement::SetMetadata { board_id, labels, rating, contains_model, contains_skills } =>
            Tables {
                metadata: t.metadata.insert(
                    board_id@,
                    MetadataRow {
                        labels: labels@,
                        rating,
                        contains_model,
                        contains_skills: contains_skills@,
                        ..metadata_of(t.metadata, board_id@)
                    },
                ),
                ..t
            },
            Statement::SetLabels { board_id, labels } => Tables {
                metadata: t.metadata.insert(
                    board_id@,
                    MetadataRow { labels: labels@, ..metadata_of(t.metadata, board_id@) },
                ),
                ..t
            },
            Statement::UpdateLabels { board_id, labels } => Tables {
                metadata: change(
                    t.metadata,
                    board_id@,
                    |m: MetadataRow| MetadataRow { labels: labels@, ..m },
                ),
                ..t
            },
            Statement::SetRating { board_id, rating } => Tables {
                metadata: t.metadata.insert(
                    board_id@,
                    MetadataRow { rating, ..metadata_of(t.metadata, board_id@) },
                ),
                ..t
            },
            Statement::CountView { board_id, now } => Tables {
                metadata: t.metadata.insert(
                    board_id@,
                    MetadataRow {
                        view_count: metadata_of(t.metadata, board_id@).view_count + 1,
                        last_accessed: now,
                        ..metadata_of(t.metadata, board_id@)
                    },
                ),
                ..t
            },
            Statement::SetModel { board_id, model } => Tables {
                metadata: t.metadata.insert(
                    board_id@,
                    MetadataRow { contains_model: model, ..metadata_of(t.metadata, board_id@) },
                ),
                ..t
            },
            Statement::SetSkills { board_id, skills } => Tables {
                metadata: t.metadata.insert(
                    board_id@,
                    MetadataRow { contains_skills: skills@, ..metadata_of(t.metadata, board_id@) },
                ),
                ..t
            },
            Statement::PinBoard { board_id } => Tables {
                metadata: t.metadata.insert(
                    board_id@,
                    MetadataRow { is_pinned: true, ..metadata_of(t.metadata, board_id@) },
                ),
                ..t
            },
            Statement::UnpinBoard { board_id } => Tables {
                metadata: change(
                    t.metadata,
                    board_id@,
                    |m: MetadataRow| MetadataRow { is_pinned: false, ..m },
                ),
                ..t
            },
            Statement::ReplaceMetadata {
                board_id,
                labels,
                rating,
                view_count,
                contains_model,
                contains_skills,
                board_type,
                last_accessed,
            } => Tables {
                metadata: t.metadata.insert(
                    board_id@,
                    MetadataRow {
                        labels: labels@,
                        rating,
                        view_count: view_count as int,
                        contains_model,
                        contains_skills: contains_skills@,
                        board_type: board_type@,
                        last_accessed,
                        is_pinned: false,
                    },
                ),
                ..t
            },
            Statement::SetProfile { node_id, display_name, avatar_hash, now } => Tables {
                profiles: t.profiles.insert(
                    node_id@,
                    ProfileRow {
                        display_name: Some(display_name),
                        avatar_hash: if avatar_hash is None && t.profiles.dom().contains(node_id@) {
                            t.profiles[node_id@].avatar_hash
                        } else {
                            avatar_hash
                        },
                        status: "online"@,
                        last_seen: if t.profiles.dom().contains(node_id@) {
                            t.profiles[node_id@].last_seen
                        } else {
                            None
                        },
                        updated_at: now,
                    },
                ),
                ..t
            },
            Statement::SetPeerStatus { node_id, status, now } => Tables {
                profiles: t.profiles.insert(
                    node_id@,
                    if t.profiles.dom().contains(node_id@) {
                        ProfileRow {
                            status: status@,
                            last_seen: Some(now),
                            updated_at: now,
                            ..t.profiles[node_id@]
                        }
                    } else {
                        ProfileRow {
                            display_name: None,
                            avatar_hash: None,
                            status: status@,
                            last_seen: Some(now),
                            updated_at: now,
                        }
                    },
                ),
                ..t
            },
            Statement::InsertMessage(m, how) => Tables {
                messages: put(t.messages, m.id@, m, how),
                ..t
            },
        }
    }
}

/// The tables after a list of statements, in order.
pub open spec fn apply_all(statements: Seq<Statement>, t: Tables) -> Tables
    decreases statements.len(),
{
    if statements.len() == 0 {
        t
    } else {
        statements.last().apply(apply_all(statements.drop_last(), t))
    }
}

} // verus!
