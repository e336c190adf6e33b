//! Snapshots of the tree of groups: how one is assembled, restored and seeded.

use crate::collections;
use crate::command;
use crate::command::ChatRow;
use crate::hash;
use crate::json;
use crate::json::Json;
use crate::model::{BoardMetadata, ChatDTO, FileDTO, Group, SwiftEvent, WhiteboardDTO, Workspace};
use crate::tables;
use crate::tables::{BoardRecord, ChatRecord, MetadataRow, OnConflict, Statement, Tables};
use vstd::prelude::*;
use vstd::string::*;
use vstd::utf8::*;

verus! {

/// An integration that is bound to a scope, in a snapshot.
pub struct IntegrationBindingDTO {
    pub id: String,
    pub scope_type: String,
    pub scope_id: String,
    pub integration_type: String,
    pub config: Json,
    pub created_at: i64,
}

/// The tree of one group or of all.
pub struct TreeSnapshotDTO {
    pub groups: Vec<Group>,
    pub workspaces: Vec<Workspace>,
    pub whiteboards: Vec<WhiteboardDTO>,
    pub files: Vec<FileDTO>,
    pub chats: Vec<ChatDTO>,
    pub integrations: Vec<IntegrationBindingDTO>,
    pub board_metadata: Vec<BoardMetadata>,
}

/// A file as it comes out of the object table.
pub struct FileRow {
    pub id: String,
    pub group_id: Option<String>,
    pub workspace_id: Option<String>,
    pub board_id: Option<String>,
    pub name: String,
    pub hash: String,
    pub size: i64,
    pub source_peer: Option<String>,
    pub local_path: Option<String>,
    pub created_at: i64,
}

/// An integration binding as it comes out of its table.
pub struct BindingRow {
    pub id: String,
    pub scope_type: String,
    pub scope_id: String,
    pub integration_type: String,
    pub config_json: String,
    pub created_at: i64,
}

/// Metadata of a board as it comes out of its table; labels and skills are JSON lists.
pub struct MetadataRead {
    pub board_id: String,
    pub labels: String,
    pub rating: i32,
    pub view_count: i32,
    pub contains_model: Option<String>,
    pub contains_skills: String,
    pub board_type: String,
    pub last_accessed: i64,
}

/// The file that a row holds.
pub open spec fn file_of_row(row: FileRow) -> FileDTO {
    FileDTO {
        id: row.id,
        group_id: row.group_id,
        workspace_id: row.workspace_id,
        board_id: row.board_id,
        name: row.name,
        hash: row.hash,
        size: row.size as u64,
        source_peer: row.source_peer,
        local_path: row.local_path,
        created_at: row.created_at,
    }
}

/// Reads a file.
pub fn read_file(row: &FileRow) -> (r: FileDTO)
    ensures
        r == file_of_row(*row),
{
    FileDTO {
        id: row.id.clone(),
        group_id: row.group_id.clone(),
        workspace_id: row.workspace_id.clone(),
        board_id: row.board_id.clone(),
        name: row.name.clone(),
        hash: row.hash.clone(),
        #[verifier::truncate]
        size: row.size as u64,
        source_peer: row.source_peer.clone(),
        local_path: row.local_path.clone(),
        created_at: row.created_at,
    }
}

/// Reads files, in order, after those that were read before.
fn read_files_into(files: &mut Vec<FileDTO>, rows: &Vec<FileRow>)
    ensures
        final(files)@ == old(files)@ + rows@.map_values(|row: FileRow| file_of_row(row)),
{
    let ghost before = files@;
    let mut i: usize = 0;
    assert(files@ =~= before + rows@.take(0).map_values(|row: FileRow| file_of_row(row)));
    while i < rows.len()
        invariant
            i <= rows@.len(),
            files@ == before + rows@.take(i as int).map_values(|row: FileRow| file_of_row(row)),
        decreases rows.len() - i,
    {
        files.push(read_file(&rows[i]));
        assert(rows@.take(i + 1) =~= rows@.take(i as int).push(rows@[i as int]));
        assert(files@ =~= before + rows@.take(i + 1).map_values(|row: FileRow| file_of_row(row)));
        i = i + 1;
    }
    assert(rows@.take(i as int) =~= rows@);
}

/// Whether a binding is what a row holds: a configuration that is not JSON counts as null.
pub open spec fn binding_of_row(row: BindingRow, b: IntegrationBindingDTO) -> bool {
    &&& b.id == row.id
    &&& b.scope_type == row.scope_type
    &&& b.scope_id == row.scope_id
    &&& b.integration_type == row.integration_type
    &&& b.config == match json::parsed_json(row.config_json@) {
        Some(config) => config,
        None => Json::Null,
    }
    &&& b.created_at == row.created_at
}

/// Reads an integration binding.
pub fn read_binding(row: &BindingRow) -> (r: IntegrationBindingDTO)
    ensures
        binding_of_row(*row, r),
{
    let config = match json::parse_json(row.config_json.as_str()) {
        Some(config) => config,
        None => Json::Null,
    };
    IntegrationBindingDTO {
        id: row.id.clone(),
        scope_type: row.scope_type.clone(),
        scope_id: row.scope_id.clone(),
        integration_type: row.integration_type.clone(),
        config,
        created_at: row.created_at,
    }
}

fn read_bindings(rows: &Vec<BindingRow>) -> (r: Vec<IntegrationBindingDTO>)
    ensures
        r@.len() == rows@.len(),
        forall|i: int| 0 <= i < rows@.len() ==> binding_of_row(#[trigger] rows@[i], r@[i]),
{
    let mut out: Vec<IntegrationBindingDTO> = Vec::new();
    let mut i: usize = 0;
    while i < rows.len()
        invariant
            i <= rows@.len(),
            out@.len() == i,
            forall|j: int| 0 <= j < i ==> binding_of_row(#[trigger] rows@[j], out@[j]),
        decreases rows.len() - i,
    {
        out.push(read_binding(&rows[i]));
        i = i + 1;
    }
    out
}

/// Whether metadata is what a row holds: a list that does not parse counts as empty.
pub open spec fn metadata_of_row(row: MetadataRead, m: BoardMetadata) -> bool {
    &&& m.board_id == row.board_id
    &&& collections::texts(m.labels@) == json::stored_list(row.labels@)
    &&& m.rating == row.rating
    &&& m.view_count == row.view_count
    &&& m.contains_model == row.contains_model
    &&& collections::texts(m.contains_skills@) == json::stored_list(row.contains_skills@)
    &&& m.board_type == row.board_type
    &&& m.last_accessed == row.last_accessed
}

/// Reads the metadata of a board.
pub fn read_metadata(row: &MetadataRead) -> (r: BoardMetadata)
    ensures
        metadata_of_row(*row, r),
{
    BoardMetadata {
        board_id: row.board_id.clone(),
        labels: json::read_stored_list(row.labels.as_str()),
        rating: row.rating,
        view_count: row.view_count,
        contains_model: row.contains_model.clone(),
        contains_skills: json::read_stored_list(row.contains_skills.as_str()),
        board_type: row.board_type.clone(),
        last_accessed: row.last_accessed,
    }
}

/// Reads the metadata of boards, in order.
pub fn read_all_metadata(rows: &Vec<MetadataRead>) -> (r: Vec<BoardMetadata>)
    ensures
        r@.len() == rows@.len(),
        forall|i: int| 0 <= i < rows@.len() ==> metadata_of_row(#[trigger] rows@[i], r@[i]),
{
    let mut out: Vec<BoardMetadata> = Vec::new();
    let mut i: usize = 0;
    while i < rows.len()
        invariant
            i <= rows@.len(),
            out@.len() == i,
            forall|j: int| 0 <= j < i ==> metadata_of_row(#[trigger] rows@[j], out@[j]),
        decreases rows.len() - i,
    {
        out.push(read_metadata(&rows[i]));
        i = i + 1;
    }
    out
}

/// The parameter marks of a query over a list of `n` values.
pub open spec fn marks(n: nat) -> Seq<char>
    decreases n,
{
    if n == 0 {
        Seq::empty()
    } else if n == 1 {
        "?"@
    } else {
        marks((n - 1) as nat) + ",?"@
    }
}

/// Writes `n` parameter marks with commas between them.
pub fn placeholders(n: usize) -> (r: String)
    ensures
        r@ == marks(n as nat),
{
    let mut s = String::new();
    let mut i: usize = 0;
    while i < n
        invariant
            i <= n,
            s@ == marks(i as nat),
        decreases n - i,
    {
        if i == 0 {
            s = "?".to_owned();
        } else {
            s.append(",?");
        }
        i = i + 1;
    }
    s
}

/// The workspaces to query boards, files and chats of: nothing is queried where there are none.
pub struct WorkspaceFilter {
    pub ids: Vec<String>,
    pub placeholders: String,
}

/// Collects the workspaces of a group for the queries that depend on them.
pub fn workspace_filter(workspaces: &Vec<Workspace>) -> (r: Option<WorkspaceFilter>)
    ensures
        match r {
            None => workspaces@.len() == 0,
            Some(f) => {
                &&& workspaces@.len() > 0
                &&& f.ids@ == workspaces@.map_values(|w: Workspace| w.id)
                &&& f.placeholders@ == marks(workspaces@.len())
            },
        },
{
    if workspaces.len() == 0 {
        return None;
    }
    let mut ids: Vec<String> = Vec::new();
    let mut i: usize = 0;
    while i < workspaces.len()
        invariant
            i <= workspaces@.len(),
            ids@ == workspaces@.take(i as int).map_values(|w: Workspace| w.id),
        decreases workspaces.len() - i,
    {
        ids.push(workspaces[i].id.clone());
        assert(workspaces@.take(i + 1) =~= workspaces@.take(i as int).push(workspaces@[i as int]));
        i = i + 1;
    }
    assert(workspaces@.take(i as int) =~= workspaces@);
    Some(WorkspaceFilter { ids, placeholders: placeholders(workspaces.len()) })
}

/// The rows that a snapshot is assembled from.
pub struct SnapshotRows {
    pub workspaces: Vec<Workspace>,
    pub whiteboards: Vec<WhiteboardDTO>,
    /// Files found by the group.
    pub group_files: Vec<FileRow>,
    /// Files found by the workspaces; one that belongs to both is found twice.
    pub workspace_files: Vec<FileRow>,
    pub chats: Vec<ChatRow>,
    pub integrations: Vec<BindingRow>,
    pub board_metadata: Vec<MetadataRead>,
}

/// Whether a tree is what the rows hold.
pub open spec fn tree_of(groups: Seq<Group>, rows: SnapshotRows, tree: TreeSnapshotDTO) -> bool {
    &&& tree.groups@ == groups
    &&& tree.workspaces@ == rows.workspaces@
    &&& tree.whiteboards@ == rows.whiteboards@
    &&& tree.files@ == rows.group_files@.map_values(|row: FileRow| file_of_row(row))
        + rows.workspace_files@.map_values(|row: FileRow| file_of_row(row))
    &&& tree.chats@.len() == rows.chats@.len()
    &&& forall|i: int|
        0 <= i < rows.chats@.len() ==> command::chat_of_row(#[trigger] rows.chats@[i], tree.chats@[i])
    &&& tree.integrations@.len() == rows.integrations@.len()
    &&& forall|i: int|
        0 <= i < rows.integrations@.len() ==> binding_of_row(
            #[trigger] rows.integrations@[i],
            tree.integrations@[i],
        )
    &&& tree.board_metadata@.len() == rows.board_metadata@.len()
    &&& forall|i: int|
        0 <= i < rows.board_metadata@.len() ==> metadata_of_row(
            #[trigger] rows.board_metadata@[i],
            tree.board_metadata@[i],
        )
}

/// Assembles a tree.
pub fn assemble(groups: Vec<Group>, rows: SnapshotRows) -> (r: TreeSnapshotDTO)
    ensures
        tree_of(groups@, rows, r),
{
    let mut files: Vec<FileDTO> = Vec::new();
    read_files_into(&mut files, &rows.group_files);
    read_files_into(&mut files, &rows.workspace_files);
    assert(files@ =~= rows.group_files@.map_values(|row: FileRow| file_of_row(row))
        + rows.workspace_files@.map_values(|row: FileRow| file_of_row(row)));
    TreeSnapshotDTO {
        groups,
        files,
        chats: command::read_chats(&rows.chats),
        integrations: read_bindings(&rows.integrations),
        board_metadata: read_all_metadata(&rows.board_metadata),
        workspaces: rows.workspaces,
        whiteboards: rows.whiteboards,
    }
}

/// The snapshot of one group; there is none of a group that is not in the tables.
pub fn build_group_snapshot(group: Option<Group>, rows: SnapshotRows) -> (r: Option<
    TreeSnapshotDTO,
>)
    ensures
        match group {
            Some(g) => r matches Some(tree) && tree_of(seq![g], rows, tree),
            None => r is None,
        },
{
    match group {
        None => None,
        Some(g) => {
            let mut groups: Vec<Group> = Vec::new();
            let ghost only = g;
            groups.push(g);
            assert(groups@ =~= seq![only]);
            Some(assemble(groups, rows))
        },
    }
}

/// What restoring a snapshot does.
pub struct Restore {
    pub statements: Vec<Statement>,
    /// Shown while the rows are written.
    pub syncing: SwiftEvent,
    /// Shown afterwards, before the new tree.
    pub complete: SwiftEvent,
}

/// The statement that restores a workspace.
pub open spec fn restore_workspace(w: Workspace) -> Statement {
    Statement::InsertWorkspace(w, OnConflict::Ignore)
}

/// The statement that restores a board.
pub open spec fn restore_board(b: WhiteboardDTO) -> Statement {
    Statement::InsertBoard(
        BoardRecord {
            id: b.id,
            workspace_id: b.workspace_id,
            name: b.name,
            created_at: b.created_at,
        },
        OnConflict::Ignore,
    )
}

/// The statement that restores a chat message.
pub open spec fn restore_chat(c: ChatDTO) -> Statement {
    Statement::InsertChat(
        ChatRecord {
            id: c.id,
            workspace_id: c.workspace_id,
            message: c.message,
            author: c.author,
            parent_id: c.parent_id,
            timestamp: c.timestamp,
        },
        OnConflict::Ignore,
    )
}

/// Whether a statement restores the metadata of a board.
pub open spec fn restores_metadata(m: BoardMetadata, s: Statement) -> bool {
    &&& s matches Statement::ReplaceMetadata {
        board_id,
        labels,
        rating,
        view_count,
        contains_model,
        contains_skills,
        board_type,
        last_accessed,
    }
    &&& board_id == m.board_id
    &&& labels@ == json::text_list_json(collections::texts(m.labels@))
    &&& json::stored_list(labels@) == collections::texts(m.labels@)
    &&& rating == m.rating
    &&& view_count == m.view_count
    &&& contains_model == m.contains_model
    &&& contains_skills@ == json::text_list_json(collections::texts(m.contains_skills@))
    &&& json::stored_list(contains_skills@) == collections::texts(m.contains_skills@)
    &&& board_type == m.board_type
    &&& last_accessed == m.last_accessed
}

/// How many statements restore everything but the metadata.
pub open spec fn content_len(tree: TreeSnapshotDTO) -> int {
    (1 + tree.workspaces@.len() + tree.whiteboards@.len() + tree.chats@.len()) as int
}

/// The statements that restore everything but the metadata: the first group, then workspaces,
/// boards and chat messages.
pub open spec fn content_statements(tree: TreeSnapshotDTO) -> Seq<Statement> {
    seq![Statement::InsertGroup(tree.groups@[0], OnConflict::Ignore)]
        + tree.workspaces@.map_values(|w: Workspace| restore_workspace(w))
        + tree.whiteboards@.map_values(|b: WhiteboardDTO| restore_board(b))
        + tree.chats@.map_values(|c: ChatDTO| restore_chat(c))
}

/// Whether statements restore a snapshot.
pub open spec fn restores(tree: TreeSnapshotDTO, statements: Seq<Statement>) -> bool {
    &&& statements.len() == content_len(tree) + tree.board_metadata@.len()
    &&& statements.take(content_len(tree)) == content_statements(tree)
    &&& forall|i: int|
        0 <= i < tree.board_metadata@.len() ==> restores_metadata(
            #[trigger] tree.board_metadata@[i],
            statements[content_len(tree) + i],
        )
}

/// Restores a snapshot that was received; one without a group is refused.
pub fn restore(tree: &TreeSnapshotDTO) -> (r: Option<Restore>)
    ensures
        r is Some <==> tree.groups@.len() > 0,
        r matches Some(plan) ==> {
            &&& restores(*tree, plan.statements@)
            &&& plan.syncing matches SwiftEvent::StatusUpdate { message } && message@
                == "Syncing group '"@ + tree.groups@[0].name@ + "'..."@
            &&& plan.complete matches SwiftEvent::StatusUpdate { message } && message@
                == "Sync complete"@
        },
{
    if tree.groups.len() == 0 {
        return None;
    }
    let group = &tree.groups[0];
    let mut message = "Syncing group '".to_owned();
    message.append(group.name.as_str());
    message.append("'...");
    let mut out: Vec<Statement> = Vec::new();
    out.push(Statement::InsertGroup(group.clone(), OnConflict::Ignore));
    let ghost start = seq![Statement::InsertGroup(tree.groups@[0], OnConflict::Ignore)];
    let ghost ws = tree.workspaces@.map_values(|w: Workspace| restore_workspace(w));
    let ghost bs = tree.whiteboards@.map_values(|b: WhiteboardDTO| restore_board(b));
    let ghost cs = tree.chats@.map_values(|c: ChatDTO| restore_chat(c));
    let mut i: usize = 0;
    assert(out@ =~= start + ws.take(0));
    while i < tree.workspaces.len()
        invariant
            i <= tree.workspaces@.len(),
            ws == tree.workspaces@.map_values(|w: Workspace| restore_workspace(w)),
            out@ == start + ws.take(i as int),
        decreases tree.workspaces.len() - i,
    {
        out.push(Statement::InsertWorkspace(tree.workspaces[i].clone(), OnConflict::Ignore));
        assert(out@ =~= start + ws.take(i + 1));
        i = i + 1;
    }
    assert(ws.take(i as int) =~= ws);
    i = 0;
    assert(out@ =~= start + ws + bs.take(0));
    while i < tree.whiteboards.len()
        invariant
            i <= tree.whiteboards@.len(),
            bs == tree.whiteboards@.map_values(|b: WhiteboardDTO| restore_board(b)),
            out@ == start + ws + bs.take(i as int),
        decreases tree.whiteboards.len() - i,
    {
        let b = &tree.whiteboards[i];
        out.push(
            Statement::InsertBoard(
                BoardRecord {
                    id: b.id.clone(),
                    workspace_id: b.workspace_id.clone(),
                    name: b.name.clone(),
                    created_at: b.created_at,
                },
                OnConflict::Ignore,
            ),
        );
        assert(out@ =~= start + ws + bs.take(i + 1));
        i = i + 1;
    }
    assert(bs.take(i as int) =~= bs);
    i = 0;
    assert(out@ =~= start + ws + bs + cs.take(0));
    while i < tree.chats.len()
        invariant
            i <= tree.chats@.len(),
            cs == tree.chats@.map_values(|c: ChatDTO| restore_chat(c)),
            out@ == start + ws + bs + cs.take(i as int),
        decreases tree.chats.len() - i,
    {
        let c = &tree.chats[i];
        out.push(
            Statement::InsertChat(
                ChatRecord {
                    id: c.id.clone(),
                    workspace_id: c.workspace_id.clone(),
                    message: c.message.clone(),
                    author: c.author.clone(),
                    parent_id: c.parent_id.clone(),
                    timestamp: c.timestamp,
                },
                OnConflict::Ignore,
            ),
        );
        assert(out@ =~= start + ws + bs + cs.take(i + 1));
        i = i + 1;
    }
    assert(cs.take(i as int) =~= cs);
    let ghost content = content_statements(*tree);
    let ghost n = content_len(*tree);
    assert(out@ =~= content);
    assert(out@.take(n) =~= content);
    i = 0;
    while i < tree.board_metadata.len()
        invariant
            i <= tree.board_metadata@.len(),
            n == content_len(*tree),
            n == content.len(),
            out@.len() == n + i,
            out@.take(n) == content,
            forall|j: int|
                0 <= j < i ==> restores_metadata(
                    #[trigger] tree.board_metadata@[j],
                    out@[n + j],
                ),
        decreases tree.board_metadata.len() - i,
    {
        let m = &tree.board_metadata[i];
        let ghost before = out@;
        out.push(
            Statement::ReplaceMetadata {
                board_id: m.board_id.clone(),
                labels: json::text_list_to_json(&m.labels),
                rating: m.rating,
                view_count: m.view_count,
                contains_model: m.contains_model.clone(),
                contains_skills: json::text_list_to_json(&m.contains_skills),
                board_type: m.board_type.clone(),
                last_accessed: m.last_accessed,
            },
        );
        assert(out@.take(n) =~= before.take(n));
        i = i + 1;
    }
    Some(
        Restore {
            statements: out,
            syncing: SwiftEvent::StatusUpdate { message },
            complete: SwiftEvent::StatusUpdate { message: "Sync complete".to_owned() },
        },
    )
}

/// Nothing that one state of the tables holds is missing or changed in another, metadata apart.
pub open spec fn keeps(before: Tables, after: Tables) -> bool {
    &&& before.groups.submap_of(after.groups)
    &&& before.workspaces.submap_of(after.workspaces)
    &&& before.objects.submap_of(after.objects)
    &&& before.elements == after.elements
    &&& before.cells == after.cells
    &&& before.profiles == after.profiles
    &&& before.messages == after.messages
    &&& forall|k: Seq<char>| before.metadata.dom().contains(k) ==> after.metadata.dom().contains(k)
}

/// Whether a statement only adds what is not there yet, metadata apart.
pub open spec fn adds_only(s: Statement) -> bool {
    match s {
        Statement::InsertGroup(_, how) => how == OnConflict::Ignore,
        Statement::InsertWorkspace(_, how) => how == OnConflict::Ignore,
        Statement::InsertBoard(_, how) => how == OnConflict::Ignore,
        Statement::InsertChat(_, how) => how == OnConflict::Ignore,
        Statement::ReplaceMetadata { .. } => true,
        _ => false,
    }
}

proof fn lemma_keeps_chain(a: Tables, b: Tables, c: Tables)
    requires
        keeps(a, b),
        keeps(b, c),
    ensures
        keeps(a, c),
{
    vstd::map_lib::lemma_submap_of_trans(a.groups, b.groups, c.groups);
    vstd::map_lib::lemma_submap_of_trans(a.workspaces, b.workspaces, c.workspaces);
    vstd::map_lib::lemma_submap_of_trans(a.objects, b.objects, c.objects);
}

proof fn lemma_adds_only(statements: Seq<Statement>, t: Tables)
    requires
        forall|i: int| 0 <= i < statements.len() ==> adds_only(#[trigger] statements[i]),
    ensures
        keeps(t, tables::apply_all(statements, t)),
        forall|i: int|
            0 <= i < statements.len() ==> stored(#[trigger] statements[i], tables::apply_all(statements, t)),
    decreases statements.len(),
{
    if statements.len() > 0 {
        let rest = statements.drop_last();
        assert forall|i: int| 0 <= i < rest.len() implies adds_only(#[trigger] rest[i]) by {
            assert(rest[i] == statements[i]);
        }
        lemma_adds_only(rest, t);
        let mid = tables::apply_all(rest, t);
        let end = tables::apply_all(statements, t);
        assert(adds_only(statements[statements.len() - 1]));
        lemma_add_keeps(statements.last(), mid);
        lemma_keeps_chain(t, mid, end);
        assert forall|i: int| 0 <= i < statements.len() implies stored(#[trigger] statements[i], end) by {
            if i < rest.len() {
                assert(rest[i] == statements[i]);
                assert(adds_only(statements[i]));
                lemma_stored_stays(statements[i], mid, end);
            }
        }
    }
}

/// Whether the row that a statement adds is there: some row under its key.
pub open spec fn stored(s: Statement, t: Tables) -> bool {
    match s {
        Statement::InsertGroup(g, _) => t.groups.dom().contains(g.id@),
        Statement::InsertWorkspace(w, _) => t.workspaces.dom().contains(w.id@),
        Statement::InsertBoard(b, _) => t.objects.dom().contains(b.id@),
        Statement::InsertChat(c, _) => t.objects.dom().contains(c.id@),
        Statement::ReplaceMetadata { board_id, .. } => t.metadata.dom().contains(board_id@),
        _ => true,
    }
}

proof fn lemma_add_keeps(s: Statement, t: Tables)
    requires
        adds_only(s),
    ensures
        keeps(t, s.apply(t)),
        stored(s, s.apply(t)),
{
}

proof fn lemma_stored_stays(s: Statement, before: Tables, after: Tables)
    requires
        adds_only(s),
        keeps(before, after),
        stored(s, before),
    ensures
        stored(s, after),
{
}

/// Restoring a snapshot loses nothing: every group, workspace, board, file, message, element and
/// cell that was there stays as it was, and the snapshot's group, workspaces, boards, messages and
/// metadata are all there afterwards.
pub proof fn restoring_adds_and_keeps(tree: TreeSnapshotDTO, statements: Seq<Statement>, t: Tables)
    requires
        tree.groups@.len() > 0,
        restores(tree, statements),
    ensures
        keeps(t, tables::apply_all(statements, t)),
        ({
            let after = tables::apply_all(statements, t);
            &&& after.groups.dom().contains(tree.groups@[0].id@)
            &&& forall|i: int|
                0 <= i < tree.workspaces@.len() ==> after.workspaces.dom().contains(
                    (#[trigger] tree.workspaces@[i]).id@,
                )
            &&& forall|i: int|
                0 <= i < tree.whiteboards@.len() ==> after.objects.dom().contains(
                    (#[trigger] tree.whiteboards@[i]).id@,
                )
            &&& forall|i: int|
                0 <= i < tree.chats@.len() ==> after.objects.dom().contains(
                    (#[trigger] tree.chats@[i]).id@,
                )
            &&& forall|i: int|
                0 <= i < tree.board_metadata@.len() ==> after.metadata.dom().contains(
                    (#[trigger] tree.board_metadata@[i]).board_id@,
                )
        }),
{
    let n = content_len(tree);
    let content = content_statements(tree);
    let nw = tree.workspaces@.len() as int;
    let nb = tree.whiteboards@.len() as int;
    assert forall|i: int| 0 <= i < n implies statements[i] == content[i] by {
        assert(statements.take(n)[i] == statements[i]);
    }
    assert forall|i: int| 0 <= i < statements.len() implies adds_only(#[trigger] statements[i]) by {
        if i < n {
            assert(statements[i] == content[i]);
        } else {
            assert(restores_metadata(tree.board_metadata@[i - n], statements[n + (i - n)]));
        }
    }
    lemma_adds_only(statements, t);
    let after = tables::apply_all(statements, t);
    assert(stored(statements[0], after));
    assert forall|i: int| 0 <= i < tree.workspaces@.len() implies after.workspaces.dom().contains(
        (#[trigger] tree.workspaces@[i]).id@,
    ) by {
        assert(statements[1 + i] == restore_workspace(tree.workspaces@[i]));
        assert(stored(statements[1 + i], after));
    }
    assert forall|i: int| 0 <= i < tree.whiteboards@.len() implies after.objects.dom().contains(
        (#[trigger] tree.whiteboards@[i]).id@,
    ) by {
        assert(statements[1 + nw + i] == restore_board(tree.whiteboards@[i]));
        assert(stored(statements[1 + nw + i], after));
    }
    assert forall|i: int| 0 <= i < tree.chats@.len() implies after.objects.dom().contains(
        (#[trigger] tree.chats@[i]).id@,
    ) by {
        assert(statements[1 + nw + nb + i] == restore_chat(tree.chats@[i]));
        assert(stored(statements[1 + nw + nb + i], after));
    }
    assert forall|i: int|
        0 <= i < tree.board_metadata@.len() implies after.metadata.dom().contains(
        (#[trigger] tree.board_metadata@[i]).board_id@,
    ) by {
        assert(restores_metadata(tree.board_metadata@[i], statements[n + i]));
        assert(stored(statements[n + i], after));
    }
}

/// Whether the row that a statement adds is there, just as the statement gives it.
pub open spec fn landed(s: Statement, t: Tables) -> bool {
    match s {
        Statement::InsertGroup(g, _) => t.groups.dom().contains(g.id@) && t.groups[g.id@] == g,
        Statement::InsertWorkspace(w, _) => t.workspaces.dom().contains(w.id@)
            && t.workspaces[w.id@] == w,
        Statement::InsertBoard(b, _) => t.objects.dom().contains(b.id@) && t.objects[b.id@]
            == tables::board_row(b),
        Statement::InsertChat(c, _) => t.objects.dom().contains(c.id@) && t.objects[c.id@]
            == tables::chat_row(c),
        Statement::ReplaceMetadata {
            board_id,
            labels,
            rating,
            view_count,
            contains_model,
            contains_skills,
            board_type,
            last_accessed,
        } => t.metadata.dom().contains(board_id@) && t.metadata[board_id@] == (MetadataRow {
            labels: labels@,
            rating,
            view_count: view_count as int,
            contains_model,
            contains_skills: contains_skills@,
            board_type: board_type@,
            last_accessed,
            is_pinned: false,
        }),
        _ => true,
    }
}

/// Whether nothing keeps the row of a statement out: no row is under its key, or it takes the place
/// of one.
pub open spec fn free(s: Statement, t: Tables) -> bool {
    match s {
        Statement::InsertGroup(g, _) => !t.groups.dom().contains(g.id@),
        Statement::InsertWorkspace(w, _) => !t.workspaces.dom().contains(w.id@),
        Statement::InsertBoard(b, _) => !t.objects.dom().contains(b.id@),
        Statement::InsertChat(c, _) => !t.objects.dom().contains(c.id@),
        _ => true,
    }
}

/// Whether two statements add rows under one key of one table.
pub open spec fn same_key(a: Statement, b: Statement) -> bool {
    match (a, b) {
        (Statement::InsertGroup(x, _), Statement::InsertGroup(y, _)) => x.id@ == y.id@,
        (Statement::InsertWorkspace(x, _), Statement::InsertWorkspace(y, _)) => x.id@ == y.id@,
        (Statement::InsertBoard(x, _), Statement::InsertBoard(y, _)) => x.id@ == y.id@,
        (Statement::InsertBoard(x, _), Statement::InsertChat(y, _)) => x.id@ == y.id@,
        (Statement::InsertChat(x, _), Statement::InsertBoard(y, _)) => x.id@ == y.id@,
        (Statement::InsertChat(x, _), Statement::InsertChat(y, _)) => x.id@ == y.id@,
        (
            Statement::ReplaceMetadata { board_id: x, .. },
            Statement::ReplaceMetadata { board_id: y, .. },
        ) => x@ == y@,
        _ => false,
    }
}

proof fn lemma_stays_free(statements: Seq<Statement>, t: Tables, s: Statement)
    requires
        adds_only(s),
        free(s, t),
        forall|i: int|
            0 <= i < statements.len() ==> adds_only(#[trigger] statements[i]) && !same_key(
                statements[i],
                s,
            ),
    ensures
        free(s, tables::apply_all(statements, t)),
    decreases statements.len(),
{
    if statements.len() > 0 {
        let rest = statements.drop_last();
        assert forall|i: int| 0 <= i < rest.len() implies adds_only(#[trigger] rest[i])
            && !same_key(rest[i], s) by {
            assert(rest[i] == statements[i]);
        }
        lemma_stays_free(rest, t, s);
        assert(adds_only(statements[statements.len() - 1]));
    }
}

proof fn lemma_lands(statements: Seq<Statement>, t: Tables)
    requires
        forall|i: int| 0 <= i < statements.len() ==> adds_only(#[trigger] statements[i]),
        forall|i: int, j: int|
            #![trigger statements[i], statements[j]]
            0 <= i < j < statements.len() ==> !same_key(statements[i], statements[j]),
    ensures
        forall|i: int|
            0 <= i < statements.len() && free(#[trigger] statements[i], t) ==> landed(
                statements[i],
                tables::apply_all(statements, t),
            ),
    decreases statements.len(),
{
    if statements.len() > 0 {
        let rest = statements.drop_last();
        let last = statements.len() - 1;
        assert forall|i: int| 0 <= i < rest.len() implies adds_only(#[trigger] rest[i]) by {
            assert(rest[i] == statements[i]);
        }
        assert forall|i: int, j: int|
            #![trigger rest[i], rest[j]]
            0 <= i < j < rest.len() implies !same_key(rest[i], rest[j]) by {
            assert(rest[i] == statements[i] && rest[j] == statements[j]);
        }
        lemma_lands(rest, t);
        let mid = tables::apply_all(rest, t);
        assert(adds_only(statements[last]));
        assert forall|i: int|
            0 <= i < statements.len() && free(#[trigger] statements[i], t) implies landed(
            statements[i],
            tables::apply_all(statements, t),
        ) by {
            if i < last {
                assert(rest[i] == statements[i]);
                assert(landed(rest[i], mid));
                assert(!same_key(statements[i], statements[last]));
            } else {
                assert forall|k: int| 0 <= k < rest.len() implies adds_only(#[trigger] rest[k])
                    && !same_key(rest[k], statements[last]) by {
                    assert(rest[k] == statements[k]);
                }
                lemma_stays_free(rest, t, statements[last]);
            }
        }
    }
}

/// Whether no two rows of a snapshot have the same key.
pub open spec fn distinct_keys(tree: TreeSnapshotDTO) -> bool {
    &&& forall|i: int, j: int|
        #![trigger tree.workspaces@[i], tree.workspaces@[j]]
        0 <= i < j < tree.workspaces@.len() ==> tree.workspaces@[i].id@ != tree.workspaces@[j].id@
    &&& forall|i: int, j: int|
        #![trigger tree.whiteboards@[i], tree.whiteboards@[j]]
        0 <= i < j < tree.whiteboards@.len() ==> tree.whiteboards@[i].id@
            != tree.whiteboards@[j].id@
    &&& forall|i: int, j: int|
        #![trigger tree.chats@[i], tree.chats@[j]]
        0 <= i < j < tree.chats@.len() ==> tree.chats@[i].id@ != tree.chats@[j].id@
    &&& forall|i: int, j: int|
        #![trigger tree.whiteboards@[i], tree.chats@[j]]
        0 <= i < tree.whiteboards@.len() && 0 <= j < tree.chats@.len()
            ==> tree.whiteboards@[i].id@ != tree.chats@[j].id@
    &&& forall|i: int, j: int|
        #![trigger tree.board_metadata@[i], tree.board_metadata@[j]]
        0 <= i < j < tree.board_metadata@.len() ==> tree.board_metadata@[i].board_id@
            != tree.board_metadata@[j].board_id@
}

proof fn lemma_statement_at(tree: TreeSnapshotDTO, statements: Seq<Statement>, i: int)
    requires
        tree.groups@.len() > 0,
        restores(tree, statements),
        0 <= i < statements.len(),
    ensures
        adds_only(statements[i]),
        ({
            let w = 1 + tree.workspaces@.len() as int;
            let b = w + tree.whiteboards@.len() as int;
            let n = content_len(tree);
            &&& i == 0 ==> statements[i] == Statement::InsertGroup(
                tree.groups@[0],
                OnConflict::Ignore,
            )
            &&& 1 <= i < w ==> statements[i] == restore_workspace(tree.workspaces@[i - 1])
            &&& w <= i < b ==> statements[i] == restore_board(tree.whiteboards@[i - w])
            &&& b <= i < n ==> statements[i] == restore_chat(tree.chats@[i - b])
            &&& n <= i ==> restores_metadata(tree.board_metadata@[i - n], statements[i])
        }),
{
    let n = content_len(tree);
    if i < n {
        assert(statements.take(n)[i] == statements[i]);
    } else {
        assert(restores_metadata(tree.board_metadata@[i - n], statements[n + (i - n)]));
    }
}

/// What a node restores is what the snapshot holds: each group, workspace, board and chat message
/// that the node had no row for is stored as it was sent, and so is the metadata of each board,
/// which is not pinned.
pub proof fn a_restored_snapshot_is_what_was_sent(
    tree: TreeSnapshotDTO,
    statements: Seq<Statement>,
    t: Tables,
)
    requires
        tree.groups@.len() > 0,
        distinct_keys(tree),
        restores(tree, statements),
    ensures
        ({
            let after = tables::apply_all(statements, t);
            let group = tree.groups@[0];
            &&& !t.groups.dom().contains(group.id@) ==> after.groups.dom().contains(group.id@)
                && after.groups[group.id@] == group
            &&& forall|i: int|
                0 <= i < tree.workspaces@.len() && !t.workspaces.dom().contains(
                    (#[trigger] tree.workspaces@[i]).id@,
                ) ==> landed(restore_workspace(tree.workspaces@[i]), after)
            &&& forall|i: int|
                0 <= i < tree.whiteboards@.len() && !t.objects.dom().contains(
                    (#[trigger] tree.whiteboards@[i]).id@,
                ) ==> landed(restore_board(tree.whiteboards@[i]), after)
            &&& forall|i: int|
                0 <= i < tree.chats@.len() && !t.objects.dom().contains(
                    (#[trigger] tree.chats@[i]).id@,
                ) ==> landed(restore_chat(tree.chats@[i]), after)
            &&& forall|i: int|
                0 <= i < tree.board_metadata@.len() ==> ({
                    let m = #[trigger] tree.board_metadata@[i];
                    let row = after.metadata[m.board_id@];
                    &&& after.metadata.dom().contains(m.board_id@)
                    &&& json::stored_list(row.labels) == collections::texts(m.labels@)
                    &&& row.rating == m.rating
                    &&& row.view_count == m.view_count
                    &&& row.contains_model == m.contains_model
                    &&& json::stored_list(row.contains_skills) == collections::texts(
                        m.contains_skills@,
                    )
                    &&& row.board_type == m.board_type@
                    &&& row.last_accessed == m.last_accessed
                    &&& !row.is_pinned
                })
        }),
{
    let w = 1 + tree.workspaces@.len() as int;
    let b = w + tree.whiteboards@.len() as int;
    let n = content_len(tree);
    assert forall|i: int| 0 <= i < statements.len() implies adds_only(#[trigger] statements[i]) by {
        lemma_statement_at(tree, statements, i);
    }
    assert forall|i: int, j: int|
        #![trigger statements[i], statements[j]]
        0 <= i < j < statements.len() implies !same_key(statements[i], statements[j]) by {
        lemma_statement_at(tree, statements, i);
        lemma_statement_at(tree, statements, j);
    }
    lemma_lands(statements, t);
    lemma_statement_at(tree, statements, 0);
    assert forall|i: int|
        0 <= i < tree.workspaces@.len() && !t.workspaces.dom().contains(
            (#[trigger] tree.workspaces@[i]).id@,
        ) implies landed(
        restore_workspace(tree.workspaces@[i]),
        tables::apply_all(statements, t),
    ) by {
        lemma_statement_at(tree, statements, 1 + i);
        assert(free(statements[1 + i], t));
    }
    assert forall|i: int|
        0 <= i < tree.whiteboards@.len() && !t.objects.dom().contains(
            (#[trigger] tree.whiteboards@[i]).id@,
        ) implies landed(
        restore_board(tree.whiteboards@[i]),
        tables::apply_all(statements, t),
    ) by {
        lemma_statement_at(tree, statements, w + i);
        assert(free(statements[w + i], t));
    }
    assert forall|i: int|
        0 <= i < tree.chats@.len() && !t.objects.dom().contains(
            (#[trigger] tree.chats@[i]).id@,
        ) implies landed(restore_chat(tree.chats@[i]), tables::apply_all(statements, t)) by {
        lemma_statement_at(tree, statements, b + i);
        assert(free(statements[b + i], t));
    }
    assert forall|i: int| 0 <= i < tree.board_metadata@.len() implies ({
        let m = #[trigger] tree.board_metadata@[i];
        landed(statements[n + i], tables::apply_all(statements, t)) && restores_metadata(
            m,
            statements[n + i],
        )
    }) by {
        lemma_statement_at(tree, statements, n + i);
        assert(free(statements[n + i], t));
    }
}

proof fn lemma_first_lands(statements: Seq<Statement>, t: Tables, i: int)
    requires
        forall|k: int| 0 <= k < statements.len() ==> adds_only(#[trigger] statements[k]),
        0 <= i < statements.len(),
        !(statements[i] is ReplaceMetadata),
        free(statements[i], t),
        forall|k: int| 0 <= k < i ==> !same_key(#[trigger] statements[k], statements[i]),
    ensures
        landed(statements[i], tables::apply_all(statements, t)),
    decreases statements.len(),
{
    let rest = statements.drop_last();
    assert forall|k: int| 0 <= k < rest.len() implies adds_only(#[trigger] rest[k]) by {
        assert(rest[k] == statements[k]);
    }
    let last = statements.len() - 1;
    assert(adds_only(statements[last]));
    if i == last {
        assert forall|k: int| 0 <= k < rest.len() implies adds_only(#[trigger] rest[k])
            && !same_key(rest[k], statements[last]) by {
            assert(rest[k] == statements[k]);
        }
        lemma_stays_free(rest, t, statements[i]);
    } else {
        assert(rest[i] == statements[i]);
        assert forall|k: int| 0 <= k < i implies !same_key(#[trigger] rest[k], rest[i]) by {
            assert(rest[k] == statements[k]);
        }
        lemma_first_lands(rest, t, i);
        lemma_add_keeps(statements.last(), tables::apply_all(rest, t));
    }
}

proof fn lemma_last_lands(statements: Seq<Statement>, t: Tables, i: int)
    requires
        forall|k: int| 0 <= k < statements.len() ==> adds_only(#[trigger] statements[k]),
        0 <= i < statements.len(),
        statements[i] is ReplaceMetadata,
        forall|k: int| i < k < statements.len() ==> !same_key(statements[i], #[trigger] statements[k]),
    ensures
        landed(statements[i], tables::apply_all(statements, t)),
    decreases statements.len(),
{
    let rest = statements.drop_last();
    let last = statements.len() - 1;
    assert(adds_only(statements[last]));
    if i < last {
        assert(rest[i] == statements[i]);
        assert forall|k: int| 0 <= k < rest.len() implies adds_only(#[trigger] rest[k]) by {
            assert(rest[k] == statements[k]);
        }
        assert forall|k: int| i < k < rest.len() implies !same_key(rest[i], #[trigger] rest[k]) by {
            assert(rest[k] == statements[k]);
        }
        lemma_last_lands(rest, t, i);
        assert(!same_key(statements[i], statements[last]));
    }
}

/// Whether nothing of a snapshot stands under an identifier before a message, neither a board nor
/// an earlier message.
pub open spec fn first_under_its_id(tree: TreeSnapshotDTO, chat: int) -> bool {
    &&& forall|k: int|
        0 <= k < tree.whiteboards@.len() ==> (#[trigger] tree.whiteboards@[k]).id@
            != tree.chats@[chat].id@
    &&& forall|k: int|
        0 <= k < chat ==> (#[trigger] tree.chats@[k]).id@ != tree.chats@[chat].id@
}

/// Each column of what is restored holds what the snapshot says of it. A chat message whose
/// identifier is new to the tables has its own text, author, parent, workspace and time; a board its
/// own name, workspace and time; a workspace its own group and name; the group its own name, icon
/// and color. The first of several with one identifier counts.
pub proof fn restored_rows_say_what_was_sent(
    tree: &TreeSnapshotDTO,
    plan: Restore,
    t: Tables,
    i: int,
)
    requires
        call_ensures(restore, (tree,), Some(plan)),
    ensures
        ({
            let after = tables::apply_all(plan.statements@, t);
            let c = tree.chats@[i];
            let o = after.objects[c.id@];
            0 <= i < tree.chats@.len() && !t.objects.dom().contains(c.id@)
                && first_under_its_id(*tree, i) ==> {
                &&& after.objects.dom().contains(c.id@)
                &&& o.kind is Chat
                &&& o.name@ == c.message@
                &&& o.hash matches Some(author) && author@ == c.author@
                &&& o.data == (match c.parent_id {
                    Some(parent) => Some(encode_utf8(parent@)),
                    None => None,
                })
                &&& o.workspace_id == Some(c.workspace_id@)
                &&& o.created_at == c.timestamp
            }
        }),
        ({
            let after = tables::apply_all(plan.statements@, t);
            let b = tree.whiteboards@[i];
            let o = after.objects[b.id@];
            0 <= i < tree.whiteboards@.len() && !t.objects.dom().contains(b.id@) && (forall|k: int|
                0 <= k < i ==> (#[trigger] tree.whiteboards@[k]).id@ != b.id@) ==> {
                &&& after.objects.dom().contains(b.id@)
                &&& o.kind is Whiteboard
                &&& o.name@ == b.name@
                &&& o.workspace_id == Some(b.workspace_id@)
                &&& o.created_at == b.created_at
                &&& o.board_mode == Some("canvas"@)
            }
        }),
        ({
            let after = tables::apply_all(plan.statements@, t);
            let w = tree.workspaces@[i];
            let row = after.workspaces[w.id@];
            0 <= i < tree.workspaces@.len() && !t.workspaces.dom().contains(w.id@) && (forall|
                k: int,
            |
                0 <= k < i ==> (#[trigger] tree.workspaces@[k]).id@ != w.id@) ==> {
                &&& after.workspaces.dom().contains(w.id@)
                &&& row.id@ == w.id@
                &&& row.group_id@ == w.group_id@
                &&& row.name@ == w.name@
                &&& row.created_at == w.created_at
            }
        }),
        ({
            let after = tables::apply_all(plan.statements@, t);
            let g = tree.groups@[0];
            let row = after.groups[g.id@];
            !t.groups.dom().contains(g.id@) ==> {
                &&& after.groups.dom().contains(g.id@)
                &&& row.id@ == g.id@
                &&& row.name@ == g.name@
                &&& row.icon@ == g.icon@
                &&& row.color@ == g.color@
                &&& row.created_at == g.created_at
            }
        }),
        ({
            let after = tables::apply_all(plan.statements@, t);
            let m = tree.board_metadata@[i];
            let row = after.metadata[m.board_id@];
            0 <= i < tree.board_metadata@.len() && (forall|k: int|
                i < k < tree.board_metadata@.len() ==> (#[trigger] tree.board_metadata@[k]).board_id@
                    != m.board_id@) ==> {
                &&& after.metadata.dom().contains(m.board_id@)
                &&& json::stored_list(row.labels) == collections::texts(m.labels@)
                &&& row.rating == m.rating
                &&& row.view_count == m.view_count
                &&& row.contains_model == m.contains_model
                &&& json::stored_list(row.contains_skills) == collections::texts(m.contains_skills@)
                &&& row.board_type == m.board_type@
                &&& row.last_accessed == m.last_accessed
            }
        }),
{
    let statements = plan.statements@;
    let w = 1 + tree.workspaces@.len() as int;
    let b = w + tree.whiteboards@.len() as int;
    let n = content_len(*tree);
    assert forall|k: int| 0 <= k < statements.len() implies adds_only(#[trigger] statements[k]) by {
        lemma_statement_at(*tree, statements, k);
    }
    if 0 <= i < tree.chats@.len() && !t.objects.dom().contains(tree.chats@[i].id@)
        && first_under_its_id(*tree, i) {
        lemma_statement_at(*tree, statements, b + i);
        assert forall|k: int| 0 <= k < b + i implies !same_key(
            #[trigger] statements[k],
            statements[b + i],
        ) by {
            lemma_statement_at(*tree, statements, k);
        }
        lemma_first_lands(statements, t, b + i);
    }
    if 0 <= i < tree.whiteboards@.len() && !t.objects.dom().contains(tree.whiteboards@[i].id@) && (
    forall|k: int|
        0 <= k < i ==> (#[trigger] tree.whiteboards@[k]).id@ != tree.whiteboards@[i].id@) {
        lemma_statement_at(*tree, statements, w + i);
        assert forall|k: int| 0 <= k < w + i implies !same_key(
            #[trigger] statements[k],
            statements[w + i],
        ) by {
            lemma_statement_at(*tree, statements, k);
        }
        lemma_first_lands(statements, t, w + i);
    }
    if 0 <= i < tree.workspaces@.len() && !t.workspaces.dom().contains(tree.workspaces@[i].id@) && (
    forall|k: int|
        0 <= k < i ==> (#[trigger] tree.workspaces@[k]).id@ != tree.workspaces@[i].id@) {
        lemma_statement_at(*tree, statements, 1 + i);
        assert forall|k: int| 0 <= k < 1 + i implies !same_key(
            #[trigger] statements[k],
            statements[1 + i],
        ) by {
            lemma_statement_at(*tree, statements, k);
        }
        lemma_first_lands(statements, t, 1 + i);
    }
    lemma_statement_at(*tree, statements, 0);
    if !t.groups.dom().contains(tree.groups@[0].id@) {
        lemma_first_lands(statements, t, 0);
    }
    if 0 <= i < tree.board_metadata@.len() && (forall|k: int|
        i < k < tree.board_metadata@.len() ==> (#[trigger] tree.board_metadata@[k]).board_id@
            != tree.board_metadata@[i].board_id@) {
        lemma_statement_at(*tree, statements, n + i);
        assert forall|k: int| n + i < k < statements.len() implies !same_key(
            statements[n + i],
            #[trigger] statements[k],
        ) by {
            lemma_statement_at(*tree, statements, k);
        }
        lemma_last_lands(statements, t, n + i);
    }
}

/// A snapshot that has a group is restored, whatever else it holds, and while that is done its name
/// is shown.
pub proof fn a_snapshot_with_a_group_is_restored(tree: &TreeSnapshotDTO, r: Option<Restore>)
    requires
        call_ensures(restore, (tree,), r),
    ensures
        r is Some <==> tree.groups@.len() > 0,
        r matches Some(plan) ==> plan.statements@.len() == 1 + tree.workspaces@.len()
            + tree.whiteboards@.len() + tree.chats@.len() + tree.board_metadata@.len(),
        r matches Some(plan) ==> plan.syncing matches SwiftEvent::StatusUpdate { message }
            && message@ == "Syncing group '"@ + tree.groups@[0].name@ + "'..."@,
        r matches Some(plan) ==> plan.complete matches SwiftEvent::StatusUpdate { message }
            && message@ == "Sync complete"@,
{
}

/// A snapshot says of each file, message, binding and board what its row says, column by column.
/// Files of the group come before those of its workspaces.
pub proof fn a_snapshot_says_what_the_rows_say(
    group: Group,
    rows: SnapshotRows,
    tree: TreeSnapshotDTO,
    i: int,
    parent: Seq<char>,
)
    requires
        call_ensures(build_group_snapshot, (Some(group), rows), Some(tree)),
    ensures
        tree.groups@ == seq![group],
        tree.workspaces@ == rows.workspaces@,
        tree.whiteboards@ == rows.whiteboards@,
        tree.files@.len() == rows.group_files@.len() + rows.workspace_files@.len(),
        tree.chats@.len() == rows.chats@.len(),
        tree.integrations@.len() == rows.integrations@.len(),
        tree.board_metadata@.len() == rows.board_metadata@.len(),
        0 <= i < tree.files@.len() ==> ({
            let f = tree.files@[i];
            let row = if i < rows.group_files@.len() {
                rows.group_files@[i]
            } else {
                rows.workspace_files@[i - rows.group_files@.len()]
            };
            &&& f.id@ == row.id@
            &&& f.group_id == row.group_id
            &&& f.workspace_id == row.workspace_id
            &&& f.board_id == row.board_id
            &&& f.name@ == row.name@
            &&& f.hash@ == row.hash@
            &&& row.size >= 0 ==> f.size == row.size
            &&& f.source_peer == row.source_peer
            &&& f.local_path == row.local_path
            &&& f.created_at == row.created_at
        }),
        0 <= i < tree.chats@.len() ==> ({
            let c = tree.chats@[i];
            let row = rows.chats@[i];
            &&& c.id@ == row.id@
            &&& c.workspace_id@ == row.workspace_id@
            &&& c.message@ == row.message@
            &&& c.author@ == row.author@
            &&& c.timestamp == row.timestamp
            &&& row.parent is None ==> c.parent_id is None
            &&& row.parent is Some && row.parent->0@ == encode_utf8(parent) ==> c.parent_id is Some
                && c.parent_id->0@ == parent
        }),
        0 <= i < tree.integrations@.len() ==> ({
            let b = tree.integrations@[i];
            let row = rows.integrations@[i];
            &&& b.id@ == row.id@
            &&& b.scope_type@ == row.scope_type@
            &&& b.scope_id@ == row.scope_id@
            &&& b.integration_type@ == row.integration_type@
            &&& b.created_at == row.created_at
            &&& json::parsed_json(row.config_json@) matches Some(config) ==> b.config == config
            &&& json::parsed_json(row.config_json@) is None ==> b.config is Null
        }),
        0 <= i < tree.board_metadata@.len() ==> ({
            let m = tree.board_metadata@[i];
            let row = rows.board_metadata@[i];
            &&& m.board_id@ == row.board_id@
            &&& collections::texts(m.labels@) == json::stored_list(row.labels@)
            &&& m.rating == row.rating
            &&& m.view_count == row.view_count
            &&& m.contains_model == row.contains_model
            &&& collections::texts(m.contains_skills@) == json::stored_list(row.contains_skills@)
            &&& m.board_type@ == row.board_type@
            &&& m.last_accessed == row.last_accessed
        }),
{
    encode_utf8_valid_utf8(parent);
    if 0 <= i < tree.chats@.len() {
        assert(command::chat_of_row(rows.chats@[i], tree.chats@[i]));
        match tree.chats@[i].parent_id {
            Some(p) => {
                encode_utf8_decode_utf8(p@);
                encode_utf8_decode_utf8(parent);
            },
            None => {},
        }
    }
}

/// The demo content.
pub struct Demo {
    pub group: Group,
    pub workspace: Workspace,
    pub board: BoardRecord,
}

/// The demo content that goes into empty tables: a group, a workspace in it and a board in that.
/// `group_count` is how many groups there are, or one where that could not be found out.
pub fn seed_demo_if_empty(group_count: i64, now: i64) -> (r: Option<Demo>)
    ensures
        r is Some <==> group_count <= 0,
        r matches Some(demo) ==> {
            &&& demo.group.id@ == hash::text_id("demo-group"@)
            &&& demo.group.name@ == "Demo Group"@
            &&& demo.group.icon@ == "folder.fill"@
            &&& demo.group.color@ == "#00AEEF"@
            &&& demo.group.created_at == now
            &&& demo.workspace.id@ == hash::text_id("demo-workspace"@)
            &&& demo.workspace.group_id == demo.group.id
            &&& demo.workspace.name@ == "Demo Workspace"@
            &&& demo.workspace.created_at == now
            &&& demo.board.id@ == hash::text_id("demo-board"@)
            &&& demo.board.workspace_id == demo.workspace.id
            &&& demo.board.name@ == "Demo Board"@
            &&& demo.board.created_at == now
        },
{
    if group_count > 0 {
        return None;
    }
    let group = Group {
        id: hash::hash_text("demo-group"),
        name: "Demo Group".to_owned(),
        icon: "folder.fill".to_owned(),
        color: "#00AEEF".to_owned(),
        created_at: now,
    };
    let workspace = Workspace {
        id: hash::hash_text("demo-workspace"),
        group_id: group.id.clone(),
        name: "Demo Workspace".to_owned(),
        created_at: now,
    };
    let board = BoardRecord {
        id: hash::hash_text("demo-board"),
        workspace_id: workspace.id.clone(),
        name: "Demo Board".to_owned(),
        created_at: now,
    };
    Some(Demo { group, workspace, board })
}

/// The statements that store the demo content; each fails where its row is already there.
pub fn demo_statements(demo: Demo) -> (r: Vec<Statement>)
    ensures
        r@ == seq![
            Statement::InsertGroup(demo.group, OnConflict::Abort),
            Statement::InsertWorkspace(demo.workspace, OnConflict::Abort),
            Statement::InsertBoard(demo.board, OnConflict::Abort),
        ],
{
    let mut out: Vec<Statement> = Vec::new();
    out.push(Statement::InsertGroup(demo.group, OnConflict::Abort));
    out.push(Statement::InsertWorkspace(demo.workspace, OnConflict::Abort));
    out.push(Statement::InsertBoard(demo.board, OnConflict::Abort));
    out
}

} // verus!
