//! What peers can rely on: that they store what the sender stored, and that hearing an event again
//! changes nothing.

use crate::collections;
use crate::command;
use crate::element;
use crate::gossip;
use crate::json;
use crate::model::{CommandMsg, Group, NetworkCommand, NetworkEvent, Workspace};
use crate::tables;
use crate::tables::{
    CellRecord, ElementRecord, ElementRow, MetadataRow, ObjectRow, OnConflict, Statement, Tables,
};
use vstd::prelude::*;
use vstd::string::*;
use vstd::utf8::*;

verus! {

/// The event by which a command that took effect is told to peers.
pub open spec fn told_as(msg: CommandMsg, id: String, node_id: String, now: i64) -> Option<
    NetworkEvent,
> {
    match msg {
        CommandMsg::DeleteGroup { id } => Some(NetworkEvent::GroupDeleted { id }),
        CommandMsg::DeleteWorkspace { id } => Some(NetworkEvent::WorkspaceDeleted { id }),
        CommandMsg::DeleteBoard { id } => Some(NetworkEvent::BoardDeleted { id }),
        CommandMsg::DeleteChat { id } => Some(NetworkEvent::ChatDeleted { id }),
        _ => command::announcement(msg, id, node_id, now),
    }
}

proof fn lemma_apply_one(s: Statement, t: Tables)
    ensures
        tables::apply_all(seq![s], t) == s.apply(t),
{
    reveal_with_fuel(tables::apply_all, 2);
    assert(seq![s].drop_last() =~= Seq::<Statement>::empty());
}

proof fn lemma_apply_two(s1: Statement, s2: Statement, t: Tables)
    ensures
        tables::apply_all(seq![s1, s2], t) == s2.apply(s1.apply(t)),
{
    assert(seq![s1, s2].drop_last() =~= seq![s1]);
    lemma_apply_one(s1, t);
}

proof fn lemma_apply_three(s1: Statement, s2: Statement, s3: Statement, t: Tables)
    ensures
        tables::apply_all(seq![s1, s2, s3], t) == s3.apply(s2.apply(s1.apply(t))),
{
    assert(seq![s1, s2, s3].drop_last() =~= seq![s1, s2]);
    lemma_apply_two(s1, s2, t);
}

/// A peer whose tables are those of the sender before a command has those of the sender after it,
/// once it has stored the event by which the command is told.
pub proof fn peers_store_what_the_sender_stored(
    msg: CommandMsg,
    id: String,
    node_id: String,
    now: i64,
    heard_at: i64,
    t: Tables,
)
    requires
        told_as(msg, id, node_id, now) is Some,
    ensures
        tables::apply_all(gossip::event_rows(told_as(msg, id, node_id, now)->0, heard_at), t)
            == tables::apply_all(command::statements_of(msg, id, node_id, now), t),
{
    let theirs = gossip::event_rows(told_as(msg, id, node_id, now)->0, heard_at);
    let ours = command::statements_of(msg, id, node_id, now);
    match msg {
        CommandMsg::DeleteGroup { .. } => {
            assert(theirs =~= ours);
        },
        CommandMsg::DeleteWorkspace { .. } => {
            assert(theirs =~= ours);
        },
        _ => {
            assert(theirs =~= seq![theirs[0]]);
            assert(ours =~= seq![ours[0]]);
            lemma_apply_one(theirs[0], t);
            lemma_apply_one(ours[0], t);
        },
    }
}

/// The last place that a list gives to an identifier.
pub open spec fn last_place(ids: Seq<String>, id: Seq<char>) -> Option<int>
    decreases ids.len(),
{
    if ids.len() == 0 {
        None
    } else if ids.last()@ == id {
        Some(ids.len() - 1)
    } else {
        last_place(ids.drop_last(), id)
    }
}

/// The cell that a reordering makes of a cell.
pub open spec fn placed(board_id: Seq<char>, ids: Seq<String>, now: i64, key: Seq<char>, c: CellRecord) -> CellRecord {
    if c.board_id@ == board_id {
        match last_place(ids, key) {
            Some(i) => CellRecord { cell_order: (i as usize) as i32, updated_at: now, ..c },
            None => c,
        }
    } else {
        c
    }
}

/// A reordering leaves every cell of the board where the list names it last, and touches nothing
/// else.
pub proof fn reordering_places_cells(board_id: String, ids: Seq<String>, now: i64, t: Tables)
    ensures
        tables::apply_all(gossip::placings(board_id, ids, now), t) == (Tables {
            cells: Map::new(
                |k: Seq<char>| t.cells.dom().contains(k),
                |k: Seq<char>| placed(board_id@, ids, now, k, t.cells[k]),
            ),
            ..t
        }),
    decreases ids.len(),
{
    let s = gossip::placings(board_id, ids, now);
    let want = Map::new(
        |k: Seq<char>| t.cells.dom().contains(k),
        |k: Seq<char>| placed(board_id@, ids, now, k, t.cells[k]),
    );
    if ids.len() == 0 {
        assert(want =~= t.cells);
        assert(tables::apply_all(s, t) =~= Tables { cells: want, ..t });
    } else {
        let rest = ids.drop_last();
        reordering_places_cells(board_id, rest, now, t);
        assert(s.drop_last() =~= gossip::placings(board_id, rest, now));
        let mid = tables::apply_all(gossip::placings(board_id, rest, now), t);
        assert(tables::apply_all(s, t) == s.last().apply(mid));
        assert(tables::apply_all(s, t).cells =~= want);
        assert(tables::apply_all(s, t) =~= Tables { cells: want, ..t });
    }
}

proof fn lemma_without_twice<R>(m: Map<Seq<char>, R>, p: spec_fn(R) -> bool)
    ensures
        tables::without(tables::without(m, p), p) == tables::without(m, p),
{
    assert(tables::without(tables::without(m, p), p) =~= tables::without(m, p));
}

proof fn lemma_drop_twice(t: Tables, picked: spec_fn(Seq<char>, ObjectRow) -> bool)
    ensures
        ({
            let once = tables::drop_objects(t, tables::objects_where(t, picked));
            &&& tables::objects_where(once, picked) == Set::<Seq<char>>::empty()
            &&& tables::drop_objects(once, Set::empty()) == once
        }),
{
    let once = tables::drop_objects(t, tables::objects_where(t, picked));
    assert(tables::objects_where(once, picked) =~= Set::<Seq<char>>::empty());
    assert(tables::drop_objects(once, Set::empty()) =~= once);
}

/// Whether a statement may be executed again: it does not count, and puts no object in the place
/// of another.
spec fn repeatable(s: Statement) -> bool {
    match s {
        Statement::CountView { .. } => false,
        Statement::InsertBoard(_, how) => how != OnConflict::Replace,
        Statement::InsertFile(_, how) => how != OnConflict::Replace,
        Statement::InsertChat(_, how) => how != OnConflict::Replace,
        _ => true,
    }
}

/// A statement that a received event leads to, executed again, changes nothing.
proof fn lemma_statement_twice(s: Statement, t: Tables)
    requires
        repeatable(s),
    ensures
        s.apply(s.apply(t)) == s.apply(t),
{
    let once = s.apply(t);
    let twice = s.apply(once);
    match s {
        Statement::DeleteObjectsOfGroup { group_id } => {
            lemma_drop_twice(t, |k: Seq<char>, o: ObjectRow| o.group_id == Some(group_id@));
        },
        Statement::DeleteWorkspacesOfGroup { group_id } => {
            lemma_without_twice(
                t.workspaces,
                |w: crate::model::Workspace| w.group_id@ == group_id@,
            );
        },
        Statement::DeleteObjectsOfWorkspace { workspace_id } => {
            lemma_drop_twice(t, |k: Seq<char>, o: ObjectRow| o.workspace_id == Some(workspace_id@));
        },
        Statement::DeleteBoard { id } => {
            lemma_drop_twice(t, |k: Seq<char>, o: ObjectRow| k == id@ && o.kind is Whiteboard);
        },
        Statement::DeleteChat { id } => {
            lemma_drop_twice(t, |k: Seq<char>, o: ObjectRow| k == id@ && o.kind is Chat);
        },
        Statement::ClearElements { board_id } => {
            lemma_without_twice(t.elements, |r: ElementRow| r.element.board_id@ == board_id@);
        },
        _ => {},
    }
    assert(twice.groups =~= once.groups);
    assert(twice.workspaces =~= once.workspaces);
    assert(twice.objects =~= once.objects);
    assert(twice.elements =~= once.elements);
    assert(twice.cells =~= once.cells);
    assert(twice.metadata =~= once.metadata);
    assert(twice.profiles =~= once.profiles);
    assert(twice.messages =~= once.messages);
}

proof fn lemma_one_twice(statements: Seq<Statement>, t: Tables)
    requires
        statements.len() == 1,
        repeatable(statements[0]),
    ensures
        tables::apply_all(statements, tables::apply_all(statements, t)) == tables::apply_all(
            statements,
            t,
        ),
{
    assert(statements =~= seq![statements[0]]);
    lemma_apply_one(statements[0], t);
    lemma_apply_one(statements[0], tables::apply_all(statements, t));
    lemma_statement_twice(statements[0], t);
}

proof fn lemma_group_deleted_twice(id: String, now: i64, t: Tables)
    ensures
        ({
            let s = gossip::event_rows(NetworkEvent::GroupDeleted { id }, now);
            tables::apply_all(s, tables::apply_all(s, t)) == tables::apply_all(s, t)
        }),
{
    let a = Statement::DeleteObjectsOfGroup { group_id: id };
    let b = Statement::DeleteWorkspacesOfGroup { group_id: id };
    let c = Statement::DeleteGroup { id };
    let once = c.apply(b.apply(a.apply(t)));
    lemma_apply_three(a, b, c, t);
    lemma_apply_three(a, b, c, once);
    lemma_drop_twice(t, |k: Seq<char>, o: ObjectRow| o.group_id == Some(id@));
    assert(tables::objects_where(once, |k: Seq<char>, o: ObjectRow| o.group_id == Some(id@))
        =~= Set::<Seq<char>>::empty());
    assert(tables::drop_objects(once, Set::empty()) =~= once);
    lemma_without_twice(t.workspaces, |w: crate::model::Workspace| w.group_id@ == id@);
    assert(c.apply(b.apply(a.apply(once))) =~= once);
}

proof fn lemma_workspace_deleted_twice(id: String, now: i64, t: Tables)
    ensures
        ({
            let s = gossip::event_rows(NetworkEvent::WorkspaceDeleted { id }, now);
            tables::apply_all(s, tables::apply_all(s, t)) == tables::apply_all(s, t)
        }),
{
    let a = Statement::DeleteObjectsOfWorkspace { workspace_id: id };
    let b = Statement::DeleteWorkspace { id };
    let once = b.apply(a.apply(t));
    lemma_apply_two(a, b, t);
    lemma_apply_two(a, b, once);
    assert(tables::objects_where(once, |k: Seq<char>, o: ObjectRow| o.workspace_id == Some(id@))
        =~= Set::<Seq<char>>::empty());
    assert(tables::drop_objects(once, Set::empty()) =~= once);
    assert(b.apply(a.apply(once)) =~= once);
}

proof fn lemma_reordered_twice(board_id: String, ids: Seq<String>, now: i64, t: Tables)
    ensures
        ({
            let s = gossip::placings(board_id, ids, now);
            tables::apply_all(s, tables::apply_all(s, t)) == tables::apply_all(s, t)
        }),
{
    let s = gossip::placings(board_id, ids, now);
    let once = tables::apply_all(s, t);
    reordering_places_cells(board_id, ids, now, t);
    reordering_places_cells(board_id, ids, now, once);
    assert(tables::apply_all(s, once).cells =~= once.cells);
    assert(tables::apply_all(s, once) =~= once);
}

/// Hearing an event again changes nothing: its statements, executed twice, leave the tables that
/// they leave when executed once.
pub proof fn hearing_an_event_twice_is_hearing_it_once(
    event: NetworkEvent,
    now: i64,
    statements: Seq<Statement>,
    t: Tables,
)
    requires
        gossip::statements_for(event, now, statements),
    ensures
        tables::apply_all(statements, tables::apply_all(statements, t)) == tables::apply_all(
            statements,
            t,
        ),
{
    match event {
        NetworkEvent::GroupSnapshotAvailable { .. } => {},
        NetworkEvent::GroupDeleted { id } => {
            lemma_group_deleted_twice(id, now, t);
        },
        NetworkEvent::WorkspaceDeleted { id } => {
            lemma_workspace_deleted_twice(id, now, t);
        },
        NetworkEvent::NotebookCellsReordered { board_id, cell_ids } => {
            lemma_reordered_twice(board_id, cell_ids@, now, t);
        },
        _ => {
            lemma_one_twice(statements, t);
        },
    }
}

/// What is left of a board that is no longer there: no cell and no metadata.
pub open spec fn nothing_left_of(board_id: Seq<char>, t: Tables) -> bool {
    &&& !t.objects.dom().contains(board_id)
    &&& !t.metadata.dom().contains(board_id)
    &&& forall|k: Seq<char>| #[trigger]
        t.cells.dom().contains(k) ==> t.cells[k].board_id@ != board_id
}

/// A board that is still there kept its cells and its metadata.
pub open spec fn all_kept_of(board_id: Seq<char>, before: Tables, after: Tables) -> bool {
    &&& after.objects.dom().contains(board_id)
    &&& after.objects[board_id] == before.objects[board_id]
    &&& after.metadata.dom().contains(board_id) == before.metadata.dom().contains(board_id)
    &&& before.metadata.dom().contains(board_id) ==> after.metadata[board_id]
        == before.metadata[board_id]
    &&& forall|k: Seq<char>|
        #![trigger before.cells.dom().contains(k)]
        #![trigger after.cells.dom().contains(k)]
        before.cells.dom().contains(k) && before.cells[k].board_id@ == board_id
            ==> after.cells.dom().contains(k) && after.cells[k] == before.cells[k]
}

proof fn lemma_drop_is_whole(
    t: Tables,
    picked: spec_fn(Seq<char>, ObjectRow) -> bool,
    board_id: Seq<char>,
)
    requires
        t.objects.dom().contains(board_id),
    ensures
        ({
            let after = tables::drop_objects(t, tables::objects_where(t, picked));
            if picked(board_id, t.objects[board_id]) {
                nothing_left_of(board_id, after)
            } else {
                all_kept_of(board_id, t, after)
            }
        }),
{
}

/// A deletion is whole: of a board that is deleted, alone or with the objects of its workspace or
/// group, nothing is left, neither its cells nor its metadata, and every other board keeps all of
/// both.
pub proof fn deletions_are_whole(id: String, board_id: Seq<char>, t: Tables)
    requires
        t.objects.dom().contains(board_id),
    ensures
        ({
            let after = (Statement::DeleteBoard { id }).apply(t);
            if board_id == id@ && t.objects[board_id].kind is Whiteboard {
                nothing_left_of(board_id, after)
            } else {
                all_kept_of(board_id, t, after)
            }
        }),
        ({
            let after = (Statement::DeleteObjectsOfWorkspace { workspace_id: id }).apply(t);
            if t.objects[board_id].workspace_id == Some(id@) {
                nothing_left_of(board_id, after)
            } else {
                all_kept_of(board_id, t, after)
            }
        }),
        ({
            let after = (Statement::DeleteObjectsOfGroup { group_id: id }).apply(t);
            if t.objects[board_id].group_id == Some(id@) {
                nothing_left_of(board_id, after)
            } else {
                all_kept_of(board_id, t, after)
            }
        }),
{
    lemma_drop_is_whole(
        t,
        |k: Seq<char>, o: ObjectRow| k == id@ && o.kind is Whiteboard,
        board_id,
    );
    lemma_drop_is_whole(
        t,
        |k: Seq<char>, o: ObjectRow| o.workspace_id == Some(id@),
        board_id,
    );
    lemma_drop_is_whole(t, |k: Seq<char>, o: ObjectRow| o.group_id == Some(id@), board_id);
}

/// The labels of a board as they are read: none where the board has no metadata.
pub open spec fn labels_read(t: Tables, board_id: Seq<char>) -> Seq<Seq<char>> {
    if t.metadata.dom().contains(board_id) {
        json::stored_list(t.metadata[board_id].labels)
    } else {
        Seq::empty()
    }
}

/// Whether a change gives a board these labels: it sets them, or sets them where there is a row and
/// there are none otherwise.
pub open spec fn gives_labels(
    change: Statement,
    board_id: Seq<char>,
    labels: Seq<Seq<char>>,
    t: Tables,
) -> bool {
    match change {
        Statement::SetLabels { board_id: b, labels: text } => b@ == board_id && json::stored_list(
            text@,
        ) == labels,
        Statement::UpdateLabels { board_id: b, labels: text } => {
            &&& b@ == board_id
            &&& json::stored_list(text@) == labels
            &&& t.metadata.dom().contains(board_id) || labels == Seq::<Seq<char>>::empty()
        },
        _ => false,
    }
}

/// A node that changes the labels of a board and a peer that hears of it read the same labels,
/// whatever labels either had before.
pub proof fn peers_read_the_same_labels(
    change: Statement,
    board_id: String,
    labels: Vec<String>,
    heard_at: i64,
    heard: Seq<Statement>,
    here: Tables,
    there: Tables,
)
    requires
        gives_labels(change, board_id@, collections::texts(labels@), here),
        gossip::statements_for(
            NetworkEvent::BoardLabelsUpdated { board_id, labels },
            heard_at,
            heard,
        ),
    ensures
        labels_read(change.apply(here), board_id@) == collections::texts(labels@),
        labels_read(tables::apply_all(heard, there), board_id@) == collections::texts(labels@),
{
    assert(heard =~= seq![heard[0]]);
    lemma_apply_one(heard[0], there);
}

/// Hearing of a group: a new one is stored as it was told, a renamed one has the new name and keeps
/// all else, and a group that is already here, or is not, is left alone. Nothing else changes.
pub proof fn hearing_of_a_group(
    g: Group,
    name: String,
    now: i64,
    created: Vec<Statement>,
    renamed: Vec<Statement>,
    t: Tables,
)
    requires
        call_ensures(gossip::event_statements, (&NetworkEvent::GroupCreated(g), now), created),
        call_ensures(gossip::event_statements, (&NetworkEvent::GroupRenamed { id: g.id, name }, now), renamed),
    ensures
        ({
            let after = tables::apply_all(created@, t);
            &&& after == Tables { groups: after.groups, ..t }
            &&& after.groups.dom() == t.groups.dom().insert(g.id@)
            &&& forall|k: Seq<char>| #[trigger]
                t.groups.dom().contains(k) ==> after.groups[k] == t.groups[k]
            &&& !t.groups.dom().contains(g.id@) ==> {
                &&& after.groups[g.id@].id == g.id
                &&& after.groups[g.id@].name == g.name
                &&& after.groups[g.id@].icon == g.icon
                &&& after.groups[g.id@].color == g.color
                &&& after.groups[g.id@].created_at == g.created_at
            }
        }),
        ({
            let after = tables::apply_all(renamed@, t);
            &&& after == Tables { groups: after.groups, ..t }
            &&& after.groups.dom() == t.groups.dom()
            &&& forall|k: Seq<char>| #[trigger]
                t.groups.dom().contains(k) ==> after.groups[k] == if k == g.id@ {
                    Group { name, ..t.groups[k] }
                } else {
                    t.groups[k]
                }
        }),
{
    assert(created@ =~= seq![created@[0]]);
    assert(renamed@ =~= seq![renamed@[0]]);
    lemma_apply_one(created@[0], t);
    lemma_apply_one(renamed@[0], t);
    assert(tables::apply_all(created@, t).groups.dom() =~= t.groups.dom().insert(g.id@));
    assert(tables::apply_all(renamed@, t).groups.dom() =~= t.groups.dom());
}

/// Hearing of a workspace: a new one is stored as it was told, and a renamed one has the new name
/// and keeps all else. Nothing else changes.
pub proof fn hearing_of_a_workspace(
    w: Workspace,
    name: String,
    now: i64,
    created: Vec<Statement>,
    renamed: Vec<Statement>,
    t: Tables,
)
    requires
        call_ensures(gossip::event_statements, (&NetworkEvent::WorkspaceCreated(w), now), created),
        call_ensures(gossip::event_statements, (&NetworkEvent::WorkspaceRenamed { id: w.id, name }, now), renamed),
    ensures
        ({
            let after = tables::apply_all(created@, t);
            &&& after == Tables { workspaces: after.workspaces, ..t }
            &&& after.workspaces.dom() == t.workspaces.dom().insert(w.id@)
            &&& forall|k: Seq<char>| #[trigger]
                t.workspaces.dom().contains(k) ==> after.workspaces[k] == t.workspaces[k]
            &&& !t.workspaces.dom().contains(w.id@) ==> {
                &&& after.workspaces[w.id@].id == w.id
                &&& after.workspaces[w.id@].group_id == w.group_id
                &&& after.workspaces[w.id@].name == w.name
                &&& after.workspaces[w.id@].created_at == w.created_at
            }
        }),
        ({
            let after = tables::apply_all(renamed@, t);
            &&& after == Tables { workspaces: after.workspaces, ..t }
            &&& after.workspaces.dom() == t.workspaces.dom()
            &&& forall|k: Seq<char>| #[trigger]
                t.workspaces.dom().contains(k) ==> after.workspaces[k] == if k == w.id@ {
                    Workspace { name, ..t.workspaces[k] }
                } else {
                    t.workspaces[k]
                }
        }),
{
    assert(created@ =~= seq![created@[0]]);
    assert(renamed@ =~= seq![renamed@[0]]);
    lemma_apply_one(created@[0], t);
    lemma_apply_one(renamed@[0], t);
    assert(tables::apply_all(created@, t).workspaces.dom() =~= t.workspaces.dom().insert(w.id@));
    assert(tables::apply_all(renamed@, t).workspaces.dom() =~= t.workspaces.dom());
}

/// Whether an object row holds a board with these values and nothing else.
pub open spec fn holds_board(
    o: ObjectRow,
    workspace_id: Seq<char>,
    name: Seq<char>,
    created_at: i64,
) -> bool {
    &&& o.kind is Whiteboard
    &&& o.workspace_id == Some(workspace_id)
    &&& o.name@ == name
    &&& o.created_at == created_at
    &&& o.board_mode == Some("canvas"@)
    &&& o.group_id is None
    &&& o.board_id is None
    &&& o.hash is None
    &&& o.data is None
}

/// Whether an object row holds a chat message with these values.
pub open spec fn holds_chat(
    o: ObjectRow,
    workspace_id: Seq<char>,
    message: Seq<char>,
    author: Seq<char>,
    parent_id: Option<String>,
    timestamp: i64,
) -> bool {
    &&& o.kind is Chat
    &&& o.workspace_id == Some(workspace_id)
    &&& o.name@ == message
    &&& o.hash matches Some(h) && h@ == author
    &&& o.data == (match parent_id {
        Some(p) => Some(encode_utf8(p@)),
        None => None,
    })
    &&& o.created_at == timestamp
}

/// Whether nothing changed but that a row that was free is taken.
pub open spec fn only_object_added(before: Tables, after: Tables, id: Seq<char>) -> bool {
    &&& after == Tables { objects: after.objects, ..before }
    &&& after.objects.dom() == before.objects.dom().insert(id)
    &&& forall|k: Seq<char>| #[trigger]
        before.objects.dom().contains(k) ==> after.objects[k] == before.objects[k]
}

/// Hearing of a board: a new one is stored with the name, the workspace and the time that were told,
/// and a renamed one has the new name and keeps all else.
pub proof fn hearing_of_a_board(
    id: String,
    workspace_id: String,
    name: String,
    created_at: i64,
    now: i64,
    created: Vec<Statement>,
    renamed: Vec<Statement>,
    t: Tables,
)
    requires
        call_ensures(gossip::event_statements, (&NetworkEvent::BoardCreated { id, workspace_id, name, created_at }, now), created),
        call_ensures(gossip::event_statements, (&NetworkEvent::BoardRenamed { id, name }, now), renamed),
    ensures
        ({
            let after = tables::apply_all(created@, t);
            &&& only_object_added(t, after, id@)
            &&& !t.objects.dom().contains(id@) ==> holds_board(
                after.objects[id@],
                workspace_id@,
                name@,
                created_at,
            )
        }),
        ({
            let after = tables::apply_all(renamed@, t);
            &&& after == Tables { objects: after.objects, ..t }
            &&& after.objects.dom() == t.objects.dom()
            &&& forall|k: Seq<char>| #[trigger]
                t.objects.dom().contains(k) ==> after.objects[k] == if k == id@
                    && t.objects[k].kind is Whiteboard {
                    ObjectRow { name, ..t.objects[k] }
                } else {
                    t.objects[k]
                }
        }),
{
    assert(created@ =~= seq![created@[0]]);
    assert(renamed@ =~= seq![renamed@[0]]);
    lemma_apply_one(created@[0], t);
    lemma_apply_one(renamed@[0], t);
    assert(tables::apply_all(created@, t).objects.dom() =~= t.objects.dom().insert(id@));
    assert(tables::apply_all(renamed@, t).objects.dom() =~= t.objects.dom());
}

/// Hearing of a chat message: its text, author, parent, workspace and time are those that were told.
pub proof fn hearing_of_a_chat_message(
    id: String,
    workspace_id: String,
    message: String,
    author: String,
    parent_id: Option<String>,
    timestamp: i64,
    now: i64,
    sent: Vec<Statement>,
    t: Tables,
)
    requires
        call_ensures(gossip::event_statements, (&NetworkEvent::ChatSent { id, workspace_id, message, author, parent_id, timestamp }, now), sent),
    ensures
        ({
            let after = tables::apply_all(sent@, t);
            &&& only_object_added(t, after, id@)
            &&& !t.objects.dom().contains(id@) ==> holds_chat(
                after.objects[id@],
                workspace_id@,
                message@,
                author@,
                parent_id,
                timestamp,
            )
        }),
{
    assert(sent@ =~= seq![sent@[0]]);
    lemma_apply_one(sent@[0], t);
    assert(tables::apply_all(sent@, t).objects.dom() =~= t.objects.dom().insert(id@));
}

/// Hearing of a file: it is known with the name, the hash, the size, the source and the place that
/// were told, and its content is not here.
pub proof fn hearing_of_a_file(
    id: String,
    group_id: Option<String>,
    workspace_id: Option<String>,
    board_id: Option<String>,
    name: String,
    hash: String,
    size: u64,
    source_peer: String,
    created_at: i64,
    now: i64,
    told: Vec<Statement>,
    t: Tables,
)
    requires
        call_ensures(gossip::event_statements, (&NetworkEvent::FileAvailable {
                id,
                group_id,
                workspace_id,
                board_id,
                name,
                hash,
                size,
                source_peer,
                created_at,
            }, now), told),
    ensures
        ({
            let after = tables::apply_all(told@, t);
            &&& only_object_added(t, after, id@)
            &&& !t.objects.dom().contains(id@) ==> {
                let o = after.objects[id@];
                &&& o.kind is File
                &&& o.group_id == tables::opt_text(group_id)
                &&& o.workspace_id == tables::opt_text(workspace_id)
                &&& o.board_id == tables::opt_text(board_id)
                &&& o.name == name
                &&& o.hash == Some(hash)
                &&& o.size == Some(size as i64)
                &&& o.source_peer == Some(source_peer)
                &&& o.local_path is None
                &&& o.data is None
                &&& o.created_at == created_at
            }
        }),
{
    assert(told@ =~= seq![told@[0]]);
    lemma_apply_one(told@[0], t);
    assert(tables::apply_all(told@, t).objects.dom() =~= t.objects.dom().insert(id@));
}

/// Hearing of a deletion: what was named is gone and nothing of another kind or name is. A deleted
/// group takes its workspaces and the objects that name it along, a deleted workspace its objects.
pub proof fn hearing_of_a_deletion(
    id: String,
    now: i64,
    group: Vec<Statement>,
    workspace: Vec<Statement>,
    board: Vec<Statement>,
    chat: Vec<Statement>,
    t: Tables,
)
    requires
        call_ensures(gossip::event_statements, (&NetworkEvent::GroupDeleted { id }, now), group),
        call_ensures(gossip::event_statements, (&NetworkEvent::WorkspaceDeleted { id }, now), workspace),
        call_ensures(gossip::event_statements, (&NetworkEvent::BoardDeleted { id }, now), board),
        call_ensures(gossip::event_statements, (&NetworkEvent::ChatDeleted { id }, now), chat),
    ensures
        ({
            let after = tables::apply_all(group@, t);
            &&& forall|k: Seq<char>| #[trigger]
                after.groups.dom().contains(k) <==> t.groups.dom().contains(k) && k != id@
            &&& forall|k: Seq<char>| #[trigger]
                after.workspaces.dom().contains(k) <==> t.workspaces.dom().contains(k)
                    && t.workspaces[k].group_id@ != id@
            &&& forall|k: Seq<char>| #[trigger]
                after.objects.dom().contains(k) <==> t.objects.dom().contains(k)
                    && t.objects[k].group_id != Some(id@)
            &&& rows_kept(t, after)
        }),
        ({
            let after = tables::apply_all(workspace@, t);
            &&& after.groups == t.groups
            &&& forall|k: Seq<char>| #[trigger]
                after.workspaces.dom().contains(k) <==> t.workspaces.dom().contains(k) && k != id@
            &&& forall|k: Seq<char>| #[trigger]
                after.objects.dom().contains(k) <==> t.objects.dom().contains(k)
                    && t.objects[k].workspace_id != Some(id@)
            &&& rows_kept(t, after)
        }),
        ({
            let after = tables::apply_all(board@, t);
            &&& after.groups == t.groups
            &&& after.workspaces == t.workspaces
            &&& forall|k: Seq<char>| #[trigger]
                after.objects.dom().contains(k) <==> t.objects.dom().contains(k) && !(k == id@
                    && t.objects[k].kind is Whiteboard)
            &&& rows_kept(t, after)
        }),
        ({
            let after = tables::apply_all(chat@, t);
            &&& after.groups == t.groups
            &&& after.workspaces == t.workspaces
            &&& forall|k: Seq<char>| #[trigger]
                after.objects.dom().contains(k) <==> t.objects.dom().contains(k) && !(k == id@
                    && t.objects[k].kind is Chat)
            &&& rows_kept(t, after)
        }),
{
    assert(group@ =~= seq![group@[0], group@[1], group@[2]]);
    lemma_apply_three(group@[0], group@[1], group@[2], t);
    assert(workspace@ =~= seq![workspace@[0], workspace@[1]]);
    lemma_apply_two(workspace@[0], workspace@[1], t);
    assert(board@ =~= seq![board@[0]]);
    lemma_apply_one(board@[0], t);
    assert(chat@ =~= seq![chat@[0]]);
    lemma_apply_one(chat@[0], t);
}

/// Whether every group, workspace and object that is still there is as it was.
pub open spec fn rows_kept(before: Tables, after: Tables) -> bool {
    &&& forall|k: Seq<char>| #[trigger]
        after.groups.dom().contains(k) ==> after.groups[k] == before.groups[k]
    &&& forall|k: Seq<char>| #[trigger]
        after.workspaces.dom().contains(k) ==> after.workspaces[k] == before.workspaces[k]
    &&& forall|k: Seq<char>| #[trigger]
        after.objects.dom().contains(k) ==> after.objects[k] == before.objects[k]
    &&& after.elements == before.elements
    &&& after.profiles == before.profiles
    &&& after.messages == before.messages
}

/// A peer that hears of a saved element holds it: one that had no such element holds every value of
/// it, and one that had it holds every value but the time of creation, which stays its own, and keeps
/// it in its cell. Nothing else changes.
pub proof fn hearing_of_a_saved_element(
    e: ElementRecord,
    group_id: String,
    told_new: NetworkEvent,
    told_changed: NetworkEvent,
    heard_at: i64,
    added: Vec<Statement>,
    updated: Vec<Statement>,
    t: Tables,
)
    requires
        call_ensures(
            element::element_saved,
            (e, true, group_id),
            Some(NetworkCommand::Broadcast { group_id, event: told_new }),
        ),
        call_ensures(
            element::element_saved,
            (e, false, group_id),
            Some(NetworkCommand::Broadcast { group_id, event: told_changed }),
        ),
        call_ensures(gossip::event_statements, (&told_new, heard_at), added),
        call_ensures(gossip::event_statements, (&told_changed, heard_at), updated),
    ensures
        ({
            let after = tables::apply_all(added@, t);
            &&& after == Tables { elements: after.elements, ..t }
            &&& after.elements.dom() == t.elements.dom().insert(e.id@)
            &&& forall|k: Seq<char>| #[trigger]
                t.elements.dom().contains(k) ==> after.elements[k] == t.elements[k]
            &&& !t.elements.dom().contains(e.id@) ==> {
                &&& same_drawing(after.elements[e.id@].element, e)
                &&& after.elements[e.id@].element.id == e.id
                &&& after.elements[e.id@].element.created_at == e.created_at
                &&& after.elements[e.id@].cell_id is None
            }
        }),
        ({
            let after = tables::apply_all(updated@, t);
            &&& after == Tables { elements: after.elements, ..t }
            &&& after.elements.dom() == t.elements.dom()
            &&& forall|k: Seq<char>| #[trigger]
                t.elements.dom().contains(k) && k != e.id@ ==> after.elements[k] == t.elements[k]
            &&& t.elements.dom().contains(e.id@) ==> {
                &&& same_drawing(after.elements[e.id@].element, e)
                &&& after.elements[e.id@].element.created_at == t.elements[e.id@].element.created_at
                &&& after.elements[e.id@].cell_id == t.elements[e.id@].cell_id
            }
        }),
{
    assert(added@ =~= seq![added@[0]]);
    assert(updated@ =~= seq![updated@[0]]);
    lemma_apply_one(added@[0], t);
    lemma_apply_one(updated@[0], t);
    assert(tables::apply_all(added@, t).elements.dom() =~= t.elements.dom().insert(e.id@));
    assert(tables::apply_all(updated@, t).elements.dom() =~= t.elements.dom());
}

/// Whether two elements look the same: all but their identifiers and times of creation.
pub open spec fn same_drawing(a: ElementRecord, b: ElementRecord) -> bool {
    &&& a.board_id == b.board_id
    &&& a.element_type == b.element_type
    &&& a.x == b.x
    &&& a.y == b.y
    &&& a.width == b.width
    &&& a.height == b.height
    &&& a.z_index == b.z_index
    &&& a.style_json == b.style_json
    &&& a.content_json == b.content_json
    &&& a.updated_at == b.updated_at
}

/// A peer that has a cell and hears that it was saved holds its content, output, type, place, layout
/// and metadata, on its own board and with its own time of creation; one that had no such cell and
/// hears of a new one holds its content, type, place and board, without output and layout. Nothing
/// else changes.
pub proof fn hearing_of_a_saved_cell(
    c: CellRecord,
    group_id: String,
    told_new: NetworkEvent,
    told_changed: NetworkEvent,
    heard_at: i64,
    added: Vec<Statement>,
    updated: Vec<Statement>,
    t: Tables,
)
    requires
        call_ensures(
            element::cell_saved,
            (c, true, group_id),
            Some(NetworkCommand::Broadcast { group_id, event: told_new }),
        ),
        call_ensures(
            element::cell_saved,
            (c, false, group_id),
            Some(NetworkCommand::Broadcast { group_id, event: told_changed }),
        ),
        call_ensures(gossip::event_statements, (&told_new, heard_at), added),
        call_ensures(gossip::event_statements, (&told_changed, heard_at), updated),
    ensures
        ({
            let after = tables::apply_all(added@, t);
            &&& after == Tables { cells: after.cells, ..t }
            &&& after.cells.dom() == t.cells.dom().insert(c.id@)
            &&& forall|k: Seq<char>| #[trigger]
                t.cells.dom().contains(k) ==> after.cells[k] == t.cells[k]
            &&& !t.cells.dom().contains(c.id@) ==> {
                let row = after.cells[c.id@];
                &&& row.id == c.id
                &&& row.board_id == c.board_id
                &&& row.cell_type == c.cell_type
                &&& row.cell_order == c.cell_order
                &&& row.content == c.content
                &&& row.output is None
                &&& !row.collapsed
                &&& row.height is None
                &&& row.metadata_json is None
                &&& row.created_at == heard_at
                &&& row.updated_at == heard_at
            }
        }),
        ({
            let after = tables::apply_all(updated@, t);
            &&& after == Tables { cells: after.cells, ..t }
            &&& after.cells.dom() == t.cells.dom()
            &&& forall|k: Seq<char>| #[trigger]
                t.cells.dom().contains(k) && k != c.id@ ==> after.cells[k] == t.cells[k]
            &&& t.cells.dom().contains(c.id@) ==> {
                let row = after.cells[c.id@];
                &&& row.id == t.cells[c.id@].id
                &&& row.board_id == t.cells[c.id@].board_id
                &&& row.cell_type == c.cell_type
                &&& row.cell_order == c.cell_order
                &&& row.content == c.content
                &&& row.output == c.output
                &&& row.collapsed == c.collapsed
                &&& row.height == c.height
                &&& row.metadata_json == c.metadata_json
                &&& row.created_at == t.cells[c.id@].created_at
                &&& row.updated_at == heard_at
            }
        }),
{
    assert(added@ =~= seq![added@[0]]);
    assert(updated@ =~= seq![updated@[0]]);
    lemma_apply_one(added@[0], t);
    lemma_apply_one(updated@[0], t);
    assert(tables::apply_all(added@, t).cells.dom() =~= t.cells.dom().insert(c.id@));
    assert(tables::apply_all(updated@, t).cells.dom() =~= t.cells.dom());
}

/// A saved element or cell is stored whole under its identifier, whatever was there before, and no
/// other row of its table changes.
pub proof fn saving_stores_the_whole(
    e: &ElementRecord,
    c: &CellRecord,
    element: Statement,
    cell: Statement,
    t: Tables,
)
    requires
        call_ensures(element::save_element, (e,), element),
        call_ensures(element::save_cell, (c,), cell),
    ensures
        ({
            let after = element.apply(t);
            &&& after == Tables { elements: after.elements, ..t }
            &&& after.elements.dom() == t.elements.dom().insert(e.id@)
            &&& after.elements[e.id@].element == *e
            &&& forall|k: Seq<char>| #[trigger]
                t.elements.dom().contains(k) && k != e.id@ ==> after.elements[k] == t.elements[k]
        }),
        ({
            let after = cell.apply(t);
            &&& after == Tables { cells: after.cells, ..t }
            &&& after.cells.dom() == t.cells.dom().insert(c.id@)
            &&& after.cells[c.id@] == *c
            &&& forall|k: Seq<char>| #[trigger]
                t.cells.dom().contains(k) && k != c.id@ ==> after.cells[k] == t.cells[k]
        }),
{
    assert(element.apply(t).elements.dom() =~= t.elements.dom().insert(e.id@));
    assert(cell.apply(t).cells.dom() =~= t.cells.dom().insert(c.id@));
}

/// Hearing that an element or a cell was deleted, or a whiteboard cleared: just those rows are gone.
pub proof fn hearing_of_removed_content(
    id: String,
    board_id: String,
    now: i64,
    element: Vec<Statement>,
    cleared: Vec<Statement>,
    cell: Vec<Statement>,
    t: Tables,
)
    requires
        call_ensures(gossip::event_statements, (&NetworkEvent::WhiteboardElementDeleted { id, board_id }, now), element),
        call_ensures(gossip::event_statements, (&NetworkEvent::WhiteboardCleared { board_id }, now), cleared),
        call_ensures(gossip::event_statements, (&NetworkEvent::NotebookCellDeleted { id, board_id }, now), cell),
    ensures
        tables::apply_all(element@, t) == (Tables { elements: t.elements.remove(id@), ..t }),
        tables::apply_all(cell@, t) == (Tables { cells: t.cells.remove(id@), ..t }),
        ({
            let after = tables::apply_all(cleared@, t);
            &&& after == Tables { elements: after.elements, ..t }
            &&& forall|k: Seq<char>| #[trigger]
                after.elements.dom().contains(k) <==> t.elements.dom().contains(k)
                    && t.elements[k].element.board_id@ != board_id@
            &&& forall|k: Seq<char>| #[trigger]
                after.elements.dom().contains(k) ==> after.elements[k] == t.elements[k]
        }),
{
    assert(element@ =~= seq![element@[0]]);
    assert(cleared@ =~= seq![cleared@[0]]);
    assert(cell@ =~= seq![cell@[0]]);
    lemma_apply_one(element@[0], t);
    lemma_apply_one(cleared@[0], t);
    lemma_apply_one(cell@[0], t);
}

/// Hearing how a board is shown: its mode, rating, labels and other metadata become those that were
/// told, and what was not told stays: the views, the type, the last visit and the pin. A profile that
/// was told is shown online; without an avatar the one that was known stays.
pub proof fn hearing_of_metadata(
    board_id: String,
    mode: String,
    rating: i32,
    labels: Vec<String>,
    skills: Vec<String>,
    model: Option<String>,
    now: i64,
    moded: Vec<Statement>,
    rated: Vec<Statement>,
    labelled: Vec<Statement>,
    described: Vec<Statement>,
    t: Tables,
)
    requires
        call_ensures(gossip::event_statements, (&NetworkEvent::BoardModeChanged { board_id, mode }, now), moded),
        call_ensures(gossip::event_statements, (&NetworkEvent::BoardRated { board_id, rating }, now), rated),
        call_ensures(gossip::event_statements, (&NetworkEvent::BoardLabelsUpdated { board_id, labels }, now), labelled),
        call_ensures(gossip::event_statements, (&NetworkEvent::BoardMetadataUpdated {
                board_id,
                labels,
                rating,
                contains_model: model,
                contains_skills: skills,
            }, now), described),
    ensures
        ({
            let after = tables::apply_all(moded@, t);
            &&& after == Tables { objects: after.objects, ..t }
            &&& after.objects.dom() == t.objects.dom()
            &&& forall|k: Seq<char>| #[trigger]
                t.objects.dom().contains(k) ==> after.objects[k] == if k == board_id@ {
                    ObjectRow { board_mode: Some(mode@), ..t.objects[k] }
                } else {
                    t.objects[k]
                }
        }),
        ({
            let before = tables::metadata_of(t.metadata, board_id@);
            let after = tables::apply_all(rated@, t);
            let row = after.metadata[board_id@];
            &&& only_metadata_of(board_id@, t, after)
            &&& row.rating == rating
            &&& row == MetadataRow { rating: row.rating, ..before }
        }),
        ({
            let before = tables::metadata_of(t.metadata, board_id@);
            let after = tables::apply_all(labelled@, t);
            let row = after.metadata[board_id@];
            &&& only_metadata_of(board_id@, t, after)
            &&& json::stored_list(row.labels) == collections::texts(labels@)
            &&& row == MetadataRow { labels: row.labels, ..before }
        }),
        ({
            let before = tables::metadata_of(t.metadata, board_id@);
            let after = tables::apply_all(described@, t);
            let row = after.metadata[board_id@];
            &&& only_metadata_of(board_id@, t, after)
            &&& row.rating == rating
            &&& json::stored_list(row.labels) == collections::texts(labels@)
            &&& json::stored_list(row.contains_skills) == collections::texts(skills@)
            &&& row.contains_model == model
            &&& row.view_count == before.view_count
            &&& row.board_type == before.board_type
            &&& row.last_accessed == before.last_accessed
            &&& row.is_pinned == before.is_pinned
        }),
{
    assert(moded@ =~= seq![moded@[0]]);
    assert(rated@ =~= seq![rated@[0]]);
    assert(labelled@ =~= seq![labelled@[0]]);
    assert(described@ =~= seq![described@[0]]);
    lemma_apply_one(moded@[0], t);
    lemma_apply_one(rated@[0], t);
    lemma_apply_one(labelled@[0], t);
    lemma_apply_one(described@[0], t);
    assert(tables::apply_all(moded@, t).objects.dom() =~= t.objects.dom());
    assert(tables::apply_all(rated@, t).metadata.dom() =~= t.metadata.dom().insert(board_id@));
    assert(tables::apply_all(labelled@, t).metadata.dom() =~= t.metadata.dom().insert(board_id@));
    assert(tables::apply_all(described@, t).metadata.dom() =~= t.metadata.dom().insert(board_id@));
}

/// Whether nothing changed but the metadata of one board, which is there now.
pub open spec fn only_metadata_of(board_id: Seq<char>, before: Tables, after: Tables) -> bool {
    &&& after == Tables { metadata: after.metadata, ..before }
    &&& after.metadata.dom() == before.metadata.dom().insert(board_id)
    &&& forall|k: Seq<char>| #[trigger]
        before.metadata.dom().contains(k) && k != board_id ==> after.metadata[k]
            == before.metadata[k]
}

/// Hearing of a profile: the peer has the name that was told and is online; its avatar is the one
/// that was told, or where none was told the one that was known; when it was last seen stays. An
/// offer of a snapshot changes nothing.
pub proof fn hearing_of_a_profile(
    node_id: String,
    display_name: String,
    avatar_hash: Option<String>,
    source: String,
    group_id: String,
    now: i64,
    told: Vec<Statement>,
    offered: Vec<Statement>,
    t: Tables,
)
    requires
        call_ensures(gossip::event_statements, (&NetworkEvent::ProfileUpdated { node_id, display_name, avatar_hash }, now), told),
        call_ensures(gossip::event_statements, (&NetworkEvent::GroupSnapshotAvailable { source, group_id }, now), offered),
    ensures
        ({
            let after = tables::apply_all(told@, t);
            let row = after.profiles[node_id@];
            &&& after == Tables { profiles: after.profiles, ..t }
            &&& after.profiles.dom() == t.profiles.dom().insert(node_id@)
            &&& forall|k: Seq<char>| #[trigger]
                t.profiles.dom().contains(k) && k != node_id@ ==> after.profiles[k]
                    == t.profiles[k]
            &&& row.display_name == Some(display_name)
            &&& row.status == "online"@
            &&& row.updated_at == now
            &&& avatar_hash is Some ==> row.avatar_hash == avatar_hash
            &&& avatar_hash is None && t.profiles.dom().contains(node_id@) ==> row.avatar_hash
                == t.profiles[node_id@].avatar_hash
            &&& t.profiles.dom().contains(node_id@) ==> row.last_seen
                == t.profiles[node_id@].last_seen
        }),
        tables::apply_all(offered@, t) == t,
{
    assert(told@ =~= seq![told@[0]]);
    lemma_apply_one(told@[0], t);
    assert(tables::apply_all(told@, t).profiles.dom() =~= t.profiles.dom().insert(node_id@));
}

} // verus!
