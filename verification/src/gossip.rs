//! What a node does with the events that peers of a group send it.

use crate::collections;
use crate::json;
use crate::model::NetworkEvent;
use crate::tables::{BoardRecord, CellRecord, ChatRecord, ElementRecord, FileRecord, OnConflict, Statement};
use vstd::prelude::*;
use vstd::string::*;

verus! {

/// The statements by which a received event reaches the tables, for the events whose statements
/// hold nothing but what the event holds.
pub open spec fn event_rows(event: NetworkEvent, now: i64) -> Seq<Statement> {
    match event {
        NetworkEvent::GroupCreated(g) => seq![Statement::InsertGroup(g, OnConflict::Ignore)],
        NetworkEvent::GroupRenamed { id, name } => seq![Statement::RenameGroup { id, name }],
        NetworkEvent::GroupDeleted { id } => seq![
            Statement::DeleteObjectsOfGroup { group_id: id },
            Statement::DeleteWorkspacesOfGroup { group_id: id },
            Statement::DeleteGroup { id },
        ],
        NetworkEvent::WorkspaceCreated(w) => seq![
            Statement::InsertWorkspace(w, OnConflict::Ignore),
        ],
        NetworkEvent::WorkspaceRenamed { id, name } => seq![
            Statement::RenameWorkspace { id, name },
        ],
        NetworkEvent::WorkspaceDeleted { id } => seq![
            Statement::DeleteObjectsOfWorkspace { workspace_id: id },
            Statement::DeleteWorkspace { id },
        ],
        NetworkEvent::BoardCreated { id, workspace_id, name, created_at } => seq![
            Statement::InsertBoard(
                BoardRecord { id, workspace_id, name, created_at },
                OnConflict::Ignore,
            ),
        ],
        NetworkEvent::BoardRenamed { id, name } => seq![Statement::RenameBoard { id, name }],
        NetworkEvent::BoardDeleted { id } => seq![Statement::DeleteBoard { id }],
        NetworkEvent::FileAvailable {
            id,
            group_id,
            workspace_id,
            board_id,
            name,
            hash,
            size,
            source_peer,
            created_at,
        } => seq![
            Statement::InsertFile(
                FileRecord {
                    id,
                    group_id,
                    workspace_id,
                    board_id,
                    name,
                    hash,
                    size: size as i64,
                    source_peer,
                    local_path: None,
                    created_at,
                },
                OnConflict::Ignore,
            ),
        ],
        NetworkEvent::ChatSent { id, workspace_id, message, author, parent_id, timestamp } => seq![
            Statement::InsertChat(
                ChatRecord { id, workspace_id, message, author, parent_id, timestamp },
                OnConflict::Ignore,
            ),
        ],
        NetworkEvent::ChatDeleted { id } => seq![Statement::DeleteChat { id }],
        NetworkEvent::WhiteboardElementAdded {
            id,
            board_id,
            element_type,
            x,
            y,
            width,
            height,
            z_index,
            style_json,
            content_json,
            created_at,
            updated_at,
        } => seq![
            Statement::InsertElement(
                ElementRecord {
                    id,
                    board_id,
                    element_type,
                    x,
                    y,
                    width,
                    height,
                    z_index,
                    style_json,
                    content_json,
                    created_at,
                    updated_at,
                },
                OnConflict::Ignore,
            ),
        ],
        NetworkEvent::WhiteboardElementUpdated {
            id,
            board_id,
            element_type,
            x,
            y,
            width,
            height,
            z_index,
            style_json,
            content_json,
            updated_at,
        } => seq![
            Statement::UpdateElement {
                id,
                board_id,
                element_type,
                x,
                y,
                width,
                height,
                z_index,
                style_json,
                content_json,
                updated_at,
            },
        ],
        NetworkEvent::WhiteboardElementDeleted { id, .. } => seq![Statement::DeleteElement { id }],
        NetworkEvent::WhiteboardCleared { board_id } => seq![Statement::ClearElements { board_id }],
        NetworkEvent::NotebookCellAdded { id, board_id, cell_type, cell_order, content } => seq![
            Statement::InsertCell(
                CellRecord {
                    id,
                    board_id,
                    cell_type,
                    cell_order,
                    content,
                    output: None,
                    collapsed: false,
                    height: None,
                    metadata_json: None,
                    created_at: now,
                    updated_at: now,
                },
                OnConflict::Ignore,
            ),
        ],
        NetworkEvent::NotebookCellUpdated {
            id,
            board_id: _,
            cell_type,
            cell_order,
            content,
            output,
            collapsed,
            height,
            metadata_json,
        } => seq![
            Statement::UpdateCell {
                id,
                cell_type,
                cell_order,
                content,
                output,
                collapsed,
                height,
                metadata_json,
                updated_at: now,
            },
        ],
        NetworkEvent::NotebookCellDeleted { id, .. } => seq![Statement::DeleteCell { id }],
        NetworkEvent::NotebookCellsReordered { board_id, cell_ids } => placings(
            board_id,
            cell_ids@,
            now,
        ),
        NetworkEvent::BoardModeChanged { board_id, mode } => seq![
            Statement::SetBoardMode { board_id, mode },
        ],
        NetworkEvent::BoardRated { board_id, rating } => seq![
            Statement::SetRating { board_id, rating },
        ],
        NetworkEvent::ProfileUpdated { node_id, display_name, avatar_hash } => seq![
            Statement::SetProfile { node_id, display_name, avatar_hash, now },
        ],
        _ => Seq::empty(),
    }
}

/// The statements that give the cells of a board the places that a list of them says.
pub open spec fn placings(board_id: String, cell_ids: Seq<String>, now: i64) -> Seq<Statement> {
    Seq::new(
        cell_ids.len(),
        |i: int|
            Statement::PlaceCell {
                id: cell_ids[i],
                board_id,
                cell_order: (i as usize) as i32,
                updated_at: now,
            },
    )
}

/// Gives the cells of a board the places that a list of them says.
pub fn place_cells(board_id: &String, cell_ids: &Vec<String>, now: i64) -> (r: Vec<Statement>)
    ensures
        r@ == placings(*board_id, cell_ids@, now),
{
    let mut out: Vec<Statement> = Vec::new();
    let mut i: usize = 0;
    while i < cell_ids.len()
        invariant
            i <= cell_ids@.len(),
            out@ == placings(*board_id, cell_ids@, now).take(i as int),
        decreases cell_ids.len() - i,
    {
        out.push(
            Statement::PlaceCell {
                id: cell_ids[i].clone(),
                board_id: board_id.clone(),
                #[verifier::truncate]
                cell_order: i as i32,
                updated_at: now,
            },
        );
        i = i + 1;
    }
    assert(placings(*board_id, cell_ids@, now).take(i as int) =~= placings(
        *board_id,
        cell_ids@,
        now,
    ));
    out
}

/// Whether `statements` are those by which a received event reaches the tables.
pub open spec fn statements_for(event: NetworkEvent, now: i64, statements: Seq<Statement>) -> bool {
    match event {
        NetworkEvent::BoardMetadataUpdated {
            board_id,
            labels,
            rating,
            contains_model,
            contains_skills,
        } => {
            &&& statements.len() == 1
            &&& statements[0] matches Statement::SetMetadata {
                board_id: b,
                labels: l,
                rating: r,
                contains_model: m,
                contains_skills: s,
            }
            &&& b == board_id
            &&& l@ == json::text_list_json(collections::texts(labels@))
            &&& json::stored_list(l@) == collections::texts(labels@)
            &&& r == rating
            &&& m == contains_model
            &&& s@ == json::text_list_json(collections::texts(contains_skills@))
            &&& json::stored_list(s@) == collections::texts(contains_skills@)
        },
        NetworkEvent::BoardLabelsUpdated { board_id, labels } => {
            &&& statements.len() == 1
            &&& statements[0] matches Statement::SetLabels { board_id: b, labels: l }
            &&& b == board_id
            &&& l@ == json::text_list_json(collections::texts(labels@))
            &&& json::stored_list(l@) == collections::texts(labels@)
        },
        _ => statements == event_rows(event, now),
    }
}

/// The statements by which an event that a peer sent reaches the tables.
pub fn event_statements(event: &NetworkEvent, now: i64) -> (r: Vec<Statement>)
    ensures
        statements_for(*event, now, r@),
{
    let mut out: Vec<Statement> = Vec::new();
    match event {
        NetworkEvent::GroupSnapshotAvailable { .. } => {},
        NetworkEvent::GroupCreated(g) => {
            out.push(Statement::InsertGroup(g.clone(), OnConflict::Ignore));
        },
        NetworkEvent::GroupRenamed { id, name } => {
            out.push(Statement::RenameGroup { id: id.clone(), name: name.clone() });
        },
        NetworkEvent::GroupDeleted { id } => {
            out.push(Statement::DeleteObjectsOfGroup { group_id: id.clone() });
            out.push(Statement::DeleteWorkspacesOfGroup { group_id: id.clone() });
            out.push(Statement::DeleteGroup { id: id.clone() });
        },
        NetworkEvent::WorkspaceCreated(w) => {
            out.push(Statement::InsertWorkspace(w.clone(), OnConflict::Ignore));
        },
        NetworkEvent::WorkspaceRenamed { id, name } => {
            out.push(Statement::RenameWorkspace { id: id.clone(), name: name.clone() });
        },
        NetworkEvent::WorkspaceDeleted { id } => {
            out.push(Statement::DeleteObjectsOfWorkspace { workspace_id: id.clone() });
            out.push(Statement::DeleteWorkspace { id: id.clone() });
        },
        NetworkEvent::BoardCreated { id, workspace_id, name, created_at } => {
            let board = BoardRecord {
                id: id.clone(),
                workspace_id: workspace_id.clone(),
                name: name.clone(),
                created_at: *created_at,
            };
            out.push(Statement::InsertBoard(board, OnConflict::Ignore));
        },
        NetworkEvent::BoardRenamed { id, name } => {
            out.push(Statement::RenameBoard { id: id.clone(), name: name.clone() });
        },
        NetworkEvent::BoardDeleted { id } => {
            out.push(Statement::DeleteBoard { id: id.clone() });
        },
        NetworkEvent::FileAvailable {
            id,
            group_id,
            workspace_id,
            board_id,
            name,
            hash,
            size,
            source_peer,
            created_at,
        } => {
            let file = FileRecord {
                id: id.clone(),
                group_id: group_id.clone(),
                workspace_id: workspace_id.clone(),
                board_id: board_id.clone(),
                name: name.clone(),
                hash: hash.clone(),
                #[verifier::truncate]
                size: *size as i64,
                source_peer: source_peer.clone(),
                local_path: None,
                created_at: *created_at,
            };
            out.push(Statement::InsertFile(file, OnConflict::Ignore));
        },
        NetworkEvent::ChatSent { id, workspace_id, message, author, parent_id, timestamp } => {
            let chat = ChatRecord {
                id: id.clone(),
                workspace_id: workspace_id.clone(),
                message: message.clone(),
                author: author.clone(),
                parent_id: parent_id.clone(),
                timestamp: *timestamp,
            };
            out.push(Statement::InsertChat(chat, OnConflict::Ignore));
        },
        NetworkEvent::ChatDeleted { id } => {
            out.push(Statement::DeleteChat { id: id.clone() });
        },
        NetworkEvent::WhiteboardElementAdded {
            id,
            board_id,
            element_type,
            x,
            y,
            width,
            height,
            z_index,
            style_json,
            content_json,
            created_at,
            updated_at,
        } => {
            let element = ElementRecord {
                id: id.clone(),
                board_id: board_id.clone(),
                element_type: element_type.clone(),
                x: *x,
                y: *y,
                width: *width,
                height: *height,
                z_index: *z_index,
                style_json: style_json.clone(),
                content_json: content_json.clone(),
                created_at: *created_at,
                updated_at: *updated_at,
            };
            out.push(Statement::InsertElement(element, OnConflict::Ignore));
        },
        NetworkEvent::WhiteboardElementUpdated {
            id,
            board_id,
            element_type,
            x,
            y,
            width,
            height,
            z_index,
            style_json,
            content_json,
            updated_at,
        } => {
            out.push(
                Statement::UpdateElement {
                    id: id.clone(),
                    board_id: board_id.clone(),
                    element_type: element_type.clone(),
                    x: *x,
                    y: *y,
                    width: *width,
                    height: *height,
                    z_index: *z_index,
                    style_json: style_json.clone(),
                    content_json: content_json.clone(),
                    updated_at: *updated_at,
                },
            );
        },
        NetworkEvent::WhiteboardElementDeleted { id, board_id: _ } => {
            out.push(Statement::DeleteElement { id: id.clone() });
        },
        NetworkEvent::WhiteboardCleared { board_id } => {
            out.push(Statement::ClearElements { board_id: board_id.clone() });
        },
        NetworkEvent::NotebookCellAdded { id, board_id, cell_type, cell_order, content } => {
            let cell = CellRecord {
                id: id.clone(),
                board_id: board_id.clone(),
                cell_type: cell_type.clone(),
                cell_order: *cell_order,
                content: content.clone(),
                output: None,
                collapsed: false,
                height: None,
                metadata_json: None,
                created_at: now,
                updated_at: now,
            };
            out.push(Statement::InsertCell(cell, OnConflict::Ignore));
        },
        NetworkEvent::NotebookCellUpdated {
            id,
            board_id: _,
            cell_type,
            cell_order,
            content,
            output,
            collapsed,
            height,
            metadata_json,
        } => {
            out.push(
                Statement::UpdateCell {
                    id: id.clone(),
                    cell_type: cell_type.clone(),
                    cell_order: *cell_order,
                    content: content.clone(),
                    output: output.clone(),
                    collapsed: *collapsed,
                    height: *height,
                    metadata_json: metadata_json.clone(),
                    updated_at: now,
                },
            );
        },
        NetworkEvent::NotebookCellDeleted { id, board_id: _ } => {
            out.push(Statement::DeleteCell { id: id.clone() });
        },
        NetworkEvent::NotebookCellsReordered { board_id, cell_ids } => {
            out = place_cells(board_id, cell_ids, now);
        },
        NetworkEvent::BoardModeChanged { board_id, mode } => {
            out.push(Statement::SetBoardMode { board_id: board_id.clone(), mode: mode.clone() });
        },
        NetworkEvent::BoardMetadataUpdated {
            board_id,
            labels,
            rating,
            contains_model,
            contains_skills,
        } => {
            out.push(
                Statement::SetMetadata {
                    board_id: board_id.clone(),
                    labels: json::text_list_to_json(labels),
                    rating: *rating,
                    contains_model: contains_model.clone(),
                    contains_skills: json::text_list_to_json(contains_skills),
                },
            );
        },
        NetworkEvent::BoardLabelsUpdated { board_id, labels } => {
            out.push(
                Statement::SetLabels {
                    board_id: board_id.clone(),
                    labels: json::text_list_to_json(labels),
                },
            );
        },
        NetworkEvent::BoardRated { board_id, rating } => {
            out.push(Statement::SetRating { board_id: board_id.clone(), rating: *rating });
        },
        NetworkEvent::ProfileUpdated { node_id, display_name, avatar_hash } => {
            out.push(
                Statement::SetProfile {
                    node_id: node_id.clone(),
                    display_name: display_name.clone(),
                    avatar_hash: avatar_hash.clone(),
                    now,
                },
            );
        },
    }
    proof {
        if !(event is BoardMetadataUpdated || event is BoardLabelsUpdated) {
            assert(out@ =~= event_rows(*event, now));
        }
    }
    out
}

} // verus!
