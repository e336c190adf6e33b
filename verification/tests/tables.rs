use cyan_backend::gossip::{event_statements, place_cells};
use cyan_backend::model::{BoardMetadata, ChatDTO, Group, NetworkEvent, Real, SwiftEvent, Workspace};
use cyan_backend::snapshot::{
    assemble, build_group_snapshot, demo_statements, placeholders, read_binding, read_file,
    read_metadata, restore, seed_demo_if_empty, workspace_filter, BindingRow, FileRow, MetadataRead,
    SnapshotRows, TreeSnapshotDTO,
};
use cyan_backend::json::Json;
use cyan_backend::tables::{OnConflict, Statement};

fn s(x: &str) -> String {
    x.to_string()
}

fn group() -> Group {
    Group { id: s("g"), name: s("G"), icon: s("i"), color: s("c"), created_at: 1 }
}

fn workspace(id: &str) -> Workspace {
    Workspace { id: s(id), group_id: s("g"), name: s("W"), created_at: 2 }
}

#[test]
fn events_of_peers_become_statements() {
    assert!(matches!(
        &event_statements(&NetworkEvent::GroupCreated(group()), 9)[..],
        [Statement::InsertGroup(g, OnConflict::Ignore)] if g.id == "g"
    ));
    assert_eq!(
        event_statements(&NetworkEvent::BoardRenamed { id: s("b"), name: s("n") }, 9),
        vec![Statement::RenameBoard { id: s("b"), name: s("n") }]
    );
    assert_eq!(
        event_statements(&NetworkEvent::WhiteboardCleared { board_id: s("b") }, 9),
        vec![Statement::ClearElements { board_id: s("b") }]
    );
    let added = NetworkEvent::WhiteboardElementAdded {
        id: s("e"),
        board_id: s("b"),
        element_type: s("rectangle"),
        x: Real { bits: 0 },
        y: Real { bits: 0 },
        width: Real { bits: 1 },
        height: Real { bits: 1 },
        z_index: 4,
        style_json: None,
        content_json: None,
        created_at: 5,
        updated_at: 6,
    };
    assert!(matches!(
        &event_statements(&added, 9)[..],
        [Statement::InsertElement(e, _)] if e.z_index == 4 && e.created_at == 5
    ));
}

#[test]
fn hearing_an_event_twice_gives_the_same_statements() {
    let event = NetworkEvent::GroupRenamed { id: s("g"), name: s("n") };
    assert_eq!(event_statements(&event, 3), event_statements(&event, 3));
}

#[test]
fn cells_are_placed_in_order() {
    assert_eq!(
        place_cells(&s("b"), &vec![s("x"), s("y")], 7),
        vec![
            Statement::PlaceCell { id: s("x"), board_id: s("b"), cell_order: 0, updated_at: 7 },
            Statement::PlaceCell { id: s("y"), board_id: s("b"), cell_order: 1, updated_at: 7 },
        ]
    );
}

fn rows() -> SnapshotRows {
    SnapshotRows {
        workspaces: vec![workspace("w")],
        whiteboards: vec![],
        group_files: vec![file("f1")],
        workspace_files: vec![file("f2")],
        chats: vec![],
        integrations: vec![],
        board_metadata: vec![],
    }
}

fn file(id: &str) -> FileRow {
    FileRow {
        id: s(id),
        group_id: Some(s("g")),
        workspace_id: None,
        board_id: None,
        name: s("n"),
        hash: s("h"),
        size: 12,
        source_peer: None,
        local_path: None,
        created_at: 3,
    }
}

#[test]
fn a_snapshot_holds_one_group() {
    assert!(build_group_snapshot(None, rows()).is_none());
    let tree = build_group_snapshot(Some(group()), rows()).unwrap();
    assert_eq!(tree.groups.len(), 1);
    assert_eq!(tree.files[0].id, "f1");
    assert_eq!(tree.files[1].id, "f2");
    assert_eq!(tree.files[0].size, 12);
    assert_eq!(assemble(vec![], rows()).groups.len(), 0);
    assert_eq!(read_file(&file("f")).size, 12);
}

#[test]
fn stored_lists_and_configurations_are_read() {
    let m = read_metadata(&MetadataRead {
        board_id: s("b"),
        labels: s(r#"["x"]"#),
        rating: 3,
        view_count: 1,
        contains_model: None,
        contains_skills: s("oops"),
        board_type: s("canvas"),
        last_accessed: 8,
    });
    assert_eq!(m.labels, vec![s("x")]);
    assert!(m.contains_skills.is_empty());
    let binding = |config: &str| BindingRow {
        id: s("i"),
        scope_type: s("group"),
        scope_id: s("g"),
        integration_type: s("jira"),
        config_json: s(config),
        created_at: 4,
    };
    assert!(matches!(read_binding(&binding("{")).config, Json::Null));
    assert_eq!(read_binding(&binding(r#"{"a":"b"}"#)).config.get_str("a"), Some("b"));
}

#[test]
fn workspaces_are_selected_by_marks() {
    assert!(workspace_filter(&vec![]).is_none());
    let f = workspace_filter(&vec![workspace("a"), workspace("b"), workspace("c")]).unwrap();
    assert_eq!(f.placeholders, "?,?,?");
    assert_eq!(f.ids, vec![s("a"), s("b"), s("c")]);
    assert_eq!(placeholders(0), "");
}

#[test]
fn restoring_inserts_without_replacing() {
    let tree = TreeSnapshotDTO {
        groups: vec![group()],
        workspaces: vec![workspace("w")],
        whiteboards: vec![],
        files: vec![],
        chats: vec![ChatDTO {
            id: s("c"),
            workspace_id: s("w"),
            message: s("m"),
            author: s("a"),
            parent_id: None,
            timestamp: 1,
        }],
        integrations: vec![],
        board_metadata: vec![BoardMetadata {
            board_id: s("b"),
            labels: vec![s("x"), s("y")],
            rating: 2,
            view_count: 0,
            contains_model: None,
            contains_skills: vec![],
            board_type: s("canvas"),
            last_accessed: 0,
        }],
    };
    let plan = restore(&tree).unwrap();
    assert_eq!(plan.statements.len(), 4);
    assert!(matches!(&plan.statements[0], Statement::InsertGroup(_, OnConflict::Ignore)));
    assert!(matches!(&plan.statements[2], Statement::InsertChat(_, OnConflict::Ignore)));
    assert!(matches!(
        &plan.statements[3],
        Statement::ReplaceMetadata { labels, .. } if labels == r#"["x","y"]"#
    ));
    assert_eq!(plan.syncing, SwiftEvent::StatusUpdate { message: s("Syncing group 'G'...") });
    assert_eq!(plan.complete, SwiftEvent::StatusUpdate { message: s("Sync complete") });
    assert!(restore(&assemble(vec![], rows())).is_none());
}

#[test]
fn the_demo_is_seeded_into_empty_tables() {
    assert!(seed_demo_if_empty(1, 5).is_none());
    let demo = seed_demo_if_empty(0, 5).unwrap();
    assert_eq!(demo.group.id, blake3::hash(b"demo-group").to_hex().to_string());
    assert_eq!(demo.workspace.group_id, demo.group.id);
    assert_eq!(demo_statements(demo).len(), 3);
}
