use cyan_backend::board::{
    add_board_label, board_link, board_metadata, board_mode, boards_metadata, label_pattern, metadata_scope,
    pin_board, rate_board, record_board_view, remove_board_label, set_board_labels, set_board_mode,
    set_board_model, set_board_skills, tell_group, top_board_limit, unpin_board, MetadataScope, PinnedRow,
};
use cyan_backend::element::{
    cell_saved, clear_whiteboard, delete_cell, delete_element, element_deleted, element_saved,
    parse_cell, parse_element, reorder_cells, save_cell, save_element,
};
use cyan_backend::model::{NetworkCommand, NetworkEvent};
use cyan_backend::snapshot::MetadataRead;
use cyan_backend::tables::{OnConflict, Statement};

fn s(x: &str) -> String {
    x.to_string()
}

#[test]
fn freeform_is_the_old_name_of_canvas() {
    assert_eq!(board_mode(None), "canvas");
    assert_eq!(board_mode(Some(s("freeform"))), "canvas");
    assert_eq!(board_mode(Some(s("notebook"))), "notebook");
    let change = set_board_mode(&s("b"), "freeform", s("g")).unwrap();
    assert_eq!(change.statement, Statement::SetBoardMode { board_id: s("b"), mode: s("canvas") });
    assert!(change.broadcast.is_some());
    assert!(set_board_mode(&s("b"), "notes", s("")).unwrap().broadcast.is_none());
    assert!(set_board_mode(&s("b"), "sketch", s("g")).is_none());
}

#[test]
fn labels_are_added_once_and_removed() {
    let labels_of = |st: &Statement| match st {
        Statement::SetLabels { labels, .. } | Statement::UpdateLabels { labels, .. } => labels.clone(),
        _ => panic!("no labels"),
    };
    let one = add_board_label(&s("b"), &None, s("x"), s("g"));
    assert_eq!(labels_of(&one.statement), r#"["x"]"#);
    let same = add_board_label(&s("b"), &Some(s(r#"["x"]"#)), s("x"), s("g"));
    assert_eq!(labels_of(&same.statement), r#"["x"]"#);
    let two = add_board_label(&s("b"), &Some(s(r#"["x"]"#)), s("y"), s(""));
    assert_eq!(labels_of(&two.statement), r#"["x","y"]"#);
    assert!(two.broadcast.is_none());
    let back = remove_board_label(&s("b"), &Some(s(r#"["x","y","x"]"#)), "x", s("g"));
    assert_eq!(labels_of(&back.statement), r#"["y"]"#);
    assert!(set_board_labels(&s("b"), &s("{}"), s("g")).is_none());
    assert!(set_board_labels(&s("b"), &s(r#"["q"]"#), s("g")).is_some());
    assert!(matches!(
        one.broadcast,
        Some(NetworkCommand::Broadcast { event: NetworkEvent::BoardLabelsUpdated { .. }, .. })
    ));
}

#[test]
fn ratings_and_limits_are_clamped() {
    let rating = |n: i32| rate_board(&s("b"), n, s("g")).statement;
    assert_eq!(rating(9), Statement::SetRating { board_id: s("b"), rating: 5 });
    assert_eq!(rating(-1), Statement::SetRating { board_id: s("b"), rating: 0 });
    assert_eq!(rating(3), Statement::SetRating { board_id: s("b"), rating: 3 });
    assert_eq!(top_board_limit(0), 10);
    assert_eq!(top_board_limit(7), 7);
    assert_eq!(top_board_limit(99), 50);
}

#[test]
fn links_patterns_and_scopes() {
    assert_eq!(
        board_link(Some((s("g"), s("w"))), "b"),
        "cyan://group/g/workspace/w/board/b"
    );
    assert_eq!(board_link(None, "b"), "cyan://board/b");
    assert_eq!(label_pattern("urgent"), "%\"urgent%");
    assert_eq!(metadata_scope("workspace"), MetadataScope::Workspace);
    assert_eq!(metadata_scope("group"), MetadataScope::Group);
    assert_eq!(metadata_scope("anything"), MetadataScope::All);
    assert!(tell_group(s(""), NetworkEvent::BoardDeleted { id: s("b") }).is_none());
}

#[test]
fn other_metadata() {
    assert_eq!(record_board_view(s("b"), 4), Statement::CountView { board_id: s("b"), now: 4 });
    assert_eq!(
        set_board_model(s("b"), Some(s(""))),
        Statement::SetModel { board_id: s("b"), model: None }
    );
    assert!(set_board_skills(s("b"), s("x")).is_none());
    assert!(set_board_skills(s("b"), s("[]")).is_some());
    assert_eq!(pin_board(s("b")), Statement::PinBoard { board_id: s("b") });
    assert_eq!(unpin_board(s("b")), Statement::UnpinBoard { board_id: s("b") });
    let blank = board_metadata(None, s("b"), Some(s("notes")));
    assert_eq!(blank.metadata.board_type, "notes");
    assert_eq!(blank.metadata.rating, 0);
    assert!(!blank.is_pinned);
}

#[test]
fn a_pinned_board_is_shown_as_pinned() {
    let row = |is_pinned: i32| PinnedRow {
        row: MetadataRead {
            board_id: s("b"),
            labels: s(r#"["x"]"#),
            rating: 4,
            view_count: 2,
            contains_model: None,
            contains_skills: s("[]"),
            board_type: s("canvas"),
            last_accessed: 9,
        },
        is_pinned,
    };
    let one = board_metadata(Some(row(1)), s("other"), None);
    assert_eq!(one.metadata.board_id, "b");
    assert_eq!(one.metadata.labels, vec![s("x")]);
    assert!(one.is_pinned);
    let all = boards_metadata(&vec![row(0), row(1)]);
    assert_eq!(all.iter().map(|m| m.is_pinned).collect::<Vec<bool>>(), vec![false, true]);
    assert_eq!(all[1], one);
}

#[test]
fn an_element_has_defaults() {
    let e = parse_element(r#"{"id":"e","board_id":"b","x":2.5}"#, 77).unwrap();
    assert_eq!(e.element_type, "rectangle");
    assert_eq!(e.x.bits, 2.5f64.to_bits());
    assert_eq!(e.y.bits, 0.0f64.to_bits());
    assert_eq!(e.width.bits, 100.0f64.to_bits());
    assert_eq!(e.created_at, 77);
    assert!(parse_element(r#"{"id":"e"}"#, 0).is_none());
    assert!(parse_element("[", 0).is_none());
    assert!(matches!(save_element(&e), Statement::InsertElement(_, OnConflict::Replace)));
    assert!(matches!(
        element_saved(e, true, s("g")),
        Some(NetworkCommand::Broadcast { event: NetworkEvent::WhiteboardElementAdded { .. }, .. })
    ));
}

#[test]
fn elements_and_boards_are_cleared() {
    assert!(delete_element(&s("")).is_none());
    assert_eq!(delete_element(&s("e")), Some(Statement::DeleteElement { id: s("e") }));
    assert!(element_deleted(s("e"), s(""), s("g")).is_none());
    assert!(element_deleted(s("e"), s("b"), s("g")).is_some());
    assert!(clear_whiteboard(&s(""), s("g")).is_none());
    assert!(clear_whiteboard(&s("b"), s("g")).unwrap().broadcast.is_some());
}

#[test]
fn cells_are_saved_moved_and_deleted() {
    let c = parse_cell(r#"{"id":"c","board_id":"b","collapsed":true,"height":10}"#, 5).unwrap();
    assert_eq!(c.cell_type, "markdown");
    assert!(c.collapsed);
    assert_eq!(c.height.unwrap().bits, 10.0f64.to_bits());
    assert!(matches!(save_cell(&c), Statement::InsertCell(_, OnConflict::Replace)));
    assert!(matches!(
        cell_saved(c, false, s("g")),
        Some(NetworkCommand::Broadcast { event: NetworkEvent::NotebookCellUpdated { .. }, .. })
    ));
    assert!(delete_cell(&s("c"), None).is_none());
    let d = delete_cell(&s("c"), Some((s("b"), s("g")))).unwrap();
    assert_eq!(d.statements[0], Statement::DetachElements { cell_id: s("c") });
    assert_eq!(d.statements[1], Statement::DeleteCell { id: s("c") });
    assert!(reorder_cells(&s("b"), "nope", 1, s("g")).is_none());
    let o = reorder_cells(&s("b"), r#"["y","x"]"#, 1, s("g")).unwrap();
    assert_eq!(o.statements.len(), 2);
    assert!(matches!(
        o.broadcast,
        Some(NetworkCommand::Broadcast { event: NetworkEvent::NotebookCellsReordered { .. }, .. })
    ));
}

#[test]
fn a_peer_stores_the_labels_that_it_is_told() {
    let board = "b".to_string();
    let stored = Some(r#"[ "red" ]"#.to_string());
    let change = add_board_label(&board, &stored, "blue".to_string(), "g".to_string());
    let here = match change.statement {
        Statement::SetLabels { labels, .. } => labels,
        other => panic!("{:?}", other),
    };
    assert_eq!(here, r#"["red","blue"]"#);
    let event = match change.broadcast {
        Some(NetworkCommand::Broadcast { event, .. }) => event,
        other => panic!("{:?}", other),
    };
    let heard = cyan_backend::gossip::event_statements(&event, 5);
    assert_eq!(heard, vec![Statement::SetLabels { board_id: board, labels: here }]);
}
