use cyan_backend::actors::network_actor;
use cyan_backend::files::{
    file_status, parse_file_query, read_scope_text, record_upload, request_file, request_transfer,
    resolve_place, upload_scope, FilePlace, FileQuery, FileRequest, FileStatus, ScopeKind,
    TransferRequest, UploadError,
};
use cyan_backend::invite::{accept_invite, group_look, parse_invite, InviteError};
use cyan_backend::json::parse_json;
use cyan_backend::model::{Effect, NetworkCommand, NetworkEvent, SwiftEvent};
use cyan_backend::profile::{
    choose_avatar, my_profile, set_my_profile, update_peer_status, user_profile, AvatarSource,
};
use cyan_backend::system::{component, run_migrations, Component, EventBuffers, Migration, SchemaProbe};
use cyan_backend::tables::Statement;

fn s(x: &str) -> String {
    x.to_string()
}

#[test]
fn an_upload_goes_where_its_scope_says() {
    let board = upload_scope(&parse_json(r#"{"type":"Board","board_id":"b"}"#).unwrap()).unwrap();
    assert_eq!(board.kind, ScopeKind::Board);
    let place = resolve_place(board, None, Some((s("w"), s("g"))));
    assert_eq!(
        place,
        FilePlace { group_id: Some(s("g")), workspace_id: Some(s("w")), board_id: Some(s("b")) }
    );
    let up = record_upload(place, Some(s("a.txt")), &b"abc".to_vec(), &s("me"), s("/x"), 9).unwrap();
    assert_eq!(up.size, 3);
    assert_eq!(up.file_id, blake3::hash(b"file:g:a.txt:9").to_hex().to_string());
    assert!(matches!(
        up.broadcast,
        NetworkCommand::Broadcast { event: NetworkEvent::FileAvailable { size: 3, .. }, .. }
    ));
    let workspace = upload_scope(&parse_json(r#"{"type":"Workspace","workspace_id":"w"}"#).unwrap());
    let place = resolve_place(workspace.unwrap(), None, None);
    let refused = record_upload(place, None, &vec![], &s("me"), s("/x"), 9);
    assert!(matches!(refused, Err(UploadError::NoGroup)));
    assert_eq!(UploadError::NoGroup.message(), "Could not determine group");
    let unknown = upload_scope(&parse_json(r#"{"type":"Planet"}"#).unwrap());
    assert_eq!(unknown, Err(UploadError::UnknownScope));
    assert_eq!(UploadError::UnknownScope.message(), "Unknown scope type");
}

#[test]
fn a_scope_is_read_from_its_text() {
    let scope = read_scope_text(r#"{"type":"Group","group_id":"g"}"#).unwrap();
    let read = upload_scope(&scope).unwrap();
    assert_eq!(read.kind, ScopeKind::Group);
    assert_eq!(read.id, Some(s("g")));
    let error = serde_json::from_str::<serde_json::Value>("{").unwrap_err().to_string();
    assert_eq!(read_scope_text("{").err(), Some(format!("Invalid scope JSON: {}", error)));
}

#[test]
fn a_transfer_goes_on_where_it_stopped() {
    let info = || Some((s("h"), s("p")));
    let from = |received: Option<i64>| request_transfer(s("f"), info(), false, received);
    for (received, offset) in [(None, 0), (Some(0), 0), (Some(4096), 4096)] {
        match from(received) {
            TransferRequest::Fetch(cmd) => assert_eq!(
                cmd,
                network_actor::NetworkCommand::RequestFileDownload {
                    file_id: s("f"),
                    hash: s("h"),
                    source_peer: s("p"),
                    resume_offset: offset,
                }
            ),
            _ => panic!("nothing to fetch"),
        }
    }
    assert!(matches!(request_transfer(s("f"), None, false, Some(7)), TransferRequest::Unknown));
    assert!(matches!(request_transfer(s("f"), info(), true, Some(7)), TransferRequest::Here));
}

#[test]
fn a_file_is_fetched_unless_it_is_here() {
    assert!(matches!(request_file(s("f"), None, false), FileRequest::Unknown));
    assert!(matches!(request_file(s("f"), Some((s("h"), s("p"))), true), FileRequest::Here));
    assert!(matches!(
        request_file(s("f"), Some((s("h"), s("p"))), false),
        FileRequest::Fetch(NetworkCommand::RequestFileDownload { .. })
    ));
    assert_eq!(file_status(Some(s("/x")), true), FileStatus::Local { local_path: s("/x") });
    assert_eq!(file_status(Some(s("/x")), false), FileStatus::Remote);
    assert_eq!(
        parse_file_query(r#"{"type":"Group","group_id":"g"}"#),
        Some(FileQuery { kind: ScopeKind::Group, id: s("g") })
    );
    assert_eq!(
        parse_file_query(r#"{"type":"Board","id":"x","board_id":"b"}"#),
        Some(FileQuery { kind: ScopeKind::Board, id: s("x") })
    );
    assert_eq!(parse_file_query("{}"), None);
}

#[test]
fn an_invite_names_its_group() {
    let invite = parse_invite(r#"{"group_id":"g","group_name":"G","inviter_node_id":"p"}"#).unwrap();
    assert_eq!(invite.group_icon, "folder.fill");
    assert_eq!(invite.group_color, "#00AEEF");
    assert_eq!(parse_invite(r#"{"group_name":"G"}"#), Err(InviteError::MissingGroupId));
    assert_eq!(parse_invite(r#"{"group_id":"g"}"#), Err(InviteError::MissingGroupName));
    assert_eq!(InviteError::MissingGroupName.message(), "Missing group_name");
    match parse_invite("{") {
        Err(InviteError::Unreadable(e)) => {
            assert_eq!(InviteError::Unreadable(e.clone()).message(), format!("Parse error: {}", e));
            assert_eq!(
                e,
                serde_json::from_str::<serde_json::Value>("{").unwrap_err().to_string()
            );
        }
        _ => panic!("readable"),
    }
    let join = accept_invite(invite, false, 3).unwrap();
    assert_eq!(
        join.command,
        network_actor::NetworkCommand::JoinGroup {
            group_id: s("g"),
            bootstrap_peer: Some(s("p"))
        }
    );
    assert!(matches!(&join.statement, Statement::InsertGroup(g, _) if g.created_at == 3));
    let again = parse_invite(r#"{"group_id":"g","group_name":"G"}"#).unwrap();
    assert!(accept_invite(again, true, 3).is_none());
    assert_eq!(group_look(None, Some(s("red"))), (s("folder.fill"), s("red")));
}

#[test]
fn profiles_have_defaults_and_are_told() {
    assert_eq!(user_profile(None, "n").status, "unknown");
    assert_eq!(my_profile(None, "n").status, "online");
    assert_eq!(
        choose_avatar(AvatarSource::Bytes(b"abc".to_vec())),
        Some(s("6437b3ac38465133ffb63b75273a8db548c558465d79db03fd359c6cd5bd9d85"))
    );
    assert_eq!(choose_avatar(AvatarSource::Unreadable), None);
    assert_eq!(choose_avatar(AvatarSource::Stored(Some(s("h")))), Some(s("h")));
    let change = set_my_profile(&s("me"), &s("Me"), &None, &vec![s("g"), s("h")], 4);
    assert_eq!(change.effects.len(), 3);
    assert!(matches!(
        &change.effects[2],
        Effect::Emit(SwiftEvent::Network(NetworkEvent::ProfileUpdated { .. }))
    ));
    assert_eq!(
        update_peer_status(s("p"), s("away"), 4),
        Statement::SetPeerStatus { node_id: s("p"), status: s("away"), now: 4 }
    );
}

#[test]
fn events_are_polled_in_order() {
    let mut buffers = EventBuffers::new();
    let status = SwiftEvent::StatusUpdate { message: s("x") };
    let insight = SwiftEvent::AIInsight { insight_json: s("{}") };
    buffers.route(&status, s("1"));
    buffers.route(&insight, s("2"));
    buffers.route(&status, s("3"));
    assert_eq!(buffers.poll_events(), Some(s("1")));
    assert_eq!(buffers.poll_events(), Some(s("3")));
    assert_eq!(buffers.poll_events(), None);
    assert_eq!(buffers.poll_integration_events(), Some(s("2")));
    assert_eq!(buffers.poll_integration_events(), None);
    assert!(insight.is_integration_event());
    assert_eq!(component("status"), Some(Component::NetworkStatus));
    assert_eq!(component("elsewhere"), None);
}

#[test]
fn migrations_bring_old_tables_up_to_date() {
    let old = SchemaProbe {
        objects_board_id: false,
        objects_source_peer: false,
        objects_local_path: false,
        elements_cell_id: false,
        objects_board_mode: false,
        board_metadata: false,
        user_profiles: false,
        direct_messages: false,
    };
    let steps = run_migrations(old);
    assert_eq!(steps.len(), 11);
    assert_eq!(steps[0], Migration::AddBoardId);
    assert_eq!(steps[4..6], [Migration::AddBoardMode, Migration::RenameFreeform]);
    assert_eq!(steps[10], Migration::IndexDirectMessages);
    let new = SchemaProbe {
        objects_board_id: true,
        objects_source_peer: true,
        objects_local_path: true,
        elements_cell_id: true,
        objects_board_mode: true,
        board_metadata: true,
        user_profiles: true,
        direct_messages: true,
    };
    assert_eq!(run_migrations(new), vec![Migration::RenameFreeform]);
}
