use cyan_backend::command::{
    chat_history, command_effects, message_history, plan_command, read_chat, ChatRow, GroupLookup,
    MessageRow, Reading,
};
use cyan_backend::model::{CommandMsg, Effect, NetworkCommand, NetworkEvent, SwiftEvent};
use cyan_backend::tables::{OnConflict, Statement};

fn s(x: &str) -> String {
    x.to_string()
}

#[test]
fn creating_a_group_stores_joins_and_tells() {
    let msg = CommandMsg::CreateGroup { name: s("G"), icon: s("i"), color: s("c") };
    let plan = plan_command(&msg, &s("me"), "t0", 5);
    assert_eq!(plan.lookup, GroupLookup::Nobody);
    assert_eq!(plan.reading, Reading::Nothing);
    assert_eq!(plan.statements.len(), 1);
    match &plan.statements[0] {
        Statement::InsertGroup(g, how) => {
            assert_eq!(g.id, plan.id);
            assert_eq!(g.name, "G");
            assert_eq!(g.created_at, 5);
            assert_eq!(*how, OnConflict::Abort);
        }
        _ => panic!("no group"),
    }
    let effects = command_effects(msg, plan.id.clone(), &s("me"), 5, true, None);
    assert_eq!(effects.len(), 3);
    assert_eq!(
        effects[0],
        Effect::Send(NetworkCommand::JoinGroup { group_id: plan.id.clone() })
    );
    assert!(matches!(
        &effects[1],
        Effect::Send(NetworkCommand::Broadcast { group_id, event: NetworkEvent::GroupCreated(_) })
            if *group_id == plan.id
    ));
    assert!(matches!(
        &effects[2],
        Effect::Emit(SwiftEvent::Network(NetworkEvent::GroupCreated(_)))
    ));
}

#[test]
fn deleting_a_group_clears_what_is_in_it() {
    let msg = CommandMsg::DeleteGroup { id: s("g") };
    let plan = plan_command(&msg, &s("me"), "t", 0);
    assert_eq!(
        plan.statements,
        vec![
            Statement::DeleteObjectsOfGroup { group_id: s("g") },
            Statement::DeleteWorkspacesOfGroup { group_id: s("g") },
            Statement::DeleteGroup { id: s("g") },
        ]
    );
    assert!(command_effects(CommandMsg::DeleteGroup { id: s("g") }, s(""), &s("me"), 0, false, None)
        .is_empty());
    assert_eq!(
        command_effects(msg, s(""), &s("me"), 0, true, None),
        vec![
            Effect::Emit(SwiftEvent::GroupDeleted { id: s("g") }),
            Effect::Send(NetworkCommand::DeleteGroup { id: s("g") }),
        ]
    );
}

#[test]
fn renaming_is_told_only_where_a_row_changed() {
    let msg = || CommandMsg::RenameBoard { id: s("b"), name: s("n") };
    let plan = plan_command(&msg(), &s("me"), "t", 0);
    assert_eq!(plan.lookup, GroupLookup::OfBoard { id: s("b") });
    assert!(command_effects(msg(), s(""), &s("me"), 0, false, Some(s("g"))).is_empty());
    let told = command_effects(msg(), s(""), &s("me"), 0, true, Some(s("g")));
    assert_eq!(told.len(), 2);
    let alone = command_effects(msg(), s(""), &s("me"), 0, true, None);
    assert_eq!(alone.len(), 1);
}

#[test]
fn a_direct_message_is_stored_as_outgoing() {
    let msg = CommandMsg::SendDirectMessage {
        peer_id: s("p"),
        workspace_id: s("w"),
        message: s("hi"),
        parent_id: None,
    };
    let plan = plan_command(&msg, &s("me"), "t", 3);
    match &plan.statements[0] {
        Statement::InsertMessage(m, _) => assert!(m.is_outgoing),
        _ => panic!("no message"),
    }
    let effects = command_effects(msg, plan.id.clone(), &s("me"), 3, true, None);
    assert!(matches!(
        &effects[1],
        Effect::Emit(SwiftEvent::DirectMessageReceived { is_incoming: false, timestamp: 3, .. })
    ));
}

#[test]
fn reading_commands_read() {
    let history = CommandMsg::LoadDirectMessageHistory { peer_id: s("p") };
    assert_eq!(
        plan_command(&history, &s("me"), "t", 0).reading,
        Reading::MessageHistory { peer_id: s("p"), limit: 100 }
    );
    assert_eq!(plan_command(&CommandMsg::Snapshot {}, &s("me"), "t", 0).reading, Reading::Tree);
    assert_eq!(
        plan_command(&CommandMsg::SeedDemoIfEmpty, &s("me"), "t", 0).reading,
        Reading::SeedThenTree
    );
}

#[test]
fn parents_are_read_from_bytes() {
    let row = |parent: Option<Vec<u8>>| ChatRow {
        id: s("c"),
        workspace_id: s("w"),
        message: s("m"),
        author: s("a"),
        parent,
        timestamp: 1,
    };
    assert_eq!(read_chat(&row(Some(b"pid".to_vec()))).parent_id, Some(s("pid")));
    assert_eq!(read_chat(&row(Some(vec![0xff, 0xfe]))).parent_id, None);
    assert_eq!(read_chat(&row(None)).parent_id, None);
    let events = chat_history(&vec![row(None)]);
    assert!(matches!(
        &events[0],
        SwiftEvent::Network(NetworkEvent::ChatSent { id, timestamp: 1, .. }) if id == "c"
    ));
}

#[test]
fn messages_show_their_direction() {
    let row = |is_outgoing: i32| MessageRow {
        id: s("m"),
        peer_id: s("p"),
        message: s("x"),
        is_outgoing,
        timestamp: 2,
    };
    let events = message_history(&vec![row(0), row(1)]);
    assert!(matches!(&events[0], SwiftEvent::DirectMessageReceived { is_incoming: true, .. }));
    assert!(matches!(&events[1], SwiftEvent::DirectMessageReceived { is_incoming: false, .. }));
}
