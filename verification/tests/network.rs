use cyan_backend::actors::make_group_topic_id;
use cyan_backend::model::{NetworkCommand, NetworkEvent, SwiftEvent};
use cyan_backend::network::{lookup_for, NetworkAction, NetworkState};
use cyan_backend::command::GroupLookup;
use cyan_backend::tables::Statement;

fn s(x: &str) -> String {
    x.to_string()
}

#[test]
fn peers_come_and_go() {
    let mut state = NetworkState::new(s("me"));
    assert_eq!(
        state.peer_joined(&s("g"), &s("p")),
        SwiftEvent::PeerJoined { group_id: s("g"), peer_id: s("p") }
    );
    state.peer_joined(&s("g"), &s("p"));
    state.peer_joined(&s("g"), &s("q"));
    state.peer_joined(&s("h"), &s("p"));
    assert_eq!(state.group_peer_count("g"), 2);
    assert_eq!(state.group_peer_count("none"), 0);
    assert_eq!(state.total_peer_count(), 3);
    state.peer_left(&s("g"), &s("p"));
    assert_eq!(state.group_peers("g"), vec![s("q")]);
    assert_eq!(state.total_peer_count(), 2);
}

#[test]
fn discovery_reports_each_new_group_once() {
    let mut state = NetworkState::new(s("me"));
    state.load_groups(vec![s("a")]);
    let new = state.discover(&vec![s("a"), s("b"), s("b"), s("c")]);
    assert_eq!(new, vec![s("b"), s("c")]);
    assert!(state.discover(&vec![s("a"), s("b"), s("c")]).is_empty());
}

#[test]
fn snapshots_are_fetched_where_needed() {
    let mut state = NetworkState::new(s("me"));
    state.discovered_topic_joined(&s("g"));
    assert!(state.needs_snapshot("g"));
    assert_eq!(state.snapshot_requests(), vec![s("g")]);
    let offer = |from: &str| NetworkEvent::GroupSnapshotAvailable { source: s(from), group_id: s("g") };
    assert_eq!(state.receive(offer("me"), false, true).download, None);
    assert_eq!(state.receive(offer("p"), false, false).download, None);
    assert_eq!(state.receive(offer("p"), false, true).download, Some((s("p"), s("g"))));
    state.snapshot_received(&s("g"));
    assert!(!state.needs_snapshot("g"));
    assert_eq!(state.receive(offer("p"), false, true).download, None);
    assert!(state.answers_snapshot_request("p", true));
    assert!(!state.answers_snapshot_request("p", false));
    assert!(!state.answers_snapshot_request("me", true));
}

#[test]
fn a_deleted_group_is_forgotten() {
    let mut state = NetworkState::new(s("me"));
    state.topic_joined(&s("g"));
    let out = state.receive(NetworkEvent::GroupDeleted { id: s("g") }, false, false);
    assert_eq!(out.events.len(), 1);
    assert!(state.topics.contains("g"));
    let out = state.receive(NetworkEvent::GroupDeleted { id: s("g") }, true, false);
    assert_eq!(out.events.len(), 2);
    assert_eq!(out.events[0], SwiftEvent::GroupDeleted { id: s("g") });
    assert!(!state.topics.contains("g"));
}

#[test]
fn commands_become_actions() {
    let mut state = NetworkState::new(s("me"));
    let join = || NetworkCommand::JoinGroup { group_id: s("g") };
    match state.plan(join(), None) {
        NetworkAction::Subscribe { group_id, topic } => {
            assert_eq!(group_id, "g");
            assert_eq!(topic, make_group_topic_id("g"));
        }
        _ => panic!("no subscription"),
    }
    let tell = || NetworkCommand::Broadcast {
        group_id: s("g"),
        event: NetworkEvent::BoardDeleted { id: s("b") },
    };
    assert!(matches!(state.plan(tell(), None), NetworkAction::Nothing));
    state.topic_joined(&s("g"));
    assert!(matches!(state.plan(join(), None), NetworkAction::Nothing));
    assert!(matches!(state.plan(tell(), None), NetworkAction::Publish { .. }));
    let delete = || NetworkCommand::DeleteBoard { id: s("b") };
    assert_eq!(lookup_for(&delete()), GroupLookup::OfBoard { id: s("b") });
    assert!(matches!(
        state.plan(delete(), Some(s("g"))),
        NetworkAction::Publish { event: NetworkEvent::BoardDeleted { .. }, .. }
    ));
    assert!(matches!(state.plan(delete(), Some(s("h"))), NetworkAction::Nothing));
    let chat = || NetworkCommand::SendDirectChat {
        peer_id: s("p"),
        workspace_id: s("w"),
        message: s("m"),
        parent_id: None,
    };
    assert!(matches!(state.plan(chat(), None), NetworkAction::Nothing));
    state.chat_opened(&s("p"), s("w"));
    assert!(matches!(state.plan(chat(), None), NetworkAction::Forward { .. }));
    assert_eq!(state.chat_closed(s("p")), SwiftEvent::ChatStreamClosed { peer_id: s("p") });
    assert!(matches!(state.plan(chat(), None), NetworkAction::Nothing));
}

#[test]
fn uploads_are_hashed_and_announced() {
    let mut state = NetworkState::new(s("me"));
    state.topic_joined(&s("g"));
    let up = state.upload_to_group(s("g"), "/a/b.txt", Some(s("b.txt")), &b"abc".to_vec(), 9);
    assert_eq!(up.hash, "6437b3ac38465133ffb63b75273a8db548c558465d79db03fd359c6cd5bd9d85");
    assert!(matches!(&up.statement, Statement::InsertFile(f, _) if f.size == 3 && f.source_peer == "me"));
    assert!(up.publish.is_some());
    let up = state.upload_to_workspace(s("w"), None, "/", None, &vec![], 9);
    assert_eq!(up.name, "file");
    assert!(up.publish.is_none());
}

#[test]
fn a_group_told_gone_by_discovery_is_forgotten() {
    let mut state = NetworkState::new(s("me"));
    state.load_groups(vec![s("g"), s("h")]);
    state.topic_joined(&s("g"));
    state.topic_joined(&s("h"));
    assert_eq!(state.group_gone(s("g")), SwiftEvent::GroupDeleted { id: s("g") });
    assert!(!state.topics.contains("g"));
    assert!(state.topics.contains("h"));
    assert_eq!(state.groups.list(), vec![s("h")]);
}
