use cyan_backend::actors::network_actor::{
    message_received, message_sent, serve_file, snapshot_frames, use_peer, Action, DirectMessage,
    DiscoveryCommand, DiscoveryNetworkCmd, NetworkActor, NetworkCommand, PendingTransfer,
    ServableFile, SnapshotContent, TopicCommand, TransferMsg, TransferReply,
};
use cyan_backend::actors::{ActorMessage, TopicNetworkCmd};
use cyan_backend::model::{Group, NetworkEvent};

fn s(x: &str) -> String {
    x.to_string()
}

fn run(actor: &mut NetworkActor, cmd: NetworkCommand) -> Vec<Action> {
    let key = match &cmd {
        NetworkCommand::JoinGroup { bootstrap_peer, .. } => bootstrap_peer.clone(),
        _ => None,
    };
    actor.handle_network_command(cmd, key, Some(s("boot")), None, &vec![], "t", 1)
}

#[test]
fn a_peer_is_used_by_its_key() {
    let mut actor = NetworkActor::new(s("me"));
    let mut peers_for = |named: Option<&str>, key: Option<&str>| {
        let cmd = NetworkCommand::JoinGroup {
            group_id: s("g"),
            bootstrap_peer: named.map(|p| p.to_string()),
        };
        let key = key.map(|k| k.to_string());
        match actor.handle_network_command(cmd, key, Some(s("boot")), None, &vec![], "t", 1).pop() {
            Some(Action::SpawnTopic { peers, .. }) => peers,
            _ => panic!("no actor"),
        }
    };
    assert_eq!(peers_for(Some("not a key"), None), vec![s("boot")]);
    assert_eq!(peers_for(Some("PEER"), Some("peer")), vec![s("peer"), s("boot")]);
    assert_eq!(peers_for(Some("BOOT"), Some("boot")), vec![s("boot")]);
    assert_eq!(peers_for(None, None), vec![s("boot")]);
    assert_eq!(use_peer(&None, Some(s("k"))), None);
}

#[test]
fn joining_starts_one_actor_per_group() {
    let mut actor = NetworkActor::new(s("me"));
    let join = |peer: Option<&str>| NetworkCommand::JoinGroup {
        group_id: s("g"),
        bootstrap_peer: peer.map(|p| p.to_string()),
    };
    match &run(&mut actor, join(Some("p")))[..] {
        [Action::SpawnTopic { group_id, peers }] => {
            assert_eq!(group_id, "g");
            assert_eq!(*peers, vec![s("p"), s("boot")]);
        }
        _ => panic!("no actor"),
    }
    match &run(&mut actor, join(Some("boot")))[..] {
        [Action::SpawnTopic { peers, .. }] => assert_eq!(*peers, vec![s("boot")]),
        _ => panic!("no actor"),
    }
    actor.topic_spawned(&s("g"));
    actor.has_discovery = true;
    let after = run(&mut actor, join(None));
    assert!(matches!(
        &after[0],
        Action::ToTopic { message: ActorMessage::Domain(TopicCommand::RequestSnapshot), .. }
    ));
    assert!(matches!(&after[1], Action::ToDiscovery(DiscoveryCommand::AnnounceGroup(g)) if g == "g"));
}

#[test]
fn leaving_makes_room() {
    let mut actor = NetworkActor::new(s("me"));
    actor.topic_spawned(&s("g"));
    let tell = || NetworkCommand::Broadcast {
        group_id: s("g"),
        event: NetworkEvent::BoardDeleted { id: s("b") },
    };
    assert_eq!(run(&mut actor, tell()).len(), 1);
    run(&mut actor, NetworkCommand::LeaveGroup { id: s("g") });
    assert!(run(&mut actor, tell()).is_empty());
    assert!(!actor.topics.contains("g"));
}

#[test]
fn discovery_adds_peers_to_running_groups() {
    let mut actor = NetworkActor::new(s("me"));
    let found = || DiscoveryNetworkCmd::JoinPeerToTopic { group_id: s("g"), peer: s("p") };
    assert!(actor.handle_discovery_cmd(found()).is_empty());
    actor.topic_spawned(&s("g"));
    assert!(matches!(
        &actor.handle_discovery_cmd(found())[..],
        [Action::ToTopic { message: ActorMessage::Domain(TopicCommand::JoinPeers(peers)), .. }]
            if *peers == vec![s("p")]
    ));
}

#[test]
fn snapshot_needs_are_kept() {
    let mut actor = NetworkActor::new(s("me"));
    actor.handle_topic_network_cmd(TopicNetworkCmd::NeedSnapshot { group_id: s("g") });
    assert!(actor.groups_needing_snapshot.contains("g"));
    actor.handle_topic_network_cmd(TopicNetworkCmd::SnapshotFailed {
        group_id: s("g"),
        reason: s("x"),
    });
    assert!(actor.groups_needing_snapshot.contains("g"));
    actor.handle_topic_network_cmd(TopicNetworkCmd::SnapshotComplete { group_id: s("g") });
    assert!(!actor.groups_needing_snapshot.contains("g"));
}

#[test]
fn pending_transfers_resume_where_they_stopped() {
    let mut actor = NetworkActor::new(s("me"));
    actor.topic_spawned(&s("g"));
    let pending = vec![PendingTransfer {
        file_id: s("f"),
        hash: s("h"),
        source_peer: s("p"),
        bytes_received: 40,
        group_id: Some(s("g")),
    }];
    let actions = actor.handle_network_command(
        NetworkCommand::ResumePendingTransfers,
        None,
        None,
        None,
        &pending,
        "t",
        1,
    );
    assert!(matches!(
        &actions[..],
        [Action::ToTopic {
            message: ActorMessage::Domain(TopicCommand::DownloadFile { resume_offset: 40, .. }),
            ..
        }]
    ));
}

#[test]
fn a_file_is_served_from_an_offset() {
    let request = |offset: u64| TransferMsg::Request { file_id: s("f"), hash: s("h"), offset };
    let file = || Some(ServableFile { name: s("n"), local_path: s("/x"), total_size: 100 });
    match serve_file(request(30), file()) {
        TransferReply::Serve { header, local_path, offset, .. } => {
            assert_eq!(local_path, "/x");
            assert_eq!(offset, 30);
            assert!(matches!(
                header,
                TransferMsg::Header { total_size: 100, byte_offset: 30, byte_length: 70, .. }
            ));
        }
        _ => panic!("not served"),
    }
    assert!(matches!(
        serve_file(request(0), None),
        TransferReply::Refuse(TransferMsg::NotFound { .. })
    ));
    assert!(matches!(
        serve_file(TransferMsg::NotFound { file_id: s("f") }, None),
        TransferReply::Silence
    ));
}

#[test]
fn direct_messages_are_kept_both_ways() {
    let dm = || DirectMessage {
        id: s("m"),
        workspace_id: None,
        message: s("hi"),
        parent_id: None,
        timestamp: 5,
        attachment: None,
    };
    assert!(message_received(dm(), &s("p")).stored.is_incoming);
    assert!(!message_sent(dm(), s("p"), true).unwrap().stored.is_incoming);
    assert!(message_sent(dm(), s("p"), false).is_none());
    let mut actor = NetworkActor::new(s("me"));
    assert!(actor.needs_stream("p"));
    actor.stream_opened(&s("p"));
    assert!(!actor.needs_stream("p"));
    actor.stream_closed(s("p"));
    assert!(actor.needs_stream("p"));
}

#[test]
fn a_snapshot_goes_out_in_frames() {
    let content = || SnapshotContent {
        workspaces: vec![],
        boards: vec![],
        elements: vec![],
        cells: vec![],
        chats: vec![],
        files: vec![],
        integrations: vec![],
        board_metadata: vec![],
    };
    let group = Group { id: s("g"), name: s("G"), icon: s(""), color: s(""), created_at: 0 };
    assert!(!snapshot_frames(Some(group), content()).is_empty());
    assert!(snapshot_frames(None, content()).is_empty());
    let mut actor = NetworkActor::new(s("me"));
    actor.topic_spawned(&s("g"));
    assert_eq!(actor.broadcast_profile_to_all_groups(Some((s("Me"), None))).len(), 1);
    assert!(actor.broadcast_profile_to_all_groups(None).is_empty());
}
