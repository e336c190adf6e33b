use cyan_backend::lens_bridge::{
    forward_nodes, ContentKind, DeliveryError, LensBridge, Node, NodeKind, NodeMetadata, NodeStatus,
    SourceKind,
};

fn make_test_node() -> Node {
    Node {
        id: "test123abc".to_string(),
        workspace_id: "ws_1".to_string(),
        external_id: "1706123456.789".to_string(),
        name: "Test Message".to_string(),
        kind: NodeKind::SlackMessage,
        content: "Hey @bob can you review PROJ-123?".to_string(),
        metadata: NodeMetadata {
            author: "alice".to_string(),
            url: "https://slack.com/archives/C123/p1706123456789".to_string(),
            title: Some("Hey @bob can you review...".to_string()),
            status: None,
            mentioned_by: vec![],
            mention_count: 0,
        },
        status: NodeStatus::Real,
        ts: 1706123456,
        first_seen: 1706123456,
        last_updated: 1706123456,
    }
}

#[test]
fn test_node_to_raw_event() {
    let bridge = LensBridge::new("test-group".to_string());

    let node = make_test_node();
    let raw = bridge.node_to_raw_event(&node, 1706123999);

    assert_eq!(raw.id, "test123abc");
    assert_eq!(raw.group_id, "test-group");
    assert_eq!(raw.workspace_id, "ws_1");
    assert_eq!(raw.source, SourceKind::Slack);
    assert_eq!(raw.content_kind, ContentKind::SlackMessage);
    assert_eq!(raw.content, "Hey @bob can you review PROJ-123?");
    assert_eq!(raw.author_id, "alice");
    assert_eq!(raw.captured_at, 1706123999);
}

#[test]
fn test_skip_ephemeral_node() {
    let mut bridge = LensBridge::new("test-group".to_string());

    let mut node = make_test_node();
    node.status = NodeStatus::Ephemeral;
    node.content = "".to_string();

    assert!(bridge.prepare(&node, 0).is_none());
    let result = bridge.forward_node(&node, Ok(()));
    assert!(matches!(result, Ok(false)));
    assert_eq!(bridge.skipped_count(), 1);
}

#[test]
fn test_skip_empty_content() {
    let mut bridge = LensBridge::new("test-group".to_string());

    let mut node = make_test_node();
    node.content = "   ".to_string(); // whitespace only

    let result = bridge.forward_node(&node, Ok(()));
    assert!(matches!(result, Ok(false)));
}

#[test]
fn test_map_node_kinds() {
    assert_eq!(
        LensBridge::map_node_kind(&NodeKind::SlackMessage),
        (SourceKind::Slack, ContentKind::SlackMessage)
    );
    assert_eq!(
        LensBridge::map_node_kind(&NodeKind::JiraTicket),
        (SourceKind::Jira, ContentKind::JiraTicket)
    );
    assert_eq!(
        LensBridge::map_node_kind(&NodeKind::GitHubPR),
        (SourceKind::GitHub, ContentKind::GithubPr)
    );
}

#[test]
fn forwarding_counts_what_was_sent() {
    let mut bridge = LensBridge::new("g".to_string());
    let node = make_test_node();
    let raw = bridge.prepare(&node, 7).unwrap();
    let envelope = LensBridge::envelope(&raw, "{}".to_string());
    assert_eq!(envelope.id, raw.id);
    assert_eq!(envelope.payload, "{}");
    assert!(matches!(bridge.forward_node(&node, Ok(())), Ok(true)));
    assert_eq!(bridge.forwarded_count(), 1);
    assert_eq!(bridge.skipped_count(), 0);
    let failed = bridge.forward_node(&node, Err(DeliveryError::Send("gone".to_string())));
    assert!(failed.is_err());
    assert_eq!(bridge.forwarded_count(), 1);
    assert_eq!(
        forward_nodes(&vec![Ok(true), Ok(false), Err("x".to_string()), Ok(true)]),
        2
    );
}

#[test]
fn kinds_have_names() {
    assert_eq!(LensBridge::kind_str(&NodeKind::GitHubPR), "github_pr");
    assert_eq!(LensBridge::kind_str(&NodeKind::GenericUrl), "generic_url");
    assert_eq!(LensBridge::kind_str(&NodeKind::SlackThread), "slack_thread");
}
