use cyan_backend::integration_bridge::{
    binding_stored, compute_graph_hash, is_countable, restored_config, truncate_str, IntegrationBridge,
    IntegrationEvent, IntegrationType, StartError, StartRequest,
};
use cyan_backend::json::{parse_json, Json};
use cyan_backend::lens_bridge::{Node, NodeKind, NodeMetadata, NodeStatus};
use cyan_backend::model::{Real, SwiftEvent};

fn s(x: &str) -> String {
    x.to_string()
}

fn node(id: &str, kind: NodeKind, status: NodeStatus) -> Node {
    Node {
        id: s(id),
        workspace_id: s("w"),
        external_id: s("ext"),
        name: s("n"),
        kind,
        content: s("text"),
        metadata: NodeMetadata {
            author: s("ann"),
            url: s(""),
            title: Some(s("T")),
            status: None,
            mentioned_by: vec![],
            mention_count: 2,
        },
        status,
        ts: 1,
        first_seen: 10,
        last_updated: 20,
    }
}

fn event(source: &str, payload: &str, ts: u64) -> IntegrationEvent {
    IntegrationEvent {
        source: s(source),
        ts,
        payload: s(payload),
        discovered_at: 7,
        confidence: Real { bits: 0.5f64.to_bits() },
    }
}

#[test]
fn types_have_names_in_any_case() {
    assert_eq!(IntegrationType::from_str("GitHub"), Some(IntegrationType::GitHub));
    assert_eq!(IntegrationType::from_str("GOOGLEDOCS"), Some(IntegrationType::GoogleDocs));
    assert_eq!(IntegrationType::from_str("other"), None);
    assert_eq!(IntegrationType::from_str("sLaCk"), IntegrationType::from_str("SLACK"));
    assert_eq!(IntegrationType::from_str("slacks"), None);
    assert_eq!(IntegrationType::from_str("\u{e9}"), None);
    for t in [
        IntegrationType::Slack,
        IntegrationType::Jira,
        IntegrationType::GitHub,
        IntegrationType::Confluence,
        IntegrationType::GoogleDocs,
    ] {
        assert_eq!(IntegrationType::named(t.name()), Some(t));
    }
    assert_eq!(truncate_str("héllo", 2), "h");
}

#[test]
fn references_make_nodes_and_edges() {
    let bridge = IntegrationBridge::new();
    let nodes = vec![
        node("m1", NodeKind::SlackMessage, NodeStatus::Real),
        node("m2", NodeKind::SlackThread, NodeStatus::Real),
        node("pr", NodeKind::GitHubPR, NodeStatus::Resolved),
    ];
    let events = vec![
        event("m1", r#"{"type":"jira_mention","jira_id":"P-1","context":"see"}"#, 50),
        event("m1", r#"{"type":"jira_reference","jira_key":"P-1"}"#, 60),
        event("m1", r#"{"type":"commit_fixes_issue","jira_key":"P-1"}"#, 40),
        event("m1", r#"{"type":"jira_mention","jira_id":""}"#, 40),
        event("m1", r#"{"type":"something"}"#, 40),
        event("m1", "not json", 40),
    ];
    let graph = bridge.build_force_graph(&events, &nodes, "group", "g", 99);
    let target = blake3::hash(b"jira:P-1").to_hex().to_string();
    assert_eq!(graph.scope_id, "group:g");
    assert_eq!(graph.nodes.len(), 4);
    let ticket = graph.nodes.iter().find(|n| n.id == target).unwrap();
    assert_eq!(ticket.status, "ephemeral");
    assert_eq!(ticket.mention_count, 3);
    assert_eq!(ticket.last_activity, 60);
    assert_eq!(ticket.created_at, 7);
    let message = graph.nodes.iter().find(|n| n.id == "m1").unwrap();
    assert_eq!(message.kind, "slack");
    assert_eq!(message.summary, Some(s("text")));
    assert_eq!(message.url, None);
    assert_eq!(message.metadata, vec![(s("author"), s("ann")), (s("title"), s("T"))]);
    assert_eq!(graph.edges.len(), 2);
    let mentions = graph.edges.iter().find(|e| e.relation == "mentions").unwrap();
    assert_eq!(mentions.id, format!("m1:{}:mentions", target));
    assert_eq!(mentions.repeats, 1);
    assert_eq!(mentions.context, Some(s("see")));
    assert_eq!(graph.stats.real_nodes, 2);
    assert_eq!(graph.stats.ephemeral_nodes, 1);
    assert_eq!(graph.stats.total_nodes, 3);
    assert_eq!(graph.stats.total_edges, 2);
    assert_eq!(graph.stats.unlinked_messages, 1);
    assert_eq!(graph.connected_integrations, vec![s("slack"), s("github")]);
    assert_eq!(graph.updated_at, 99);
}

#[test]
fn a_graph_is_built_only_if_it_can_be_counted() {
    let bridge = IntegrationBridge::new();
    let target = blake3::hash(b"jira:P-1").to_hex().to_string();
    let mut full = node(&target, NodeKind::JiraTicket, NodeStatus::Real);
    full.metadata.mention_count = u32::MAX;
    let other = vec![event("m1", r#"{"type":"jira_mention","jira_id":"P-2"}"#, 1)];
    let same = vec![event("m1", r#"{"type":"jira_mention","jira_id":"P-1"}"#, 1)];
    let nodes = vec![full];
    assert!(is_countable(&nodes, &other));
    let graph = bridge.countable_graph(&other, &nodes, "group", "g", 1).unwrap();
    assert_eq!(graph.nodes.len(), 2);
    assert_eq!(graph.nodes[0].mention_count, u32::MAX);
    assert!(!is_countable(&nodes, &same));
    assert!(bridge.countable_graph(&same, &nodes, "group", "g", 1).is_none());
    assert!(bridge.countable_graph(&same, &vec![], "group", "g", 1).is_some());
}

#[test]
fn pull_requests_and_pages_are_named() {
    let bridge = IntegrationBridge::new();
    let events = vec![
        event("x", r#"{"type":"github_pr_reference","pr_number":"42"}"#, 1),
        event("x", r#"{"type":"github_issue_reference"}"#, 1),
        event("x", r#"{"type":"confluence_reference","page_id":"9"}"#, 1),
    ];
    let graph = bridge.build_force_graph(&events, &vec![], "group", "g", 0);
    let ids: Vec<&str> = graph.nodes.iter().map(|n| n.external_id.as_str()).collect();
    assert_eq!(ids, vec!["PR #42", "Issue #", "9"]);
    for e in &graph.edges {
        assert!(graph.nodes.iter().any(|n| n.id == e.target_id));
    }
}

#[test]
fn an_unchanged_graph_goes_out_once() {
    let mut bridge = IntegrationBridge::new();
    let nodes = vec![node("m1", NodeKind::SlackMessage, NodeStatus::Real)];
    let make = |b: &IntegrationBridge, n: &Vec<Node>| b.build_force_graph(&vec![], n, "group", "g", 1);
    let graph = make(&bridge, &nodes);
    assert_eq!(compute_graph_hash(&graph), compute_graph_hash(&make(&bridge, &nodes)));
    assert_eq!(
        bridge.forward_graph(graph, s("{}")),
        Some(SwiftEvent::IntegrationGraph { scope_id: s("group:g"), graph_json: s("{}") })
    );
    let again = make(&bridge, &nodes);
    assert_eq!(bridge.forward_graph(again, s("{}")), None);
    let empty = make(&bridge, &vec![]);
    assert_eq!(bridge.forward_graph(empty, s("{}")), None);
    let more = vec![nodes[0].clone(), node("m2", NodeKind::JiraTicket, NodeStatus::Real)];
    let changed = make(&bridge, &more);
    assert!(bridge.forward_graph(changed, s("{}")).is_some());
    let queue = bridge.drain_broadcast_queue();
    assert_eq!(queue.len(), 2);
    assert_eq!(queue[0].event_type, "graph_update");
    assert!(bridge.drain_broadcast_queue().is_empty());
}

#[test]
fn the_broadcast_queue_is_bounded() {
    let mut bridge = IntegrationBridge::new();
    let nodes = vec![node("m1", NodeKind::SlackMessage, NodeStatus::Real)];
    let graph = bridge.build_force_graph(&vec![], &nodes, "group", "g", 1);
    bridge.forward_graph(graph, s("{}"));
    let event = bridge.drain_broadcast_queue().remove(0);
    for i in 0..1001u64 {
        let mut e = event.clone();
        e.timestamp = i;
        bridge.queue_broadcast(e);
    }
    assert_eq!(bridge.broadcast_queue.len(), 501);
    assert_eq!(bridge.broadcast_queue[0].timestamp, 500);
    assert_eq!(bridge.broadcast_queue[500].timestamp, 1000);
}

#[test]
fn an_integration_starts_and_stops() {
    let mut bridge = IntegrationBridge::new();
    let text = r#"{"limit":18446744073709551615,"repos":[{"owner":"o","repo":"r"},{"owner":"o"}]}"#;
    let config: serde_json::Value = serde_json::from_str(text).unwrap();
    let (scope, kind, token) = (s("g"), s("github"), s("t"));
    assert_eq!(
        bridge.plan_start("group", &scope, &s("nope"), &token, &config),
        Err(StartError::UnknownType(s("nope")))
    );
    assert_eq!(
        bridge.plan_start("galaxy", &scope, &kind, &token, &config),
        Err(StartError::BadScope)
    );
    let plan = bridge.plan_start("group", &scope, &kind, &token, &config).unwrap();
    let held = parse_json(text).unwrap();
    assert_eq!(
        bridge.plan_start_with("group", &scope, &kind, &token, &held).unwrap().request,
        plan.request
    );
    assert_eq!(plan.kind, IntegrationType::GitHub);
    assert_eq!(
        plan.request,
        StartRequest::GitHub { token: s("t"), scope_id: s("g"), repos: vec![(s("o"), s("r"))] }
    );
    assert_eq!(
        bridge.start_finished(&s("group"), &scope, &kind, plan.kind, Err(s("x")), &config, 1),
        Err(StartError::Failed(s("x")))
    );
    assert!(!bridge.is_running("g", "github"));
    let binding = bridge
        .start_finished(&s("group"), &scope, &kind, plan.kind, Ok(()), &config, 1)
        .unwrap();
    assert_eq!(binding.id, blake3::hash(b"binding:group:g:github").to_hex().to_string());
    assert_eq!(binding.config_json, text);
    assert!(bridge.is_running("g", "github"));
    assert_eq!(
        bridge.plan_start("group", &scope, &kind, &token, &config),
        Err(StartError::AlreadyRunning)
    );
    assert!(bridge.running_for("group:g").is_some());
    assert!(bridge.running_for("g").is_some());
    assert!(bridge.running_for("h").is_none());
    let stopped = bridge.stop(&scope, &kind).unwrap();
    assert_eq!(stopped.kind, Some(IntegrationType::GitHub));
    assert_eq!(bridge.stop(&scope, &kind), Err(s("Integration not running")));
    assert!(bridge.plan_start("group", &scope, &kind, &token, &config).is_ok());
}

#[test]
fn errors_are_put_in_words() {
    assert_eq!(StartError::UnknownType(s("q")).message(), "Unknown integration type: q");
    assert_eq!(StartError::BadScope.message(), "scope_type must be 'group' or 'workspace'");
    assert_eq!(
        StartError::AlreadyRunning.message(),
        "Integration already running for this scope"
    );
    assert_eq!(StartError::Failed(s("e")).message(), "Failed to start integration: e");
    assert_eq!(
        binding_stored("group", "g", &s("jira"), Err(s("db"))),
        Err(StartError::NotSaved(s("db")))
    );
    assert_eq!(StartError::NotSaved(s("db")).message(), "Failed to save binding: db");
    assert_eq!(
        binding_stored("group", "g", &s("jira"), Ok(())),
        Ok(SwiftEvent::IntegrationStatus {
            scope_id: s("group:g"),
            integration_type: s("jira"),
            status: s("connected"),
            message: None,
        })
    );
}

#[test]
fn focus_and_restoring() {
    let mut bridge = IntegrationBridge::new();
    bridge.set_focus(s("group:g"), Some(s("n")));
    let graph = bridge.build_force_graph(&vec![], &vec![], "group", "g", 0);
    assert_eq!(graph.focus_node_id, Some(s("n")));
    bridge.set_focus(s("group:h"), Some(s("m")));
    let graph = bridge.build_force_graph(&vec![], &vec![], "group", "g", 0);
    assert_eq!(graph.focus_node_id, Some(s("n")));
    let graph = bridge.build_force_graph(&vec![], &vec![], "group", "h", 0);
    assert_eq!(graph.focus_node_id, Some(s("m")));
    bridge.set_focus(s("group:g"), None);
    let graph = bridge.build_force_graph(&vec![], &vec![], "group", "g", 0);
    assert_eq!(graph.focus_node_id, None);
    assert!(matches!(restored_config(None), Err(e) if e == "Binding not found"));
    assert!(matches!(restored_config(Some(s("x"))), Ok(Json::Object(m)) if m.is_empty()));
    assert!(matches!(restored_config(Some(s("[]"))), Ok(Json::Array(_))));
}
