//! Running integrations, and the graph of what they found.

use crate::collections;
use crate::collections::TextMap;
use crate::discovery;
use crate::hash;
use crate::json;
use crate::json::Json;
use crate::lens_bridge::{Node, NodeKind, NodeStatus};
use crate::model::{Real, SwiftEvent};
use crate::strings;
use crate::tables;
use crate::text;
pub use crate::text::truncate_str;
use std::collections::hash_map::DefaultHasher;
use std::hash::Hasher;
use vstd::bytes::*;
use vstd::prelude::*;
use vstd::std_specs::hash::*;
use vstd::string::*;
use vstd::utf8::*;

verus! {

/// The integrations that there are.
#[derive(Clone, Copy, Debug, PartialEq, Eq, Hash, Structural)]
pub enum IntegrationType {
    Slack,
    Jira,
    GitHub,
    Confluence,
    GoogleDocs,
}

/// The integration that a lower-case name stands for.
pub open spec fn type_named(name: Seq<char>) -> Option<IntegrationType> {
    if name == "slack"@ {
        Some(IntegrationType::Slack)
    } else if name == "jira"@ {
        Some(IntegrationType::Jira)
    } else if name == "github"@ {
        Some(IntegrationType::GitHub)
    } else if name == "confluence"@ {
        Some(IntegrationType::Confluence)
    } else if name == "googledocs"@ {
        Some(IntegrationType::GoogleDocs)
    } else {
        None
    }
}

/// The integration that an ASCII name stands for, whatever the case of its letters.
pub open spec fn type_in_any_case(name: Seq<char>) -> Option<IntegrationType> {
    type_named(name.map_values(|c: char| strings::ascii_lower(c)))
}

impl IntegrationType {
    /// The name of an integration.
    pub open spec fn label(self) -> Seq<char> {
        match self {
            IntegrationType::Slack => "slack"@,
            IntegrationType::Jira => "jira"@,
            IntegrationType::GitHub => "github"@,
            IntegrationType::Confluence => "confluence"@,
            IntegrationType::GoogleDocs => "googledocs"@,
        }
    }

    /// The name of an integration.
    pub fn name(&self) -> (r: &'static str)
        ensures
            r@ == self.label(),
    {
        match self {
            IntegrationType::Slack => "slack",
            IntegrationType::Jira => "jira",
            IntegrationType::GitHub => "github",
            IntegrationType::Confluence => "confluence",
            IntegrationType::GoogleDocs => "googledocs",
        }
    }

    /// The integration of a lower-case name.
    pub fn named(s: &str) -> (r: Option<Self>)
        ensures
            r == type_named(s@),
    {
        if text::str_eq(s, "slack") {
            Some(IntegrationType::Slack)
        } else if text::str_eq(s, "jira") {
            Some(IntegrationType::Jira)
        } else if text::str_eq(s, "github") {
            Some(IntegrationType::GitHub)
        } else if text::str_eq(s, "confluence") {
            Some(IntegrationType::Confluence)
        } else if text::str_eq(s, "googledocs") {
            Some(IntegrationType::GoogleDocs)
        } else {
            None
        }
    }

    /// The integration of a name in any case. Outside ASCII, what counts as the same letter in
    /// another case is as `str::to_lowercase` has it.
    pub fn from_str(s: &str) -> (r: Option<Self>)
        ensures
            r == type_named(strings::lowercase(s@)),
            is_ascii_chars(s@) ==> r == type_in_any_case(s@),
    {
        let lower = strings::to_lower(s);
        Self::named(lower.as_str())
    }
}

/// The name of an integration leads back to it.
pub proof fn names_lead_back(kind: IntegrationType)
    ensures
        type_named(kind.label()) == Some(kind),
{
    reveal_strlit("slack");
    reveal_strlit("jira");
    reveal_strlit("github");
    reveal_strlit("confluence");
    reveal_strlit("googledocs");
    assert("slack"@[0] == 's' && "jira"@[0] == 'j' && "github"@[1] == 'i' && "googledocs"@[1] == 'o'
        && "confluence"@[0] == 'c' && "github"@[0] == 'g' && "googledocs"@[0] == 'g');
}

/// A text names an integration only if it is the name of that integration.
pub proof fn only_names_lead_there(name: Seq<char>, kind: IntegrationType)
    ensures
        type_named(name) == Some(kind) <==> name == kind.label(),
{
    names_lead_back(kind);
}

/// The case of letters does not matter: two ASCII texts that differ in it alone stand for the same
/// integration or both for none, the name of an integration stands for it in every case, and a text
/// stands for nothing else.
pub proof fn case_does_not_matter(a: Seq<char>, b: Seq<char>, kind: IntegrationType)
    requires
        a.map_values(|c: char| strings::ascii_lower(c)) == b.map_values(
            |c: char| strings::ascii_lower(c),
        ),
    ensures
        type_in_any_case(a) == type_in_any_case(b),
        type_in_any_case(a) == Some(kind) <==> a.map_values(|c: char| strings::ascii_lower(c))
            == kind.label(),
        type_in_any_case(a.map_values(|c: char| strings::ascii_lower(c))) == type_in_any_case(a),
{
    let lower = a.map_values(|c: char| strings::ascii_lower(c));
    only_names_lead_there(lower, kind);
    assert(lower.map_values(|c: char| strings::ascii_lower(c)) =~= lower);
}

/// Reading a name in lower case first changes nothing: `second` is what `from_str` finds for
/// `lower`, which is `s` in lower case, and `first` is what it finds for `s`. This covers every text
/// that names an integration, and every ASCII text.
pub proof fn lowering_first_changes_nothing(
    s: Seq<char>,
    first: Option<IntegrationType>,
    lower: Seq<char>,
    second: Option<IntegrationType>,
)
    requires
        lower == strings::lowercase(s),
        is_ascii_chars(s) ==> lower == s.map_values(|c: char| strings::ascii_lower(c)),
        first == type_named(lower),
        second == type_named(strings::lowercase(lower)),
        is_ascii_chars(lower) ==> second == type_in_any_case(lower),
        first is Some || is_ascii_chars(s),
    ensures
        second == first,
{
    match first {
        Some(kind) => {
            only_names_lead_there(lower, kind);
            lemma_label_is_plain(kind);
        },
        None => {
            assert forall|i: int| 0 <= i < lower.len() implies '\0' <= #[trigger] lower[i] <= '\u{7f}' by {
                assert('\0' <= s[i] <= '\u{7f}');
            }
            assert(lower.map_values(|c: char| strings::ascii_lower(c)) =~= lower);
        },
    }
}

/// The name of an integration is ASCII and in lower case.
proof fn lemma_label_is_plain(kind: IntegrationType)
    ensures
        is_ascii_chars(kind.label()),
        kind.label().map_values(|c: char| strings::ascii_lower(c)) == kind.label(),
{
    reveal_strlit("slack");
    reveal_strlit("jira");
    reveal_strlit("github");
    reveal_strlit("confluence");
    reveal_strlit("googledocs");
    assert(kind.label().map_values(|c: char| strings::ascii_lower(c)) =~= kind.label());
}

/// A node of the graph. The metadata holds each key once.
#[derive(Clone, Debug, PartialEq, Eq)]
pub struct GraphNode {
    pub id: String,
    pub external_id: String,
    pub kind: String,
    pub title: Option<String>,
    pub summary: Option<String>,
    pub url: Option<String>,
    pub status: String,
    pub metadata: Vec<(String, String)>,
    pub mention_count: u32,
    pub last_activity: u64,
    pub created_at: u64,
}

/// An edge of the graph. Its weight starts at the confidence of the first reference and grows with
/// each further one.
#[derive(Clone, Debug, PartialEq, Eq)]
pub struct GraphEdge {
    pub id: String,
    pub source_id: String,
    pub target_id: String,
    pub relation: String,
    pub confidence: Real,
    pub repeats: usize,
    pub context: Option<String>,
    pub created_at: u64,
}

/// Counts over the graph.
#[derive(Clone, Copy, Debug, PartialEq, Eq, Structural)]
pub struct GraphStats {
    pub total_nodes: u32,
    pub real_nodes: u32,
    pub ephemeral_nodes: u32,
    pub total_edges: u32,
    pub unlinked_messages: u32,
}

/// The graph of a scope.
#[derive(Clone, Debug, PartialEq, Eq)]
pub struct IntegrationGraph {
    pub scope_id: String,
    pub nodes: Vec<GraphNode>,
    pub edges: Vec<GraphEdge>,
    pub focus_node_id: Option<String>,
    pub connected_integrations: Vec<String>,
    pub stats: GraphStats,
    pub updated_at: u64,
}

/// A mention of an anchor.
#[derive(Clone, Debug, PartialEq, Eq)]
pub struct MentionEdge {
    pub source_node_id: String,
    pub source_kind: String,
    pub author: String,
    pub summary: String,
    pub url: Option<String>,
    pub ts: u64,
    pub relation: String,
}

/// An anchor and its mentions.
#[derive(Clone, Debug, PartialEq, Eq)]
pub struct GraphEntry {
    pub anchor_id: String,
    pub anchor_kind: String,
    pub anchor_status: String,
    pub anchor_title: Option<String>,
    pub anchor_url: Option<String>,
    pub mention_count: u32,
    pub mentions: Vec<MentionEdge>,
    pub first_seen: u64,
    pub last_activity: u64,
}

/// An event kept for broadcast.
#[derive(Clone, Debug, PartialEq, Eq)]
pub struct BroadcastEvent {
    pub event_type: String,
    pub scope_id: String,
    pub timestamp: u64,
    pub payload: BroadcastPayload,
}

/// What a broadcast event carries.
#[derive(Clone, Debug, PartialEq, Eq)]
pub enum BroadcastPayload {
    NodeCreated { node: GraphNode },
    NodeUpdated { node: GraphNode },
    EdgeCreated { edge: GraphEdge },
    GraphSnapshot { graph: IntegrationGraph },
}

/// Something that an integration noticed in its source; the payload is JSON.
#[derive(Clone, Debug, PartialEq, Eq)]
pub struct IntegrationEvent {
    pub source: String,
    pub ts: u64,
    pub payload: String,
    pub discovered_at: u64,
    pub confidence: Real,
}

/// What a graph node says.
#[verifier::ext_equal]
pub ghost struct GraphNodeView {
    pub id: Seq<char>,
    pub external_id: Seq<char>,
    pub kind: Seq<char>,
    pub title: Option<Seq<char>>,
    pub summary: Option<Seq<char>>,
    pub url: Option<Seq<char>>,
    pub status: Seq<char>,
    pub metadata: Seq<(Seq<char>, Seq<char>)>,
    pub mention_count: int,
    pub last_activity: u64,
    pub created_at: u64,
}

/// What a graph edge says.
#[verifier::ext_equal]
pub ghost struct GraphEdgeView {
    pub id: Seq<char>,
    pub source_id: Seq<char>,
    pub target_id: Seq<char>,
    pub relation: Seq<char>,
    pub confidence: Real,
    pub repeats: int,
    pub context: Option<Seq<char>>,
    pub created_at: u64,
}

impl View for GraphNode {
    type V = GraphNodeView;

    open spec fn view(&self) -> GraphNodeView {
        GraphNodeView {
            id: self.id@,
            external_id: self.external_id@,
            kind: self.kind@,
            title: tables::opt_text(self.title),
            summary: tables::opt_text(self.summary),
            url: tables::opt_text(self.url),
            status: self.status@,
            metadata: pairs(self.metadata@),
            mention_count: self.mention_count as int,
            last_activity: self.last_activity,
            created_at: self.created_at,
        }
    }
}

impl View for GraphEdge {
    type V = GraphEdgeView;

    open spec fn view(&self) -> GraphEdgeView {
        GraphEdgeView {
            id: self.id@,
            source_id: self.source_id@,
            target_id: self.target_id@,
            relation: self.relation@,
            confidence: self.confidence,
            repeats: self.repeats as int,
            context: tables::opt_text(self.context),
            created_at: self.created_at,
        }
    }
}

/// The characters of pairs of texts.
pub open spec fn pairs(items: Seq<(String, String)>) -> Seq<(Seq<char>, Seq<char>)> {
    items.map_values(|p: (String, String)| (p.0@, p.1@))
}

/// What a list of graph nodes says.
pub open spec fn node_views(nodes: Seq<GraphNode>) -> Seq<GraphNodeView> {
    nodes.map_values(|n: GraphNode| n@)
}

/// What a list of graph edges says.
pub open spec fn edge_views(edges: Seq<GraphEdge>) -> Seq<GraphEdgeView> {
    edges.map_values(|e: GraphEdge| e@)
}

/// How the graph calls a kind of node.
pub open spec fn kind_label(kind: NodeKind) -> Seq<char> {
    match kind {
        NodeKind::SlackMessage | NodeKind::SlackThread => "slack"@,
        NodeKind::JiraTicket => "jira"@,
        NodeKind::GitHubPR => "github_pr"@,
        NodeKind::GitHubIssue => "github_issue"@,
        NodeKind::GitHubCommit => "github_commit"@,
        NodeKind::ConfluencePage => "confluence"@,
        NodeKind::GoogleDoc => "gdocs"@,
        _ => "unknown"@,
    }
}

/// The integration that a kind of node counts for.
pub open spec fn connected_label(kind: NodeKind) -> Seq<char> {
    match kind {
        NodeKind::GitHubPR | NodeKind::GitHubIssue | NodeKind::GitHubCommit => "github"@,
        _ => kind_label(kind),
    }
}

/// How the graph calls the status of a node.
pub open spec fn status_label(status: NodeStatus) -> Seq<char> {
    match status {
        NodeStatus::Real => "real"@,
        NodeStatus::Ephemeral => "ephemeral"@,
        NodeStatus::Resolved => "resolved"@,
        NodeStatus::NotFound => "not_found"@,
        NodeStatus::Error => "error"@,
    }
}

fn kind_text(kind: NodeKind) -> (r: &'static str)
    ensures
        r@ == kind_label(kind),
{
    match kind {
        NodeKind::SlackMessage | NodeKind::SlackThread => "slack",
        NodeKind::JiraTicket => "jira",
        NodeKind::GitHubPR => "github_pr",
        NodeKind::GitHubIssue => "github_issue",
        NodeKind::GitHubCommit => "github_commit",
        NodeKind::ConfluencePage => "confluence",
        NodeKind::GoogleDoc => "gdocs",
        _ => "unknown",
    }
}

fn connected_text(kind: NodeKind) -> (r: &'static str)
    ensures
        r@ == connected_label(kind),
{
    match kind {
        NodeKind::GitHubPR | NodeKind::GitHubIssue | NodeKind::GitHubCommit => "github",
        _ => kind_text(kind),
    }
}

fn status_text(status: NodeStatus) -> (r: &'static str)
    ensures
        r@ == status_label(status),
{
    match status {
        NodeStatus::Real => "real",
        NodeStatus::Ephemeral => "ephemeral",
        NodeStatus::Resolved => "resolved",
        NodeStatus::NotFound => "not_found",
        NodeStatus::Error => "error",
    }
}

/// The metadata of a node: its author, and its title and status where it has them.
pub open spec fn metadata_of(node: Node) -> Seq<(Seq<char>, Seq<char>)> {
    let author = seq![("author"@, node.metadata.author@)];
    let titled = match node.metadata.title {
        Some(t) => author.push(("title"@, t@)),
        None => author,
    };
    match node.metadata.status {
        Some(s) => titled.push(("status"@, s@)),
        None => titled,
    }
}

/// The graph node of something that was found.
pub open spec fn graph_node(node: Node) -> GraphNodeView {
    GraphNodeView {
        id: node.id@,
        external_id: node.external_id@,
        kind: kind_label(node.kind),
        title: tables::opt_text(node.metadata.title),
        summary: Some(text::truncated(node.content@, 200)),
        url: if node.metadata.url@.len() == 0 {
            None
        } else {
            Some(node.metadata.url@)
        },
        status: status_label(node.status),
        metadata: metadata_of(node),
        mention_count: node.metadata.mention_count as int,
        last_activity: node.last_updated,
        created_at: node.first_seen,
    }
}

/// Where a node with an identifier stands from a place on; the length where there is none.
pub open spec fn node_place(list: Seq<GraphNodeView>, id: Seq<char>, from: int) -> int
    decreases list.len() - from,
{
    if from < 0 || from >= list.len() || list[from].id == id {
        from
    } else {
        node_place(list, id, from + 1)
    }
}

/// Where an edge with an identifier stands from a place on; the length where there is none.
pub open spec fn edge_place(list: Seq<GraphEdgeView>, id: Seq<char>, from: int) -> int
    decreases list.len() - from,
{
    if from < 0 || from >= list.len() || list[from].id == id {
        from
    } else {
        edge_place(list, id, from + 1)
    }
}

/// The nodes after one is put in: it takes the place of one with its identifier.
pub open spec fn with_node(list: Seq<GraphNodeView>, node: GraphNodeView) -> Seq<GraphNodeView> {
    let i = node_place(list, node.id, 0);
    if i < list.len() {
        list.update(i, node)
    } else {
        list.push(node)
    }
}

/// The graph nodes of all that was found; of several with one identifier the last stands.
pub open spec fn found_nodes(nodes: Seq<Node>) -> Seq<GraphNodeView>
    decreases nodes.len(),
{
    if nodes.len() == 0 {
        Seq::empty()
    } else {
        with_node(found_nodes(nodes.drop_last()), graph_node(nodes.last()))
    }
}

/// The integrations that nodes come from, in the order of their first nodes.
pub open spec fn connected(nodes: Seq<Node>) -> Seq<Seq<char>>
    decreases nodes.len(),
{
    if nodes.len() == 0 {
        Seq::empty()
    } else {
        let before = connected(nodes.drop_last());
        let label = connected_label(nodes.last().kind);
        if before.contains(label) {
            before
        } else {
            before.push(label)
        }
    }
}

/// A reference to something, as an event reports it.
pub ghost struct Reference {
    pub external_id: Seq<char>,
    pub kind: Seq<char>,
    pub relation: Seq<char>,
}

/// The reference that a payload reports. The ticket of a mention may go by two names.
pub open spec fn reported(payload: Json) -> Option<Reference> {
    let t = payload.text_or("type"@, "unknown"@);
    if t == "jira_mention"@ || t == "jira_reference"@ {
        let ticket = if payload.member("jira_id"@) is Some {
            payload.text_or("jira_id"@, Seq::empty())
        } else {
            payload.text_or("jira_key"@, Seq::empty())
        };
        Some(Reference { external_id: ticket, kind: "jira"@, relation: "mentions"@ })
    } else if t == "github_pr_reference"@ {
        Some(
            Reference {
                external_id: "PR #"@ + payload.text_or("pr_number"@, Seq::empty()),
                kind: "github_pr"@,
                relation: "links"@,
            },
        )
    } else if t == "github_issue_reference"@ {
        Some(
            Reference {
                external_id: "Issue #"@ + payload.text_or("issue_number"@, Seq::empty()),
                kind: "github_issue"@,
                relation: "links"@,
            },
        )
    } else if t == "commit_fixes_issue"@ {
        Some(
            Reference {
                external_id: payload.text_or("jira_key"@, Seq::empty()),
                kind: "jira"@,
                relation: "fixes"@,
            },
        )
    } else if t == "confluence_reference"@ {
        Some(
            Reference {
                external_id: payload.text_or("page_id"@, Seq::empty()),
                kind: "confluence"@,
                relation: "documents"@,
            },
        )
    } else {
        None
    }
}

/// The reference that an event reports; nothing where its payload is not JSON or names nothing.
pub open spec fn reference_of(event: IntegrationEvent) -> Option<Reference> {
    match json::parsed_json(event.payload@) {
        Some(payload) => match reported(payload) {
            Some(r) => if r.external_id.len() > 0 {
                Some(r)
            } else {
                None
            },
            None => None,
        },
        None => None,
    }
}

/// The snippet that an event shows.
pub open spec fn context_of(event: IntegrationEvent) -> Option<Seq<char>> {
    match json::parsed_json(event.payload@) {
        Some(payload) => payload.member_text("context"@),
        None => None,
    }
}

/// The identifier of the node that a reference points to.
pub open spec fn target_id(r: Reference) -> Seq<char> {
    hash::text_id(r.kind + ":"@ + r.external_id)
}

/// The nodes after a reference: the target is there, and was mentioned once more.
pub open spec fn with_mention(
    list: Seq<GraphNodeView>,
    r: Reference,
    event: IntegrationEvent,
) -> Seq<GraphNodeView> {
    let i = node_place(list, target_id(r), 0);
    if i < list.len() {
        let node = list[i];
        list.update(
            i,
            GraphNodeView {
                mention_count: node.mention_count + 1,
                last_activity: if node.last_activity >= event.ts {
                    node.last_activity
                } else {
                    event.ts
                },
                ..node
            },
        )
    } else {
        list.push(
            GraphNodeView {
                id: target_id(r),
                external_id: r.external_id,
                kind: r.kind,
                title: None,
                summary: None,
                url: None,
                status: "ephemeral"@,
                metadata: Seq::empty(),
                mention_count: 1,
                last_activity: event.ts,
                created_at: event.discovered_at,
            },
        )
    }
}

/// The identifier of the edge from an event's source to what it refers to.
pub open spec fn edge_id(r: Reference, event: IntegrationEvent) -> Seq<char> {
    event.source@ + ":"@ + target_id(r) + ":"@ + r.relation
}

/// The edges after a reference: a new one, or one more repetition.
pub open spec fn with_edge(
    list: Seq<GraphEdgeView>,
    r: Reference,
    event: IntegrationEvent,
) -> Seq<GraphEdgeView> {
    let i = edge_place(list, edge_id(r, event), 0);
    if i < list.len() {
        list.update(i, GraphEdgeView { repeats: list[i].repeats + 1, ..list[i] })
    } else {
        list.push(
            GraphEdgeView {
                id: edge_id(r, event),
                source_id: event.source@,
                target_id: target_id(r),
                relation: r.relation,
                confidence: event.confidence,
                repeats: 0,
                context: context_of(event),
                created_at: event.discovered_at,
            },
        )
    }
}

/// The nodes after all events.
pub open spec fn mentioned_nodes(
    nodes: Seq<GraphNodeView>,
    events: Seq<IntegrationEvent>,
) -> Seq<GraphNodeView>
    decreases events.len(),
{
    if events.len() == 0 {
        nodes
    } else {
        let before = mentioned_nodes(nodes, events.drop_last());
        match reference_of(events.last()) {
            Some(r) => with_mention(before, r, events.last()),
            None => before,
        }
    }
}

/// The edges after all events.
pub open spec fn reference_edges(events: Seq<IntegrationEvent>) -> Seq<GraphEdgeView>
    decreases events.len(),
{
    if events.len() == 0 {
        Seq::empty()
    } else {
        let before = reference_edges(events.drop_last());
        match reference_of(events.last()) {
            Some(r) => with_edge(before, r, events.last()),
            None => before,
        }
    }
}

/// How many nodes have a status.
pub open spec fn with_status(nodes: Seq<GraphNodeView>, status: Seq<char>) -> nat
    decreases nodes.len(),
{
    if nodes.len() == 0 {
        0
    } else {
        with_status(nodes.drop_last(), status) + if nodes.last().status == status {
            1nat
        } else {
            0nat
        }
    }
}

/// Whether an edge starts or ends at a node.
pub open spec fn is_linked(edges: Seq<GraphEdgeView>, id: Seq<char>) -> bool {
    exists|i: int|
        0 <= i < edges.len() && ((#[trigger] edges[i]).source_id == id || edges[i].target_id == id)
}

/// How many chat messages no edge touches.
pub open spec fn unlinked(nodes: Seq<GraphNodeView>, edges: Seq<GraphEdgeView>) -> nat
    decreases nodes.len(),
{
    if nodes.len() == 0 {
        0
    } else {
        unlinked(nodes.drop_last(), edges) + if nodes.last().kind == "slack"@ && !is_linked(
            edges,
            nodes.last().id,
        ) {
            1nat
        } else {
            0nat
        }
    }
}

/// Whether the identifiers of nodes are all different.
pub open spec fn distinct_nodes(nodes: Seq<GraphNodeView>) -> bool {
    forall|i: int, j: int|
        0 <= i < j < nodes.len() ==> (#[trigger] nodes[i]).id != (#[trigger] nodes[j]).id
}

/// Whether the identifiers of edges are all different.
pub open spec fn distinct_edges(edges: Seq<GraphEdgeView>) -> bool {
    forall|i: int, j: int|
        0 <= i < j < edges.len() ==> (#[trigger] edges[i]).id != (#[trigger] edges[j]).id
}

/// Whether a node with an identifier is there.
pub open spec fn has_node(nodes: Seq<GraphNodeView>, id: Seq<char>) -> bool {
    exists|i: int| 0 <= i < nodes.len() && (#[trigger] nodes[i]).id == id
}

proof fn lemma_node_place(list: Seq<GraphNodeView>, id: Seq<char>, from: int)
    requires
        0 <= from <= list.len(),
    ensures
        from <= node_place(list, id, from) <= list.len(),
        node_place(list, id, from) < list.len() ==> list[node_place(list, id, from)].id == id,
        forall|j: int| from <= j < node_place(list, id, from) ==> (#[trigger] list[j]).id != id,
    decreases list.len() - from,
{
    if from < list.len() && list[from].id != id {
        lemma_node_place(list, id, from + 1);
    }
}

proof fn lemma_edge_place(list: Seq<GraphEdgeView>, id: Seq<char>, from: int)
    requires
        0 <= from <= list.len(),
    ensures
        from <= edge_place(list, id, from) <= list.len(),
        edge_place(list, id, from) < list.len() ==> list[edge_place(list, id, from)].id == id,
        forall|j: int| from <= j < edge_place(list, id, from) ==> (#[trigger] list[j]).id != id,
    decreases list.len() - from,
{
    if from < list.len() && list[from].id != id {
        lemma_edge_place(list, id, from + 1);
    }
}

proof fn lemma_found_distinct(nodes: Seq<Node>)
    ensures
        distinct_nodes(found_nodes(nodes)),
        found_nodes(nodes).len() <= nodes.len(),
    decreases nodes.len(),
{
    if nodes.len() > 0 {
        lemma_found_distinct(nodes.drop_last());
        lemma_node_place(found_nodes(nodes.drop_last()), graph_node(nodes.last()).id, 0);
    }
}

/// In the graph of any nodes and events no two nodes and no two edges have the same identifier, all
/// that was found is there, and every edge ends at a node of the graph.
pub proof fn graph_is_consistent(nodes: Seq<Node>, events: Seq<IntegrationEvent>)
    ensures
        distinct_nodes(mentioned_nodes(found_nodes(nodes), events)),
        distinct_edges(reference_edges(events)),
        forall|id: Seq<char>|
            has_node(found_nodes(nodes), id) ==> #[trigger] has_node(
                mentioned_nodes(found_nodes(nodes), events),
                id,
            ),
        forall|i: int|
            0 <= i < reference_edges(events).len() ==> has_node(
                mentioned_nodes(found_nodes(nodes), events),
                (#[trigger] reference_edges(events)[i]).target_id,
            ),
    decreases events.len(),
{
    let start = found_nodes(nodes);
    lemma_found_distinct(nodes);
    if events.len() > 0 {
        graph_is_consistent(nodes, events.drop_last());
        let event = events.last();
        match reference_of(event) {
            Some(r) => {
                let before = mentioned_nodes(start, events.drop_last());
                let after = with_mention(before, r, event);
                lemma_node_place(before, target_id(r), 0);
                let at = node_place(before, target_id(r), 0);
                assert(after[at].id == target_id(r));
                assert forall|id: Seq<char>| has_node(before, id) implies #[trigger] has_node(
                    after,
                    id,
                ) by {
                    let k = choose|k: int| 0 <= k < before.len() && (#[trigger] before[k]).id == id;
                    assert(after[k].id == id);
                }
                assert(has_node(after, target_id(r)));
                let edges = reference_edges(events.drop_last());
                let grown = with_edge(edges, r, event);
                lemma_edge_place(edges, edge_id(r, event), 0);
                assert forall|i: int| 0 <= i < grown.len() implies has_node(
                    after,
                    (#[trigger] grown[i]).target_id,
                ) by {
                    if i < edges.len() {
                        assert(grown[i].target_id == edges[i].target_id);
                        assert(has_node(before, edges[i].target_id));
                    }
                }
            },
            None => {},
        }
    }
}

/// Writes the graph node of something that was found.
fn make_node(node: &Node) -> (r: GraphNode)
    ensures
        r@ == graph_node(*node),
{
    let mut metadata: Vec<(String, String)> = Vec::new();
    metadata.push(("author".to_owned(), node.metadata.author.clone()));
    match &node.metadata.title {
        Some(t) => {
            metadata.push(("title".to_owned(), t.clone()));
        },
        None => {},
    }
    match &node.metadata.status {
        Some(s) => {
            metadata.push(("status".to_owned(), s.clone()));
        },
        None => {},
    }
    assert(pairs(metadata@) =~= metadata_of(*node));
    let summary = text::truncate_str(node.content.as_str(), 200).to_owned();
    proof {
        text::truncation_is_unique(
            node.content@,
            200,
            summary@,
            text::truncated(node.content@, 200),
        );
    }
    let url: Option<String> = if node.metadata.url.as_str().is_empty() {
        None
    } else {
        Some(node.metadata.url.clone())
    };
    GraphNode {
        id: node.id.clone(),
        external_id: node.external_id.clone(),
        kind: kind_text(node.kind).to_owned(),
        title: node.metadata.title.clone(),
        summary: Some(summary),
        url,
        status: status_text(node.status).to_owned(),
        metadata,
        mention_count: node.metadata.mention_count,
        last_activity: node.last_updated,
        created_at: node.first_seen,
    }
}

fn find_node(nodes: &Vec<GraphNode>, id: &str) -> (r: usize)
    ensures
        r == node_place(node_views(nodes@), id@, 0),
        r <= nodes@.len(),
{
    let mut i: usize = 0;
    while i < nodes.len() && !text::str_eq(nodes[i].id.as_str(), id)
        invariant
            i <= nodes@.len(),
            node_place(node_views(nodes@), id@, 0) == node_place(
                node_views(nodes@),
                id@,
                i as int,
            ),
        decreases nodes.len() - i,
    {
        assert(node_views(nodes@)[i as int].id == nodes@[i as int].id@);
        i = i + 1;
    }
    assert(i < nodes@.len() ==> node_views(nodes@)[i as int].id == nodes@[i as int].id@);
    i
}

fn find_edge(edges: &Vec<GraphEdge>, id: &str) -> (r: usize)
    ensures
        r == edge_place(edge_views(edges@), id@, 0),
        r <= edges@.len(),
{
    let mut i: usize = 0;
    while i < edges.len() && !text::str_eq(edges[i].id.as_str(), id)
        invariant
            i <= edges@.len(),
            edge_place(edge_views(edges@), id@, 0) == edge_place(
                edge_views(edges@),
                id@,
                i as int,
            ),
        decreases edges.len() - i,
    {
        assert(edge_views(edges@)[i as int].id == edges@[i as int].id@);
        i = i + 1;
    }
    assert(i < edges@.len() ==> edge_views(edges@)[i as int].id == edges@[i as int].id@);
    i
}

fn collect_nodes(nodes: &Vec<Node>) -> (r: Vec<GraphNode>)
    ensures
        node_views(r@) == found_nodes(nodes@),
        r@.len() <= nodes@.len(),
{
    let mut out: Vec<GraphNode> = Vec::new();
    let mut i: usize = 0;
    assert(node_views(out@) =~= found_nodes(nodes@.take(0)));
    while i < nodes.len()
        invariant
            i <= nodes@.len(),
            out@.len() <= i,
            node_views(out@) == found_nodes(nodes@.take(i as int)),
        decreases nodes.len() - i,
    {
        let ghost before = node_views(out@);
        assert(nodes@.take(i + 1).drop_last() =~= nodes@.take(i as int));
        let node = make_node(&nodes[i]);
        let ghost view = node@;
        let at = find_node(&out, node.id.as_str());
        if at < out.len() {
            out.set(at, node);
            assert(node_views(out@) =~= before.update(at as int, view));
        } else {
            out.push(node);
            assert(node_views(out@) =~= before.push(view));
        }
        i = i + 1;
    }
    assert(nodes@.take(i as int) =~= nodes@);
    out
}

fn collect_connected(nodes: &Vec<Node>) -> (r: Vec<String>)
    ensures
        collections::texts(r@) == connected(nodes@),
{
    let mut out: Vec<String> = Vec::new();
    let mut i: usize = 0;
    assert(collections::texts(out@) =~= connected(nodes@.take(0)));
    while i < nodes.len()
        invariant
            i <= nodes@.len(),
            collections::texts(out@) == connected(nodes@.take(i as int)),
        decreases nodes.len() - i,
    {
        let ghost before = collections::texts(out@);
        assert(nodes@.take(i + 1).drop_last() =~= nodes@.take(i as int));
        let label = connected_text(nodes[i].kind);
        match collections::position(&out, label) {
            Some(k) => {
                assert(before[k as int] == label@);
            },
            None => {
                out.push(label.to_owned());
                assert(collections::texts(out@) =~= before.push(label@));
            },
        }
        i = i + 1;
    }
    assert(nodes@.take(i as int) =~= nodes@);
    out
}

/// A reference with its parts as texts.
struct Target {
    external_id: String,
    kind: &'static str,
    relation: &'static str,
}

impl Target {
    spec fn says(self) -> Reference {
        Reference {
            external_id: self.external_id@,
            kind: self.kind@,
            relation: self.relation@,
        }
    }
}

fn read_reference(payload: &Json) -> (r: Option<Target>)
    ensures
        match r {
            Some(t) => reported(*payload) == Some(t.says()),
            None => reported(*payload) is None,
        },
{
    proof {
        reveal_strlit("");
        assert(""@ =~= Seq::empty());
    }
    let t = payload.get_text("type", "unknown");
    let kind = t.as_str();
    if text::str_eq(kind, "jira_mention") || text::str_eq(kind, "jira_reference") {
        let external_id = if payload.get("jira_id").is_some() {
            payload.get_text("jira_id", "")
        } else {
            payload.get_text("jira_key", "")
        };
        Some(Target { external_id, kind: "jira", relation: "mentions" })
    } else if text::str_eq(kind, "github_pr_reference") {
        let mut external_id = "PR #".to_owned();
        external_id.append(payload.get_text("pr_number", "").as_str());
        Some(Target { external_id, kind: "github_pr", relation: "links" })
    } else if text::str_eq(kind, "github_issue_reference") {
        let mut external_id = "Issue #".to_owned();
        external_id.append(payload.get_text("issue_number", "").as_str());
        Some(Target { external_id, kind: "github_issue", relation: "links" })
    } else if text::str_eq(kind, "commit_fixes_issue") {
        let external_id = payload.get_text("jira_key", "");
        Some(Target { external_id, kind: "jira", relation: "fixes" })
    } else if text::str_eq(kind, "confluence_reference") {
        let external_id = payload.get_text("page_id", "");
        Some(Target { external_id, kind: "confluence", relation: "documents" })
    } else {
        None
    }
}

fn new_target_id(target: &Target) -> (r: String)
    ensures
        r@ == target_id(target.says()),
{
    let mut s = target.kind.to_owned();
    s.append(":");
    s.append(target.external_id.as_str());
    hash::hash_text(s.as_str())
}

/// Whether every mention count can be held.
pub open spec fn counts_fit(nodes: Seq<GraphNodeView>) -> bool {
    forall|k: int| 0 <= k < nodes.len() ==> (#[trigger] nodes[k]).mention_count <= u32::MAX
}

/// Counts a mention, unless the count is full.
fn mention(
    nodes: &mut Vec<GraphNode>,
    target: &Target,
    id: &String,
    event: &IntegrationEvent,
) -> (r: bool)
    requires
        id@ == target_id(target.says()),
    ensures
        r ==> node_views(final(nodes)@) == with_mention(
            node_views(old(nodes)@),
            target.says(),
            *event,
        ),
        !r ==> !counts_fit(with_mention(node_views(old(nodes)@), target.says(), *event)),
{
    let ghost before = node_views(nodes@);
    let at = find_node(nodes, id.as_str());
    if at < nodes.len() {
        if nodes[at].mention_count == u32::MAX {
            proof {
                let after = with_mention(before, target.says(), *event);
                assert(before[at as int] == nodes@[at as int]@);
                assert(after[at as int].mention_count == u32::MAX + 1);
            }
            return false;
        }
        let node = &mut nodes[at];
        node.mention_count = node.mention_count + 1;
        if node.last_activity < event.ts {
            node.last_activity = event.ts;
        }
        assert(node_views(nodes@) =~= with_mention(before, target.says(), *event));
    } else {
        let node = GraphNode {
            id: id.clone(),
            external_id: target.external_id.clone(),
            kind: target.kind.to_owned(),
            title: None,
            summary: None,
            url: None,
            status: "ephemeral".to_owned(),
            metadata: Vec::new(),
            mention_count: 1,
            last_activity: event.ts,
            created_at: event.discovered_at,
        };
        assert(pairs(node.metadata@) =~= Seq::empty());
        nodes.push(node);
        assert(node_views(nodes@) =~= with_mention(before, target.says(), *event));
    }
    true
}

fn join(
    edges: &mut Vec<GraphEdge>,
    target: &Target,
    id: &String,
    event: &IntegrationEvent,
    context: Option<String>,
)
    requires
        id@ == target_id(target.says()),
        tables::opt_text(context) == context_of(*event),
        forall|k: int| 0 <= k < old(edges)@.len() ==> (#[trigger] old(edges)@[k]).repeats < usize::MAX,
    ensures
        edge_views(final(edges)@) == with_edge(edge_views(old(edges)@), target.says(), *event),
{
    let ghost before = edge_views(edges@);
    let mut key = event.source.clone();
    key.append(":");
    key.append(id.as_str());
    key.append(":");
    key.append(target.relation);
    let at = find_edge(edges, key.as_str());
    if at < edges.len() {
        let edge = &mut edges[at];
        edge.repeats = edge.repeats + 1;
        assert(edge_views(edges@) =~= with_edge(before, target.says(), *event));
    } else {
        edges.push(
            GraphEdge {
                id: key,
                source_id: event.source.clone(),
                target_id: id.clone(),
                relation: target.relation.to_owned(),
                confidence: event.confidence,
                repeats: 0,
                context,
                created_at: event.discovered_at,
            },
        );
        assert(edge_views(edges@) =~= with_edge(before, target.says(), *event));
    }
}

fn count_status(nodes: &Vec<GraphNode>, status: &str) -> (r: u32)
    requires
        nodes@.len() <= u32::MAX,
    ensures
        r == with_status(node_views(nodes@), status@),
{
    let mut count: u32 = 0;
    let mut i: usize = 0;
    let ghost views = node_views(nodes@);
    while i < nodes.len()
        invariant
            i <= nodes@.len(),
            nodes@.len() <= u32::MAX,
            views == node_views(nodes@),
            count <= i,
            count == with_status(views.take(i as int), status@),
        decreases nodes.len() - i,
    {
        assert(views.take(i + 1).drop_last() =~= views.take(i as int));
        assert(views.take(i + 1).last() == nodes@[i as int]@);
        if text::str_eq(nodes[i].status.as_str(), status) {
            count = count + 1;
        }
        i = i + 1;
    }
    assert(views.take(i as int) =~= views);
    count
}

fn linked(edges: &Vec<GraphEdge>, id: &str) -> (r: bool)
    ensures
        r == is_linked(edge_views(edges@), id@),
{
    let ghost views = edge_views(edges@);
    let mut i: usize = 0;
    while i < edges.len()
        invariant
            i <= edges@.len(),
            views == edge_views(edges@),
            forall|k: int|
                0 <= k < i ==> (#[trigger] views[k]).source_id != id@ && views[k].target_id != id@,
        decreases edges.len() - i,
    {
        assert(views[i as int] == edges@[i as int]@);
        if text::str_eq(edges[i].source_id.as_str(), id) || text::str_eq(
            edges[i].target_id.as_str(),
            id,
        ) {
            return true;
        }
        i = i + 1;
    }
    false
}

fn count_unlinked(nodes: &Vec<GraphNode>, edges: &Vec<GraphEdge>) -> (r: u32)
    requires
        nodes@.len() <= u32::MAX,
    ensures
        r == unlinked(node_views(nodes@), edge_views(edges@)),
{
    let mut count: u32 = 0;
    let mut i: usize = 0;
    let ghost views = node_views(nodes@);
    while i < nodes.len()
        invariant
            i <= nodes@.len(),
            nodes@.len() <= u32::MAX,
            views == node_views(nodes@),
            count <= i,
            count == unlinked(views.take(i as int), edge_views(edges@)),
        decreases nodes.len() - i,
    {
        assert(views.take(i + 1).drop_last() =~= views.take(i as int));
        assert(views.take(i + 1).last() == nodes@[i as int]@);
        if text::str_eq(nodes[i].kind.as_str(), "slack") && !linked(edges, nodes[i].id.as_str()) {
            count = count + 1;
        }
        i = i + 1;
    }
    assert(views.take(i as int) =~= views);
    count
}

/// The counts only grow: if they can be held after all events, they can be after the first ones.
proof fn lemma_counts_grow(start: Seq<GraphNodeView>, events: Seq<IntegrationEvent>, n: int)
    requires
        0 <= n <= events.len(),
        counts_fit(mentioned_nodes(start, events)),
    ensures
        counts_fit(mentioned_nodes(start, events.take(n))),
    decreases events.len(),
{
    if n == events.len() {
        assert(events.take(n) =~= events);
    } else {
        let rest = events.drop_last();
        let before = mentioned_nodes(start, rest);
        let after = mentioned_nodes(start, events);
        match reference_of(events.last()) {
            Some(r) => {
                lemma_node_place(before, target_id(r), 0);
                assert forall|k: int| 0 <= k < before.len() implies (
                #[trigger] before[k]).mention_count <= u32::MAX by {
                    assert(after[k].mention_count <= u32::MAX);
                }
            },
            None => {},
        }
        lemma_counts_grow(start, rest, n);
        assert(rest.take(n) =~= events.take(n));
    }
}

proof fn lemma_edge_grows(
    list: Seq<GraphEdgeView>,
    r: Reference,
    event: IntegrationEvent,
    bound: int,
)
    requires
        bound >= 0,
        forall|k: int| 0 <= k < list.len() ==> (#[trigger] list[k]).repeats <= bound,
    ensures
        with_edge(list, r, event).len() <= list.len() + 1,
        forall|k: int|
            0 <= k < with_edge(list, r, event).len() ==> (#[trigger] with_edge(
                list,
                r,
                event,
            )[k]).repeats <= bound + 1,
{
    lemma_edge_place(list, edge_id(r, event), 0);
}

/// The two lists that make up a graph.
struct Linked {
    nodes: Vec<GraphNode>,
    edges: Vec<GraphEdge>,
}

/// Follows the references of events, unless a mention count gets too large to be held.
fn follow_events(found: Vec<GraphNode>, events: &Vec<IntegrationEvent>) -> (r: Option<Linked>)
    ensures
        r is Some <==> counts_fit(mentioned_nodes(node_views(found@), events@)),
        r matches Some(linked) ==> {
            &&& node_views(linked.nodes@) == mentioned_nodes(node_views(found@), events@)
            &&& edge_views(linked.edges@) == reference_edges(events@)
        },
{
    let ghost start = node_views(found@);
    let mut nodes = found;
    let mut edges: Vec<GraphEdge> = Vec::new();
    let mut i: usize = 0;
    assert(edge_views(edges@) =~= Seq::empty());
    assert(mentioned_nodes(start, events@.take(0)) == start);
    while i < events.len()
        invariant
            i <= events@.len(),
            forall|k: int| 0 <= k < edges@.len() ==> (#[trigger] edges@[k]).repeats <= i,
            start == node_views(found@),
            node_views(nodes@) == mentioned_nodes(start, events@.take(i as int)),
            edge_views(edges@) == reference_edges(events@.take(i as int)),
        decreases events.len() - i,
    {
        let event = &events[i];
        assert(events@.take(i + 1).drop_last() =~= events@.take(i as int));
        assert(events@.take(i + 1).last() == *event);
        let ghost edges_before = edges@;
        match json::parse_json(event.payload.as_str()) {
            Some(payload) => match read_reference(&payload) {
                Some(target) => {
                    if !target.external_id.as_str().is_empty() {
                        let id = new_target_id(&target);
                        if !mention(&mut nodes, &target, &id, event) {
                            proof {
                                if counts_fit(mentioned_nodes(start, events@)) {
                                    lemma_counts_grow(start, events@, i + 1);
                                }
                            }
                            return None;
                        }
                        let context = payload.get_opt_text("context");
                        join(&mut edges, &target, &id, event, context);
                        proof {
                            lemma_edge_grows(
                                edge_views(edges_before),
                                target.says(),
                                *event,
                                i as int,
                            );
                            assert forall|k: int| 0 <= k < edges@.len() implies (
                            #[trigger] edges@[k]).repeats <= i + 1 by {
                                assert(edge_views(edges@)[k] == edges@[k]@);
                            }
                        }
                    }
                },
                None => {},
            },
            None => {},
        }
        i = i + 1;
    }
    assert(events@.take(i as int) =~= events@);
    proof {
        let all = node_views(nodes@);
        assert forall|k: int| 0 <= k < all.len() implies (#[trigger] all[k]).mention_count
            <= u32::MAX by {
            assert(all[k] == nodes@[k]@);
        }
    }
    Some(Linked { nodes, edges })
}

/// Whether a graph can be counted: no node has more mentions, and there are no more nodes, than a
/// count holds.
pub open spec fn countable(nodes: Seq<Node>, events: Seq<IntegrationEvent>) -> bool {
    &&& mentioned_nodes(found_nodes(nodes), events).len() <= u32::MAX
    &&& counts_fit(mentioned_nodes(found_nodes(nodes), events))
}

/// Tests whether a graph can be counted.
pub fn is_countable(nodes: &Vec<Node>, events: &Vec<IntegrationEvent>) -> (r: bool)
    ensures
        r == countable(nodes@, events@),
{
    match follow_events(collect_nodes(nodes), events) {
        Some(linked) => {
            assert(node_views(linked.nodes@).len() == linked.nodes@.len());
            linked.nodes.len() as u64 <= u32::MAX as u64
        },
        None => false,
    }
}

/// The counts over the nodes of a graph: those that are there, those only referred to, and the
/// chat messages that no edge touches.
pub open spec fn stats_of(nodes: Seq<GraphNodeView>, edges: Seq<GraphEdgeView>) -> (nat, nat, nat) {
    (
        with_status(nodes, "real"@),
        with_status(nodes, "ephemeral"@),
        unlinked(nodes, edges),
    )
}

proof fn lemma_statuses_add_up(nodes: Seq<GraphNodeView>)
    ensures
        with_status(nodes, "real"@) + with_status(nodes, "ephemeral"@) <= nodes.len(),
    decreases nodes.len(),
{
    reveal_strlit("real");
    reveal_strlit("ephemeral");
    assert("real"@.len() != "ephemeral"@.len());
    if nodes.len() > 0 {
        lemma_statuses_add_up(nodes.drop_last());
    }
}

/// An integration that runs for a scope.
#[derive(Clone, Debug, PartialEq, Eq)]
pub struct RunningIntegration {
    pub scope_type: String,
    pub scope_id: String,
    pub integration_type: IntegrationType,
}

/// The key under which an integration runs.
pub open spec fn actor_key(scope_id: Seq<char>, integration_type: Seq<char>) -> Seq<char> {
    scope_id + ":"@ + integration_type
}

fn new_actor_key(scope_id: &str, integration_type: &str) -> (r: String)
    ensures
        r@ == actor_key(scope_id@, integration_type@),
{
    let mut s = scope_id.to_owned();
    s.append(":");
    s.append(integration_type);
    s
}

/// What to start an integration with.
#[derive(Debug, PartialEq, Eq)]
pub enum StartRequest {
    Slack { scope_id: String, token: String, channels: Vec<String> },
    Jira {
        domain: String,
        email: String,
        token: String,
        scope_id: String,
        projects: Vec<String>,
    },
    GitHub { token: String, scope_id: String, repos: Vec<(String, String)> },
    Confluence {
        domain: String,
        email: String,
        token: String,
        scope_id: String,
        spaces: Vec<String>,
    },
    GoogleDocs { token: String, scope_id: String, document_ids: Vec<String> },
}

/// An integration that can be started, and what with.
#[derive(Debug, PartialEq, Eq)]
pub struct StartPlan {
    pub kind: IntegrationType,
    pub request: StartRequest,
}

/// Why an integration was not started.
#[derive(Debug, PartialEq, Eq)]
pub enum StartError {
    UnknownType(String),
    BadScope,
    AlreadyRunning,
    Failed(String),
    NotSaved(String),
}

impl StartError {
    /// The reason in words.
    pub fn message(&self) -> (r: String)
        ensures
            r@ == match self {
                StartError::UnknownType(t) => "Unknown integration type: "@ + t@,
                StartError::BadScope => "scope_type must be 'group' or 'workspace'"@,
                StartError::AlreadyRunning => "Integration already running for this scope"@,
                StartError::Failed(e) => "Failed to start integration: "@ + e@,
                StartError::NotSaved(e) => "Failed to save binding: "@ + e@,
            },
    {
        match self {
            StartError::UnknownType(t) => {
                let mut s = "Unknown integration type: ".to_owned();
                s.append(t.as_str());
                s
            },
            StartError::BadScope => "scope_type must be 'group' or 'workspace'".to_owned(),
            StartError::AlreadyRunning => "Integration already running for this scope".to_owned(),
            StartError::Failed(e) => {
                let mut s = "Failed to start integration: ".to_owned();
                s.append(e.as_str());
                s
            },
            StartError::NotSaved(e) => {
                let mut s = "Failed to save binding: ".to_owned();
                s.append(e.as_str());
                s
            },
        }
    }
}

/// The items of the array under a key; none where there is no array.
pub open spec fn items_under(config: Json, key: Seq<char>) -> Seq<Json> {
    match config.member(key) {
        Some(Json::Array(items)) => items@,
        _ => Seq::empty(),
    }
}

/// The repositories among items: those that name an owner and a repository.
pub open spec fn repos_in(items: Seq<Json>) -> Seq<(Seq<char>, Seq<char>)>
    decreases items.len(),
{
    if items.len() == 0 {
        Seq::empty()
    } else {
        let before = repos_in(items.drop_last());
        match (items.last().member_text("owner"@), items.last().member_text("repo"@)) {
            (Some(owner), Some(repo)) => before.push((owner, repo)),
            _ => before,
        }
    }
}

fn read_texts(config: &Json, key: &str) -> (r: Vec<String>)
    ensures
        collections::texts(r@) == discovery::strings_of(items_under(*config, key@)),
{
    match config.get(key) {
        Some(Json::Array(items)) => discovery::collect_strings(items),
        _ => {
            let none: Vec<String> = Vec::new();
            assert(collections::texts(none@) =~= Seq::empty());
            none
        },
    }
}

fn read_repos(config: &Json) -> (r: Vec<(String, String)>)
    ensures
        pairs(r@) == repos_in(items_under(*config, "repos"@)),
{
    let mut out: Vec<(String, String)> = Vec::new();
    assert(pairs(out@) =~= Seq::empty());
    match config.get("repos") {
        Some(Json::Array(items)) => {
            let mut i: usize = 0;
            assert(items@.take(0) =~= Seq::empty());
            while i < items.len()
                invariant
                    i <= items@.len(),
                    pairs(out@) == repos_in(items@.take(i as int)),
                decreases items.len() - i,
            {
                let ghost before = pairs(out@);
                assert(items@.take(i + 1).drop_last() =~= items@.take(i as int));
                match (items[i].get_opt_text("owner"), items[i].get_opt_text("repo")) {
                    (Some(owner), Some(repo)) => {
                        let ghost pair = (owner@, repo@);
                        out.push((owner, repo));
                        assert(pairs(out@) =~= before.push(pair));
                    },
                    _ => {},
                }
                i = i + 1;
            }
            assert(items@.take(i as int) =~= items@);
            out
        },
        _ => out,
    }
}

/// Whether a request starts an integration for a scope as configured.
pub open spec fn requests(
    r: StartRequest,
    kind: IntegrationType,
    scope: String,
    access: String,
    config: Json,
) -> bool {
    match r {
        StartRequest::Slack { scope_id, token, channels } => kind == IntegrationType::Slack
            && scope_id == scope && token == access && collections::texts(channels@)
            == discovery::strings_of(items_under(config, "channels"@)),
        StartRequest::Jira { domain, email, token, scope_id, projects } => kind
            == IntegrationType::Jira && scope_id == scope && token == access && domain@
            == config.text_or("domain"@, Seq::empty()) && email@ == config.text_or(
            "email"@,
            Seq::empty(),
        ) && collections::texts(projects@) == discovery::strings_of(
            items_under(config, "projects"@),
        ),
        StartRequest::GitHub { token, scope_id, repos } => kind == IntegrationType::GitHub
            && scope_id == scope && token == access && pairs(repos@) == repos_in(
            items_under(config, "repos"@),
        ),
        StartRequest::Confluence { domain, email, token, scope_id, spaces } => kind
            == IntegrationType::Confluence && scope_id == scope && token == access && domain@
            == config.text_or("domain"@, Seq::empty()) && email@ == config.text_or(
            "email"@,
            Seq::empty(),
        ) && collections::texts(spaces@) == discovery::strings_of(items_under(config, "spaces"@)),
        StartRequest::GoogleDocs { token, scope_id, document_ids } => kind
            == IntegrationType::GoogleDocs && scope_id == scope && token == access
            && collections::texts(document_ids@) == discovery::strings_of(
            items_under(config, "document_ids"@),
        ),
    }
}

fn make_request(kind: IntegrationType, scope_id: &String, token: &String, config: &Json) -> (r:
    StartRequest)
    ensures
        requests(r, kind, *scope_id, *token, *config),
{
    proof {
        reveal_strlit("");
        assert(""@ =~= Seq::empty());
    }
    match kind {
        IntegrationType::Slack => StartRequest::Slack {
            scope_id: scope_id.clone(),
            token: token.clone(),
            channels: read_texts(config, "channels"),
        },
        IntegrationType::Jira => StartRequest::Jira {
            domain: config.get_text("domain", ""),
            email: config.get_text("email", ""),
            token: token.clone(),
            scope_id: scope_id.clone(),
            projects: read_texts(config, "projects"),
        },
        IntegrationType::GitHub => StartRequest::GitHub {
            token: token.clone(),
            scope_id: scope_id.clone(),
            repos: read_repos(config),
        },
        IntegrationType::Confluence => StartRequest::Confluence {
            domain: config.get_text("domain", ""),
            email: config.get_text("email", ""),
            token: token.clone(),
            scope_id: scope_id.clone(),
            spaces: read_texts(config, "spaces"),
        },
        IntegrationType::GoogleDocs => StartRequest::GoogleDocs {
            token: token.clone(),
            scope_id: scope_id.clone(),
            document_ids: read_texts(config, "document_ids"),
        },
    }
}

/// Why an integration cannot be started, with what runs already.
pub open spec fn start_refusal(
    running: Map<Seq<char>, RunningIntegration>,
    scope_type: Seq<char>,
    scope_id: Seq<char>,
    integration_type: String,
) -> Option<StartError> {
    if type_named(strings::lowercase(integration_type@)) is None {
        Some(StartError::UnknownType(integration_type))
    } else if scope_type != "group"@ && scope_type != "workspace"@ {
        Some(StartError::BadScope)
    } else if running.dom().contains(actor_key(scope_id, integration_type@)) {
        Some(StartError::AlreadyRunning)
    } else {
        None
    }
}

/// An integration that has been started is not started again, until it is stopped.
pub proof fn an_integration_runs_once(
    running: Map<Seq<char>, RunningIntegration>,
    scope_type: Seq<char>,
    scope_id: Seq<char>,
    integration_type: String,
    info: RunningIntegration,
)
    requires
        start_refusal(running, scope_type, scope_id, integration_type) is None,
    ensures
        ({
            let key = actor_key(scope_id, integration_type@);
            let started = running.insert(key, info);
            &&& start_refusal(started, scope_type, scope_id, integration_type) == Some(
                StartError::AlreadyRunning,
            )
            &&& started.remove(key) == running
        }),
{
    let key = actor_key(scope_id, integration_type@);
    assert(running.insert(key, info).remove(key) =~= running);
}

/// A binding as it is stored.
#[derive(Debug, PartialEq, Eq)]
pub struct Binding {
    pub id: String,
    pub scope_type: String,
    pub scope_id: String,
    pub integration_type: String,
    pub config_json: String,
    pub created_at: i64,
}

/// The identifier of a binding.
pub open spec fn binding_id(
    scope_type: Seq<char>,
    scope_id: Seq<char>,
    integration_type: Seq<char>,
) -> Seq<char> {
    hash::text_id("binding:"@ + scope_type + ":"@ + scope_id + ":"@ + integration_type)
}

/// What is left to do after an integration left the list: stop it, where its name is known, and
/// tell the user interface.
#[derive(Debug, PartialEq, Eq)]
pub struct StopPlan {
    pub kind: Option<IntegrationType>,
    pub event: SwiftEvent,
}

/// How many broadcast events are kept at most.
pub const BROADCAST_LIMIT: usize = 1000;

/// How many of the oldest go when there are more.
pub const BROADCAST_DROP: usize = 500;

/// The broadcast queue after one more event: where it is over the limit, the oldest go.
pub open spec fn queued(queue: Seq<BroadcastEvent>, event: BroadcastEvent) -> Seq<BroadcastEvent> {
    let q = queue.push(event);
    if q.len() > BROADCAST_LIMIT {
        q.skip(BROADCAST_DROP as int)
    } else {
        q
    }
}

/// The broadcast queue stays within its limit, and the newest event is always in it.
pub proof fn broadcast_queue_is_bounded(queue: Seq<BroadcastEvent>, event: BroadcastEvent)
    requires
        queue.len() <= BROADCAST_LIMIT,
    ensures
        queued(queue, event).len() <= BROADCAST_LIMIT,
        queued(queue, event).last() == event,
{
}

/// What decides whether a graph has changed: the sizes, the identifiers and the last activities.
pub open spec fn fingerprint(graph: IntegrationGraph) -> Seq<Seq<u8>> {
    node_prints(graph.nodes@, edge_sizes(graph)) + edge_prints(graph.edges@)
}

/// The sizes of a graph as bytes.
pub open spec fn edge_sizes(graph: IntegrationGraph) -> Seq<Seq<u8>> {
    seq![
        spec_u64_to_le_bytes(graph.nodes@.len() as u64),
        spec_u64_to_le_bytes(graph.edges@.len() as u64),
    ]
}

/// What marks the end of a text among hashed bytes: no text has it in its UTF-8.
pub open spec fn text_end() -> Seq<u8> {
    seq![0xffu8]
}

/// The identifiers and last activities of nodes, behind what comes before.
pub open spec fn node_prints(nodes: Seq<GraphNode>, before: Seq<Seq<u8>>) -> Seq<Seq<u8>>
    decreases nodes.len(),
{
    if nodes.len() == 0 {
        before
    } else {
        node_prints(nodes.drop_last(), before) + seq![
            encode_utf8(nodes.last().id@),
            text_end(),
            spec_u64_to_le_bytes(nodes.last().last_activity),
        ]
    }
}

/// The identifiers of edges.
pub open spec fn edge_prints(edges: Seq<GraphEdge>) -> Seq<Seq<u8>>
    decreases edges.len(),
{
    if edges.len() == 0 {
        Seq::empty()
    } else {
        edge_prints(edges.drop_last()) + seq![encode_utf8(edges.last().id@), text_end()]
    }
}

/// The hash of a graph.
pub open spec fn graph_hash(graph: IntegrationGraph) -> u64 {
    DefaultHasher::spec_finish(fingerprint(graph))
}

/// Computes the hash of a graph.
pub fn compute_graph_hash(graph: &IntegrationGraph) -> (r: u64)
    ensures
        r == graph_hash(*graph),
{
    let mut hasher = DefaultHasher::new();
    hasher.write(u64_to_le_bytes(graph.nodes.len() as u64).as_slice());
    hasher.write(u64_to_le_bytes(graph.edges.len() as u64).as_slice());
    assert(hasher@ =~= edge_sizes(*graph));
    let end: Vec<u8> = vec![0xff];
    assert(end@ =~= text_end());
    let mut i: usize = 0;
    while i < graph.nodes.len()
        invariant
            i <= graph.nodes@.len(),
            end@ == text_end(),
            hasher@ == node_prints(graph.nodes@.take(i as int), edge_sizes(*graph)),
        decreases graph.nodes.len() - i,
    {
        assert(graph.nodes@.take(i + 1).drop_last() =~= graph.nodes@.take(i as int));
        hasher.write(graph.nodes[i].id.as_str().as_bytes());
        hasher.write(end.as_slice());
        hasher.write(u64_to_le_bytes(graph.nodes[i].last_activity).as_slice());
        assert(hasher@ =~= node_prints(graph.nodes@.take(i + 1), edge_sizes(*graph)));
        i = i + 1;
    }
    assert(graph.nodes@.take(i as int) =~= graph.nodes@);
    let ghost first = hasher@;
    let mut k: usize = 0;
    assert(first + edge_prints(graph.edges@.take(0)) =~= first);
    while k < graph.edges.len()
        invariant
            k <= graph.edges@.len(),
            end@ == text_end(),
            hasher@ == first + edge_prints(graph.edges@.take(k as int)),
        decreases graph.edges.len() - k,
    {
        assert(graph.edges@.take(k + 1).drop_last() =~= graph.edges@.take(k as int));
        hasher.write(graph.edges[k].id.as_str().as_bytes());
        hasher.write(end.as_slice());
        assert(hasher@ =~= first + edge_prints(graph.edges@.take(k + 1)));
        k = k + 1;
    }
    assert(graph.edges@.take(k as int) =~= graph.edges@);
    hasher.finish()
}

/// What is known about running integrations.
pub struct IntegrationBridge {
    pub running: TextMap<RunningIntegration>,
    pub last_graph_hash: TextMap<u64>,
    pub focus_nodes: TextMap<String>,
    pub broadcast_queue: Vec<BroadcastEvent>,
}

/// The key of a scope.
pub open spec fn scope_key(scope_type: Seq<char>, scope_id: Seq<char>) -> Seq<char> {
    scope_type + ":"@ + scope_id
}

/// Whether a running integration belongs to a scope, which may be given with or without its type.
pub open spec fn runs_for(info: RunningIntegration, scope: Seq<char>) -> bool {
    info.scope_id@ == scope || scope_key(info.scope_type@, info.scope_id@) == scope
}

/// Whether a graph goes out: it has nodes, and is not what went out for its scope last.
pub open spec fn goes_out(last: Map<Seq<char>, u64>, graph: IntegrationGraph) -> bool {
    &&& graph.nodes@.len() > 0
    &&& !(last.dom().contains(graph.scope_id@) && last[graph.scope_id@] == graph_hash(graph))
}

/// The node in focus of a scope.
pub open spec fn focus_of(focus: Map<Seq<char>, String>, scope: Seq<char>) -> Option<String> {
    if focus.dom().contains(scope) {
        Some(focus[scope])
    } else {
        None
    }
}

/// The nodes in focus after one was set for a scope, or its focus was taken away.
pub open spec fn with_focus(
    focus: Map<Seq<char>, String>,
    scope: Seq<char>,
    node_id: Option<String>,
) -> Map<Seq<char>, String> {
    match node_id {
        Some(id) => focus.insert(scope, id),
        None => focus.remove(scope),
    }
}

/// The graph of a scope shows the focus that was last set for the scope, or none after the focus
/// was taken away; the graphs of all other scopes show what they showed before.
pub proof fn the_last_focus_is_shown(
    before: IntegrationBridge,
    after: IntegrationBridge,
    scope: Seq<char>,
    node_id: Option<String>,
    events: Seq<IntegrationEvent>,
    nodes: Seq<Node>,
    scope_type: Seq<char>,
    scope_id: Seq<char>,
    now: u64,
    graph: IntegrationGraph,
)
    requires
        after.focus_nodes@ == with_focus(before.focus_nodes@, scope, node_id),
        after.shows(events, nodes, scope_type, scope_id, now, graph),
    ensures
        scope_key(scope_type, scope_id) == scope ==> graph.focus_node_id == node_id,
        scope_key(scope_type, scope_id) != scope ==> graph.focus_node_id == focus_of(
            before.focus_nodes@,
            scope_key(scope_type, scope_id),
        ),
{
}

/// A graph that has gone out does not go out again unchanged.
pub proof fn unchanged_graph_stays(last: Map<Seq<char>, u64>, graph: IntegrationGraph)
    ensures
        !goes_out(last.insert(graph.scope_id@, graph_hash(graph)), graph),
{
}

impl IntegrationBridge {
    pub open spec fn wf(&self) -> bool {
        &&& self.running.wf()
        &&& self.last_graph_hash.wf()
        &&& self.focus_nodes.wf()
        &&& self.broadcast_queue@.len() <= BROADCAST_LIMIT
    }

    /// Nothing runs.
    pub fn new() -> (r: Self)
        ensures
            r.wf(),
            r.running@ == Map::<Seq<char>, RunningIntegration>::empty(),
            r.last_graph_hash@ == Map::<Seq<char>, u64>::empty(),
            r.focus_nodes@ == Map::<Seq<char>, String>::empty(),
            r.broadcast_queue@ == Seq::<BroadcastEvent>::empty(),
    {
        IntegrationBridge {
            running: TextMap::new(),
            last_graph_hash: TextMap::new(),
            focus_nodes: TextMap::new(),
            broadcast_queue: Vec::new(),
        }
    }

    /// Whether a graph is that of a scope: what its integrations found and what the events refer
    /// to, counted, with the focus that was set for it.
    pub open spec fn shows(
        &self,
        events: Seq<IntegrationEvent>,
        nodes: Seq<Node>,
        scope_type: Seq<char>,
        scope_id: Seq<char>,
        now: u64,
        graph: IntegrationGraph,
    ) -> bool {
        &&& graph.scope_id@ == scope_key(scope_type, scope_id)
        &&& node_views(graph.nodes@) == mentioned_nodes(found_nodes(nodes), events)
        &&& edge_views(graph.edges@) == reference_edges(events)
        &&& collections::texts(graph.connected_integrations@) == connected(nodes)
        &&& graph.focus_node_id == focus_of(self.focus_nodes@, graph.scope_id@)
        &&& stats_of(node_views(graph.nodes@), edge_views(graph.edges@)) == (
            graph.stats.real_nodes as nat,
            graph.stats.ephemeral_nodes as nat,
            graph.stats.unlinked_messages as nat,
        )
        &&& graph.stats.total_nodes == graph.stats.real_nodes + graph.stats.ephemeral_nodes
        &&& graph.stats.total_edges == graph.edges@.len() as u32
        &&& graph.updated_at == now
    }

    /// Builds the graph of a scope from what its integrations found, if it can be counted.
    pub fn countable_graph(
        &self,
        events: &Vec<IntegrationEvent>,
        nodes: &Vec<Node>,
        scope_type: &str,
        scope_id: &str,
        now: u64,
    ) -> (r: Option<IntegrationGraph>)
        requires
            self.wf(),
        ensures
            r is Some <==> countable(nodes@, events@),
            r matches Some(graph) ==> self.shows(
                events@,
                nodes@,
                scope_type@,
                scope_id@,
                now,
                graph,
            ),
    {
        if is_countable(nodes, events) {
            Some(self.build_force_graph(events, nodes, scope_type, scope_id, now))
        } else {
            None
        }
    }

    /// Builds the graph of a scope from what its integrations found.
    pub fn build_force_graph(
        &self,
        events: &Vec<IntegrationEvent>,
        nodes: &Vec<Node>,
        scope_type: &str,
        scope_id: &str,
        now: u64,
    ) -> (r: IntegrationGraph)
        requires
            self.wf(),
            countable(nodes@, events@),
        ensures
            self.shows(events@, nodes@, scope_type@, scope_id@, now, r),
    {
        let key = new_actor_key(scope_type, scope_id);
        let linked = follow_events(collect_nodes(nodes), events).unwrap();
        assert(node_views(linked.nodes@).len() == linked.nodes@.len());
        assert(edge_views(linked.edges@).len() == linked.edges@.len());
        let connected_integrations = collect_connected(nodes);
        proof {
            lemma_statuses_add_up(node_views(linked.nodes@));
        }
        let real_nodes = count_status(&linked.nodes, "real");
        let ephemeral_nodes = count_status(&linked.nodes, "ephemeral");
        let unlinked_messages = count_unlinked(&linked.nodes, &linked.edges);
        let focus_node_id: Option<String> = match self.focus_nodes.get(key.as_str()) {
            Some(id) => Some(id.clone()),
            None => None,
        };
        let stats = GraphStats {
            total_nodes: real_nodes + ephemeral_nodes,
            real_nodes,
            ephemeral_nodes,
            total_edges: linked.edges.len() as u32,
            unlinked_messages,
        };
        IntegrationGraph {
            scope_id: key,
            nodes: linked.nodes,
            edges: linked.edges,
            focus_node_id,
            connected_integrations,
            stats,
            updated_at: now,
        }
    }

    /// Keeps an event for broadcast.
    pub fn queue_broadcast(&mut self, event: BroadcastEvent)
        requires
            old(self).wf(),
        ensures
            final(self).wf(),
            final(self).broadcast_queue@ == queued(old(self).broadcast_queue@, event),
            final(self).running == old(self).running,
            final(self).last_graph_hash == old(self).last_graph_hash,
            final(self).focus_nodes == old(self).focus_nodes,
    {
        self.broadcast_queue.push(event);
        if self.broadcast_queue.len() > BROADCAST_LIMIT {
            let rest = self.broadcast_queue.split_off(BROADCAST_DROP);
            self.broadcast_queue = rest;
        }
    }

    /// Hands out the events kept for broadcast.
    pub fn drain_broadcast_queue(&mut self) -> (r: Vec<BroadcastEvent>)
        requires
            old(self).wf(),
        ensures
            final(self).wf(),
            r == old(self).broadcast_queue,
            final(self).broadcast_queue@ == Seq::<BroadcastEvent>::empty(),
            final(self).running == old(self).running,
            final(self).last_graph_hash == old(self).last_graph_hash,
            final(self).focus_nodes == old(self).focus_nodes,
    {
        let mut out: Vec<BroadcastEvent> = Vec::new();
        std::mem::swap(&mut out, &mut self.broadcast_queue);
        out
    }

    /// Sends a graph out, unless it is empty or has not changed since it last went out: it is kept
    /// for broadcast, and the user interface is told. `graph_json` is the graph as JSON.
    pub fn forward_graph(&mut self, graph: IntegrationGraph, graph_json: String) -> (r: Option<
        SwiftEvent,
    >)
        requires
            old(self).wf(),
        ensures
            final(self).wf(),
            final(self).running == old(self).running,
            final(self).focus_nodes == old(self).focus_nodes,
            if goes_out(old(self).last_graph_hash@, graph) {
                &&& r == Some(
                    SwiftEvent::IntegrationGraph { scope_id: graph.scope_id, graph_json },
                )
                &&& final(self).last_graph_hash@ == old(self).last_graph_hash@.insert(
                    graph.scope_id@,
                    graph_hash(graph),
                )
                &&& exists|event: BroadcastEvent|
                    {
                        &&& event.event_type@ == "graph_update"@
                        &&& event.scope_id == graph.scope_id
                        &&& event.timestamp == graph.updated_at
                        &&& event.payload == (BroadcastPayload::GraphSnapshot { graph })
                        &&& final(self).broadcast_queue@ == #[trigger] queued(
                            old(self).broadcast_queue@,
                            event,
                        )
                    }
            } else {
                &&& r is None
                &&& final(self).last_graph_hash@ == old(self).last_graph_hash@
                &&& final(self).broadcast_queue == old(self).broadcast_queue
            },
    {
        if graph.nodes.len() == 0 {
            return None;
        }
        let hash = compute_graph_hash(&graph);
        match self.last_graph_hash.get(graph.scope_id.as_str()) {
            Some(last) => {
                if *last == hash {
                    return None;
                }
            },
            None => {},
        }
        self.last_graph_hash.insert(graph.scope_id.clone(), hash);
        let scope_id = graph.scope_id.clone();
        let event = BroadcastEvent {
            event_type: "graph_update".to_owned(),
            scope_id: graph.scope_id.clone(),
            timestamp: graph.updated_at,
            payload: BroadcastPayload::GraphSnapshot { graph },
        };
        self.queue_broadcast(event);
        Some(SwiftEvent::IntegrationGraph { scope_id, graph_json })
    }

    /// Decides whether an integration can be started, and with what.
    pub fn plan_start(
        &self,
        scope_type: &str,
        scope_id: &String,
        integration_type: &String,
        token: &String,
        config: &serde_json::Value,
    ) -> (r: Result<StartPlan, StartError>)
        requires
            self.wf(),
        ensures
            match start_refusal(self.running@, scope_type@, scope_id@, *integration_type) {
                Some(e) => r == Err::<StartPlan, StartError>(e),
                None => r matches Ok(plan) && type_named(strings::lowercase(integration_type@))
                    == Some(plan.kind) && requests(
                    plan.request,
                    plan.kind,
                    *scope_id,
                    *token,
                    json::json_tree(*config),
                ),
            },
    {
        let config = json::json_of_value(config);
        self.plan_start_with(scope_type, scope_id, integration_type, token, &config)
    }

    /// Decides whether an integration can be started with what its configuration holds.
    pub fn plan_start_with(
        &self,
        scope_type: &str,
        scope_id: &String,
        integration_type: &String,
        token: &String,
        config: &Json,
    ) -> (r: Result<StartPlan, StartError>)
        requires
            self.wf(),
        ensures
            match start_refusal(self.running@, scope_type@, scope_id@, *integration_type) {
                Some(e) => r == Err::<StartPlan, StartError>(e),
                None => r matches Ok(plan) && type_named(strings::lowercase(integration_type@))
                    == Some(plan.kind) && requests(
                    plan.request,
                    plan.kind,
                    *scope_id,
                    *token,
                    *config,
                ),
            },
    {
        let kind = match IntegrationType::from_str(integration_type.as_str()) {
            Some(kind) => kind,
            None => {
                return Err(StartError::UnknownType(integration_type.clone()));
            },
        };
        if !text::str_eq(scope_type, "group") && !text::str_eq(scope_type, "workspace") {
            return Err(StartError::BadScope);
        }
        let key = new_actor_key(scope_id.as_str(), integration_type.as_str());
        if self.running.contains_key(key.as_str()) {
            return Err(StartError::AlreadyRunning);
        }
        Ok(StartPlan { kind, request: make_request(kind, scope_id, token, config) })
    }

    /// Takes note of how starting an integration went: one that started is listed, and its binding
    /// is to be stored, with its configuration written as JSON.
    pub fn start_finished(
        &mut self,
        scope_type: &String,
        scope_id: &String,
        integration_type: &String,
        kind: IntegrationType,
        outcome: Result<(), String>,
        config: &serde_json::Value,
        now: i64,
    ) -> (r: Result<Binding, StartError>)
        requires
            old(self).wf(),
        ensures
            final(self).wf(),
            final(self).last_graph_hash == old(self).last_graph_hash,
            final(self).focus_nodes == old(self).focus_nodes,
            final(self).broadcast_queue == old(self).broadcast_queue,
            match outcome {
                Err(e) => r == Err::<Binding, StartError>(StartError::Failed(e))
                    && final(self).running@ == old(self).running@,
                Ok(_) => {
                    &&& final(self).running@ == old(self).running@.insert(
                        actor_key(scope_id@, integration_type@),
                        RunningIntegration {
                            scope_type: *scope_type,
                            scope_id: *scope_id,
                            integration_type: kind,
                        },
                    )
                    &&& r matches Ok(b)
                    &&& b.id@ == binding_id(scope_type@, scope_id@, integration_type@)
                    &&& b.scope_type == *scope_type
                    &&& b.scope_id == *scope_id
                    &&& b.integration_type == *integration_type
                    &&& b.config_json@ == json::written_json(json::json_tree(*config))
                    &&& b.created_at == now
                },
            },
    {
        match outcome {
            Err(e) => Err(StartError::Failed(e)),
            Ok(_) => {
                let key = new_actor_key(scope_id.as_str(), integration_type.as_str());
                self.running.insert(
                    key,
                    RunningIntegration {
                        scope_type: scope_type.clone(),
                        scope_id: scope_id.clone(),
                        integration_type: kind,
                    },
                );
                let mut s = "binding:".to_owned();
                s.append(scope_type.as_str());
                s.append(":");
                s.append(scope_id.as_str());
                s.append(":");
                s.append(integration_type.as_str());
                Ok(
                    Binding {
                        id: hash::hash_text(s.as_str()),
                        scope_type: scope_type.clone(),
                        scope_id: scope_id.clone(),
                        integration_type: integration_type.clone(),
                        config_json: json::value_text(config),
                        created_at: now,
                    },
                )
            },
        }
    }

    /// Stops an integration: it leaves the list.
    pub fn stop(&mut self, scope_id: &String, integration_type: &String) -> (r: Result<
        StopPlan,
        String,
    >)
        requires
            old(self).wf(),
        ensures
            final(self).wf(),
            final(self).last_graph_hash == old(self).last_graph_hash,
            final(self).focus_nodes == old(self).focus_nodes,
            final(self).broadcast_queue == old(self).broadcast_queue,
            final(self).running@ == old(self).running@.remove(
                actor_key(scope_id@, integration_type@),
            ),
            match r {
                Ok(plan) => {
                    &&& old(self).running@.dom().contains(actor_key(scope_id@, integration_type@))
                    &&& plan.kind == type_named(integration_type@)
                    &&& plan.event matches SwiftEvent::IntegrationStatus {
                        scope_id: s,
                        integration_type: t,
                        status,
                        message,
                    }
                    &&& s == *scope_id
                    &&& t == *integration_type
                    &&& status@ == "stopped"@
                    &&& message is None
                },
                Err(e) => {
                    &&& !old(self).running@.dom().contains(actor_key(scope_id@, integration_type@))
                    &&& e@ == "Integration not running"@
                },
            },
    {
        let key = new_actor_key(scope_id.as_str(), integration_type.as_str());
        match self.running.remove(key.as_str()) {
            None => Err("Integration not running".to_owned()),
            Some(_) => Ok(
                StopPlan {
                    kind: IntegrationType::named(integration_type.as_str()),
                    event: SwiftEvent::IntegrationStatus {
                        scope_id: scope_id.clone(),
                        integration_type: integration_type.clone(),
                        status: "stopped".to_owned(),
                        message: None,
                    },
                },
            ),
        }
    }

    /// Whether an integration runs for a scope.
    pub fn is_running(&self, scope_id: &str, integration_type: &str) -> (r: bool)
        requires
            self.wf(),
        ensures
            r == self.running@.dom().contains(actor_key(scope_id@, integration_type@)),
    {
        let key = new_actor_key(scope_id, integration_type);
        self.running.contains_key(key.as_str())
    }

    /// An integration that runs for a scope, where one does.
    pub fn running_for(&self, scope: &str) -> (r: Option<&RunningIntegration>)
        requires
            self.wf(),
        ensures
            match r {
                Some(info) => runs_for(*info, scope@) && exists|key: Seq<char>| #[trigger]
                    self.running@.dom().contains(key) && self.running@[key] == *info,
                None => forall|key: Seq<char>| #[trigger]
                    self.running@.dom().contains(key) ==> !runs_for(self.running@[key], scope@),
            },
    {
        let keys = self.running.keys();
        let mut i: usize = 0;
        while i < keys.len()
            invariant
                i <= keys@.len(),
                self.wf(),
                collections::texts(keys@).to_set() == self.running@.dom(),
                forall|k: int|
                    0 <= k < i ==> !runs_for(self.running@[(#[trigger] keys@[k])@], scope@),
            decreases keys.len() - i,
        {
            assert(collections::texts(keys@)[i as int] == keys@[i as int]@);
            assert(self.running@.dom().contains(keys@[i as int]@));
            match self.running.get(keys[i].as_str()) {
                Some(info) => {
                    let full = new_actor_key(info.scope_type.as_str(), info.scope_id.as_str());
                    if text::str_eq(info.scope_id.as_str(), scope) || text::str_eq(
                        full.as_str(),
                        scope,
                    ) {
                        return Some(info);
                    }
                },
                None => {},
            }
            i = i + 1;
        }
        proof {
            assert forall|key: Seq<char>| #[trigger]
                self.running@.dom().contains(key) implies !runs_for(self.running@[key], scope@) by {
                assert(collections::texts(keys@).contains(key));
                let k = choose|k: int|
                    0 <= k < collections::texts(keys@).len() && collections::texts(keys@)[k] == key;
                assert(keys@[k]@ == key);
            }
        }
        None
    }

    /// Sets the node in focus of a scope, or takes the focus away.
    pub fn set_focus(&mut self, scope_id: String, node_id: Option<String>)
        requires
            old(self).wf(),
        ensures
            final(self).wf(),
            final(self).running == old(self).running,
            final(self).last_graph_hash == old(self).last_graph_hash,
            final(self).broadcast_queue == old(self).broadcast_queue,
            final(self).focus_nodes@ == with_focus(old(self).focus_nodes@, scope_id@, node_id),
    {
        match node_id {
            Some(id) => {
                self.focus_nodes.insert(scope_id, id);
            },
            None => {
                self.focus_nodes.remove(scope_id.as_str());
            },
        }
    }
}

/// What the user interface hears once the binding of a started integration has been stored.
pub fn binding_stored(
    scope_type: &str,
    scope_id: &str,
    integration_type: &String,
    outcome: Result<(), String>,
) -> (r: Result<SwiftEvent, StartError>)
    ensures
        match outcome {
            Err(e) => r == Err::<SwiftEvent, StartError>(StartError::NotSaved(e)),
            Ok(_) => {
                &&& r matches Ok(event)
                &&& event matches SwiftEvent::IntegrationStatus {
                    scope_id: s,
                    integration_type: t,
                    status,
                    message,
                }
                &&& s@ == scope_key(scope_type@, scope_id@)
                &&& t == *integration_type
                &&& status@ == "connected"@
                &&& message is None
            },
        },
{
    match outcome {
        Err(e) => Err(StartError::NotSaved(e)),
        Ok(_) => Ok(
            SwiftEvent::IntegrationStatus {
                scope_id: new_actor_key(scope_type, scope_id),
                integration_type: integration_type.clone(),
                status: "connected".to_owned(),
                message: None,
            },
        ),
    }
}

/// The configuration to restore an integration with; one that is not JSON counts as empty.
pub fn restored_config(stored: Option<String>) -> (r: Result<Json, String>)
    ensures
        match stored {
            None => r matches Err(e) && e@ == "Binding not found"@,
            Some(s) => r matches Ok(config) && match json::parsed_json(s@) {
                Some(parsed) => config == parsed,
                None => config matches Json::Object(members) && members@.len() == 0,
            },
        },
{
    match stored {
        None => Err("Binding not found".to_owned()),
        Some(s) => match json::parse_json(s.as_str()) {
            Some(config) => Ok(config),
            None => Ok(Json::Object(Vec::new())),
        },
    }
}

} // verus!
