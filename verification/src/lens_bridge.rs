//! Forwarding of integration content to the analysis pipeline.

use crate::strings;
use vstd::prelude::*;
use vstd::string::*;

verus! {

/// What kind of thing an integration node stands for.
#[derive(Clone, Copy, Debug, PartialEq, Eq, Structural)]
pub enum NodeKind {
    SlackMessage,
    SlackThread,
    JiraTicket,
    JiraComment,
    GitHubPR,
    GitHubIssue,
    GitHubCommit,
    GitHubRepo,
    ConfluencePage,
    GoogleDoc,
    GoogleSheet,
    GoogleSlide,
    GenericUrl,
}

/// Whether the content of a node has been fetched, or it is only known by mention, or looking it up
/// gave something else.
#[derive(Clone, Copy, Debug, PartialEq, Eq, Structural)]
pub enum NodeStatus {
    Real,
    Ephemeral,
    Resolved,
    NotFound,
    Error,
}

/// What is known about a node besides its content.
#[derive(Clone, Debug, PartialEq, Eq)]
pub struct NodeMetadata {
    pub author: String,
    pub url: String,
    pub title: Option<String>,
    pub status: Option<String>,
    pub mentioned_by: Vec<String>,
    pub mention_count: u32,
}

/// Something that an integration found.
#[derive(Clone, Debug, PartialEq, Eq)]
pub struct Node {
    pub id: String,
    pub workspace_id: String,
    pub external_id: String,
    pub name: String,
    pub kind: NodeKind,
    pub content: String,
    pub metadata: NodeMetadata,
    pub status: NodeStatus,
    pub ts: u64,
    pub first_seen: u64,
    pub last_updated: u64,
}

/// The integration that content comes from.
#[derive(Clone, Copy, Debug, PartialEq, Eq, Hash, Structural)]
pub enum SourceKind {
    Slack,
    Jira,
    GitHub,
    Confluence,
    GoogleDocs,
}

/// The kind of content within a source.
#[derive(Clone, Copy, Debug, PartialEq, Eq, Hash, Structural)]
pub enum ContentKind {
    SlackMessage,
    SlackThread,
    JiraTicket,
    JiraComment,
    GithubPr,
    GithubIssue,
    GithubComment,
    GithubCommit,
    ConfluencePage,
    GoogleDoc,
    GoogleSheet,
    GoogleSlide,
}

/// An event of the analysis pipeline.
#[derive(Clone, Debug, PartialEq, Eq)]
pub struct RawEvent {
    pub id: String,
    pub group_id: String,
    pub workspace_id: String,
    pub source: SourceKind,
    pub content_kind: ContentKind,
    pub external_id: String,
    pub content: String,
    pub author_id: String,
    pub author_name: String,
    pub url: String,
    pub title: Option<String>,
    pub thread_id: Option<String>,
    pub parent_id: Option<String>,
    pub ts: u64,
    pub captured_at: u64,
}

/// The envelope in which an event travels; the payload is the event as JSON.
#[derive(Clone, Debug, PartialEq, Eq)]
pub struct XfEvent {
    pub id: String,
    pub payload: String,
    pub source: String,
    pub ts: u64,
}

/// Why an event was not delivered.
#[derive(Debug, PartialEq, Eq)]
pub enum DeliveryError {
    Serialize(String),
    Send(String),
}

/// Forwards nodes of one group and counts what became of them.
#[derive(Debug)]
pub struct LensBridge {
    pub group_id: String,
    pub forwarded: u64,
    pub skipped: u64,
}

/// Whether a node has content to forward: it has been fetched and is not blank.
pub open spec fn has_content(node: Node) -> bool {
    !(node.status is Ephemeral) && !strings::all_white(node.content@)
}

/// The source and kind of content that a kind of node stands for. Repositories count as issues, and
/// other links as chat messages.
pub open spec fn mapped(kind: NodeKind) -> (SourceKind, ContentKind) {
    match kind {
        NodeKind::SlackMessage => (SourceKind::Slack, ContentKind::SlackMessage),
        NodeKind::SlackThread => (SourceKind::Slack, ContentKind::SlackThread),
        NodeKind::JiraTicket => (SourceKind::Jira, ContentKind::JiraTicket),
        NodeKind::JiraComment => (SourceKind::Jira, ContentKind::JiraComment),
        NodeKind::GitHubPR => (SourceKind::GitHub, ContentKind::GithubPr),
        NodeKind::GitHubIssue => (SourceKind::GitHub, ContentKind::GithubIssue),
        NodeKind::GitHubCommit => (SourceKind::GitHub, ContentKind::GithubCommit),
        NodeKind::GitHubRepo => (SourceKind::GitHub, ContentKind::GithubIssue),
        NodeKind::ConfluencePage => (SourceKind::Confluence, ContentKind::ConfluencePage),
        NodeKind::GoogleDoc => (SourceKind::GoogleDocs, ContentKind::GoogleDoc),
        NodeKind::GoogleSheet => (SourceKind::GoogleDocs, ContentKind::GoogleSheet),
        NodeKind::GoogleSlide => (SourceKind::GoogleDocs, ContentKind::GoogleSlide),
        NodeKind::GenericUrl => (SourceKind::Slack, ContentKind::SlackMessage),
    }
}

/// The event of a node of a group, captured at a time.
pub open spec fn raw_event(group_id: String, node: Node, now: u64) -> RawEvent {
    RawEvent {
        id: node.id,
        group_id,
        workspace_id: node.workspace_id,
        source: mapped(node.kind).0,
        content_kind: mapped(node.kind).1,
        external_id: node.external_id,
        content: node.content,
        author_id: node.metadata.author,
        author_name: node.metadata.author,
        url: node.metadata.url,
        title: node.metadata.title,
        thread_id: None,
        parent_id: None,
        ts: node.ts,
        captured_at: now,
    }
}

/// The outcome of forwarding a node: whether it was forwarded, or why it could not be.
pub open spec fn outcome(node: Node, delivered: Result<(), DeliveryError>, r: Result<bool, String>) -> bool {
    if !has_content(node) {
        r == Ok::<bool, String>(false)
    } else {
        match delivered {
            Ok(_) => r == Ok::<bool, String>(true),
            Err(DeliveryError::Serialize(e)) => r matches Err(m) && m@ == "Serialize error: "@ + e@,
            Err(DeliveryError::Send(e)) => r matches Err(m) && m@ == "XaeroFlux send error: "@ + e@,
        }
    }
}

impl LensBridge {
    pub fn new(group_id: String) -> (r: Self)
        ensures
            r.group_id == group_id,
            r.forwarded == 0,
            r.skipped == 0,
    {
        LensBridge { group_id, forwarded: 0, skipped: 0 }
    }

    /// Maps a kind of node to the source and kind of its content.
    pub fn map_node_kind(kind: &NodeKind) -> (r: (SourceKind, ContentKind))
        ensures
            r == mapped(*kind),
    {
        match kind {
            NodeKind::SlackMessage => (SourceKind::Slack, ContentKind::SlackMessage),
            NodeKind::SlackThread => (SourceKind::Slack, ContentKind::SlackThread),
            NodeKind::JiraTicket => (SourceKind::Jira, ContentKind::JiraTicket),
            NodeKind::JiraComment => (SourceKind::Jira, ContentKind::JiraComment),
            NodeKind::GitHubPR => (SourceKind::GitHub, ContentKind::GithubPr),
            NodeKind::GitHubIssue => (SourceKind::GitHub, ContentKind::GithubIssue),
            NodeKind::GitHubCommit => (SourceKind::GitHub, ContentKind::GithubCommit),
            NodeKind::GitHubRepo => (SourceKind::GitHub, ContentKind::GithubIssue),
            NodeKind::ConfluencePage => (SourceKind::Confluence, ContentKind::ConfluencePage),
            NodeKind::GoogleDoc => (SourceKind::GoogleDocs, ContentKind::GoogleDoc),
            NodeKind::GoogleSheet => (SourceKind::GoogleDocs, ContentKind::GoogleSheet),
            NodeKind::GoogleSlide => (SourceKind::GoogleDocs, ContentKind::GoogleSlide),
            NodeKind::GenericUrl => (SourceKind::Slack, ContentKind::SlackMessage),
        }
    }

    /// The name of a kind of node.
    pub fn kind_str(kind: &NodeKind) -> (r: &'static str)
        ensures
            r@ == match kind {
                NodeKind::SlackMessage => "slack_message"@,
                NodeKind::SlackThread => "slack_thread"@,
                NodeKind::JiraTicket => "jira_ticket"@,
                NodeKind::JiraComment => "jira_comment"@,
                NodeKind::GitHubPR => "github_pr"@,
                NodeKind::GitHubIssue => "github_issue"@,
                NodeKind::GitHubCommit => "github_commit"@,
                NodeKind::GitHubRepo => "github_repo"@,
                NodeKind::ConfluencePage => "confluence_page"@,
                NodeKind::GoogleDoc => "google_doc"@,
                NodeKind::GoogleSheet => "google_sheet"@,
                NodeKind::GoogleSlide => "google_slide"@,
                NodeKind::GenericUrl => "generic_url"@,
            },
    {
        match kind {
            NodeKind::SlackMessage => "slack_message",
            NodeKind::SlackThread => "slack_thread",
            NodeKind::JiraTicket => "jira_ticket",
            NodeKind::JiraComment => "jira_comment",
            NodeKind::GitHubPR => "github_pr",
            NodeKind::GitHubIssue => "github_issue",
            NodeKind::GitHubCommit => "github_commit",
            NodeKind::GitHubRepo => "github_repo",
            NodeKind::ConfluencePage => "confluence_page",
            NodeKind::GoogleDoc => "google_doc",
            NodeKind::GoogleSheet => "google_sheet",
            NodeKind::GoogleSlide => "google_slide",
            NodeKind::GenericUrl => "generic_url",
        }
    }

    /// The event of a node, captured at a time.
    pub fn node_to_raw_event(&self, node: &Node, now: u64) -> (r: RawEvent)
        ensures
            r == raw_event(self.group_id, *node, now),
    {
        let (source, content_kind) = Self::map_node_kind(&node.kind);
        RawEvent {
            id: node.id.clone(),
            group_id: self.group_id.clone(),
            workspace_id: node.workspace_id.clone(),
            source,
            content_kind,
            external_id: node.external_id.clone(),
            content: node.content.clone(),
            author_id: node.metadata.author.clone(),
            author_name: node.metadata.author.clone(),
            url: node.metadata.url.clone(),
            title: node.metadata.title.clone(),
            thread_id: None,
            parent_id: None,
            ts: node.ts,
            captured_at: now,
        }
    }

    /// The event to deliver for a node; nothing where it has no content to forward.
    pub fn prepare(&self, node: &Node, now: u64) -> (r: Option<RawEvent>)
        ensures
            r == if has_content(*node) {
                Some(raw_event(self.group_id, *node, now))
            } else {
                None
            },
    {
        if matches!(node.status, NodeStatus::Ephemeral) || strings::is_blank(node.content.as_str()) {
            return None;
        }
        Some(self.node_to_raw_event(node, now))
    }

    /// The envelope of an event whose JSON form is `payload`.
    pub fn envelope(raw: &RawEvent, payload: String) -> (r: XfEvent)
        ensures
            r.id == raw.id,
            r.payload == payload,
            r.source@ == "cyan-backend"@,
            r.ts == raw.ts,
    {
        XfEvent { id: raw.id.clone(), payload, source: "cyan-backend".to_owned(), ts: raw.ts }
    }

    /// Counts a node as skipped or forwarded and says which; `delivered` is how the delivery of its
    /// event went, for a node that has one. A failed delivery is counted as neither.
    pub fn forward_node(&mut self, node: &Node, delivered: Result<(), DeliveryError>) -> (r: Result<
        bool,
        String,
    >)
        ensures
            outcome(*node, delivered, r),
            final(self).group_id == old(self).group_id,
            final(self).forwarded == if has_content(*node) && delivered is Ok {
                old(self).forwarded.wrapping_add(1)
            } else {
                old(self).forwarded
            },
            final(self).skipped == if has_content(*node) {
                old(self).skipped
            } else {
                old(self).skipped.wrapping_add(1)
            },
    {
        if matches!(node.status, NodeStatus::Ephemeral) || strings::is_blank(node.content.as_str()) {
            self.skipped = self.skipped.wrapping_add(1);
            return Ok(false);
        }
        match delivered {
            Ok(_) => {
                self.forwarded = self.forwarded.wrapping_add(1);
                Ok(true)
            },
            Err(DeliveryError::Serialize(e)) => {
                let mut m = "Serialize error: ".to_owned();
                m.append(e.as_str());
                Err(m)
            },
            Err(DeliveryError::Send(e)) => {
                let mut m = "XaeroFlux send error: ".to_owned();
                m.append(e.as_str());
                Err(m)
            },
        }
    }

    /// How many events were forwarded.
    pub fn forwarded_count(&self) -> (r: u64)
        ensures
            r == self.forwarded,
    {
        self.forwarded
    }

    /// How many nodes were skipped.
    pub fn skipped_count(&self) -> (r: u64)
        ensures
            r == self.skipped,
    {
        self.skipped
    }
}

/// How many of some outcomes are forwarded nodes.
pub open spec fn forwarded_in(outcomes: Seq<Result<bool, String>>) -> nat
    decreases outcomes.len(),
{
    if outcomes.len() == 0 {
        0
    } else {
        forwarded_in(outcomes.drop_last()) + if outcomes.last() == Ok::<bool, String>(true) {
            1nat
        } else {
            0nat
        }
    }
}

/// How many nodes of a batch were forwarded.
pub fn forward_nodes(outcomes: &Vec<Result<bool, String>>) -> (r: usize)
    ensures
        r == forwarded_in(outcomes@),
{
    let mut count: usize = 0;
    let mut i: usize = 0;
    while i < outcomes.len()
        invariant
            i <= outcomes@.len(),
            count <= i,
            count == forwarded_in(outcomes@.take(i as int)),
        decreases outcomes.len() - i,
    {
        assert(outcomes@.take(i + 1).drop_last() =~= outcomes@.take(i as int));
        match &outcomes[i] {
            Ok(true) => {
                count = count + 1;
            },
            _ => {},
        }
        i = i + 1;
    }
    assert(outcomes@.take(i as int) =~= outcomes@);
    count
}

} // verus!
