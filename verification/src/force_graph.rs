//! What the graph of a scope shows: what was found, what events refer to, and how often.

use crate::collections;
use crate::hash;
use crate::integration_bridge as bridge;
use crate::integration_bridge::{
    GraphEdge, GraphEdgeView, GraphNode, GraphNodeView, IntegrationBridge, IntegrationEvent,
    IntegrationGraph,
};
use crate::json;
use crate::json::Json;
use crate::lens_bridge::{Node, NodeKind};
use crate::text;
use vstd::prelude::*;
use vstd::string::*;
use vstd::utf8::*;

verus! {

/// Whether the payload of an event has a type and a member that are these texts.
pub open spec fn reports(e: IntegrationEvent, kind: Seq<char>, key: Seq<char>, value: Seq<char>) -> bool {
    &&& json::parsed_json(e.payload@) matches Some(payload)
    &&& payload.member("type"@) matches Some(Json::Text(t))
    &&& t@ == kind
    &&& payload.member(key) matches Some(Json::Text(v))
    &&& v@ == value
}

/// Whether the payload of an event has no member under a key.
pub open spec fn lacks(e: IntegrationEvent, key: Seq<char>) -> bool {
    json::parsed_json(e.payload@) matches Some(payload) && payload.member(key) is None
}

/// The identifier of something that is known by reference only.
pub open spec fn referred_id(kind: Seq<char>, external_id: Seq<char>) -> Seq<char> {
    hash::text_id(kind + ":"@ + external_id)
}

/// Whether a graph has the node that a reference leads to and an edge from the source of the event
/// to it.
pub open spec fn leads_to(
    graph: IntegrationGraph,
    e: IntegrationEvent,
    kind: Seq<char>,
    external_id: Seq<char>,
    relation: Seq<char>,
) -> bool {
    &&& exists|k: int|
        0 <= k < graph.nodes@.len() && (#[trigger] graph.nodes@[k]).id@ == referred_id(
            kind,
            external_id,
        )
    &&& exists|k: int|
        0 <= k < graph.edges@.len() && (#[trigger] graph.edges@[k]).id@ == e.source@ + ":"@
            + referred_id(kind, external_id) + ":"@ + relation
}

proof fn lemma_mention(list: Seq<GraphNodeView>, r: bridge::Reference, e: IntegrationEvent)
    ensures
        ({
            let after = bridge::with_mention(list, r, e);
            &&& list.len() <= after.len() <= list.len() + 1
            &&& forall|k: int|
                0 <= k < list.len() ==> {
                    &&& (#[trigger] after[k]).id == list[k].id
                    &&& after[k] == GraphNodeView {
                        mention_count: after[k].mention_count,
                        last_activity: after[k].last_activity,
                        ..list[k]
                    }
                }
            &&& exists|k: int| 0 <= k < after.len() && (#[trigger] after[k]).id == bridge::target_id(r)
        }),
{
    lemma_place(list, bridge::target_id(r), 0);
    let at = bridge::node_place(list, bridge::target_id(r), 0);
    let after = bridge::with_mention(list, r, e);
    assert(after[at].id == bridge::target_id(r));
}

proof fn lemma_place(list: Seq<GraphNodeView>, id: Seq<char>, from: int)
    requires
        0 <= from <= list.len(),
    ensures
        from <= bridge::node_place(list, id, from) <= list.len(),
        bridge::node_place(list, id, from) < list.len() ==> list[bridge::node_place(
            list,
            id,
            from,
        )].id == id,
        forall|j: int|
            from <= j < bridge::node_place(list, id, from) ==> (#[trigger] list[j]).id != id,
    decreases list.len() - from,
{
    if from < list.len() && list[from].id != id {
        lemma_place(list, id, from + 1);
    }
}

proof fn lemma_edge_at(list: Seq<GraphEdgeView>, id: Seq<char>, from: int)
    requires
        0 <= from <= list.len(),
    ensures
        from <= bridge::edge_place(list, id, from) <= list.len(),
        bridge::edge_place(list, id, from) < list.len() ==> list[bridge::edge_place(
            list,
            id,
            from,
        )].id == id,
        forall|j: int|
            from <= j < bridge::edge_place(list, id, from) ==> (#[trigger] list[j]).id != id,
    decreases list.len() - from,
{
    if from < list.len() && list[from].id != id {
        lemma_edge_at(list, id, from + 1);
    }
}

proof fn lemma_referred(start: Seq<GraphNodeView>, events: Seq<IntegrationEvent>, i: int)
    requires
        0 <= i < events.len(),
        bridge::reference_of(events[i]) is Some,
    ensures
        ({
            let r = bridge::reference_of(events[i])->0;
            let nodes = bridge::mentioned_nodes(start, events);
            let edges = bridge::reference_edges(events);
            &&& exists|k: int| 0 <= k < nodes.len() && (#[trigger] nodes[k]).id == bridge::target_id(r)
            &&& exists|k: int|
                0 <= k < edges.len() && (#[trigger] edges[k]).id == bridge::edge_id(r, events[i])
        }),
    decreases events.len(),
{
    let rest = events.drop_last();
    let last = events.last();
    let r = bridge::reference_of(events[i])->0;
    let nodes_before = bridge::mentioned_nodes(start, rest);
    let edges_before = bridge::reference_edges(rest);
    let nodes = bridge::mentioned_nodes(start, events);
    let edges = bridge::reference_edges(events);
    if i < rest.len() {
        assert(rest[i] == events[i]);
        lemma_referred(start, rest, i);
        let kn = choose|k: int|
            0 <= k < nodes_before.len() && (#[trigger] nodes_before[k]).id == bridge::target_id(r);
        let ke = choose|k: int|
            0 <= k < edges_before.len() && (#[trigger] edges_before[k]).id == bridge::edge_id(
                r,
                events[i],
            );
        match bridge::reference_of(last) {
            Some(q) => {
                lemma_mention(nodes_before, q, last);
                lemma_edge_at(edges_before, bridge::edge_id(q, last), 0);
                assert(nodes[kn].id == bridge::target_id(r));
                assert(edges[ke].id == bridge::edge_id(r, events[i]));
            },
            None => {
                assert(nodes[kn].id == bridge::target_id(r));
                assert(edges[ke].id == bridge::edge_id(r, events[i]));
            },
        }
    } else {
        lemma_mention(nodes_before, r, last);
        lemma_edge_at(edges_before, bridge::edge_id(r, last), 0);
        let at = bridge::edge_place(edges_before, bridge::edge_id(r, last), 0);
        assert(edges[at].id == bridge::edge_id(r, last));
    }
}

proof fn lemma_leads(
    nodes: Seq<Node>,
    events: Seq<IntegrationEvent>,
    graph: IntegrationGraph,
    i: int,
    kind: Seq<char>,
    external_id: Seq<char>,
    relation: Seq<char>,
)
    requires
        bridge::node_views(graph.nodes@) == bridge::mentioned_nodes(
            bridge::found_nodes(nodes),
            events,
        ),
        bridge::edge_views(graph.edges@) == bridge::reference_edges(events),
        0 <= i < events.len(),
        bridge::reference_of(events[i]) == Some(
            bridge::Reference { kind, external_id, relation },
        ),
    ensures
        leads_to(graph, events[i], kind, external_id, relation),
{
    lemma_referred(bridge::found_nodes(nodes), events, i);
    let r = bridge::Reference { kind, external_id, relation };
    let views = bridge::node_views(graph.nodes@);
    let edges = bridge::edge_views(graph.edges@);
    let kn = choose|k: int|
        0 <= k < views.len() && (#[trigger] views[k]).id == bridge::target_id(r);
    assert(graph.nodes@[kn].id@ == views[kn].id);
    let ke = choose|k: int|
        0 <= k < edges.len() && (#[trigger] edges[k]).id == bridge::edge_id(r, events[i]);
    assert(graph.edges@[ke].id@ == edges[ke].id);
}

/// Every reference that an event reports is in the graph, under what it names: the ticket, the pull
/// request, the issue or the page that the event's own member holds. So events that name different
/// things lead to different nodes, as far as their digests differ.
pub proof fn references_lead_to_what_they_name(
    this: &IntegrationBridge,
    events: &Vec<IntegrationEvent>,
    nodes: &Vec<Node>,
    scope_type: &str,
    scope_id: &str,
    now: u64,
    graph: IntegrationGraph,
    i: int,
    value: Seq<char>,
)
    requires
        call_ensures(
            IntegrationBridge::build_force_graph,
            (this, events, nodes, scope_type, scope_id, now),
            graph,
        ),
        0 <= i < events@.len(),
    ensures
        reports(events@[i], "github_issue_reference"@, "issue_number"@, value) ==> leads_to(
            graph,
            events@[i],
            "github_issue"@,
            "Issue #"@ + value,
            "links"@,
        ),
        reports(events@[i], "github_pr_reference"@, "pr_number"@, value) ==> leads_to(
            graph,
            events@[i],
            "github_pr"@,
            "PR #"@ + value,
            "links"@,
        ),
        value.len() > 0 && (reports(events@[i], "jira_mention"@, "jira_id"@, value) || reports(
            events@[i],
            "jira_reference"@,
            "jira_id"@,
            value,
        )) ==> leads_to(graph, events@[i], "jira"@, value, "mentions"@),
        value.len() > 0 && lacks(events@[i], "jira_id"@) && (reports(
            events@[i],
            "jira_mention"@,
            "jira_key"@,
            value,
        ) || reports(events@[i], "jira_reference"@, "jira_key"@, value)) ==> leads_to(
            graph,
            events@[i],
            "jira"@,
            value,
            "mentions"@,
        ),
        value.len() > 0 && reports(events@[i], "commit_fixes_issue"@, "jira_key"@, value)
            ==> leads_to(graph, events@[i], "jira"@, value, "fixes"@),
        value.len() > 0 && reports(events@[i], "confluence_reference"@, "page_id"@, value)
            ==> leads_to(graph, events@[i], "confluence"@, value, "documents"@),
{
    lemma_types_differ();
    let e = events@[i];
    reveal_strlit("Issue #");
    reveal_strlit("PR #");
    if reports(e, "github_issue_reference"@, "issue_number"@, value) {
        lemma_leads(nodes@, events@, graph, i, "github_issue"@, "Issue #"@ + value, "links"@);
    }
    if reports(e, "github_pr_reference"@, "pr_number"@, value) {
        lemma_leads(nodes@, events@, graph, i, "github_pr"@, "PR #"@ + value, "links"@);
    }
    if value.len() > 0 && (reports(e, "jira_mention"@, "jira_id"@, value) || reports(
        e,
        "jira_reference"@,
        "jira_id"@,
        value,
    )) {
        lemma_leads(nodes@, events@, graph, i, "jira"@, value, "mentions"@);
    }
    if value.len() > 0 && lacks(e, "jira_id"@) && (reports(e, "jira_mention"@, "jira_key"@, value)
        || reports(e, "jira_reference"@, "jira_key"@, value)) {
        lemma_leads(nodes@, events@, graph, i, "jira"@, value, "mentions"@);
    }
    if value.len() > 0 && reports(e, "commit_fixes_issue"@, "jira_key"@, value) {
        lemma_leads(nodes@, events@, graph, i, "jira"@, value, "fixes"@);
    }
    if value.len() > 0 && reports(e, "confluence_reference"@, "page_id"@, value) {
        lemma_leads(nodes@, events@, graph, i, "confluence"@, value, "documents"@);
    }
}

proof fn lemma_types_differ()
    ensures
        "unknown"@.len() == 7,
        "jira_mention"@.len() == 12,
        "jira_reference"@.len() == 14,
        "commit_fixes_issue"@.len() == 18,
        "github_pr_reference"@.len() == 19,
        "confluence_reference"@.len() == 20,
        "github_issue_reference"@.len() == 22,
{
    reveal_strlit("jira_mention");
    reveal_strlit("jira_reference");
    reveal_strlit("github_pr_reference");
    reveal_strlit("github_issue_reference");
    reveal_strlit("commit_fixes_issue");
    reveal_strlit("confluence_reference");
    reveal_strlit("unknown");
}

/// The text under a key of a payload; an empty one where there is none.
pub open spec fn text_under(payload: Json, key: Seq<char>) -> Seq<char> {
    match payload.member(key) {
        Some(Json::Text(v)) => v@,
        _ => Seq::empty(),
    }
}

/// Whether the payload of an event is of a type.
pub open spec fn is_of_type(e: IntegrationEvent, kind: Seq<char>) -> bool {
    &&& json::parsed_json(e.payload@) matches Some(payload)
    &&& payload.member("type"@) matches Some(Json::Text(t))
    &&& t@ == kind
}

/// Whether an event names something: what it is, how it is known, and how the event relates to it.
pub open spec fn names(
    e: IntegrationEvent,
    kind: Seq<char>,
    external_id: Seq<char>,
    relation: Seq<char>,
) -> bool {
    let payload = json::parsed_json(e.payload@)->0;
    let ticket = if payload.member("jira_id"@) is Some {
        text_under(payload, "jira_id"@)
    } else {
        text_under(payload, "jira_key"@)
    };
    &&& external_id.len() > 0
    &&& {
        ||| (is_of_type(e, "jira_mention"@) || is_of_type(e, "jira_reference"@)) && kind == "jira"@
            && external_id == ticket && relation == "mentions"@
        ||| is_of_type(e, "github_pr_reference"@) && kind == "github_pr"@ && external_id
            == "PR #"@ + text_under(payload, "pr_number"@) && relation == "links"@
        ||| is_of_type(e, "github_issue_reference"@) && kind == "github_issue"@ && external_id
            == "Issue #"@ + text_under(payload, "issue_number"@) && relation == "links"@
        ||| is_of_type(e, "commit_fixes_issue"@) && kind == "jira"@ && external_id == text_under(
            payload,
            "jira_key"@,
        ) && relation == "fixes"@
        ||| is_of_type(e, "confluence_reference"@) && kind == "confluence"@ && external_id
            == text_under(payload, "page_id"@) && relation == "documents"@
    }
}

/// Whether an event names what has an identifier.
pub open spec fn points_at(e: IntegrationEvent, id: Seq<char>) -> bool {
    exists|kind: Seq<char>, external_id: Seq<char>, relation: Seq<char>|
        #[trigger] names(e, kind, external_id, relation) && id == referred_id(kind, external_id)
}

/// Whether an event makes the edge with an identifier.
pub open spec fn draws(e: IntegrationEvent, id: Seq<char>) -> bool {
    exists|kind: Seq<char>, external_id: Seq<char>, relation: Seq<char>|
        #[trigger] names(e, kind, external_id, relation) && id == e.source@ + ":"@ + referred_id(
            kind,
            external_id,
        ) + ":"@ + relation
}

proof fn lemma_names(e: IntegrationEvent, kind: Seq<char>, external_id: Seq<char>, relation: Seq<char>)
    ensures
        names(e, kind, external_id, relation) <==> bridge::reference_of(e) == Some(
            bridge::Reference { kind, external_id, relation },
        ),
{
    lemma_types_differ();
    match json::parsed_json(e.payload@) {
        Some(payload) => {
            let t = payload.text_or("type"@, "unknown"@);
            assert(payload.text_or("jira_id"@, Seq::empty()) == text_under(payload, "jira_id"@));
            assert(payload.text_or("jira_key"@, Seq::empty()) == text_under(payload, "jira_key"@));
            match payload.member("type"@) {
                Some(Json::Text(v)) => {
                    assert(t == v@);
                },
                _ => {
                    assert(t == "unknown"@);
                },
            }
        },
        None => {},
    }
}

proof fn lemma_points(e: IntegrationEvent, id: Seq<char>)
    ensures
        points_at(e, id) <==> bridge::reference_of(e) is Some && bridge::target_id(
            bridge::reference_of(e)->0,
        ) == id,
        draws(e, id) <==> bridge::reference_of(e) is Some && bridge::edge_id(
            bridge::reference_of(e)->0,
            e,
        ) == id,
{
    if bridge::reference_of(e) is Some {
        let r = bridge::reference_of(e)->0;
        lemma_names(e, r.kind, r.external_id, r.relation);
        assert(names(e, r.kind, r.external_id, r.relation));
    }
    if points_at(e, id) {
        let (k, x, r) = choose|kind: Seq<char>, external_id: Seq<char>, relation: Seq<char>|
            #[trigger] names(e, kind, external_id, relation) && id == referred_id(
                kind,
                external_id,
            );
        lemma_names(e, k, x, r);
    }
    if draws(e, id) {
        let (k, x, r) = choose|kind: Seq<char>, external_id: Seq<char>, relation: Seq<char>|
            #[trigger] names(e, kind, external_id, relation) && id == e.source@ + ":"@
                + referred_id(kind, external_id) + ":"@ + relation;
        lemma_names(e, k, x, r);
    }
}

/// How many events name what has an identifier.
pub open spec fn times_named(events: Seq<IntegrationEvent>, id: Seq<char>) -> nat {
    events.filter(|e: IntegrationEvent| points_at(e, id)).len()
}

/// How many events make the edge with an identifier.
pub open spec fn times_drawn(events: Seq<IntegrationEvent>, id: Seq<char>) -> nat {
    events.filter(|e: IntegrationEvent| draws(e, id)).len()
}

/// Whether a node is known from an event alone: the first that names it.
pub open spec fn is_first_named(
    n: GraphNodeView,
    events: Seq<IntegrationEvent>,
    j: int,
) -> bool {
    &&& 0 <= j < events.len()
    &&& exists|relation: Seq<char>| #[trigger] names(events[j], n.kind, n.external_id, relation)
    &&& n.id == referred_id(n.kind, n.external_id)
    &&& n.created_at == events[j].discovered_at
    &&& n.status == "ephemeral"@
    &&& n.title is None
    &&& n.summary is None
    &&& n.url is None
    &&& n.metadata.len() == 0
    &&& forall|k: int| 0 <= k < j ==> !points_at(#[trigger] events[k], n.id)
}

/// Whether the last activity of a node is the latest of what is known of it.
pub open spec fn is_latest(
    n: GraphNodeView,
    found: Option<u64>,
    events: Seq<IntegrationEvent>,
) -> bool {
    &&& found matches Some(at) ==> n.last_activity >= at
    &&& forall|k: int|
        0 <= k < events.len() && points_at(#[trigger] events[k], n.id) ==> n.last_activity
            >= events[k].ts
    &&& found == Some(n.last_activity) || exists|k: int|
        0 <= k < events.len() && points_at(#[trigger] events[k], n.id) && n.last_activity
            == events[k].ts
}

spec fn activity_of(start: Seq<GraphNodeView>, k: int) -> Option<u64> {
    if k < start.len() {
        Some(start[k].last_activity)
    } else {
        None
    }
}

spec fn node_history(start: Seq<GraphNodeView>, events: Seq<IntegrationEvent>, nodes: Seq<GraphNodeView>, k: int) -> bool {
    let n = nodes[k];
    &&& k < start.len() ==> n == GraphNodeView {
        mention_count: n.mention_count,
        last_activity: n.last_activity,
        ..start[k]
    }
    &&& n.mention_count == times_named(events, n.id) + if k < start.len() {
        start[k].mention_count
    } else {
        0
    }
    &&& is_latest(n, activity_of(start, k), events)
    &&& k >= start.len() ==> exists|j: int| #[trigger] is_first_named(n, events, j)
}

proof fn lemma_first_named_stays(n: GraphNodeView, after: GraphNodeView, events: Seq<IntegrationEvent>, j: int)
    requires
        events.len() > 0,
        is_first_named(n, events.drop_last(), j),
        after == (GraphNodeView {
            mention_count: after.mention_count,
            last_activity: after.last_activity,
            ..n
        }),
    ensures
        is_first_named(after, events, j),
{
    assert(events.drop_last()[j] == events[j]);
    let relation = choose|relation: Seq<char>|
        #[trigger] names(events.drop_last()[j], n.kind, n.external_id, relation);
    assert(names(events[j], after.kind, after.external_id, relation));
    assert forall|k: int| 0 <= k < j implies !points_at(#[trigger] events[k], n.id) by {
        assert(events.drop_last()[k] == events[k]);
    }
}

proof fn lemma_history(start: Seq<GraphNodeView>, events: Seq<IntegrationEvent>)
    requires
        bridge::distinct_nodes(start),
    ensures
        ({
            let nodes = bridge::mentioned_nodes(start, events);
            &&& nodes.len() >= start.len()
            &&& bridge::distinct_nodes(nodes)
            &&& forall|k: int|
                0 <= k < nodes.len() ==> #[trigger] node_history(start, events, nodes, k)
            &&& forall|i: int|
                0 <= i < events.len() && (forall|k: int|
                    0 <= k < nodes.len() ==> (#[trigger] nodes[k]).id != bridge::target_id(
                        bridge::reference_of(events[i])->0,
                    )) ==> bridge::reference_of(#[trigger] events[i]) is None
        }),
    decreases events.len(),
{
    reveal(Seq::filter);
    let nodes = bridge::mentioned_nodes(start, events);
    if events.len() == 0 {
        assert forall|k: int| 0 <= k < nodes.len() implies #[trigger] node_history(
            start,
            events,
            nodes,
            k,
        ) by {
            assert(times_named(events, nodes[k].id) == 0);
        }
    } else {
        let rest = events.drop_last();
        let e = events.last();
        let before = bridge::mentioned_nodes(start, rest);
        lemma_history(start, rest);
        assert forall|id: Seq<char>|
            times_named(events, id) == #[trigger] times_named(rest, id) + if points_at(e, id) {
                1nat
            } else {
                0nat
            } by {}
        match bridge::reference_of(e) {
            Some(r) => {
                let id = bridge::target_id(r);
                let at = bridge::node_place(before, id, 0);
                lemma_place(before, id, 0);
                assert(nodes[at].id == id);
                assert forall|k: int| 0 <= k < nodes.len() implies #[trigger] node_history(
                    start,
                    events,
                    nodes,
                    k,
                ) by {
                    let n = nodes[k];
                    lemma_points(e, n.id);
                    if k < before.len() {
                        assert(node_history(start, rest, before, k));
                        assert(times_named(rest, n.id) == times_named(rest, n.id));
                        lemma_latest_step(before[k], n, activity_of(start, k), events);
                        if k >= start.len() {
                            let j = choose|j: int| #[trigger] is_first_named(before[k], rest, j);
                            lemma_first_named_stays(before[k], n, events, j);
                        }
                    } else {
                        let last = events.len() - 1;
                        lemma_names(e, r.kind, r.external_id, r.relation);
                        assert(names(events[last], n.kind, n.external_id, r.relation));
                        assert forall|i: int| 0 <= i < last implies !points_at(
                            #[trigger] events[i],
                            n.id,
                        ) by {
                            assert(rest[i] == events[i]);
                            lemma_points(events[i], n.id);
                            if points_at(events[i], n.id) {
                                assert(exists|q: int|
                                    0 <= q < before.len() && (#[trigger] before[q]).id
                                        == bridge::target_id(bridge::reference_of(rest[i])->0));
                            }
                        }
                        assert(is_first_named(n, events, last));
                        lemma_none_named(rest, n.id);
                        assert(times_named(rest, n.id) == 0);
                        assert(points_at(events[last], n.id));
                    }
                }
                assert forall|i: int|
                    0 <= i < events.len() && (forall|k: int|
                        0 <= k < nodes.len() ==> (#[trigger] nodes[k]).id != bridge::target_id(
                            bridge::reference_of(events[i])->0,
                        )) implies bridge::reference_of(#[trigger] events[i]) is None by {
                    if i < rest.len() {
                        assert(rest[i] == events[i]);
                        assert forall|k: int| 0 <= k < before.len() implies (
                        #[trigger] before[k]).id != bridge::target_id(
                            bridge::reference_of(rest[i])->0,
                        ) by {
                            assert(nodes[k].id == before[k].id);
                        }
                    } else {
                        assert(nodes[at].id == id);
                    }
                }
            },
            None => {
                assert forall|k: int| 0 <= k < nodes.len() implies #[trigger] node_history(
                    start,
                    events,
                    nodes,
                    k,
                ) by {
                    let n = nodes[k];
                    lemma_points(e, n.id);
                    assert(node_history(start, rest, before, k));
                    assert(times_named(rest, n.id) == times_named(rest, n.id));
                    lemma_latest_step(before[k], n, activity_of(start, k), events);
                    if k >= start.len() {
                        let j = choose|j: int| #[trigger] is_first_named(before[k], rest, j);
                        lemma_first_named_stays(before[k], n, events, j);
                    }
                }
                assert forall|i: int|
                    0 <= i < events.len() && (forall|k: int|
                        0 <= k < nodes.len() ==> (#[trigger] nodes[k]).id != bridge::target_id(
                            bridge::reference_of(events[i])->0,
                        )) implies bridge::reference_of(#[trigger] events[i]) is None by {
                    if i < rest.len() {
                        assert(rest[i] == events[i]);
                    }
                }
            },
        }
    }
}

proof fn lemma_none_named(events: Seq<IntegrationEvent>, id: Seq<char>)
    requires
        forall|i: int| 0 <= i < events.len() ==> !points_at(#[trigger] events[i], id),
    ensures
        times_named(events, id) == 0,
    decreases events.len(),
{
    reveal(Seq::filter);
    if events.len() > 0 {
        assert forall|i: int| 0 <= i < events.drop_last().len() implies !points_at(
            #[trigger] events.drop_last()[i],
            id,
        ) by {
            assert(events.drop_last()[i] == events[i]);
        }
        lemma_none_named(events.drop_last(), id);
        assert(!points_at(events[events.len() - 1], id));
    }
}

proof fn lemma_latest_step(before: GraphNodeView, after: GraphNodeView, found: Option<u64>, events: Seq<IntegrationEvent>)
    requires
        events.len() > 0,
        is_latest(before, found, events.drop_last()),
        after.id == before.id,
        !points_at(events.last(), after.id) ==> after.last_activity == before.last_activity,
        points_at(events.last(), after.id) ==> after.last_activity == (if before.last_activity
            >= events.last().ts {
            before.last_activity
        } else {
            events.last().ts
        }),
    ensures
        is_latest(after, found, events),
{
    let rest = events.drop_last();
    assert forall|k: int|
        0 <= k < events.len() && points_at(#[trigger] events[k], after.id) implies after.last_activity
        >= events[k].ts by {
        if k < rest.len() {
            assert(rest[k] == events[k]);
        }
    }
    if found == Some(before.last_activity) {
        if after.last_activity != before.last_activity {
            assert(points_at(events[events.len() - 1], after.id));
        }
    } else {
        let k = choose|k: int|
            0 <= k < rest.len() && points_at(#[trigger] rest[k], before.id) && before.last_activity
                == rest[k].ts;
        assert(points_at(events[k], after.id));
        if after.last_activity != before.last_activity {
            assert(points_at(events[events.len() - 1], after.id));
        }
    }
}

/// Each node of a graph is either something that was found, unchanged but for its mentions, or
/// something that an event names, as the first such event has it. It counts one mention for every
/// event that names it besides those it was found with, and was last active when it was found or
/// when it was last named, whichever is later.
pub proof fn nodes_follow_from_what_was_found_and_named(
    this: &IntegrationBridge,
    events: &Vec<IntegrationEvent>,
    nodes: &Vec<Node>,
    scope_type: &str,
    scope_id: &str,
    now: u64,
    graph: IntegrationGraph,
    k: int,
)
    requires
        call_ensures(
            IntegrationBridge::build_force_graph,
            (this, events, nodes, scope_type, scope_id, now),
            graph,
        ),
        0 <= k < graph.nodes@.len(),
    ensures
        ({
            let n = graph.nodes@[k]@;
            ||| exists|i: int| #[trigger] is_found_as(n, nodes@, i, events@)
            ||| n.mention_count == times_named(events@, n.id) && is_latest(n, None, events@)
                && exists|j: int| #[trigger] is_first_named(n, events@, j)
        }),
{
    let start = bridge::found_nodes(nodes@);
    bridge::graph_is_consistent(nodes@, Seq::empty());
    assert(bridge::mentioned_nodes(start, Seq::<IntegrationEvent>::empty()) == start);
    lemma_history(start, events@);
    let all = bridge::node_views(graph.nodes@);
    let n = graph.nodes@[k]@;
    assert(all[k] == n);
    assert(node_history(start, events@, all, k));
    if k < start.len() {
        let i = lemma_found_from(nodes@, k);
        lemma_summary(nodes@[i]);
        assert(is_found_as(n, nodes@, i, events@));
    }
}

/// Whether a node is something that was found, with its mentions counted on.
pub open spec fn is_found_as(n: GraphNodeView, nodes: Seq<Node>, i: int, events: Seq<IntegrationEvent>) -> bool {
    let node = nodes[i];
    &&& 0 <= i < nodes.len()
    &&& forall|j: int| i < j < nodes.len() ==> (#[trigger] nodes[j]).id@ != node.id@
    &&& n.id == node.id@
    &&& n.external_id == node.external_id@
    &&& n.title == (match node.metadata.title {
        Some(t) => Some(t@),
        None => None,
    })
    &&& n.summary matches Some(summary) && text::longest_prefix_within(node.content@, 200, summary)
    &&& n.url == (if node.metadata.url@ == ""@ {
        None
    } else {
        Some(node.metadata.url@)
    })
    &&& n.created_at == node.first_seen
    &&& n.mention_count == node.metadata.mention_count + times_named(events, n.id)
    &&& is_latest(n, Some(node.last_updated), events)
    &&& node.kind is SlackMessage || node.kind is SlackThread ==> n.kind == "slack"@
    &&& node.kind is JiraTicket ==> n.kind == "jira"@
    &&& node.kind is GitHubPR ==> n.kind == "github_pr"@
    &&& node.kind is GitHubIssue ==> n.kind == "github_issue"@
    &&& node.kind is GitHubCommit ==> n.kind == "github_commit"@
    &&& node.kind is ConfluencePage ==> n.kind == "confluence"@
    &&& node.kind is GoogleDoc ==> n.kind == "gdocs"@
    &&& node.kind is JiraComment || node.kind is GitHubRepo || node.kind is GoogleSheet
        || node.kind is GoogleSlide || node.kind is GenericUrl ==> n.kind == "unknown"@
    &&& node.status is Real ==> n.status == "real"@
    &&& node.status is Ephemeral ==> n.status == "ephemeral"@
    &&& node.status is Resolved ==> n.status == "resolved"@
    &&& node.status is NotFound ==> n.status == "not_found"@
    &&& node.status is Error ==> n.status == "error"@
    &&& n.metadata[0] == ("author"@, node.metadata.author@)
    &&& node.metadata.title matches Some(t) ==> n.metadata.contains(("title"@, t@))
    &&& node.metadata.status matches Some(s) ==> n.metadata.contains(("status"@, s@))
    &&& n.metadata.len() == 1 + (if node.metadata.title is Some {
        1int
    } else {
        0
    }) + (if node.metadata.status is Some {
        1int
    } else {
        0
    })
}

proof fn lemma_longest_prefix(s: Seq<char>, max_bytes: int, k: int)
    requires
        0 <= k <= s.len(),
        0 <= max_bytes,
        forall|n: int|
            k < n <= s.len() ==> (#[trigger] encode_utf8(s.take(n))).len() > max_bytes,
    ensures
        text::longest_prefix_within(s, max_bytes, text::truncated(s, max_bytes)),
    decreases k,
{
    if encode_utf8(s.take(k)).len() <= max_bytes {
        let cut = s.take(k);
        assert(cut == s.take(cut.len() as int));
        assert(text::longest_prefix_within(s, max_bytes, cut));
    } else {
        if k == 0 {
            assert(s.take(0) =~= Seq::empty());
            assert(encode_utf8(s.take(0)).len() == 0);
        }
        lemma_longest_prefix(s, max_bytes, k - 1);
    }
}

proof fn lemma_summary(node: Node)
    ensures
        text::longest_prefix_within(node.content@, 200, text::truncated(node.content@, 200)),
        node.metadata.url@ == ""@ <==> node.metadata.url@.len() == 0,
        ({
            let m = bridge::metadata_of(node);
            &&& m[0] == ("author"@, node.metadata.author@)
            &&& node.metadata.title matches Some(t) ==> m.contains(("title"@, t@))
            &&& node.metadata.status matches Some(s) ==> m.contains(("status"@, s@))
        }),
{
    lemma_longest_prefix(node.content@, 200, node.content@.len() as int);
    reveal_strlit("");
    if node.metadata.url@.len() == 0 {
        assert(node.metadata.url@ =~= ""@);
    }
    let m = bridge::metadata_of(node);
    match node.metadata.title {
        Some(t) => {
            assert(m[1] == ("title"@, t@));
        },
        None => {},
    }
    match node.metadata.status {
        Some(s) => {
            assert(m[m.len() - 1] == ("status"@, s@));
        },
        None => {},
    }
}

proof fn lemma_found_from(nodes: Seq<Node>, k: int) -> (i: int)
    requires
        0 <= k < bridge::found_nodes(nodes).len(),
    ensures
        0 <= i < nodes.len(),
        bridge::found_nodes(nodes)[k] == bridge::graph_node(nodes[i]),
        forall|j: int| i < j < nodes.len() ==> (#[trigger] nodes[j]).id@ != nodes[i].id@,
    decreases nodes.len(),
{
    let rest = nodes.drop_last();
    let before = bridge::found_nodes(rest);
    let last = bridge::graph_node(nodes.last());
    lemma_place(before, last.id, 0);
    let at = bridge::node_place(before, last.id, 0);
    if k == at {
        nodes.len() - 1
    } else {
        let i = lemma_found_from(rest, k);
        assert(rest[i] == nodes[i]);
        bridge::graph_is_consistent(rest, Seq::empty());
        assert(bridge::mentioned_nodes(before, Seq::<IntegrationEvent>::empty()) == before);
        assert(before[k].id != last.id) by {
            if k < at {
                assert(before[k].id != last.id);
            } else {
                assert(before[at].id != before[k].id);
            }
        }
        assert forall|j: int| i < j < nodes.len() implies (#[trigger] nodes[j]).id@
            != nodes[i].id@ by {
            if j < rest.len() {
                assert(rest[j] == nodes[j]);
            }
        }
        i
    }
}

/// Where nothing was found under the identifier of what an event names, and no other text has the
/// same digest, the graph has a node of its kind that is known as the event says. So events that
/// name different issues lead to different nodes.
pub proof fn what_an_event_names_has_its_own_node(
    this: &IntegrationBridge,
    events: &Vec<IntegrationEvent>,
    nodes: &Vec<Node>,
    scope_type: &str,
    scope_id: &str,
    now: u64,
    graph: IntegrationGraph,
    i: int,
    kind: Seq<char>,
    external_id: Seq<char>,
    relation: Seq<char>,
)
    requires
        call_ensures(
            IntegrationBridge::build_force_graph,
            (this, events, nodes, scope_type, scope_id, now),
            graph,
        ),
        0 <= i < events@.len(),
        names(events@[i], kind, external_id, relation),
        forall|j: int|
            0 <= j < nodes@.len() ==> (#[trigger] nodes@[j]).id@ != referred_id(kind, external_id),
        forall|other: Seq<char>|
            #[trigger] hash::text_id(other) == referred_id(kind, external_id) ==> other == kind
                + ":"@ + external_id,
    ensures
        exists|k: int|
            0 <= k < graph.nodes@.len() && (#[trigger] graph.nodes@[k]).kind@ == kind
                && graph.nodes@[k].external_id@ == external_id,
{
    let e = events@[i];
    lemma_names(e, kind, external_id, relation);
    lemma_leads(nodes@, events@, graph, i, kind, external_id, relation);
    let k = choose|k: int|
        0 <= k < graph.nodes@.len() && (#[trigger] graph.nodes@[k]).id@ == referred_id(
            kind,
            external_id,
        );
    nodes_follow_from_what_was_found_and_named(
        this,
        events,
        nodes,
        scope_type,
        scope_id,
        now,
        graph,
        k,
    );
    let n = graph.nodes@[k]@;
    if exists|q: int| #[trigger] is_found_as(n, nodes@, q, events@) {
        let q = choose|q: int| #[trigger] is_found_as(n, nodes@, q, events@);
        assert(nodes@[q].id@ == n.id);
    }
    let j = choose|j: int| #[trigger] is_first_named(n, events@, j);
    let other = choose|other: Seq<char>|
        #[trigger] names(events@[j], n.kind, n.external_id, other);
    assert(n.kind + ":"@ + n.external_id == kind + ":"@ + external_id);
    lemma_kinds_end_at_the_colon(events@[j], n.kind, n.external_id, other);
    lemma_kinds_end_at_the_colon(e, kind, external_id, relation);
    let whole = kind + ":"@ + external_id;
    reveal_strlit(":");
    assert(whole[kind.len() as int] == ':');
    assert(whole[n.kind.len() as int] == ':');
    assert forall|c: int| 0 <= c < kind.len() implies whole[c] == kind[c] by {}
    assert forall|c: int| 0 <= c < n.kind.len() implies whole[c] == n.kind[c] by {}
    if n.kind.len() < kind.len() {
        assert(kind[n.kind.len() as int] == ':');
    }
    if kind.len() < n.kind.len() {
        assert(n.kind[kind.len() as int] == ':');
    }
    assert(whole.take(kind.len() as int) =~= kind);
    assert(whole.take(kind.len() as int) =~= n.kind);
    assert(whole.skip(kind.len() as int + 1) =~= external_id);
    assert(whole.skip(kind.len() as int + 1) =~= n.external_id);
}

proof fn lemma_kinds_end_at_the_colon(
    e: IntegrationEvent,
    kind: Seq<char>,
    external_id: Seq<char>,
    relation: Seq<char>,
)
    requires
        names(e, kind, external_id, relation),
    ensures
        forall|c: int| 0 <= c < kind.len() ==> #[trigger] kind[c] != ':',
{
    reveal_strlit("jira");
    reveal_strlit("github_pr");
    reveal_strlit("github_issue");
    reveal_strlit("confluence");
}

/// Whether an edge is the one that an event makes first, seen again as often as later events make
/// it.
pub open spec fn is_drawn_by(x: GraphEdgeView, events: Seq<IntegrationEvent>, j: int) -> bool {
    let e = events[j];
    &&& 0 <= j < events.len()
    &&& exists|kind: Seq<char>, external_id: Seq<char>|
        #[trigger] names(e, kind, external_id, x.relation) && x.target_id == referred_id(
            kind,
            external_id,
        )
    &&& x.source_id == e.source@
    &&& x.id == x.source_id + ":"@ + x.target_id + ":"@ + x.relation
    &&& x.confidence == e.confidence
    &&& x.created_at == e.discovered_at
    &&& x.context == (match json::parsed_json(e.payload@)->0.member("context"@) {
        Some(Json::Text(context)) => Some(context@),
        _ => None,
    })
    &&& forall|k: int| 0 <= k < j ==> !draws(#[trigger] events[k], x.id)
    &&& x.repeats + 1 == times_drawn(events, x.id)
}

/// Whether an edge is one that some event makes.
pub open spec fn is_drawn(x: GraphEdgeView, events: Seq<IntegrationEvent>) -> bool {
    exists|j: int| #[trigger] is_drawn_by(x, events, j)
}

proof fn lemma_none_drawn(events: Seq<IntegrationEvent>, id: Seq<char>)
    requires
        forall|i: int| 0 <= i < events.len() ==> !draws(#[trigger] events[i], id),
    ensures
        times_drawn(events, id) == 0,
    decreases events.len(),
{
    reveal(Seq::filter);
    if events.len() > 0 {
        assert forall|i: int| 0 <= i < events.drop_last().len() implies !draws(
            #[trigger] events.drop_last()[i],
            id,
        ) by {
            assert(events.drop_last()[i] == events[i]);
        }
        lemma_none_drawn(events.drop_last(), id);
        assert(!draws(events[events.len() - 1], id));
    }
}

proof fn lemma_drawn_stays(x: GraphEdgeView, after: GraphEdgeView, events: Seq<IntegrationEvent>, j: int)
    requires
        events.len() > 0,
        is_drawn_by(x, events.drop_last(), j),
        after == (GraphEdgeView { repeats: after.repeats, ..x }),
        after.repeats == x.repeats + if draws(events.last(), x.id) {
            1int
        } else {
            0
        },
    ensures
        is_drawn_by(after, events, j),
{
    reveal(Seq::filter);
    let rest = events.drop_last();
    assert(rest[j] == events[j]);
    let (kind, external_id) = choose|kind: Seq<char>, external_id: Seq<char>|
        #[trigger] names(rest[j], kind, external_id, x.relation) && x.target_id == referred_id(
            kind,
            external_id,
        );
    assert(names(events[j], kind, external_id, after.relation));
    assert forall|k: int| 0 <= k < j implies !draws(#[trigger] events[k], after.id) by {
        assert(rest[k] == events[k]);
    }
}

proof fn lemma_edge_history(events: Seq<IntegrationEvent>)
    ensures
        bridge::distinct_edges(bridge::reference_edges(events)),
        forall|k: int|
            0 <= k < bridge::reference_edges(events).len() ==> is_drawn(
                #[trigger] bridge::reference_edges(events)[k],
                events,
            ),
    decreases events.len(),
{
    reveal(Seq::filter);
    if events.len() > 0 {
        let rest = events.drop_last();
        let e = events.last();
        let last = events.len() - 1;
        let before = bridge::reference_edges(rest);
        let edges = bridge::reference_edges(events);
        lemma_edge_history(rest);
        assert forall|k: int| 0 <= k < edges.len() implies is_drawn(
            #[trigger] edges[k],
            events,
        ) by {
            lemma_points(e, edges[k].id);
            match bridge::reference_of(e) {
                Some(r) => {
                    let id = bridge::edge_id(r, e);
                    lemma_edge_at(before, id, 0);
                    let at = bridge::edge_place(before, id, 0);
                    if k < before.len() {
                        assert(is_drawn(before[k], rest));
                    let j = choose|j: int| #[trigger] is_drawn_by(before[k], rest, j);
                        assert(k != at ==> before[k].id != id);
                        lemma_drawn_stays(before[k], edges[k], events, j);
                    } else {
                        lemma_names(e, r.kind, r.external_id, r.relation);
                        assert(names(events[last], r.kind, r.external_id, edges[k].relation));
                        assert forall|i: int| 0 <= i < rest.len() implies !draws(
                            #[trigger] rest[i],
                            id,
                        ) by {
                            lemma_points(rest[i], id);
                            if draws(rest[i], id) {
                                lemma_referred(Seq::empty(), rest, i);
                            }
                        }
                        assert forall|i: int| 0 <= i < last implies !draws(
                            #[trigger] events[i],
                            id,
                        ) by {
                            assert(rest[i] == events[i]);
                        }
                        lemma_none_drawn(rest, id);
                        assert(times_drawn(events, id) == 1);
                        assert(is_drawn_by(edges[k], events, last));
                    }
                },
                None => {
                    assert(is_drawn(before[k], rest));
                    let j = choose|j: int| #[trigger] is_drawn_by(before[k], rest, j);
                    lemma_drawn_stays(before[k], edges[k], events, j);
                },
            }
        }
        match bridge::reference_of(e) {
            Some(r) => {
                lemma_edge_at(before, bridge::edge_id(r, e), 0);
            },
            None => {},
        }
    }
}

/// Each edge of a graph goes from the source of an event to what the event names. It has the
/// confidence, the time and the context of the first event that makes it, and counts the others.
pub proof fn edges_follow_from_events(
    this: &IntegrationBridge,
    events: &Vec<IntegrationEvent>,
    nodes: &Vec<Node>,
    scope_type: &str,
    scope_id: &str,
    now: u64,
    graph: IntegrationGraph,
    k: int,
)
    requires
        call_ensures(
            IntegrationBridge::build_force_graph,
            (this, events, nodes, scope_type, scope_id, now),
            graph,
        ),
        0 <= k < graph.edges@.len(),
    ensures
        is_drawn(graph.edges@[k]@, events@),
        exists|i: int|
            0 <= i < graph.nodes@.len() && (#[trigger] graph.nodes@[i]).id@
                == graph.edges@[k].target_id@,
{
    lemma_edge_history(events@);
    let edges = bridge::edge_views(graph.edges@);
    assert(edges[k] == graph.edges@[k]@);
    assert(is_drawn(edges[k], events@));
    bridge::graph_is_consistent(nodes@, events@);
    let all = bridge::node_views(graph.nodes@);
    assert(bridge::has_node(all, bridge::reference_edges(events@)[k].target_id));
    let i = choose|i: int| 0 <= i < all.len() && (#[trigger] all[i]).id == edges[k].target_id;
    assert(all[i] == graph.nodes@[i]@);
}

/// Everything that was found is in the graph; of several with one identifier the last is.
pub proof fn what_was_found_is_there(
    this: &IntegrationBridge,
    events: &Vec<IntegrationEvent>,
    nodes: &Vec<Node>,
    scope_type: &str,
    scope_id: &str,
    now: u64,
    graph: IntegrationGraph,
    i: int,
)
    requires
        call_ensures(
            IntegrationBridge::build_force_graph,
            (this, events, nodes, scope_type, scope_id, now),
            graph,
        ),
        0 <= i < nodes@.len(),
    ensures
        exists|k: int|
            0 <= k < graph.nodes@.len() && (#[trigger] graph.nodes@[k]).id@ == nodes@[i].id@,
        forall|j: int, k: int|
            0 <= j < k < graph.nodes@.len() ==> (#[trigger] graph.nodes@[j]).id@ != (
            #[trigger] graph.nodes@[k]).id@,
{
    bridge::graph_is_consistent(nodes@, events@);
    lemma_found(nodes@, i);
    let id = nodes@[i].id@;
    assert(bridge::has_node(bridge::found_nodes(nodes@), id));
    let all = bridge::node_views(graph.nodes@);
    assert(bridge::has_node(all, id));
    let k = choose|k: int| 0 <= k < all.len() && (#[trigger] all[k]).id == id;
    assert(all[k] == graph.nodes@[k]@);
    assert forall|j: int, k: int| 0 <= j < k < graph.nodes@.len() implies (
    #[trigger] graph.nodes@[j]).id@ != (#[trigger] graph.nodes@[k]).id@ by {
        assert(all[j] == graph.nodes@[j]@ && all[k] == graph.nodes@[k]@);
    }
}

proof fn lemma_found(nodes: Seq<Node>, i: int)
    requires
        0 <= i < nodes.len(),
    ensures
        bridge::has_node(bridge::found_nodes(nodes), nodes[i].id@),
    decreases nodes.len(),
{
    let rest = nodes.drop_last();
    let before = bridge::found_nodes(rest);
    let after = bridge::found_nodes(nodes);
    let last = bridge::graph_node(nodes.last());
    lemma_place(before, last.id, 0);
    let at = bridge::node_place(before, last.id, 0);
    assert(after[at].id == last.id);
    if i < rest.len() {
        assert(rest[i] == nodes[i]);
        lemma_found(rest, i);
        let k = choose|k: int| 0 <= k < before.len() && (#[trigger] before[k]).id == nodes[i].id@;
        assert(after[k].id == nodes[i].id@);
    }
}

proof fn lemma_counts(nodes: Seq<GraphNode>, edges: Seq<GraphEdge>)
    ensures
        bridge::with_status(bridge::node_views(nodes), "real"@) == nodes.filter(
            |n: GraphNode| n.status@ == "real"@,
        ).len(),
        bridge::with_status(bridge::node_views(nodes), "ephemeral"@) == nodes.filter(
            |n: GraphNode| n.status@ == "ephemeral"@,
        ).len(),
        bridge::unlinked(bridge::node_views(nodes), bridge::edge_views(edges)) == nodes.filter(
            |n: GraphNode| is_alone(n, edges),
        ).len(),
    decreases nodes.len(),
{
    reveal(Seq::filter);
    if nodes.len() > 0 {
        lemma_counts(nodes.drop_last(), edges);
        let all = bridge::node_views(nodes);
        assert(all.drop_last() =~= bridge::node_views(nodes.drop_last()));
        let last = nodes.last();
        assert(all.last() == last@);
        let views = bridge::edge_views(edges);
        if bridge::is_linked(views, last.id@) {
            let i = choose|i: int|
                0 <= i < views.len() && ((#[trigger] views[i]).source_id == last.id@
                    || views[i].target_id == last.id@);
            assert(views[i] == edges[i]@);
            assert(edges[i].source_id@ == last.id@ || edges[i].target_id@ == last.id@);
        }
        if exists|i: int|
            0 <= i < edges.len() && ((#[trigger] edges[i]).source_id@ == last.id@
                || edges[i].target_id@ == last.id@) {
            let i = choose|i: int|
                0 <= i < edges.len() && ((#[trigger] edges[i]).source_id@ == last.id@
                    || edges[i].target_id@ == last.id@);
            assert(views[i] == edges[i]@);
        }
    }
}

/// Whether a node is a chat message at which no edge starts or ends.
pub open spec fn is_alone(n: GraphNode, edges: Seq<GraphEdge>) -> bool {
    &&& n.kind@ == "slack"@
    &&& !(exists|i: int|
        0 <= i < edges.len() && ((#[trigger] edges[i]).source_id@ == n.id@
            || edges[i].target_id@ == n.id@))
}

/// The counts of a graph count its nodes and edges, and the graph is that of its scope: the type
/// and the name, with a colon between them. The integrations it names are those that something was
/// found by, each once.
pub proof fn counts_count_the_graph(
    this: &IntegrationBridge,
    events: &Vec<IntegrationEvent>,
    nodes: &Vec<Node>,
    scope_type: &str,
    scope_id: &str,
    now: u64,
    graph: IntegrationGraph,
)
    requires
        call_ensures(
            IntegrationBridge::build_force_graph,
            (this, events, nodes, scope_type, scope_id, now),
            graph,
        ),
    ensures
        graph.scope_id@ == scope_type@ + ":"@ + scope_id@,
        graph.updated_at == now,
        graph.focus_node_id is Some <==> this.focus_nodes@.dom().contains(graph.scope_id@),
        graph.focus_node_id matches Some(id) ==> id == this.focus_nodes@[graph.scope_id@],
        graph.stats.real_nodes == graph.nodes@.filter(
            |n: GraphNode| n.status@ == "real"@,
        ).len(),
        graph.stats.ephemeral_nodes == graph.nodes@.filter(
            |n: GraphNode| n.status@ == "ephemeral"@,
        ).len(),
        graph.stats.unlinked_messages == graph.nodes@.filter(
            |n: GraphNode| is_alone(n, graph.edges@),
        ).len(),
        graph.stats.total_nodes == graph.stats.real_nodes + graph.stats.ephemeral_nodes,
        graph.edges@.len() <= u32::MAX ==> graph.stats.total_edges == graph.edges@.len(),
        forall|i: int|
            0 <= i < nodes@.len() ==> exists|k: int|
                0 <= k < graph.connected_integrations@.len() && comes_from(
                    (#[trigger] nodes@[i]).kind,
                    (#[trigger] graph.connected_integrations@[k])@,
                ),
        forall|k: int|
            0 <= k < graph.connected_integrations@.len() ==> exists|i: int|
                0 <= i < nodes@.len() && comes_from(
                    (#[trigger] nodes@[i]).kind,
                    (#[trigger] graph.connected_integrations@[k])@,
                ),
        forall|j: int, k: int|
            0 <= j < k < graph.connected_integrations@.len() ==> (
            #[trigger] graph.connected_integrations@[j])@ != (
            #[trigger] graph.connected_integrations@[k])@,
{
    lemma_counts(graph.nodes@, graph.edges@);
    lemma_connected(nodes@);
    let names = graph.connected_integrations@;
    let texts = collections::texts(names);
    assert forall|i: int| 0 <= i < nodes@.len() implies exists|k: int|
        0 <= k < names.len() && comes_from((#[trigger] nodes@[i]).kind, (#[trigger] names[k])@) by {
        let label = bridge::connected_label(nodes@[i].kind);
        assert(texts.contains(label));
        let k = choose|k: int| 0 <= k < texts.len() && texts[k] == label;
        assert(names[k]@ == texts[k]);
        assert(comes_from(nodes@[i].kind, names[k]@));
    }
    assert forall|k: int| 0 <= k < names.len() implies exists|i: int|
        0 <= i < nodes@.len() && comes_from((#[trigger] nodes@[i]).kind, (#[trigger] names[k])@) by {
        assert(names[k]@ == texts[k]);
        assert(texts.contains(texts[k]));
        let i = choose|i: int|
            0 <= i < nodes@.len() && bridge::connected_label((#[trigger] nodes@[i]).kind)
                == texts[k];
        assert(comes_from(nodes@[i].kind, names[k]@));
    }
    assert forall|j: int, k: int| 0 <= j < k < names.len() implies (#[trigger] names[j])@ != (
    #[trigger] names[k])@ by {
        assert(names[j]@ == texts[j] && names[k]@ == texts[k]);
    }
}

/// Whether a kind of node is of an integration.
pub open spec fn comes_from(kind: NodeKind, integration: Seq<char>) -> bool {
    match kind {
        NodeKind::SlackMessage | NodeKind::SlackThread => integration == "slack"@,
        NodeKind::JiraTicket => integration == "jira"@,
        NodeKind::GitHubPR
        | NodeKind::GitHubIssue
        | NodeKind::GitHubCommit => integration == "github"@,
        NodeKind::ConfluencePage => integration == "confluence"@,
        NodeKind::GoogleDoc => integration == "gdocs"@,
        NodeKind::JiraComment
        | NodeKind::GitHubRepo
        | NodeKind::GoogleSheet
        | NodeKind::GoogleSlide
        | NodeKind::GenericUrl => integration == "unknown"@,
    }
}

proof fn lemma_connected(nodes: Seq<Node>)
    ensures
        forall|i: int|
            0 <= i < nodes.len() ==> bridge::connected(nodes).contains(
                bridge::connected_label((#[trigger] nodes[i]).kind),
            ),
        forall|s: Seq<char>| #[trigger]
            bridge::connected(nodes).contains(s) ==> exists|i: int|
                0 <= i < nodes.len() && bridge::connected_label((#[trigger] nodes[i]).kind) == s,
        bridge::connected(nodes).no_duplicates(),
    decreases nodes.len(),
{
    if nodes.len() > 0 {
        let rest = nodes.drop_last();
        let before = bridge::connected(rest);
        let after = bridge::connected(nodes);
        let label = bridge::connected_label(nodes.last().kind);
        let last = nodes.len() - 1;
        lemma_connected(rest);
        assert forall|i: int| 0 <= i < nodes.len() implies after.contains(
            bridge::connected_label((#[trigger] nodes[i]).kind),
        ) by {
            let mine = bridge::connected_label(nodes[i].kind);
            if i < rest.len() {
                assert(rest[i] == nodes[i]);
                let k = choose|k: int| 0 <= k < before.len() && before[k] == mine;
                assert(after[k] == mine);
            } else if !before.contains(label) {
                assert(after[before.len() as int] == label);
            }
        }
        assert forall|s: Seq<char>| #[trigger] after.contains(s) implies exists|i: int|
            0 <= i < nodes.len() && bridge::connected_label((#[trigger] nodes[i]).kind) == s by {
            let k = choose|k: int| 0 <= k < after.len() && after[k] == s;
            if k < before.len() {
                assert(before[k] == s);
                assert(before.contains(s));
                let i = choose|i: int|
                    0 <= i < rest.len() && bridge::connected_label((#[trigger] rest[i]).kind) == s;
                assert(nodes[i] == rest[i]);
            } else {
                assert(bridge::connected_label(nodes[last].kind) == s);
            }
        }
    }
}

} // verus!
