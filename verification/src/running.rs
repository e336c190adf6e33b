//! Integrations as they are named, configured, started, stopped and shown.

use crate::collections;
use crate::discovery;
use crate::hash;
use crate::integration_bridge as bridge;
use crate::integration_bridge::{
    Binding, BroadcastEvent, BroadcastPayload, GraphEdge, GraphNode, IntegrationBridge,
    IntegrationGraph, IntegrationType, RunningIntegration, StartError, StartPlan, StartRequest,
    StopPlan,
};
use crate::json;
use crate::json::Json;
use crate::model::SwiftEvent;
use crate::strings;
use std::collections::hash_map::DefaultHasher;
use vstd::bytes::*;
use vstd::prelude::*;
use vstd::std_specs::hash::*;
use vstd::string::*;
use vstd::utf8::*;

verus! {

/// Whether a text is a name, whatever the case of its letters.
pub open spec fn reads(s: Seq<char>, name: Seq<char>) -> bool {
    is_ascii_chars(s) && s.map_values(|c: char| strings::ascii_lower(c)) == name
}

proof fn lemma_names_differ()
    ensures
        "slack"@.len() == 5,
        "jira"@.len() == 4,
        "github"@.len() == 6,
        "confluence"@.len() == 10,
        "googledocs"@.len() == 10,
        "confluence"@ != "googledocs"@,
{
    reveal_strlit("slack");
    reveal_strlit("jira");
    reveal_strlit("github");
    reveal_strlit("confluence");
    reveal_strlit("googledocs");
    assert("confluence"@[0] == 'c' && "googledocs"@[0] == 'g');
}

/// An integration goes by its name in any case, and an ASCII text names nothing else. Its own name
/// leads back to it.
pub proof fn integrations_go_by_their_names(
    s: &str,
    any: Option<IntegrationType>,
    exact: Option<IntegrationType>,
    kind: IntegrationType,
    name: &'static str,
)
    requires
        call_ensures(IntegrationType::from_str, (s,), any),
        call_ensures(IntegrationType::named, (s,), exact),
        call_ensures(IntegrationType::name, (&kind,), name),
    ensures
        reads(s@, "slack"@) ==> any == Some(IntegrationType::Slack),
        reads(s@, "jira"@) ==> any == Some(IntegrationType::Jira),
        reads(s@, "github"@) ==> any == Some(IntegrationType::GitHub),
        reads(s@, "confluence"@) ==> any == Some(IntegrationType::Confluence),
        reads(s@, "googledocs"@) ==> any == Some(IntegrationType::GoogleDocs),
        is_ascii_chars(s@) && any is Some ==> reads(s@, "slack"@) || reads(s@, "jira"@) || reads(
            s@,
            "github"@,
        ) || reads(s@, "confluence"@) || reads(s@, "googledocs"@),
        exact == Some(kind) <==> s@ == name@,
        kind is Slack ==> name@ == "slack"@,
        kind is Jira ==> name@ == "jira"@,
        kind is GitHub ==> name@ == "github"@,
        kind is Confluence ==> name@ == "confluence"@,
        kind is GoogleDocs ==> name@ == "googledocs"@,
{
    lemma_names_differ();
}

/// Whether a list holds the texts of the array under a key, where all its items are texts.
pub open spec fn lists(config: Json, key: Seq<char>, list: Seq<String>) -> bool {
    &&& config.member(key) is None ==> list.len() == 0
    &&& config.member(key) is Some && config.member(key)->0 is Array ==> ({
        let items = config.member(key)->0->Array_0@;
        (forall|i: int| 0 <= i < items.len() ==> (#[trigger] items[i]) is Text) ==> list.len()
            == items.len() && forall|i: int|
            0 <= i < items.len() ==> (#[trigger] list[i])@ == items[i]->Text_0@
    })
}

/// Whether a text is the text under a key, or empty where there is none.
pub open spec fn takes(config: Json, key: Seq<char>, value: Seq<char>) -> bool {
    match config.member(key) {
        Some(Json::Text(v)) => value == v@,
        _ => value.len() == 0,
    }
}

proof fn lemma_all_strings(items: Seq<Json>)
    requires
        forall|i: int| 0 <= i < items.len() ==> (#[trigger] items[i]) is Text,
    ensures
        discovery::strings_of(items).len() == items.len(),
        forall|i: int|
            0 <= i < items.len() ==> #[trigger] discovery::strings_of(items)[i]
                == items[i]->Text_0@,
    decreases items.len(),
{
    if items.len() > 0 {
        let rest = items.drop_last();
        assert forall|i: int| 0 <= i < rest.len() implies (#[trigger] rest[i]) is Text by {
            assert(rest[i] == items[i]);
        }
        lemma_all_strings(rest);
        assert(items[items.len() - 1] is Text);
        assert forall|i: int| 0 <= i < items.len() implies #[trigger] discovery::strings_of(
            items,
        )[i] == items[i]->Text_0@ by {
            if i < rest.len() {
                assert(discovery::strings_of(rest)[i] == rest[i]->Text_0@);
            }
        }
    }
}

proof fn lemma_lists(config: Json, key: Seq<char>, list: Seq<String>)
    requires
        collections::texts(list) == discovery::strings_of(bridge::items_under(config, key)),
    ensures
        lists(config, key, list),
{
    let texts = collections::texts(list);
    assert(texts.len() == list.len());
    if config.member(key) is Some && config.member(key)->0 is Array {
        let items = config.member(key)->0->Array_0@;
        if forall|i: int| 0 <= i < items.len() ==> (#[trigger] items[i]) is Text {
            lemma_all_strings(items);
            assert forall|i: int| 0 <= i < items.len() implies (#[trigger] list[i])@
                == items[i]->Text_0@ by {
                assert(texts[i] == list[i]@);
            }
        }
    }
}

/// What an integration is started with: its own scope and token, and from its configuration the
/// channels, projects, spaces or documents that its kind asks for, and for some the domain and the
/// address.
pub proof fn integrations_start_as_configured(
    state: &IntegrationBridge,
    scope_type: &str,
    scope_id: &String,
    integration_type: &String,
    token: &String,
    config: &Json,
    plan: StartPlan,
)
    requires
        call_ensures(
            IntegrationBridge::plan_start_with,
            (state, scope_type, scope_id, integration_type, token, config),
            Ok(plan),
        ),
    ensures
        plan.request is Slack <==> plan.kind is Slack,
        plan.request is Jira <==> plan.kind is Jira,
        plan.request is GitHub <==> plan.kind is GitHub,
        plan.request is Confluence <==> plan.kind is Confluence,
        plan.request is GoogleDocs <==> plan.kind is GoogleDocs,
        plan.request matches StartRequest::Slack { scope_id: s, token: t, channels } ==> {
            &&& s@ == scope_id@
            &&& t@ == token@
            &&& lists(*config, "channels"@, channels@)
        },
        plan.request matches StartRequest::Jira { domain, email, token: t, scope_id: s, projects }
            ==> {
            &&& s@ == scope_id@
            &&& t@ == token@
            &&& takes(*config, "domain"@, domain@)
            &&& takes(*config, "email"@, email@)
            &&& lists(*config, "projects"@, projects@)
        },
        plan.request matches StartRequest::Confluence {
            domain,
            email,
            token: t,
            scope_id: s,
            spaces,
        } ==> {
            &&& s@ == scope_id@
            &&& t@ == token@
            &&& takes(*config, "domain"@, domain@)
            &&& takes(*config, "email"@, email@)
            &&& lists(*config, "spaces"@, spaces@)
        },
        plan.request matches StartRequest::GoogleDocs { token: t, scope_id: s, document_ids } ==> {
            &&& s@ == scope_id@
            &&& t@ == token@
            &&& lists(*config, "document_ids"@, document_ids@)
        },
        plan.request matches StartRequest::GitHub { token: t, scope_id: s, repos } ==> {
            &&& s@ == scope_id@
            &&& t@ == token@
            &&& lists_repos(*config, repos@)
        },
{
    match plan.request {
        StartRequest::Slack { channels, .. } => {
            lemma_lists(*config, "channels"@, channels@);
        },
        StartRequest::Jira { projects, .. } => {
            lemma_lists(*config, "projects"@, projects@);
        },
        StartRequest::Confluence { spaces, .. } => {
            lemma_lists(*config, "spaces"@, spaces@);
        },
        StartRequest::GoogleDocs { document_ids, .. } => {
            lemma_lists(*config, "document_ids"@, document_ids@);
        },
        StartRequest::GitHub { repos, .. } => {
            let pairs = bridge::pairs(repos@);
            assert(pairs.len() == repos@.len());
            if config.member("repos"@) is Some && config.member("repos"@)->0 is Array {
                let items = config.member("repos"@)->0->Array_0@;
                if forall|i: int| 0 <= i < items.len() ==> is_repo(#[trigger] items[i]) {
                    lemma_repos(items);
                    assert forall|i: int| 0 <= i < items.len() implies names_repo(
                        items[i],
                        #[trigger] repos@[i],
                    ) by {
                        assert(is_repo(items[i]));
                        assert(pairs[i] == (repos@[i].0@, repos@[i].1@));
                    }
                }
            }
        },
    }
}

/// Whether an item names an owner and a repository.
pub open spec fn is_repo(item: Json) -> bool {
    &&& item.member("owner"@) is Some && item.member("owner"@)->0 is Text
    &&& item.member("repo"@) is Some && item.member("repo"@)->0 is Text
}

/// Whether a pair is the owner and the repository that an item names.
pub open spec fn names_repo(item: Json, pair: (String, String)) -> bool {
    &&& is_repo(item)
    &&& pair.0@ == item.member("owner"@)->0->Text_0@
    &&& pair.1@ == item.member("repo"@)->0->Text_0@
}

/// Whether a list holds the repositories under "repos", where all items name one.
pub open spec fn lists_repos(config: Json, repos: Seq<(String, String)>) -> bool {
    &&& config.member("repos"@) is None ==> repos.len() == 0
    &&& config.member("repos"@) is Some && config.member("repos"@)->0 is Array ==> ({
        let items = config.member("repos"@)->0->Array_0@;
        (forall|i: int| 0 <= i < items.len() ==> is_repo(#[trigger] items[i])) ==> repos.len()
            == items.len() && forall|i: int|
            0 <= i < items.len() ==> names_repo(items[i], #[trigger] repos[i])
    })
}

proof fn lemma_repos(items: Seq<Json>)
    requires
        forall|i: int| 0 <= i < items.len() ==> is_repo(#[trigger] items[i]),
    ensures
        bridge::repos_in(items).len() == items.len(),
        forall|i: int|
            0 <= i < items.len() ==> #[trigger] bridge::repos_in(items)[i] == (
                items[i].member("owner"@)->0->Text_0@,
                items[i].member("repo"@)->0->Text_0@,
            ),
    decreases items.len(),
{
    if items.len() > 0 {
        let rest = items.drop_last();
        assert forall|i: int| 0 <= i < rest.len() implies is_repo(#[trigger] rest[i]) by {
            assert(rest[i] == items[i]);
        }
        lemma_repos(rest);
        assert(is_repo(items[items.len() - 1]));
        assert forall|i: int| 0 <= i < items.len() implies #[trigger] bridge::repos_in(items)[i]
            == (
            items[i].member("owner"@)->0->Text_0@,
            items[i].member("repo"@)->0->Text_0@,
        ) by {
            if i < rest.len() {
                assert(rest[i] == items[i]);
                assert(bridge::repos_in(rest)[i] == (
                    rest[i].member("owner"@)->0->Text_0@,
                    rest[i].member("repo"@)->0->Text_0@,
                ));
            }
        }
    }
}

/// An integration is refused where its type is not known, its scope is neither a group nor a
/// workspace, or it runs already, in this order; otherwise it can start. The outcome is the same
/// from a stored configuration.
pub proof fn integrations_start_unless_refused(
    state: &IntegrationBridge,
    scope_type: &str,
    scope_id: &String,
    integration_type: &String,
    token: &String,
    config: &Json,
    r: Result<StartPlan, StartError>,
    kind: Option<IntegrationType>,
    runs: bool,
    name: &str,
    id: &str,
)
    requires
        call_ensures(
            IntegrationBridge::plan_start_with,
            (state, scope_type, scope_id, integration_type, token, config),
            r,
        ),
        name@ == integration_type@,
        id@ == scope_id@,
        call_ensures(IntegrationType::from_str, (name,), kind),
        call_ensures(IntegrationBridge::is_running, (state, id, name), runs),
    ensures
        kind is None ==> r == Err::<StartPlan, StartError>(
            StartError::UnknownType(*integration_type),
        ),
        kind is Some && scope_type@ != "group"@ && scope_type@ != "workspace"@ ==> r == Err::<
            StartPlan,
            StartError,
        >(StartError::BadScope),
        kind is Some && (scope_type@ == "group"@ || scope_type@ == "workspace"@) && runs ==> r
            == Err::<StartPlan, StartError>(StartError::AlreadyRunning),
        kind is Some && (scope_type@ == "group"@ || scope_type@ == "workspace"@) && !runs
            ==> r is Ok && Some((r->Ok_0).kind) == kind,
{
}

/// An integration that started is running for its scope, under its own type, until it is stopped;
/// one that failed is not. What is stored says where it runs and what it is, under the digest of
/// these.
pub proof fn integrations_run_from_start_to_stop(
    started: &mut IntegrationBridge,
    stopped: &mut IntegrationBridge,
    scope_type: &String,
    scope_id: &String,
    integration_type: &String,
    kind: IntegrationType,
    outcome: Result<(), String>,
    config: &serde_json::Value,
    now: i64,
    r: Result<Binding, StartError>,
    s: Result<StopPlan, String>,
    key: Seq<char>,
)
    requires
        call_ensures(
            IntegrationBridge::start_finished,
            (started, scope_type, scope_id, integration_type, kind, outcome, config, now),
            r,
        ),
        call_ensures(IntegrationBridge::stop, (stopped, scope_id, integration_type), s),
    ensures
        ({
            let mine = scope_id@ + ":"@ + integration_type@;
            &&& r is Ok <==> outcome is Ok
            &&& final(started).running@.dom().contains(key) <==> old(
                started,
            ).running@.dom().contains(key) || (outcome is Ok && key == mine)
            &&& old(started).running@.dom().contains(key) && !(outcome is Ok && key == mine)
                ==> final(started).running@[key] == old(started).running@[key]
            &&& outcome is Ok ==> final(started).running@[mine] == (RunningIntegration {
                scope_type: *scope_type,
                scope_id: *scope_id,
                integration_type: kind,
            })
            &&& outcome is Err ==> r == Err::<Binding, StartError>(
                StartError::Failed(outcome->Err_0),
            )
            &&& r matches Ok(b) ==> {
                &&& b.id@ == hash::text_id(
                    "binding:"@ + scope_type@ + ":"@ + scope_id@ + ":"@ + integration_type@,
                )
                &&& b.scope_type@ == scope_type@
                &&& b.scope_id@ == scope_id@
                &&& b.integration_type@ == integration_type@
                &&& b.config_json@ == json::written_json(json::json_tree(*config))
                &&& b.created_at == now
            }
            &&& final(stopped).running@.dom().contains(key) <==> old(
                stopped,
            ).running@.dom().contains(key) && key != mine
            &&& final(stopped).running@.dom().contains(key) ==> final(stopped).running@[key] == old(
                stopped,
            ).running@[key]
            &&& s is Ok <==> old(stopped).running@.dom().contains(mine)
            &&& s is Err ==> s->Err_0@ == "Integration not running"@
            &&& s matches Ok(plan) ==> {
                &&& plan.event is IntegrationStatus
                &&& plan.event->IntegrationStatus_scope_id@ == scope_id@
                &&& plan.event->IntegrationStatus_integration_type@ == integration_type@
                &&& plan.event->IntegrationStatus_status@ == "stopped"@
            }
        }),
{
}

/// The user hears that an integration is connected once its binding is stored, under the type and
/// the name of its scope. A stored configuration is used as it is; one that cannot be read counts as
/// empty.
pub proof fn connections_are_told(
    scope_type: &str,
    scope_id: &str,
    integration_type: &String,
    outcome: Result<(), String>,
    r: Result<SwiftEvent, StartError>,
    stored: Option<String>,
    config: Result<Json, String>,
)
    requires
        call_ensures(
            bridge::binding_stored,
            (scope_type, scope_id, integration_type, outcome),
            r,
        ),
        call_ensures(bridge::restored_config, (stored,), config),
    ensures
        r is Ok <==> outcome is Ok,
        outcome is Err ==> r == Err::<SwiftEvent, StartError>(StartError::NotSaved(outcome->Err_0)),
        r matches Ok(event) ==> {
            &&& event is IntegrationStatus
            &&& event->IntegrationStatus_scope_id@ == scope_type@ + ":"@ + scope_id@
            &&& event->IntegrationStatus_integration_type@ == integration_type@
            &&& event->IntegrationStatus_status@ == "connected"@
        },
        config is Ok <==> stored is Some,
        config is Err ==> config->Err_0@ == "Binding not found"@,
        stored is Some && json::parsed_json(stored->0@) is Some ==> config->Ok_0
            == json::parsed_json(stored->0@)->0,
        stored is Some && json::parsed_json(stored->0@) is None ==> config->Ok_0 is Object
            && config->Ok_0->Object_0@.len() == 0,
{
}

/// Events for broadcast are kept in order; past a thousand the oldest five hundred go. Handing them
/// out leaves none.
pub proof fn broadcasts_are_kept_in_order(
    queued: &mut IntegrationBridge,
    drained: &mut IntegrationBridge,
    event: BroadcastEvent,
    r: Vec<BroadcastEvent>,
)
    requires
        call_ensures(IntegrationBridge::queue_broadcast, (queued, event), ()),
        call_ensures(IntegrationBridge::drain_broadcast_queue, (drained,), r),
    ensures
        old(queued).broadcast_queue@.len() < 1000 ==> final(queued).broadcast_queue@ == old(
            queued,
        ).broadcast_queue@.push(event),
        old(queued).broadcast_queue@.len() >= 1000 ==> final(queued).broadcast_queue@ == old(
            queued,
        ).broadcast_queue@.push(event).skip(500),
        r@ == old(drained).broadcast_queue@,
        final(drained).broadcast_queue@.len() == 0,
{
}

/// The bytes that a node adds to the hash of its graph.
pub open spec fn node_bytes(n: GraphNode) -> Seq<Seq<u8>> {
    seq![encode_utf8(n.id@), seq![0xffu8], spec_u64_to_le_bytes(n.last_activity)]
}

/// The bytes that an edge adds to the hash of its graph.
pub open spec fn edge_bytes(e: GraphEdge) -> Seq<Seq<u8>> {
    seq![encode_utf8(e.id@), seq![0xffu8]]
}

/// All that goes into the hash of a graph: how many nodes and edges there are, then each node with
/// its last activity, then each edge.
pub open spec fn hashed_bytes(g: IntegrationGraph) -> Seq<Seq<u8>> {
    seq![
        spec_u64_to_le_bytes(g.nodes@.len() as u64),
        spec_u64_to_le_bytes(g.edges@.len() as u64),
    ] + g.nodes@.map_values(|n: GraphNode| node_bytes(n)).flatten() + g.edges@.map_values(
        |e: GraphEdge| edge_bytes(e),
    ).flatten()
}

proof fn lemma_node_prints(nodes: Seq<GraphNode>, before: Seq<Seq<u8>>)
    ensures
        bridge::node_prints(nodes, before) == before + nodes.map_values(
            |n: GraphNode| node_bytes(n),
        ).flatten(),
    decreases nodes.len(),
{
    let f = |n: GraphNode| node_bytes(n);
    let all = nodes.map_values(f);
    all.lemma_flatten_and_flatten_alt_are_equivalent();
    if nodes.len() == 0 {
        assert(before + all.flatten() =~= before);
    } else {
        let rest = nodes.drop_last();
        let less = rest.map_values(f);
        lemma_node_prints(rest, before);
        less.lemma_flatten_and_flatten_alt_are_equivalent();
        assert(all.drop_last() =~= less);
        assert(all.last() == node_bytes(nodes.last()));
        assert(bridge::node_prints(nodes, before) =~= before + (less.flatten() + node_bytes(
            nodes.last(),
        )));
    }
}

proof fn lemma_edge_prints(edges: Seq<GraphEdge>)
    ensures
        bridge::edge_prints(edges) == edges.map_values(|e: GraphEdge| edge_bytes(e)).flatten(),
    decreases edges.len(),
{
    let f = |e: GraphEdge| edge_bytes(e);
    let all = edges.map_values(f);
    all.lemma_flatten_and_flatten_alt_are_equivalent();
    if edges.len() > 0 {
        let rest = edges.drop_last();
        let less = rest.map_values(f);
        lemma_edge_prints(rest);
        less.lemma_flatten_and_flatten_alt_are_equivalent();
        assert(all.drop_last() =~= less);
        assert(all.last() == edge_bytes(edges.last()));
    }
}

/// The hash of a graph covers every node with its last activity and every edge.
pub proof fn hashes_cover_nodes_and_edges(g: &IntegrationGraph, h: u64)
    requires
        call_ensures(bridge::compute_graph_hash, (g,), h),
    ensures
        h == DefaultHasher::spec_finish(hashed_bytes(*g)),
{
    let sizes = seq![
        spec_u64_to_le_bytes(g.nodes@.len() as u64),
        spec_u64_to_le_bytes(g.edges@.len() as u64),
    ];
    lemma_node_prints(g.nodes@, sizes);
    lemma_edge_prints(g.edges@);
    assert(bridge::edge_sizes(*g) =~= sizes);
    assert(bridge::fingerprint(*g) =~= hashed_bytes(*g));
}

/// A graph goes out where it has nodes and its hash is not the one that went out last for its scope;
/// then it is kept for broadcast, shown, and its hash remembered. Otherwise nothing happens.
pub proof fn changed_graphs_go_out(
    state: &mut IntegrationBridge,
    graph: IntegrationGraph,
    graph_json: String,
    h: u64,
    r: Option<SwiftEvent>,
)
    requires
        call_ensures(IntegrationBridge::forward_graph, (state, graph, graph_json), r),
        call_ensures(bridge::compute_graph_hash, (&graph,), h),
    ensures
        r is Some <==> graph.nodes@.len() > 0 && !(old(
            state,
        ).last_graph_hash@.dom().contains(graph.scope_id@) && old(
            state,
        ).last_graph_hash@[graph.scope_id@] == h),
        r matches Some(event) ==> {
            &&& event == (SwiftEvent::IntegrationGraph { scope_id: graph.scope_id, graph_json })
            &&& final(state).last_graph_hash@.dom().contains(graph.scope_id@)
            &&& final(state).last_graph_hash@[graph.scope_id@] == h
            &&& final(state).broadcast_queue@.len() > 0
            &&& final(state).broadcast_queue@.last().event_type@ == "graph_update"@
            &&& final(state).broadcast_queue@.last().scope_id == graph.scope_id
            &&& final(state).broadcast_queue@.last().timestamp == graph.updated_at
            &&& final(state).broadcast_queue@.last().payload == (BroadcastPayload::GraphSnapshot {
                graph,
            })
        },
        r is None ==> final(state).last_graph_hash@ == old(state).last_graph_hash@
            && final(state).broadcast_queue@ == old(state).broadcast_queue@,
{
}

/// The focus that is set for a scope is that scope's, until it is taken away; other scopes keep
/// theirs.
pub proof fn a_focus_is_its_scopes_own(
    state: &mut IntegrationBridge,
    scope_id: String,
    node_id: Option<String>,
    k: Seq<char>,
)
    requires
        call_ensures(IntegrationBridge::set_focus, (state, scope_id, node_id), ()),
    ensures
        node_id is Some ==> final(state).focus_nodes@.dom().contains(scope_id@)
            && final(state).focus_nodes@[scope_id@] == node_id->0,
        node_id is None ==> !final(state).focus_nodes@.dom().contains(scope_id@),
        k != scope_id@ ==> final(state).focus_nodes@.dom().contains(k) == old(
            state,
        ).focus_nodes@.dom().contains(k),
        k != scope_id@ && old(state).focus_nodes@.dom().contains(k)
            ==> final(state).focus_nodes@[k] == old(state).focus_nodes@[k],
        final(state).running@ == old(state).running@,
{
}

} // verus!
