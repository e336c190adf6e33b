//! What waits to be shown, what a database needs to be up to date, what goes to the analysis
//! pipeline, and what is typed at the prompt.

use crate::cli;
use crate::cli::PromptCommand;
use crate::lens_bridge;
use crate::lens_bridge::{
    ContentKind, DeliveryError, LensBridge, Node, NodeKind, RawEvent, SourceKind, XfEvent,
};
use crate::model::SwiftEvent;
use crate::strings;
use crate::system;
use crate::system::{Component, EventBuffers, Migration, SchemaProbe};
use crate::tables::{ObjectRow, Tables};
use vstd::prelude::*;
use vstd::string::*;

verus! {

/// An event waits behind those that came before it, in one of two lists: what is about integrations
/// waits for the console, all else for the rest of the user interface.
pub proof fn events_wait_in_their_list(buffers: &mut EventBuffers, event: &SwiftEvent, json: String)
    requires
        call_ensures(EventBuffers::route, (buffers, event, json), ()),
    ensures
        ({
            let console = event is IntegrationEvent || event is IntegrationStatus
                || event is IntegrationGraph || event is AIInsight;
            &&& console ==> final(buffers).integration@ == old(buffers).integration@.push(json)
                && final(buffers).general@ == old(buffers).general@
            &&& !console ==> final(buffers).general@ == old(buffers).general@.push(json)
                && final(buffers).integration@ == old(buffers).integration@
        }),
{
}

/// Polling takes the event that waited longest, and leaves the others and the other list as they
/// are.
pub proof fn the_oldest_event_comes_first(
    shown: &mut EventBuffers,
    logged: &mut EventBuffers,
    r: Option<String>,
    q: Option<String>,
)
    requires
        call_ensures(EventBuffers::poll_events, (shown,), r),
        call_ensures(EventBuffers::poll_integration_events, (logged,), q),
    ensures
        old(shown).general@.len() == 0 ==> r is None && final(shown).general@.len() == 0,
        old(shown).general@.len() > 0 ==> r is Some && old(shown).general@ == seq![r->0]
            + final(shown).general@,
        final(shown).integration@ == old(shown).integration@,
        old(logged).integration@.len() == 0 ==> q is None && final(logged).integration@.len() == 0,
        old(logged).integration@.len() > 0 ==> q is Some && old(logged).integration@ == seq![
            q->0,
        ] + final(logged).integration@,
        final(logged).general@ == old(logged).general@,
{
    if old(shown).general@.len() > 0 {
        assert(old(shown).general@ =~= seq![r->0] + final(shown).general@);
    }
    if old(logged).integration@.len() > 0 {
        assert(old(logged).integration@ =~= seq![q->0] + final(logged).integration@);
    }
}

/// The parts of the user interface are known by their names; the network goes by two.
pub proof fn components_go_by_their_names(name: &str, r: Option<Component>)
    requires
        call_ensures(system::component, (name,), r),
    ensures
        r == Some(Component::FileTree) <==> name@ == "file_tree"@,
        r == Some(Component::ChatPanel) <==> name@ == "chat_panel"@,
        r == Some(Component::Whiteboard) <==> name@ == "whiteboard"@,
        r == Some(Component::BoardGrid) <==> name@ == "board_grid"@,
        r == Some(Component::NetworkStatus) <==> name@ == "network"@ || name@ == "status"@,
{
    reveal_strlit("file_tree");
    reveal_strlit("chat_panel");
    reveal_strlit("whiteboard");
    reveal_strlit("board_grid");
    reveal_strlit("network");
    reveal_strlit("status");
    assert("file_tree"@.len() == 9);
    assert("chat_panel"@.len() == 10 && "chat_panel"@[0] == 'c');
    assert("whiteboard"@.len() == 10 && "whiteboard"@[0] == 'w');
    assert("board_grid"@.len() == 10 && "board_grid"@[0] == 'b');
    assert("network"@.len() == 7);
    assert("status"@.len() == 6);
}

/// A database gets each column and table that it lacks and none that it has, an index together with
/// its table and behind it, and its modes are renamed once the column for them is there.
pub proof fn databases_get_what_they_lack(probe: SchemaProbe, steps: Vec<Migration>)
    requires
        call_ensures(system::run_migrations, (probe,), steps),
    ensures
        steps@.contains(Migration::AddBoardId) <==> !probe.objects_board_id,
        steps@.contains(Migration::AddSourcePeer) <==> !probe.objects_source_peer,
        steps@.contains(Migration::AddLocalPath) <==> !probe.objects_local_path,
        steps@.contains(Migration::AddCellId) <==> !probe.elements_cell_id,
        steps@.contains(Migration::AddBoardMode) <==> !probe.objects_board_mode,
        steps@.contains(Migration::RenameFreeform),
        steps@.contains(Migration::CreateBoardMetadata) <==> !probe.board_metadata,
        steps@.contains(Migration::CreateUserProfiles) <==> !probe.user_profiles,
        steps@.contains(Migration::CreateDirectMessages) <==> !probe.direct_messages,
        followed(steps@, Migration::CreateBoardMetadata, Migration::IndexBoardRating),
        followed(steps@, Migration::CreateDirectMessages, Migration::IndexDirectMessages),
        followed(steps@, Migration::AddBoardMode, Migration::RenameFreeform),
{
    let first = system::if_missing(probe.objects_board_id, seq![Migration::AddBoardId])
        + system::if_missing(probe.objects_source_peer, seq![Migration::AddSourcePeer])
        + system::if_missing(probe.objects_local_path, seq![Migration::AddLocalPath])
        + system::if_missing(probe.elements_cell_id, seq![Migration::AddCellId]);
    let modes = system::if_missing(probe.objects_board_mode, seq![Migration::AddBoardMode])
        + seq![Migration::RenameFreeform];
    let metadata = system::if_missing(
        probe.board_metadata,
        seq![Migration::CreateBoardMetadata, Migration::IndexBoardRating],
    );
    let profiles = system::if_missing(probe.user_profiles, seq![Migration::CreateUserProfiles]);
    let messages = system::if_missing(
        probe.direct_messages,
        seq![Migration::CreateDirectMessages, Migration::IndexDirectMessages],
    );
    lemma_regroup(
        first,
        system::if_missing(probe.objects_board_mode, seq![Migration::AddBoardMode]),
        seq![Migration::RenameFreeform],
    );
    assert(steps@ == first + modes + metadata + profiles + messages);
    lemma_first_steps(probe, first);
    lemma_modes(probe, modes);
    lemma_table(probe.board_metadata, Migration::CreateBoardMetadata, Migration::IndexBoardRating);
    lemma_table(
        probe.direct_messages,
        Migration::CreateDirectMessages,
        Migration::IndexDirectMessages,
    );
    assert(!probe.user_profiles ==> profiles[0] == Migration::CreateUserProfiles);
    lemma_five(first, modes, metadata, profiles, messages);
}

proof fn lemma_five(
    first: Seq<Migration>,
    modes: Seq<Migration>,
    metadata: Seq<Migration>,
    profiles: Seq<Migration>,
    messages: Seq<Migration>,
)
    ensures
        ({
            let s = first + modes + metadata + profiles + messages;
            &&& forall|m: Migration| #[trigger]
                s.contains(m) <==> first.contains(m) || modes.contains(m) || metadata.contains(m)
                    || profiles.contains(m) || messages.contains(m)
            &&& forall|a: Migration, b: Migration|
                followed(first, a, b) && followed(modes, a, b) && followed(metadata, a, b)
                    && followed(profiles, a, b) && followed(messages, a, b) ==> #[trigger] followed(
                    s,
                    a,
                    b,
                )
        }),
{
    lemma_joined(first, modes);
    lemma_joined(first + modes, metadata);
    lemma_joined(first + modes + metadata, profiles);
    lemma_joined(first + modes + metadata + profiles, messages);
}

/// Whether each step of one kind is followed by one of another.
pub open spec fn followed(steps: Seq<Migration>, a: Migration, b: Migration) -> bool {
    forall|i: int|
        0 <= i < steps.len() && #[trigger] steps[i] == a ==> i + 1 < steps.len() && steps[i + 1]
            == b
}

proof fn lemma_regroup(x: Seq<Migration>, y: Seq<Migration>, z: Seq<Migration>)
    ensures
        x + y + z == x + (y + z),
{
    assert(x + y + z =~= x + (y + z));
}

proof fn lemma_joined(x: Seq<Migration>, y: Seq<Migration>)
    ensures
        forall|m: Migration| #[trigger] (x + y).contains(m) <==> x.contains(m) || y.contains(m),
        forall|a: Migration, b: Migration|
            followed(x, a, b) && followed(y, a, b) ==> #[trigger] followed(x + y, a, b),
{
    assert forall|m: Migration| #[trigger] (x + y).contains(m) <==> x.contains(m) || y.contains(
        m,
    ) by {
        if x.contains(m) {
            let k = choose|k: int| 0 <= k < x.len() && x[k] == m;
            assert((x + y)[k] == m);
        }
        if y.contains(m) {
            let k = choose|k: int| 0 <= k < y.len() && y[k] == m;
            assert((x + y)[x.len() + k] == m);
        }
    }
    assert forall|a: Migration, b: Migration|
        followed(x, a, b) && followed(y, a, b) implies #[trigger] followed(x + y, a, b) by {
        let s = x + y;
        assert forall|i: int| 0 <= i < s.len() && #[trigger] s[i] == a implies i + 1 < s.len()
            && s[i + 1] == b by {
            if i < x.len() {
                assert(x[i] == a);
            } else {
                assert(y[i - x.len()] == a);
            }
        }
    }
}

proof fn lemma_table(present: bool, table: Migration, index: Migration)
    requires
        table != index,
    ensures
        ({
            let steps = system::if_missing(present, seq![table, index]);
            &&& steps.contains(table) <==> !present
            &&& followed(steps, table, index)
            &&& forall|m: Migration| #[trigger] steps.contains(m) ==> m == table || m == index
            &&& forall|a: Migration, b: Migration|
                a != table && a != index ==> #[trigger] followed(steps, a, b)
            &&& forall|i: int|
                0 <= i < steps.len() ==> #[trigger] steps[i] == table || steps[i] == index
        }),
{
    let steps = system::if_missing(present, seq![table, index]);
    if !present {
        assert(steps[0] == table && steps[1] == index);
    }
}

proof fn lemma_first_steps(probe: SchemaProbe, first: Seq<Migration>)
    requires
        first == system::if_missing(probe.objects_board_id, seq![Migration::AddBoardId])
            + system::if_missing(probe.objects_source_peer, seq![Migration::AddSourcePeer])
            + system::if_missing(probe.objects_local_path, seq![Migration::AddLocalPath])
            + system::if_missing(probe.elements_cell_id, seq![Migration::AddCellId]),
    ensures
        first.contains(Migration::AddBoardId) <==> !probe.objects_board_id,
        first.contains(Migration::AddSourcePeer) <==> !probe.objects_source_peer,
        first.contains(Migration::AddLocalPath) <==> !probe.objects_local_path,
        first.contains(Migration::AddCellId) <==> !probe.elements_cell_id,
        forall|i: int|
            0 <= i < first.len() ==> (#[trigger] first[i]) is AddBoardId
                || first[i] is AddSourcePeer || first[i] is AddLocalPath || first[i] is AddCellId,
{
    let a = system::if_missing(probe.objects_board_id, seq![Migration::AddBoardId]);
    let b = system::if_missing(probe.objects_source_peer, seq![Migration::AddSourcePeer]);
    let c = system::if_missing(probe.objects_local_path, seq![Migration::AddLocalPath]);
    let d = system::if_missing(probe.elements_cell_id, seq![Migration::AddCellId]);
    assert(!probe.objects_board_id ==> a[0] == Migration::AddBoardId);
    assert(!probe.objects_source_peer ==> b[0] == Migration::AddSourcePeer);
    assert(!probe.objects_local_path ==> c[0] == Migration::AddLocalPath);
    assert(!probe.elements_cell_id ==> d[0] == Migration::AddCellId);
    lemma_joined(a, b);
    lemma_joined(a + b, c);
    lemma_joined(a + b + c, d);
}

proof fn lemma_modes(probe: SchemaProbe, modes: Seq<Migration>)
    requires
        modes == system::if_missing(probe.objects_board_mode, seq![Migration::AddBoardMode]) + seq![
            Migration::RenameFreeform,
        ],
    ensures
        modes.contains(Migration::AddBoardMode) <==> !probe.objects_board_mode,
        modes.contains(Migration::RenameFreeform),
        followed(modes, Migration::AddBoardMode, Migration::RenameFreeform),
        forall|i: int|
            0 <= i < modes.len() ==> (#[trigger] modes[i]) is AddBoardMode
                || modes[i] is RenameFreeform,
{
    assert(modes[modes.len() - 1] == Migration::RenameFreeform);
    if !probe.objects_board_mode {
        assert(modes[0] == Migration::AddBoardMode);
    }
}

/// After the steps that a database gets every object has a mode: its own, or that of a canvas where
/// it had none or had the old name of one. All else is as it was.
pub proof fn databases_keep_their_rows(
    probe: SchemaProbe,
    steps: Vec<Migration>,
    t: Tables,
    k: Seq<char>,
)
    requires
        call_ensures(system::run_migrations, (probe,), steps),
        system::fits_probe(t, probe),
    ensures
        ({
            let after = system::rows_after_steps(t, steps@);
            let o = t.objects[k];
            &&& after == Tables { objects: after.objects, ..t }
            &&& after.objects.dom() == t.objects.dom()
            &&& t.objects.dom().contains(k) && (o.board_mode is None || o.board_mode == Some(
                "freeform"@,
            )) ==> after.objects[k] == (ObjectRow { board_mode: Some("canvas"@), ..o })
            &&& t.objects.dom().contains(k) && o.board_mode is Some && o.board_mode != Some(
                "freeform"@,
            ) ==> after.objects[k] == o
        }),
{
    system::migrations_bring_modes_up_to_date(probe, t);
    let after = system::rows_after_steps(t, steps@);
    assert(after.objects.dom() =~= t.objects.dom());
}

/// A node goes to the pipeline as it was found: its own identifiers, content, author, title, link
/// and time, under the group of the bridge. It goes exactly where it was fetched and is not blank.
pub proof fn nodes_are_forwarded_as_found(
    lens: &LensBridge,
    node: &Node,
    now: u64,
    r: Option<RawEvent>,
    raw: RawEvent,
)
    requires
        call_ensures(LensBridge::prepare, (lens, node, now), r),
        call_ensures(LensBridge::node_to_raw_event, (lens, node, now), raw),
    ensures
        r is Some <==> !(node.status is Ephemeral) && exists|i: int|
            0 <= i < node.content@.len() && !strings::is_white(#[trigger] node.content@[i]),
        r matches Some(e) ==> e == raw,
        raw.id@ == node.id@,
        raw.group_id@ == lens.group_id@,
        raw.workspace_id@ == node.workspace_id@,
        raw.external_id@ == node.external_id@,
        raw.content@ == node.content@,
        raw.author_id@ == node.metadata.author@,
        raw.author_name@ == node.metadata.author@,
        raw.url@ == node.metadata.url@,
        raw.title == node.metadata.title,
        raw.ts == node.ts,
        raw.captured_at == now,
        raw.thread_id is None,
        raw.parent_id is None,
        ({
            let k = node.kind;
            &&& raw.source is Slack <==> k is SlackMessage || k is SlackThread || k is GenericUrl
            &&& raw.source is Jira <==> k is JiraTicket || k is JiraComment
            &&& raw.source is GitHub <==> k is GitHubPR || k is GitHubIssue || k is GitHubCommit
                || k is GitHubRepo
            &&& raw.source is Confluence <==> k is ConfluencePage
            &&& raw.source is GoogleDocs <==> k is GoogleDoc || k is GoogleSheet || k is GoogleSlide
            &&& raw.content_kind is SlackMessage <==> k is SlackMessage || k is GenericUrl
            &&& raw.content_kind is SlackThread <==> k is SlackThread
            &&& raw.content_kind is JiraTicket <==> k is JiraTicket
            &&& raw.content_kind is JiraComment <==> k is JiraComment
            &&& raw.content_kind is GithubPr <==> k is GitHubPR
            &&& raw.content_kind is GithubIssue <==> k is GitHubIssue || k is GitHubRepo
            &&& raw.content_kind is GithubCommit <==> k is GitHubCommit
            &&& raw.content_kind is ConfluencePage <==> k is ConfluencePage
            &&& raw.content_kind is GoogleDoc <==> k is GoogleDoc
            &&& raw.content_kind is GoogleSheet <==> k is GoogleSheet
            &&& raw.content_kind is GoogleSlide <==> k is GoogleSlide
        }),
{
}

/// The source and kind of content of a node are those that its event carries, and the envelope
/// carries the identifier and the time of the event.
pub proof fn envelopes_carry_their_event(
    lens: &LensBridge,
    node: &Node,
    now: u64,
    raw: RawEvent,
    payload: String,
    wrapped: XfEvent,
    mapped: (SourceKind, ContentKind),
)
    requires
        call_ensures(LensBridge::node_to_raw_event, (lens, node, now), raw),
        call_ensures(LensBridge::envelope, (&raw, payload), wrapped),
        call_ensures(LensBridge::map_node_kind, (&node.kind,), mapped),
    ensures
        mapped == (raw.source, raw.content_kind),
        wrapped.id@ == node.id@,
        wrapped.ts == node.ts,
        wrapped.payload@ == payload@,
        wrapped.source@ == "cyan-backend"@,
{
}

/// Each kind of node has a name of its own.
pub proof fn kinds_have_names_of_their_own(
    a: NodeKind,
    b: NodeKind,
    first: &'static str,
    second: &'static str,
)
    requires
        call_ensures(LensBridge::kind_str, (&a,), first),
        call_ensures(LensBridge::kind_str, (&b,), second),
    ensures
        first@ == second@ <==> a == b,
{
    reveal_strlit("slack_message");
    reveal_strlit("slack_thread");
    reveal_strlit("jira_ticket");
    reveal_strlit("jira_comment");
    reveal_strlit("github_pr");
    reveal_strlit("github_issue");
    reveal_strlit("github_commit");
    reveal_strlit("github_repo");
    reveal_strlit("confluence_page");
    reveal_strlit("google_doc");
    reveal_strlit("google_sheet");
    reveal_strlit("google_slide");
    reveal_strlit("generic_url");
    let x = first@;
    let y = second@;
    if x == y {
        assert(x.len() == y.len());
        assert(x[0] == y[0]);
        assert(x[1] == y[1]);
        assert(x[5] == y[5]);
        assert(x[7] == y[7]);
        assert(x[8] == y[8]);
    }
}

/// A node counts as forwarded where it had content and was delivered, as skipped where it had none,
/// and as neither where its delivery failed; then the reason is given.
pub proof fn forwarding_is_counted(
    lens: &mut LensBridge,
    node: &Node,
    delivered: Result<(), DeliveryError>,
    r: Result<bool, String>,
)
    requires
        call_ensures(LensBridge::forward_node, (lens, node, delivered), r),
        old(lens).forwarded < u64::MAX,
        old(lens).skipped < u64::MAX,
    ensures
        ({
            let blank = node.status is Ephemeral || (forall|i: int|
                0 <= i < node.content@.len() ==> strings::is_white(#[trigger] node.content@[i]));
            &&& blank ==> r == Ok::<bool, String>(false)
            &&& !blank && delivered is Ok ==> r == Ok::<bool, String>(true)
            &&& !blank && delivered is Err ==> r is Err
            &&& final(lens).forwarded - old(lens).forwarded == (if r == Ok::<bool, String>(true) {
                1int
            } else {
                0
            })
            &&& final(lens).skipped - old(lens).skipped == (if r == Ok::<bool, String>(false) {
                1int
            } else {
                0
            })
            &&& final(lens).group_id == old(lens).group_id
            &&& r is Err && delivered->Err_0 is Serialize ==> r->Err_0@ == "Serialize error: "@
                + delivered->Err_0->Serialize_0@
            &&& r is Err && delivered->Err_0 is Send ==> r->Err_0@ == "XaeroFlux send error: "@
                + delivered->Err_0->Send_0@
        }),
{
}

/// How many nodes of a batch were forwarded is how many outcomes say so.
pub proof fn forwarded_nodes_are_counted(outcomes: &Vec<Result<bool, String>>, n: usize)
    requires
        call_ensures(lens_bridge::forward_nodes, (outcomes,), n),
    ensures
        n == outcomes@.filter(|o: Result<bool, String>| o == Ok::<bool, String>(true)).len(),
{
    lemma_forwarded(outcomes@);
}

proof fn lemma_forwarded(outcomes: Seq<Result<bool, String>>)
    ensures
        lens_bridge::forwarded_in(outcomes) == outcomes.filter(
            |o: Result<bool, String>| o == Ok::<bool, String>(true),
        ).len(),
    decreases outcomes.len(),
{
    reveal(Seq::filter);
    if outcomes.len() > 0 {
        lemma_forwarded(outcomes.drop_last());
    }
}

/// Whether a line is a text with nothing but white space around it.
pub open spec fn holds(line: Seq<char>, word: Seq<char>) -> bool {
    &&& word.len() > 0 ==> !strings::is_white(word[0]) && !strings::is_white(word.last())
    &&& exists|a: Seq<char>, b: Seq<char>|
        line == #[trigger] (a + word + b) && strings::all_white(a) && strings::all_white(b)
}

proof fn lemma_trimmed(line: Seq<char>, word: Seq<char>)
    requires
        holds(line, word),
    ensures
        strings::trimmed(line) == word,
{
    let (a, b) = choose|a: Seq<char>, b: Seq<char>|
        line == #[trigger] (a + word + b) && strings::all_white(a) && strings::all_white(b);
    let n = a.len() as int;
    let m = n + word.len();
    if word.len() == 0 {
        assert(strings::all_white(line)) by {
            assert forall|i: int| 0 <= i < line.len() implies strings::is_white(
                #[trigger] line[i],
            ) by {
                if i < n {
                    assert(line[i] == a[i]);
                } else {
                    assert(line[i] == b[i - n]);
                }
            }
        }
    }
    assert(line.subrange(n, m) =~= word);
    assert forall|i: int| 0 <= i < n implies strings::is_white(#[trigger] line[i]) by {
        assert(line[i] == a[i]);
    }
    assert forall|i: int| m <= i < line.len() implies strings::is_white(#[trigger] line[i]) by {
        assert(line[i] == b[i - m]);
    }
    assert(strings::cuts(line, word, n, m));
    assert(strings::is_trimmed(line, word));
    strings::trimming_is_unique(line, word, strings::trimmed(line));
}

/// What the words at the prompt ask for, with any white space around them: "quit" and "exit" end
/// the session, "help" helps, "lg" and "list-groups" list the groups, and a blank line asks for
/// nothing.
pub proof fn words_ask_for_what_they_say(line: &str, r: PromptCommand)
    requires
        call_ensures(cli::read_prompt, (line,), r),
    ensures
        holds(line@, "quit"@) || holds(line@, "exit"@) ==> r is Quit,
        holds(line@, "help"@) ==> r is Help,
        holds(line@, "lg"@) || holds(line@, "list-groups"@) ==> r is ListGroups,
        strings::all_white(line@) ==> r is Nothing,
{
    reveal_strlit("quit");
    reveal_strlit("exit");
    reveal_strlit("help");
    reveal_strlit("lg");
    reveal_strlit("list-groups");
    reveal_strlit("create-group");
    assert("quit"@.len() == 4 && "exit"@.len() == 4 && "help"@.len() == 4 && "lg"@.len() == 2
        && "list-groups"@.len() == 11 && "create-group"@.len() == 12);
    assert("help"@[0] == 'h' && "quit"@[0] == 'q' && "exit"@[0] == 'e');
    if holds(line@, "quit"@) {
        lemma_trimmed(line@, "quit"@);
    }
    if holds(line@, "exit"@) {
        lemma_trimmed(line@, "exit"@);
    }
    if holds(line@, "help"@) {
        lemma_trimmed(line@, "help"@);
    }
    if holds(line@, "lg"@) {
        lemma_trimmed(line@, "lg"@);
    }
    if holds(line@, "list-groups"@) {
        lemma_trimmed(line@, "list-groups"@);
    }
    if strings::all_white(line@) {
        let none = Seq::<char>::empty();
        assert(line@ =~= line@ + none + none);
        assert(holds(line@, none));
        lemma_trimmed(line@, none);
    }
}

/// A group is created under what stands behind "create-group" and a space, without white space
/// around it.
pub proof fn a_group_gets_the_name_that_was_typed(line: &str, name: Seq<char>, r: PromptCommand)
    requires
        call_ensures(cli::read_prompt, (line,), r),
        name.len() > 0,
        !strings::is_white(name[0]),
        !strings::is_white(name.last()),
        holds(line@, "create-group "@ + name),
    ensures
        r matches PromptCommand::CreateGroup { name: n } && n@ == name,
{
    let command = "create-group "@ + name;
    lemma_trimmed(line@, command);
    reveal_strlit("create-group ");
    reveal_strlit("create-group");
    reveal_strlit("quit");
    reveal_strlit("exit");
    reveal_strlit("help");
    reveal_strlit("lg");
    reveal_strlit("list-groups");
    assert(command.subrange(0, 12) =~= "create-group"@);
    assert(strings::stands_at(command, "create-group"@, 0));
    lemma_behind_space("create-group"@, name);
    assert(command =~= "create-group"@ + seq![' '] + name);
    let none = Seq::<char>::empty();
    assert(name =~= none + name + none);
    assert(holds(name, name));
    lemma_trimmed(name, name);
}

/// A group for which no name was typed is a new group, and a word that is no command is told back.
pub proof fn words_without_a_meaning_are_told_back(line: &str, word: Seq<char>, r: PromptCommand)
    requires
        call_ensures(cli::read_prompt, (line,), r),
        holds(line@, word),
        word.len() > 0,
        !strings::is_white(word[0]),
        !strings::is_white(word.last()),
    ensures
        word == "create-group"@ ==> (r matches PromptCommand::CreateGroup { name } && name@
            == "New Group"@),
        word.len() < 12 && word != "quit"@ && word != "exit"@ && word != "help"@ && word != "lg"@
            && word != "list-groups"@ ==> (r matches PromptCommand::Unknown { command } && command@
            == word),
{
    lemma_trimmed(line@, word);
    reveal_strlit("create-group");
    reveal_strlit("quit");
    reveal_strlit("exit");
    reveal_strlit("help");
    reveal_strlit("lg");
    reveal_strlit("list-groups");
    if word == "create-group"@ {
        assert("quit"@.len() == 4 && "exit"@.len() == 4 && "help"@.len() == 4 && "lg"@.len() == 2
            && "list-groups"@.len() == 11 && word.len() == 12);
        assert(word.subrange(0, 12) =~= word);
        assert(strings::stands_at(word, word, 0));
        lemma_no_space(word);
        let none = Seq::<char>::empty();
        assert(cli::behind_space(word) =~= none);
        assert(none =~= none + none + none);
        assert(holds(none, none));
        lemma_trimmed(none, none);
    }
}

proof fn lemma_no_space(word: Seq<char>)
    requires
        forall|i: int| 0 <= i < word.len() ==> #[trigger] word[i] != ' ',
    ensures
        cli::behind_space(word).len() == 0,
    decreases word.len(),
{
    if word.len() > 0 {
        assert forall|i: int| 0 <= i < word.drop_first().len() implies
            #[trigger] word.drop_first()[i] != ' ' by {
            assert(word.drop_first()[i] == word[i + 1]);
        }
        lemma_no_space(word.drop_first());
    }
}

proof fn lemma_behind_space(word: Seq<char>, rest: Seq<char>)
    requires
        forall|i: int| 0 <= i < word.len() ==> #[trigger] word[i] != ' ',
    ensures
        cli::behind_space(word + seq![' '] + rest) == rest,
    decreases word.len(),
{
    let s = word + seq![' '] + rest;
    if word.len() == 0 {
        assert(s.drop_first() =~= rest);
    } else {
        assert(s.drop_first() =~= word.drop_first() + seq![' '] + rest);
        assert forall|i: int| 0 <= i < word.drop_first().len() implies
            #[trigger] word.drop_first()[i] != ' ' by {
            assert(word.drop_first()[i] == word[i + 1]);
        }
        lemma_behind_space(word.drop_first(), rest);
    }
}

} // verus!
