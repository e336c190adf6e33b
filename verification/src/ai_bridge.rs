//! The analyst: what it hears, what it is asked, and what becomes of its answers.

use crate::collections;
use crate::collections::TextMap;
use crate::ids;
use crate::json;
use crate::json::Json;
use crate::strings;
use crate::tables::{FileRecord, OnConflict, Statement};
use crate::text;
use std::collections::VecDeque;
use vstd::prelude::*;
use vstd::string::*;

verus! {

/// How many events the analyst remembers.
pub const EVENT_BUFFER_SIZE: usize = 500;

/// How many seconds a day has.
pub const DAY: i64 = 86400;

/// Something that an integration reports to the analyst.
#[derive(Clone, Debug, PartialEq, Eq)]
pub struct AIIntegrationEvent {
    pub anchor_id: String,
    pub anchor_kind: String,
    pub anchor_ref: String,
    pub mention_count: u32,
    pub last_mention: i64,
    pub context: String,
    pub source: String,
}

/// A remark of the analyst.
#[derive(Clone, Debug, PartialEq, Eq)]
pub struct ProactiveInsight {
    pub id: String,
    pub message: String,
    pub severity: String,
    pub anchor_ids: Vec<String>,
    pub timestamp: i64,
}

/// How long the steps from a picture to a diagram took.
#[derive(Clone, Copy, Debug, PartialEq, Eq, Structural)]
pub struct PipelineTiming {
    pub detection_ms: u64,
    pub ocr_ms: u64,
    pub layout_ms: u64,
    pub generation_ms: u64,
    pub total_ms: u64,
}

/// An answer of the analyst.
#[derive(Clone, Debug, PartialEq, Eq)]
pub struct AnalysisResult {
    pub success: bool,
    pub response: Option<String>,
    pub citations: Option<Vec<String>>,
    pub error: Option<String>,
}

/// A model in a notebook cell.
#[derive(Clone, Debug, PartialEq, Eq)]
pub struct ModelSummary {
    pub id: String,
    pub name: String,
    pub kind: String,
    pub capabilities: Vec<String>,
    pub board_id: String,
    pub cell_id: String,
    pub file_id: Option<String>,
}

/// What came of running a model.
#[derive(Debug, PartialEq, Eq)]
pub enum InferenceReply {
    /// It wrote a text.
    Text(String),
    /// It produced something else.
    Other,
    /// It failed.
    Failed(String),
}

/// The events after one more: the oldest goes where the buffer is full.
pub open spec fn fed(buffer: Seq<AIIntegrationEvent>, event: AIIntegrationEvent) -> Seq<
    AIIntegrationEvent,
> {
    if buffer.len() >= EVENT_BUFFER_SIZE {
        buffer.skip(1).push(event)
    } else {
        buffer.push(event)
    }
}

/// The buffer never holds more than its size, and the newest event is last.
pub proof fn event_buffer_is_bounded(buffer: Seq<AIIntegrationEvent>, event: AIIntegrationEvent)
    requires
        buffer.len() <= EVENT_BUFFER_SIZE,
    ensures
        fed(buffer, event).len() <= EVENT_BUFFER_SIZE,
        fed(buffer, event).last() == event,
{
}

/// The whole days from one time to another, towards zero.
pub open spec fn days_between(then: i64, now: i64) -> int {
    if now >= then {
        (now - then) / 86400
    } else {
        -((then - now) / 86400)
    }
}

/// Whether the time from the last mention of an event to now can be computed.
pub open spec fn datable(event: AIIntegrationEvent, now: i64) -> bool {
    i64::MIN <= now - event.last_mention <= i64::MAX
}

fn count_days(then: i64, now: i64) -> (r: i64)
    requires
        i64::MIN <= now - then <= i64::MAX,
    ensures
        r == days_between(then, now),
{
    if now >= then {
        (now - then) / DAY
    } else {
        let d: i128 = then as i128 - now as i128;
        let q: i128 = d / 86400;
        0 - (q as i64)
    }
}

/// The line about an event.
pub open spec fn context_line(event: AIIntegrationEvent, now: i64) -> Seq<char> {
    "- "@ + event.anchor_ref@ + " ("@ + event.anchor_kind@ + "): "@ + text::decimal(
        event.mention_count as nat,
    ) + " mentions, "@ + text::int_text(days_between(event.last_mention, now)) + "d ago"@
}

/// The lines about events, with a line break between them.
pub open spec fn context_lines(events: Seq<AIIntegrationEvent>, now: i64) -> Seq<char>
    decreases events.len(),
{
    if events.len() == 0 {
        Seq::empty()
    } else if events.len() == 1 {
        context_line(events[0], now)
    } else {
        context_lines(events.drop_last(), now) + "\n"@ + context_line(events.last(), now)
    }
}

/// The first events of a buffer, at most `n`.
pub open spec fn first_events(events: Seq<AIIntegrationEvent>, n: int) -> Seq<AIIntegrationEvent> {
    if events.len() <= n {
        events
    } else {
        events.take(n)
    }
}

/// What the analyst is told of the events: a line for each of the first twenty.
pub open spec fn context_text(events: Seq<AIIntegrationEvent>, now: i64) -> Seq<char> {
    if events.len() == 0 {
        "(No activity)"@
    } else {
        context_lines(first_events(events, 20), now)
    }
}

fn write_line(event: &AIIntegrationEvent, now: i64) -> (r: String)
    requires
        datable(*event, now),
    ensures
        r@ == context_line(*event, now),
{
    let mut s = "- ".to_owned();
    s.append(event.anchor_ref.as_str());
    s.append(" (");
    s.append(event.anchor_kind.as_str());
    s.append("): ");
    s.append(text::u64_text(event.mention_count as u64).as_str());
    s.append(" mentions, ");
    s.append(text::i64_text(count_days(event.last_mention, now)).as_str());
    s.append("d ago");
    s
}

/// Describes the first events.
pub fn build_context(events: &VecDeque<AIIntegrationEvent>, now: i64) -> (r: String)
    requires
        forall|i: int| 0 <= i < events@.len() && i < 20 ==> datable(#[trigger] events@[i], now),
    ensures
        r@ == context_text(events@, now),
{
    if events.len() == 0 {
        return "(No activity)".to_owned();
    }
    let n: usize = if events.len() < 20 {
        events.len()
    } else {
        20
    };
    let ghost shown = first_events(events@, 20);
    assert(shown =~= events@.take(n as int));
    let mut s = write_line(&events[0], now);
    let mut i: usize = 1;
    assert(shown.take(1)[0] == events@[0]);
    while i < n
        invariant
            1 <= i <= n <= events@.len(),
            n <= 20,
            shown == events@.take(n as int),
            forall|k: int| 0 <= k < events@.len() && k < 20 ==> datable(#[trigger] events@[k], now),
            s@ == context_lines(shown.take(i as int), now),
        decreases n - i,
    {
        assert(shown.take(i + 1).drop_last() =~= shown.take(i as int));
        assert(shown.take(i + 1).last() == events@[i as int]);
        s.append("\n");
        s.append(write_line(&events[i], now).as_str());
        i = i + 1;
    }
    assert(shown.take(n as int) =~= shown);
    s
}

/// Whether an event is stale: often mentioned, but not for two weeks.
pub open spec fn is_stale(event: AIIntegrationEvent, now: i64) -> bool {
    now - event.last_mention > 14 * 86400 && event.mention_count > 50
}

/// Whether some event is stale.
pub open spec fn any_stale(events: Seq<AIIntegrationEvent>, now: i64) -> bool {
    exists|i: int| 0 <= i < events.len() && is_stale(#[trigger] events[i], now)
}

/// Whether the stale event at a place is the one most mentioned, and the last of those.
pub open spec fn is_worst(events: Seq<AIIntegrationEvent>, now: i64, w: int) -> bool {
    &&& 0 <= w < events.len()
    &&& is_stale(events[w], now)
    &&& forall|i: int|
        0 <= i < events.len() && is_stale(#[trigger] events[i], now) ==> events[i].mention_count
            < events[w].mention_count || (events[i].mention_count == events[w].mention_count && i
            <= w)
}

/// Whether an insight is about an event.
pub open spec fn tells_of(insight: ProactiveInsight, event: AIIntegrationEvent, now: i64) -> bool {
    let days = days_between(event.last_mention, now);
    &&& insight.message@ == "⚠️ "@ + event.anchor_ref@ + " has "@ + text::decimal(
        event.mention_count as nat,
    ) + " mentions but no activity in "@ + text::int_text(days) + " days"@
    &&& insight.severity@ == if days > 30 {
        "critical"@
    } else {
        "warning"@
    }
    &&& insight.anchor_ids@ == seq![event.anchor_id]
    &&& insight.timestamp == now
}

/// Looks for the stale event that was mentioned most. `id` becomes the identifier of the insight.
pub fn generate_insight(events: &VecDeque<AIIntegrationEvent>, now: i64, id: String) -> (r: Option<
    ProactiveInsight,
>)
    requires
        forall|i: int| 0 <= i < events@.len() ==> datable(#[trigger] events@[i], now),
    ensures
        match r {
            Some(insight) => insight.id == id && exists|w: int| #[trigger]
                is_worst(events@, now, w) && tells_of(insight, events@[w], now),
            None => forall|i: int| 0 <= i < events@.len() ==> !is_stale(#[trigger] events@[i], now),
        },
        r is Some <==> any_stale(events@, now),
{
    let mut worst: Option<usize> = None;
    let mut i: usize = 0;
    while i < events.len()
        invariant
            i <= events@.len(),
            forall|k: int| 0 <= k < events@.len() ==> datable(#[trigger] events@[k], now),
            match worst {
                Some(w) => w < i && is_worst(events@.take(i as int), now, w as int),
                None => forall|k: int| 0 <= k < i ==> !is_stale(#[trigger] events@[k], now),
            },
        decreases events.len() - i,
    {
        let ghost before = events@.take(i as int);
        let ghost after = events@.take(i + 1);
        assert(datable(events@[i as int], now));
        let stale = now - events[i].last_mention > 14 * DAY && events[i].mention_count > 50;
        if stale {
            let better = match worst {
                Some(w) => events[w].mention_count <= events[i].mention_count,
                None => true,
            };
            if better {
                worst = Some(i);
            }
        }
        proof {
            if worst is Some {
                let w = worst->0 as int;
                assert forall|k: int|
                    0 <= k < after.len() && is_stale(#[trigger] after[k], now) implies after[k].mention_count
                    < after[w].mention_count || (after[k].mention_count == after[w].mention_count
                    && k <= w) by {
                    if k < i {
                        assert(before[k] == after[k]);
                    }
                }
            }
        }
        i = i + 1;
    }
    assert(events@.take(i as int) =~= events@);
    match worst {
        None => None,
        Some(w) => {
            let event = &events[w];
            let days = count_days(event.last_mention, now);
            let mut message = "⚠️ ".to_owned();
            message.append(event.anchor_ref.as_str());
            message.append(" has ");
            message.append(text::u64_text(event.mention_count as u64).as_str());
            message.append(" mentions but no activity in ");
            message.append(text::i64_text(days).as_str());
            message.append(" days");
            let severity = if days > 30 {
                "critical".to_owned()
            } else {
                "warning".to_owned()
            };
            let mut anchor_ids: Vec<String> = Vec::new();
            anchor_ids.push(event.anchor_id.clone());
            assert(anchor_ids@ =~= seq![event.anchor_id]);
            assert(is_worst(events@, now, w as int));
            Some(ProactiveInsight { id, message, severity, anchor_ids, timestamp: now })
        },
    }
}

/// The question to the analyst.
pub open spec fn analyst_prompt(context: Seq<char>, question: Seq<char>) -> Seq<char> {
    "<|user|>\nYou are a design analyst. Analyze project activity and answer concisely.\n\n## Activity\n"@
        + context + "\n\n## Question\n"@ + question + "\n<|end|>\n<|assistant|>\n"@
}

/// A run of a model: which, and on what.
#[derive(Debug, PartialEq, Eq)]
pub struct ModelRun {
    pub model: String,
    pub prompt: String,
}

/// The opening of every search prompt.
pub open spec fn sql_prompt_head() -> Seq<char> {
    "<|system|>\n"@ + "You are CyanLens, an AI assistant for Cyan workspace management.\n\n"@
        + "## Schema\n"@ + "- groups(id, name, icon, color, created_at)\n"@
        + "- workspaces(id, group_id, name, description, created_at)\n"@
        + "- objects(id, workspace_id, type, name, board_mode, archived, created_at, updated_at)\n"@
        + "- notebook_cells(id, board_id, cell_type, content, cell_order)\n"@
        + "- board_labels(id, board_id, label)\n"@
        + "- board_metadata(board_id, starred, template, rating)\n\n"@ + "## Relationships\n"@
        + "- objects.workspace_id → workspaces.id\n"@ + "- workspaces.group_id → groups.id\n"@
        + "- notebook_cells.board_id → objects.id\n"@
        + "- To find boards in a group: JOIN objects → workspaces → groups\n"@
        + "- To search notebook content: JOIN notebook_cells ON notebook_cells.board_id = objects.id\n\n"@
        + "## Output Format\n"@ + "- For QUERIES: Output SQL in ```sql``` block\n"@
        + "- For MUTATIONS (create/update/delete): Output JSON action plan\n"@ + "<|end|>\n"@
        + "<|user|>\n"@
}

/// The lines of learned patterns.
pub open spec fn bullet_lines(bullets: Seq<String>) -> Seq<char>
    decreases bullets.len(),
{
    if bullets.len() == 0 {
        Seq::empty()
    } else {
        bullet_lines(bullets.drop_last()) + ("- "@ + bullets.last()@ + "\n"@)
    }
}

/// The prompt of a search: the opening, the learned patterns where there are any, and the query.
pub open spec fn sql_prompt(query: Seq<char>, bullets: Seq<String>) -> Seq<char> {
    sql_prompt_head() + (if bullets.len() == 0 {
        Seq::empty()
    } else {
        "## Learned patterns (IMPORTANT - follow these):\n"@ + bullet_lines(bullets) + "\n"@
    }) + query + "\n<|end|>\n"@ + "<|assistant|>\n"@
}

fn write_prompt_head() -> (r: String)
    ensures
        r@ == sql_prompt_head(),
{
    let mut prompt = "<|system|>\n".to_owned();
    prompt.append("You are CyanLens, an AI assistant for Cyan workspace management.\n\n");
    prompt.append("## Schema\n");
    prompt.append("- groups(id, name, icon, color, created_at)\n");
    prompt.append("- workspaces(id, group_id, name, description, created_at)\n");
    prompt.append(
        "- objects(id, workspace_id, type, name, board_mode, archived, created_at, updated_at)\n",
    );
    prompt.append("- notebook_cells(id, board_id, cell_type, content, cell_order)\n");
    prompt.append("- board_labels(id, board_id, label)\n");
    prompt.append("- board_metadata(board_id, starred, template, rating)\n\n");
    prompt.append("## Relationships\n");
    prompt.append("- objects.workspace_id → workspaces.id\n");
    prompt.append("- workspaces.group_id → groups.id\n");
    prompt.append("- notebook_cells.board_id → objects.id\n");
    prompt.append("- To find boards in a group: JOIN objects → workspaces → groups\n");
    prompt.append(
        "- To search notebook content: JOIN notebook_cells ON notebook_cells.board_id = objects.id\n\n",
    );
    prompt.append("## Output Format\n");
    prompt.append("- For QUERIES: Output SQL in ```sql``` block\n");
    prompt.append("- For MUTATIONS (create/update/delete): Output JSON action plan\n");
    prompt.append("<|end|>\n");
    prompt.append("<|user|>\n");
    prompt
}

/// Writes the prompt of a search.
pub fn build_sql_prompt(query: &str, bullets: &Vec<String>) -> (r: String)
    ensures
        r@ == sql_prompt(query@, bullets@),
{
    let mut prompt = write_prompt_head();
    let ghost head = prompt@;
    if bullets.len() > 0 {
        let mut learned = "## Learned patterns (IMPORTANT - follow these):\n".to_owned();
        let ghost title = learned@;
        let mut i: usize = 0;
        assert(learned@ =~= title + bullet_lines(bullets@.take(0)));
        while i < bullets.len()
            invariant
                i <= bullets@.len(),
                learned@ == title + bullet_lines(bullets@.take(i as int)),
            decreases bullets.len() - i,
        {
            assert(bullets@.take(i + 1).drop_last() =~= bullets@.take(i as int));
            let ghost before = learned@;
            learned.append("- ");
            learned.append(bullets[i].as_str());
            learned.append("\n");
            assert(learned@ =~= title + (bullet_lines(bullets@.take(i as int)) + ("- "@
                + bullets@[i as int]@ + "\n"@)));
            i = i + 1;
        }
        assert(bullets@.take(i as int) =~= bullets@);
        learned.append("\n");
        prompt.append(learned.as_str());
    } else {
        assert(head + Seq::<char>::empty() =~= head);
    }
    prompt.append(query);
    prompt.append("\n<|end|>\n");
    prompt.append("<|assistant|>\n");
    prompt
}

/// A plan of changes that a search produced. `preview` describes its actions one by one.
#[derive(Debug, PartialEq, Eq)]
pub struct ActionPlan {
    pub intent: String,
    pub requires_confirmation: bool,
    pub confirmation: Option<String>,
    pub preview: Vec<String>,
    /// The text that the plan was read from.
    pub source: String,
}

/// What a model's answer to a search says.
#[derive(Debug, PartialEq, Eq)]
pub enum ParsedOutput {
    Sql(String),
    Plan(ActionPlan),
}

/// A plan that waits for the user, and where they were.
#[derive(Debug, PartialEq, Eq)]
pub struct PendingPlan {
    pub source: String,
    pub current_board_id: Option<String>,
    pub current_workspace_id: Option<String>,
}

/// Which model a search uses, and whose learned patterns.
#[derive(Debug, PartialEq, Eq)]
pub struct LensRun {
    pub uses_sql_model: bool,
    pub model: String,
    pub scope: String,
}

/// The scope of the learned patterns, by whether the query model is loaded.
pub open spec fn lens_scope(sql_model: Option<String>) -> Seq<char> {
    if sql_model is Some {
        "cyan-sql"@
    } else {
        "cyan-lens"@
    }
}

/// What a search does next.
#[derive(Debug, PartialEq, Eq)]
pub enum LensStep {
    /// Run the query and show what it finds.
    Search { sql: String },
    /// Ask the user first.
    Confirm {
        request_id: String,
        intent: String,
        message: String,
        preview: Vec<String>,
        specialist: String,
    },
    /// Carry the plan out.
    Execute(PendingPlan),
}

/// What becomes of a plan that waited.
#[derive(Debug, PartialEq, Eq)]
pub enum ConfirmStep {
    Execute(PendingPlan),
    Cancelled,
}

/// A part of the learned patterns.
#[derive(Clone, Copy, Debug, PartialEq, Eq, Structural)]
pub enum Section {
    Strategies,
    Apis,
    Mistakes,
    Verification,
}

/// What a user says was wrong with a search.
pub struct LensCorrection {
    pub wrong_sql: Option<String>,
    pub explanation: String,
}

/// The pattern to learn from a correction, and the section it goes to.
pub fn correction_bullet(correction: &LensCorrection, was_helpful: bool) -> (r: (Section, String))
    ensures
        r.0 == if was_helpful {
            Section::Strategies
        } else {
            Section::Mistakes
        },
        r.1@ == "When user asks '"@ + (match correction.wrong_sql {
            Some(sql) => sql@,
            None => Seq::empty(),
        }) + "', the correct approach is: "@ + correction.explanation@,
{
    let mut s = "When user asks '".to_owned();
    let ghost start = s@;
    match &correction.wrong_sql {
        Some(sql) => {
            s.append(sql.as_str());
        },
        None => {
            assert(start + Seq::<char>::empty() =~= start);
        },
    }
    s.append("', the correct approach is: ");
    s.append(correction.explanation.as_str());
    let section = if was_helpful {
        Section::Strategies
    } else {
        Section::Mistakes
    };
    (section, s)
}

/// The patterns that a new scope starts with.
pub open spec fn seeds() -> Seq<(Section, Seq<char>)> {
    seq![
        (
            Section::Strategies,
            "When user says 'X boards', first check if X matches a group name"@,
        ),
        (
            Section::Strategies,
            "Always use JOINs through workspaces when connecting objects to groups"@,
        ),
        (Section::Strategies, "For 'recent' queries, ORDER BY last_accessed DESC"@),
        (
            Section::Strategies,
            "Use DISTINCT when joining with notebook_cells to avoid duplicates"@,
        ),
        (Section::Strategies, "Limit results to 100 unless user specifies a count"@),
        (
            Section::Strategies,
            "To find content inside notebooks, JOIN notebook_cells.board_id = objects.id and search notebook_cells.content"@,
        ),
        (Section::Apis, "Table 'objects' contains boards - there is no 'boards' table"@),
        (
            Section::Apis,
            "notebook_cells.cell_type can be: 'markdown', 'mermaid', 'code', 'image'"@,
        ),
        (Section::Apis, "groups table has: id, name, icon, color, created_at"@),
        (Section::Apis, "workspaces links groups to objects via group_id"@),
        (
            Section::Apis,
            "Deep link format: cyan://group/{gid}/workspace/{wid}/board/{bid}"@,
        ),
        (Section::Mistakes, "Never use 'boards' as table name - use 'objects'"@),
        (
            Section::Mistakes,
            "Don't search objects.name when user says 'X boards' - X is often a group name"@,
        ),
        (
            Section::Mistakes,
            "Don't forget to join through workspaces - objects don't have direct group_id"@,
        ),
        (
            Section::Mistakes,
            "CRITICAL: When joining notebook_cells to objects, always use notebook_cells.board_id = objects.id (NOT objects.workspace_id)"@,
        ),
        (
            Section::Verification,
            "Always verify SQL is SELECT-only, no INSERT/UPDATE/DELETE/DROP"@,
        ),
        (Section::Verification, "Check that all table names exist in schema"@),
    ]
}

/// The characters of seed patterns.
pub open spec fn seed_views(items: Seq<(Section, &'static str)>) -> Seq<(Section, Seq<char>)> {
    items.map_values(|p: (Section, &'static str)| (p.0, p.1@))
}

/// The patterns to add to a scope: none where it has some already. Where the count of what is there
/// could not be had, all are added.
pub fn playbook_seed(existing: Option<u64>) -> (r: Option<Vec<(Section, &'static str)>>)
    ensures
        match r {
            None => existing is Some && existing->0 > 0,
            Some(items) => !(existing is Some && existing->0 > 0) && seed_views(items@) == seeds(),
        },
{
    match existing {
        Some(n) => {
            if n > 0 {
                return None;
            }
        },
        None => {},
    }
    let mut items: Vec<(Section, &'static str)> = Vec::new();
    items.push(
        (Section::Strategies, "When user says 'X boards', first check if X matches a group name"),
    );
    items.push(
        (
            Section::Strategies,
            "Always use JOINs through workspaces when connecting objects to groups",
        ),
    );
    items.push((Section::Strategies, "For 'recent' queries, ORDER BY last_accessed DESC"));
    items.push(
        (Section::Strategies, "Use DISTINCT when joining with notebook_cells to avoid duplicates"),
    );
    items.push((Section::Strategies, "Limit results to 100 unless user specifies a count"));
    items.push(
        (
            Section::Strategies,
            "To find content inside notebooks, JOIN notebook_cells.board_id = objects.id and search notebook_cells.content",
        ),
    );
    items.push((Section::Apis, "Table 'objects' contains boards - there is no 'boards' table"));
    items.push(
        (Section::Apis, "notebook_cells.cell_type can be: 'markdown', 'mermaid', 'code', 'image'"),
    );
    items.push((Section::Apis, "groups table has: id, name, icon, color, created_at"));
    items.push((Section::Apis, "workspaces links groups to objects via group_id"));
    items.push(
        (Section::Apis, "Deep link format: cyan://group/{gid}/workspace/{wid}/board/{bid}"),
    );
    items.push((Section::Mistakes, "Never use 'boards' as table name - use 'objects'"));
    items.push(
        (
            Section::Mistakes,
            "Don't search objects.name when user says 'X boards' - X is often a group name",
        ),
    );
    items.push(
        (
            Section::Mistakes,
            "Don't forget to join through workspaces - objects don't have direct group_id",
        ),
    );
    items.push(
        (
            Section::Mistakes,
            "CRITICAL: When joining notebook_cells to objects, always use notebook_cells.board_id = objects.id (NOT objects.workspace_id)",
        ),
    );
    items.push(
        (Section::Verification, "Always verify SQL is SELECT-only, no INSERT/UPDATE/DELETE/DROP"),
    );
    items.push((Section::Verification, "Check that all table names exist in schema"));
    assert(seed_views(items@) =~= seeds());
    Some(items)
}

/// What a kind of model can do, what it takes and what it gives.
pub open spec fn model_abilities(kind: Seq<char>) -> (Seq<Seq<char>>, Seq<char>) {
    let k = strings::lowercase(kind);
    if k == "gguf"@ {
        (seq!["text_generation"@], "text"@)
    } else if k == "onnx"@ {
        (seq!["inference"@], "tensor"@)
    } else {
        (Seq::empty(), "unknown"@)
    }
}

/// The description of a model.
pub open spec fn skill_md(
    name: Seq<char>,
    kind: Seq<char>,
    model_file: Option<Seq<char>>,
    now: u64,
) -> Seq<char> {
    let (abilities, data) = model_abilities(kind);
    "---\nname: "@ + name + "\nversion: 0.1.0\nkind: "@ + kind + "\n"@ + (match model_file {
        Some(f) => "model: "@ + f + "\n"@,
        None => Seq::empty(),
    }) + "capabilities: "@ + json::text_list_json(abilities) + "\ninput:\n  type: "@ + data
        + "\noutput:\n  type: "@ + data + "\nauthor: local\ncreated: "@ + text::decimal(now as nat)
        + "\n---\n\n# "@ + name + "\n\nAuto-generated skill.\n"@
}

/// Writes the description of a model.
pub fn generate_skill_md(name: &str, kind: &str, model_file: Option<&str>, now: u64) -> (r: String)
    ensures
        r@ == skill_md(
            name@,
            kind@,
            match model_file {
                Some(f) => Some(f@),
                None => None,
            },
            now,
        ),
{
    let lower = strings::to_lower(kind);
    let mut abilities: Vec<String> = Vec::new();
    let data: &str = if text::str_eq(lower.as_str(), "gguf") {
        abilities.push("text_generation".to_owned());
        "text"
    } else if text::str_eq(lower.as_str(), "onnx") {
        abilities.push("inference".to_owned());
        "tensor"
    } else {
        "unknown"
    };
    assert(collections::texts(abilities@) =~= model_abilities(kind@).0);
    let list = json::text_list_to_json(&abilities);
    let mut s = "---\nname: ".to_owned();
    s.append(name);
    s.append("\nversion: 0.1.0\nkind: ");
    s.append(kind);
    s.append("\n");
    let ghost head = s@;
    match model_file {
        Some(f) => {
            let mut line = "model: ".to_owned();
            line.append(f);
            line.append("\n");
            s.append(line.as_str());
        },
        None => {
            assert(head + Seq::<char>::empty() =~= head);
        },
    }
    s.append("capabilities: ");
    s.append(list.as_str());
    s.append("\ninput:\n  type: ");
    s.append(data);
    s.append("\noutput:\n  type: ");
    s.append(data);
    s.append("\nauthor: local\ncreated: ");
    s.append(text::u64_text(now).as_str());
    s.append("\n---\n\n# ");
    s.append(name);
    s.append("\n\nAuto-generated skill.\n");
    s
}

/// A model in a notebook cell.
#[derive(Debug, PartialEq, Eq)]
pub struct CellModel {
    pub cell_id: String,
    pub board_id: String,
    pub model_id: String,
    pub model_name: String,
    pub model_kind: String,
    pub file_id: Option<String>,
    pub capabilities: Vec<String>,
    pub skill_md: Option<String>,
    pub model_path: String,
    pub loaded: bool,
}

/// What the description of a model says.
#[derive(Debug, PartialEq, Eq)]
pub struct Skill {
    pub name: String,
    pub version: Option<String>,
    pub author: Option<String>,
    pub kind: String,
    pub capabilities: Vec<String>,
}

/// A model as it is registered.
#[derive(Debug, PartialEq, Eq)]
pub struct ModelRecord {
    pub id: String,
    pub board_id: String,
    pub name: String,
    pub version: String,
    pub kind: String,
    pub capabilities: Vec<String>,
    pub skill_md: String,
    pub model_hash: String,
    pub file_id: Option<String>,
    pub author: String,
    pub created_at: i64,
    pub updated_at: i64,
}

/// Whether a record registers a model by its description; a version and an author that it does not
/// name have defaults.
pub open spec fn records(
    r: ModelRecord,
    skill: Skill,
    id: String,
    board_id: String,
    file_id: String,
    description: String,
    model_hash: String,
    now: i64,
) -> bool {
    &&& r.id == id
    &&& r.board_id == board_id
    &&& r.name == skill.name
    &&& r.version@ == (match skill.version {
        Some(v) => v@,
        None => "0.1.0"@,
    })
    &&& r.kind == skill.kind
    &&& r.capabilities@ == skill.capabilities@
    &&& r.skill_md == description
    &&& r.model_hash == model_hash
    &&& r.file_id == Some(file_id)
    &&& r.author@ == (match skill.author {
        Some(a) => a@,
        None => "local"@,
    })
    &&& r.created_at == now
    &&& r.updated_at == now
}

/// Makes the record of a model.
pub fn make_record(
    skill: &Skill,
    id: &String,
    board_id: &String,
    file_id: &String,
    skill_md: &String,
    model_hash: String,
    now: i64,
) -> (r: ModelRecord)
    ensures
        records(r, *skill, *id, *board_id, *file_id, *skill_md, model_hash, now),
{
    let version = match &skill.version {
        Some(v) => v.clone(),
        None => "0.1.0".to_owned(),
    };
    let author = match &skill.author {
        Some(a) => a.clone(),
        None => "local".to_owned(),
    };
    ModelRecord {
        id: id.clone(),
        board_id: board_id.clone(),
        name: skill.name.clone(),
        version,
        kind: skill.kind.clone(),
        capabilities: collections::clone_texts(&skill.capabilities),
        skill_md: skill_md.clone(),
        model_hash,
        file_id: Some(file_id.clone()),
        author,
        created_at: now,
        updated_at: now,
    }
}

/// A model file that has been copied into the store.
pub struct StoredModel {
    pub name: String,
    pub hash: String,
    pub size: u64,
    pub local_path: String,
}

/// The file of an imported model: how it is stored, and the description that is generated for it.
pub struct ModelImport {
    pub file_id: String,
    /// Executed whether or not the description can be read.
    pub statement: Statement,
    pub skill_md: String,
}

/// Whether a statement stores the file of a model, which came from no peer.
pub open spec fn stores_model(
    s: Statement,
    file_id: String,
    group_id: String,
    workspace_id: String,
    board_id: String,
    model: StoredModel,
    now: i64,
) -> bool {
    &&& s matches Statement::InsertFile(f, how)
    &&& how == OnConflict::Replace
    &&& f.id == file_id
    &&& f.group_id == Some(group_id)
    &&& f.workspace_id == Some(workspace_id)
    &&& f.board_id == Some(board_id)
    &&& f.name == model.name
    &&& f.hash == model.hash
    &&& f.size == model.size as i64
    &&& f.source_peer@ == Seq::<char>::empty()
    &&& f.local_path == Some(model.local_path)
    &&& f.created_at == now
}

/// Plans the import of a model into a board: a file row and a description. `place` is the group and
/// the workspace of the board, where it was found.
pub fn plan_model_import(
    place: Option<(String, String)>,
    board_id: &String,
    model: &StoredModel,
    model_kind: &str,
    now: i64,
    clock: u64,
) -> (r: Result<ModelImport, String>)
    ensures
        match place {
            None => r matches Err(e) && e@ == "Board not found"@,
            Some((group_id, workspace_id)) => {
                &&& r matches Ok(import)
                &&& import.file_id@ == ids::named_file_id(group_id@, model.name@, now as int)
                &&& stores_model(
                    import.statement,
                    import.file_id,
                    group_id,
                    workspace_id,
                    *board_id,
                    *model,
                    now,
                )
                &&& import.skill_md@ == skill_md(
                    model.name@,
                    model_kind@,
                    Some(model.name@),
                    clock,
                )
            },
        },
{
    match place {
        None => Err("Board not found".to_owned()),
        Some((group_id, workspace_id)) => {
            let file_id = ids::new_named_file_id(group_id.as_str(), model.name.as_str(), now);
            let record = FileRecord {
                id: file_id.clone(),
                group_id: Some(group_id),
                workspace_id: Some(workspace_id),
                board_id: Some(board_id.clone()),
                name: model.name.clone(),
                hash: model.hash.clone(),
                size: #[verifier::truncate] (model.size as i64),
                source_peer: String::new(),
                local_path: Some(model.local_path.clone()),
                created_at: now,
            };
            let skill_md = generate_skill_md(
                model.name.as_str(),
                model_kind,
                Some(model.name.as_str()),
                clock,
            );
            let statement = Statement::InsertFile(record, OnConflict::Replace);
            Ok(ModelImport { file_id, statement, skill_md })
        },
    }
}

/// An imported model whose description was read: its record, the name of the model in the board's
/// metadata, and the model of the cell.
pub struct DescribedModel {
    pub record: ModelRecord,
    pub statement: Statement,
    pub cell: CellModel,
}

/// Finishes the import of a model. `skill` is what reading the description gave: where it could not
/// be read, the import fails, and neither the board nor the cell gets the model.
pub fn finish_model_import(
    import: &ModelImport,
    model: &StoredModel,
    model_kind: &String,
    model_id: &String,
    cell_id: &String,
    board_id: &String,
    skill: Result<Skill, String>,
    now: i64,
) -> (r: Result<DescribedModel, String>)
    ensures
        match skill {
            Err(m) => r matches Err(e) && e@ == "Skill parse failed: "@ + m@,
            Ok(skill) => {
                &&& r matches Ok(d)
                &&& records(
                    d.record,
                    skill,
                    *model_id,
                    *board_id,
                    import.file_id,
                    import.skill_md,
                    model.hash,
                    now,
                )
                &&& d.statement == (Statement::SetModel {
                    board_id: *board_id,
                    model: Some(model.name),
                })
                &&& d.cell.cell_id == *cell_id
                &&& d.cell.board_id == *board_id
                &&& d.cell.model_id == *model_id
                &&& d.cell.model_name == model.name
                &&& d.cell.model_kind == *model_kind
                &&& d.cell.file_id == Some(import.file_id)
                &&& d.cell.capabilities@ == skill.capabilities@
                &&& d.cell.skill_md == Some(import.skill_md)
                &&& d.cell.model_path == model.local_path
                &&& !d.cell.loaded
            },
        },
{
    match skill {
        Err(m) => {
            let mut e = "Skill parse failed: ".to_owned();
            e.append(m.as_str());
            Err(e)
        },
        Ok(skill) => {
            let record = make_record(
                &skill,
                model_id,
                board_id,
                &import.file_id,
                &import.skill_md,
                model.hash.clone(),
                now,
            );
            let statement = Statement::SetModel {
                board_id: board_id.clone(),
                model: Some(model.name.clone()),
            };
            let cell = CellModel {
                cell_id: cell_id.clone(),
                board_id: board_id.clone(),
                model_id: model_id.clone(),
                model_name: model.name.clone(),
                model_kind: model_kind.clone(),
                file_id: Some(import.file_id.clone()),
                capabilities: collections::clone_texts(&skill.capabilities),
                skill_md: Some(import.skill_md.clone()),
                model_path: model.local_path.clone(),
                loaded: false,
            };
            Ok(DescribedModel { record, statement, cell })
        },
    }
}

/// Whether a summary is about a model.
pub open spec fn summarizes(s: ModelSummary, m: CellModel) -> bool {
    &&& s.id == m.model_id
    &&& s.name == m.model_name
    &&& s.kind == m.model_kind
    &&& s.capabilities@ == m.capabilities@
    &&& s.board_id == m.board_id
    &&& s.cell_id == m.cell_id
    &&& s.file_id == m.file_id
}

/// Whether a model of a cell is what a record says.
pub open spec fn adopts(
    m: CellModel,
    record: ModelRecord,
    cell_id: String,
    board_id: String,
    path: String,
) -> bool {
    &&& m.cell_id == cell_id
    &&& m.board_id == board_id
    &&& m.model_id == record.id
    &&& m.model_name == record.name
    &&& m.model_kind == record.kind
    &&& m.file_id == record.file_id
    &&& m.capabilities@ == record.capabilities@
    &&& m.skill_md == Some(record.skill_md)
    &&& m.model_path == path
    &&& !m.loaded
}

/// What `base64::engine::general_purpose::STANDARD` decodes a text to, or the message with which it
/// refuses the text.
pub uninterp spec fn base64_decoded(text: Seq<char>) -> Result<Seq<u8>, Seq<char>>;

/// Calls `decode` of `base64::engine::general_purpose::STANDARD`. What it gives, bytes or an error
/// with its message, depends on the text alone.
#[verifier::external_body]
pub(crate) fn base64_decode(text: &str) -> (r: Result<Vec<u8>, String>)
    ensures
        match r {
            Ok(bytes) => base64_decoded(text@) == Ok::<Seq<u8>, Seq<char>>(bytes@),
            Err(e) => base64_decoded(text@) == Err::<Seq<u8>, Seq<char>>(e@),
        },
{
    base64::Engine::decode(&base64::engine::general_purpose::STANDARD, text).map_err(|e| e.to_string())
}

/// The picture to turn into a diagram, given what decoding it gave.
pub fn picture_bytes(initialized: bool, decoded: Result<Vec<u8>, String>) -> (r: Result<
    Vec<u8>,
    String,
>)
    ensures
        if !initialized {
            r matches Err(e) && e@ == "Not initialized"@
        } else {
            match decoded {
                Ok(bytes) => r == Ok::<Vec<u8>, String>(bytes),
                Err(m) => r matches Err(e) && e@ == "Invalid base64: "@ + m@,
            }
        },
{
    if !initialized {
        return Err("Not initialized".to_owned());
    }
    match decoded {
        Ok(bytes) => Ok(bytes),
        Err(m) => {
            let mut e = "Invalid base64: ".to_owned();
            e.append(m.as_str());
            Err(e)
        },
    }
}

/// The model whose directory is missing, of the three that are needed: the first.
pub fn missing_model(sketch: bool, ocr: bool, lens: bool) -> (r: Option<&'static str>)
    ensures
        match r {
            Some(name) => name@ == if !sketch {
                "YOLO (cyan-sketch)"@
            } else if !ocr {
                "OCR (paddleocr)"@
            } else {
                "Phi (cyan-lens)"@
            },
            None => true,
        },
        r is None <==> sketch && ocr && lens,
{
    if !sketch {
        Some("YOLO (cyan-sketch)")
    } else if !ocr {
        Some("OCR (paddleocr)")
    } else if !lens {
        Some("Phi (cyan-lens)")
    } else {
        None
    }
}

/// The state of the analyst.
pub struct AIBridge {
    pub event_buffer: VecDeque<AIIntegrationEvent>,
    pub insight_queue: VecDeque<ProactiveInsight>,
    pub proactive_enabled: bool,
    pub initialized: bool,
    pub lens_ready: bool,
    pub analyst_model: Option<String>,
    pub sql_model: Option<String>,
    pub db_path: Option<String>,
    pub cell_models: TextMap<CellModel>,
    pub pending_plans: TextMap<PendingPlan>,
}

impl AIBridge {
    pub open spec fn wf(&self) -> bool {
        &&& self.event_buffer@.len() <= EVENT_BUFFER_SIZE
        &&& self.cell_models.wf()
        &&& self.pending_plans.wf()
    }

    /// Whether nothing but the queue of insights differs.
    pub open spec fn same_but_insights(&self, other: &Self) -> bool {
        &&& self.event_buffer == other.event_buffer
        &&& self.proactive_enabled == other.proactive_enabled
        &&& self.initialized == other.initialized
        &&& self.lens_ready == other.lens_ready
        &&& self.analyst_model == other.analyst_model
        &&& self.sql_model == other.sql_model
        &&& self.db_path == other.db_path
        &&& self.cell_models == other.cell_models
        &&& self.pending_plans == other.pending_plans
    }

    /// Whether nothing but the plans that wait differs.
    pub open spec fn same_but_plans(&self, other: &Self) -> bool {
        &&& self.event_buffer == other.event_buffer
        &&& self.insight_queue == other.insight_queue
        &&& self.proactive_enabled == other.proactive_enabled
        &&& self.initialized == other.initialized
        &&& self.lens_ready == other.lens_ready
        &&& self.analyst_model == other.analyst_model
        &&& self.sql_model == other.sql_model
        &&& self.db_path == other.db_path
        &&& self.cell_models == other.cell_models
    }

    /// Whether nothing but the models of cells differs.
    pub open spec fn same_but_models(&self, other: &Self) -> bool {
        &&& self.event_buffer == other.event_buffer
        &&& self.insight_queue == other.insight_queue
        &&& self.proactive_enabled == other.proactive_enabled
        &&& self.initialized == other.initialized
        &&& self.lens_ready == other.lens_ready
        &&& self.analyst_model == other.analyst_model
        &&& self.sql_model == other.sql_model
        &&& self.db_path == other.db_path
        &&& self.pending_plans == other.pending_plans
    }

    /// Nothing is loaded and nothing has happened.
    pub fn new() -> (r: Self)
        ensures
            r.wf(),
            r.event_buffer@ == Seq::<AIIntegrationEvent>::empty(),
            r.insight_queue@ == Seq::<ProactiveInsight>::empty(),
            !r.proactive_enabled,
            !r.initialized,
            !r.lens_ready,
            r.analyst_model is None,
            r.sql_model is None,
            r.db_path is None,
            r.cell_models@ == Map::<Seq<char>, CellModel>::empty(),
            r.pending_plans@ == Map::<Seq<char>, PendingPlan>::empty(),
    {
        AIBridge {
            event_buffer: VecDeque::new(),
            insight_queue: VecDeque::new(),
            proactive_enabled: false,
            initialized: false,
            lens_ready: false,
            analyst_model: None,
            sql_model: None,
            db_path: None,
            cell_models: TextMap::new(),
            pending_plans: TextMap::new(),
        }
    }

    /// The models are loaded; the one for queries may be missing.
    pub fn models_loaded(&mut self, analyst: String, sql: Option<String>)
        requires
            old(self).wf(),
        ensures
            final(self).wf(),
            final(self).initialized,
            final(self).lens_ready,
            final(self).analyst_model == Some(analyst),
            final(self).sql_model == (if sql is Some {
                sql
            } else {
                old(self).sql_model
            }),
            final(self).event_buffer == old(self).event_buffer,
            final(self).insight_queue == old(self).insight_queue,
            final(self).proactive_enabled == old(self).proactive_enabled,
            final(self).db_path == old(self).db_path,
            final(self).cell_models == old(self).cell_models,
            final(self).pending_plans == old(self).pending_plans,
    {
        self.analyst_model = Some(analyst);
        match sql {
            Some(name) => {
                self.sql_model = Some(name);
            },
            None => {},
        }
        self.initialized = true;
        self.lens_ready = true;
    }

    /// Sets where searches look.
    pub fn set_cyan_db_path(&mut self, path: String)
        requires
            old(self).wf(),
        ensures
            final(self).wf(),
            final(self).db_path == Some(path),
            final(self).lens_ready,
            final(self).event_buffer == old(self).event_buffer,
            final(self).insight_queue == old(self).insight_queue,
            final(self).proactive_enabled == old(self).proactive_enabled,
            final(self).initialized == old(self).initialized,
            final(self).analyst_model == old(self).analyst_model,
            final(self).sql_model == old(self).sql_model,
            final(self).cell_models == old(self).cell_models,
            final(self).pending_plans == old(self).pending_plans,
    {
        self.db_path = Some(path);
        self.lens_ready = true;
    }

    /// Remembers an event.
    pub fn feed_event(&mut self, event: AIIntegrationEvent)
        requires
            old(self).wf(),
        ensures
            final(self).wf(),
            final(self).event_buffer@ == fed(old(self).event_buffer@, event),
            final(self).insight_queue == old(self).insight_queue,
            final(self).proactive_enabled == old(self).proactive_enabled,
            final(self).initialized == old(self).initialized,
            final(self).lens_ready == old(self).lens_ready,
            final(self).analyst_model == old(self).analyst_model,
            final(self).sql_model == old(self).sql_model,
            final(self).db_path == old(self).db_path,
            final(self).cell_models == old(self).cell_models,
            final(self).pending_plans == old(self).pending_plans,
    {
        if self.event_buffer.len() >= EVENT_BUFFER_SIZE {
            let ghost before = self.event_buffer@;
            self.event_buffer.pop_front();
            assert(self.event_buffer@ =~= before.skip(1));
        }
        self.event_buffer.push_back(event);
    }

    /// Looks for an insight, where that is wanted and the models are loaded; one that is found is
    /// put at the end of the queue. Whether one was found.
    pub fn tick(&mut self, now: i64, id: String) -> (r: bool)
        requires
            old(self).wf(),
            old(self).proactive_enabled && old(self).initialized ==> forall|i: int|
                0 <= i < old(self).event_buffer@.len() ==> datable(
                    #[trigger] old(self).event_buffer@[i],
                    now,
                ),
        ensures
            final(self).wf(),
            final(self).same_but_insights(old(self)),
            r == (old(self).proactive_enabled && old(self).initialized && exists|i: int|
                0 <= i < old(self).event_buffer@.len() && is_stale(
                    #[trigger] old(self).event_buffer@[i],
                    now,
                )),
            if r {
                &&& final(self).insight_queue@.len() == old(self).insight_queue@.len() + 1
                &&& final(self).insight_queue@.drop_last() == old(self).insight_queue@
                &&& final(self).insight_queue@.last().id == id
                &&& exists|w: int| #[trigger]
                    is_worst(old(self).event_buffer@, now, w) && tells_of(
                        final(self).insight_queue@.last(),
                        old(self).event_buffer@[w],
                        now,
                    )
            } else {
                final(self).insight_queue@ == old(self).insight_queue@
            },
    {
        if !self.proactive_enabled || !self.initialized {
            return false;
        }
        match generate_insight(&self.event_buffer, now, id) {
            Some(insight) => {
                let ghost before = self.insight_queue@;
                self.insight_queue.push_back(insight);
                assert(self.insight_queue@.drop_last() =~= before);
                true
            },
            None => false,
        }
    }

    /// Takes the oldest insight.
    pub fn poll_insights(&mut self) -> (r: Option<ProactiveInsight>)
        requires
            old(self).wf(),
        ensures
            final(self).wf(),
            final(self).same_but_insights(old(self)),
            match r {
                Some(insight) => old(self).insight_queue@ == seq![insight]
                    + final(self).insight_queue@,
                None => old(self).insight_queue@.len() == 0 && final(self).insight_queue@.len() == 0,
            },
    {
        let ghost before = self.insight_queue@;
        let r = self.insight_queue.pop_front();
        assert(r matches Some(insight) ==> before =~= seq![insight] + self.insight_queue@);
        r
    }

    /// Decodes the picture of a request.
    pub fn read_picture(&self, image_base64: &str) -> (r: Result<Vec<u8>, String>)
        ensures
            if !self.initialized {
                r matches Err(e) && e@ == "Not initialized"@
            } else {
                match base64_decoded(image_base64@) {
                    Ok(bytes) => r matches Ok(b) && b@ == bytes,
                    Err(m) => r matches Err(e) && e@ == "Invalid base64: "@ + m,
                }
            },
    {
        picture_bytes(self.initialized, base64_decode(image_base64))
    }

    /// Prepares a question to the analyst.
    pub fn plan_analysis(&self, question: &str, now: i64) -> (r: Result<ModelRun, String>)
        requires
            self.initialized ==> forall|i: int|
                0 <= i < self.event_buffer@.len() && i < 20 ==> datable(
                    #[trigger] self.event_buffer@[i],
                    now,
                ),
        ensures
            if !self.initialized {
                r matches Err(e) && e@ == "Not initialized"@
            } else {
                match self.analyst_model {
                    None => r matches Err(e) && e@ == "Analyst not available"@,
                    Some(model) => r matches Ok(run) && run.model == model && run.prompt@
                        == analyst_prompt(context_text(self.event_buffer@, now), question@),
                }
            },
    {
        if !self.initialized {
            return Err("Not initialized".to_owned());
        }
        let context = build_context(&self.event_buffer, now);
        match &self.analyst_model {
            None => Err("Analyst not available".to_owned()),
            Some(model) => {
                let mut prompt =
                    "<|user|>\nYou are a design analyst. Analyze project activity and answer concisely.\n\n## Activity\n".to_owned();
                prompt.append(context.as_str());
                prompt.append("\n\n## Question\n");
                prompt.append(question);
                prompt.append("\n<|end|>\n<|assistant|>\n");
                Ok(ModelRun { model: model.clone(), prompt })
            },
        }
    }

    /// The answer to a question: what the model wrote, with the first five events as citations.
    pub fn analysis(&self, reply: InferenceReply) -> (r: Result<AnalysisResult, String>)
        ensures
            match reply {
                InferenceReply::Text(content) => {
                    &&& r matches Ok(a)
                    &&& a.success
                    &&& a.response == Some(content)
                    &&& a.error is None
                    &&& a.citations matches Some(c)
                    &&& c@ == first_events(self.event_buffer@, 5).map_values(
                        |e: AIIntegrationEvent| e.anchor_id,
                    )
                },
                InferenceReply::Other => r matches Err(e) && e@ == "Unexpected output"@,
                InferenceReply::Failed(m) => r == Ok::<AnalysisResult, String>(
                    AnalysisResult {
                        success: false,
                        response: None,
                        citations: None,
                        error: Some(m),
                    },
                ),
            },
    {
        match reply {
            InferenceReply::Text(content) => {
                let mut citations: Vec<String> = Vec::new();
                let n: usize = if self.event_buffer.len() < 5 {
                    self.event_buffer.len()
                } else {
                    5
                };
                let ghost cited = first_events(self.event_buffer@, 5);
                assert(cited =~= self.event_buffer@.take(n as int));
                let mut i: usize = 0;
                while i < n
                    invariant
                        i <= n <= self.event_buffer@.len(),
                        citations@ == self.event_buffer@.take(i as int).map_values(
                            |e: AIIntegrationEvent| e.anchor_id,
                        ),
                    decreases n - i,
                {
                    citations.push(self.event_buffer[i].anchor_id.clone());
                    assert(self.event_buffer@.take(i + 1) =~= self.event_buffer@.take(
                        i as int,
                    ).push(self.event_buffer@[i as int]));
                    i = i + 1;
                }
                Ok(
                    AnalysisResult {
                        success: true,
                        response: Some(content),
                        citations: Some(citations),
                        error: None,
                    },
                )
            },
            InferenceReply::Other => Err("Unexpected output".to_owned()),
            InferenceReply::Failed(m) => Ok(
                AnalysisResult { success: false, response: None, citations: None, error: Some(m) },
            ),
        }
    }

    /// Picks the model of a search: the one for queries, or else the analyst.
    pub fn start_lens_search(&self) -> (r: Result<LensRun, String>)
        ensures
            match (self.sql_model, self.analyst_model) {
                (None, None) => r matches Err(e) && e@ == "No model loaded for lens search"@,
                (sql, analyst) => if self.db_path is None {
                    r matches Err(e) && e@ == "Cyan DB path not set"@
                } else {
                    &&& r matches Ok(run)
                    &&& run.uses_sql_model == sql is Some
                    &&& run.model == (if sql is Some {
                        sql->0
                    } else {
                        analyst->0
                    })
                    &&& run.scope@ == lens_scope(sql)
                },
            },
    {
        let run = match (&self.sql_model, &self.analyst_model) {
            (Some(name), _) => LensRun {
                uses_sql_model: true,
                model: name.clone(),
                scope: "cyan-sql".to_owned(),
            },
            (None, Some(name)) => LensRun {
                uses_sql_model: false,
                model: name.clone(),
                scope: "cyan-lens".to_owned(),
            },
            (None, None) => {
                return Err("No model loaded for lens search".to_owned());
            },
        };
        match &self.db_path {
            None => Err("Cyan DB path not set".to_owned()),
            Some(_) => Ok(run),
        }
    }

    /// Decides what a search does with what the model's answer says. A plan that needs the user's
    /// consent waits under the identifier of the request.
    pub fn finish_lens_search(
        &mut self,
        request_id: String,
        run: &LensRun,
        parsed: Result<ParsedOutput, String>,
        current_board_id: Option<String>,
        current_workspace_id: Option<String>,
    ) -> (r: Result<LensStep, String>)
        requires
            old(self).wf(),
        ensures
            final(self).wf(),
            final(self).same_but_plans(old(self)),
            match parsed {
                Err(m) => {
                    &&& r matches Err(e) && e@ == "Parse failed: "@ + m@
                    &&& final(self).pending_plans@ == old(self).pending_plans@
                },
                Ok(ParsedOutput::Sql(sql)) => {
                    &&& final(self).pending_plans@ == old(self).pending_plans@
                    &&& if old(self).lens_ready {
                        r == Ok::<LensStep, String>(LensStep::Search { sql })
                    } else {
                        r matches Err(e) && e@ == "Lens not initialized"@
                    }
                },
                Ok(ParsedOutput::Plan(plan)) => {
                    let waiting = PendingPlan {
                        source: plan.source,
                        current_board_id,
                        current_workspace_id,
                    };
                    if plan.requires_confirmation {
                        &&& final(self).pending_plans@ == old(self).pending_plans@.insert(
                            request_id@,
                            waiting,
                        )
                        &&& r matches Ok(
                            LensStep::Confirm {
                                request_id: id,
                                intent,
                                message,
                                preview,
                                specialist,
                            },
                        )
                        &&& id == request_id
                        &&& intent == plan.intent
                        &&& message@ == (match plan.confirmation {
                            Some(m) => m@,
                            None => "Execute this action?"@,
                        })
                        &&& preview == plan.preview
                        &&& specialist == run.scope
                    } else {
                        &&& final(self).pending_plans@ == old(self).pending_plans@
                        &&& r == Ok::<LensStep, String>(LensStep::Execute(waiting))
                    }
                },
            },
    {
        match parsed {
            Err(m) => {
                let mut e = "Parse failed: ".to_owned();
                e.append(m.as_str());
                Err(e)
            },
            Ok(ParsedOutput::Sql(sql)) => if self.lens_ready {
                Ok(LensStep::Search { sql })
            } else {
                Err("Lens not initialized".to_owned())
            },
            Ok(ParsedOutput::Plan(plan)) => {
                let waiting = PendingPlan {
                    source: plan.source,
                    current_board_id,
                    current_workspace_id,
                };
                if plan.requires_confirmation {
                    self.pending_plans.insert(request_id.clone(), waiting);
                    let message = match plan.confirmation {
                        Some(m) => m,
                        None => "Execute this action?".to_owned(),
                    };
                    Ok(
                        LensStep::Confirm {
                            request_id,
                            intent: plan.intent,
                            message,
                            preview: plan.preview,
                            specialist: run.scope.clone(),
                        },
                    )
                } else {
                    Ok(LensStep::Execute(waiting))
                }
            },
        }
    }

    /// Takes the user's word on a plan that waits; it waits no longer, whatever they say.
    pub fn agent_confirm(&mut self, request_id: &str, confirmed: bool) -> (r: Result<
        ConfirmStep,
        String,
    >)
        requires
            old(self).wf(),
        ensures
            final(self).wf(),
            final(self).same_but_plans(old(self)),
            final(self).pending_plans@ == old(self).pending_plans@.remove(request_id@),
            if !old(self).pending_plans@.dom().contains(request_id@) {
                r matches Err(e) && e@ == "No pending action found"@
            } else if !confirmed {
                r == Ok::<ConfirmStep, String>(ConfirmStep::Cancelled)
            } else if old(self).db_path is None {
                r matches Err(e) && e@ == "Cyan DB path not set"@
            } else {
                r == Ok::<ConfirmStep, String>(
                    ConfirmStep::Execute(old(self).pending_plans@[request_id@]),
                )
            },
    {
        match self.pending_plans.remove(request_id) {
            None => Err("No pending action found".to_owned()),
            Some(plan) => if !confirmed {
                Ok(ConfirmStep::Cancelled)
            } else {
                match &self.db_path {
                    None => Err("Cyan DB path not set".to_owned()),
                    Some(_) => Ok(ConfirmStep::Execute(plan)),
                }
            },
        }
    }

    /// The scope that feedback on a search goes to.
    pub fn feedback_scope(&self) -> (r: &'static str)
        ensures
            r@ == lens_scope(self.sql_model),
    {
        match &self.sql_model {
            Some(_) => "cyan-sql",
            None => "cyan-lens",
        }
    }

    /// Puts a model into its cell.
    pub fn register_model(&mut self, model: CellModel)
        requires
            old(self).wf(),
        ensures
            final(self).wf(),
            final(self).same_but_models(old(self)),
            final(self).cell_models@ == old(self).cell_models@.insert(model.cell_id@, model),
    {
        self.cell_models.insert(model.cell_id.clone(), model);
    }

    /// Takes the model out of a cell.
    pub fn unload_model(&mut self, cell_id: &str)
        requires
            old(self).wf(),
        ensures
            final(self).wf(),
            final(self).same_but_models(old(self)),
            final(self).cell_models@ == old(self).cell_models@.remove(cell_id@),
    {
        self.cell_models.remove(cell_id);
    }

    /// Puts the model of a record into a cell.
    pub fn adopt_record(
        &mut self,
        cell_id: &String,
        board_id: &String,
        record: &ModelRecord,
        path: String,
    )
        requires
            old(self).wf(),
        ensures
            final(self).wf(),
            final(self).same_but_models(old(self)),
            final(self).cell_models@.dom() == old(self).cell_models@.dom().insert(cell_id@),
            final(self).cell_models@.remove(cell_id@) == old(self).cell_models@.remove(cell_id@),
            adopts(final(self).cell_models@[cell_id@], *record, *cell_id, *board_id, path),
    {
        let model = CellModel {
            cell_id: cell_id.clone(),
            board_id: board_id.clone(),
            model_id: record.id.clone(),
            model_name: record.name.clone(),
            model_kind: record.kind.clone(),
            file_id: record.file_id.clone(),
            capabilities: collections::clone_texts(&record.capabilities),
            skill_md: Some(record.skill_md.clone()),
            model_path: path,
            loaded: false,
        };
        let ghost before = self.cell_models@;
        self.cell_models.insert(cell_id.clone(), model);
        proof {
            assert(self.cell_models@.dom() =~= before.dom().insert(cell_id@));
            assert(self.cell_models@.remove(cell_id@) =~= before.remove(cell_id@));
        }
    }

    /// Prepares a run of the model of a cell.
    pub fn plan_inference(&self, cell_id: &str, input: &Json) -> (r: Result<ModelRun, String>)
        requires
            self.wf(),
        ensures
            if self.cell_models@.dom().contains(cell_id@) {
                &&& r matches Ok(run)
                &&& run.model == self.cell_models@[cell_id@].model_name
                &&& run.prompt@ == input.text_or("prompt"@, Seq::empty())
            } else {
                r matches Err(e) && e@ == "Model not registered"@
            },
    {
        proof {
            reveal_strlit("");
            assert(""@ =~= Seq::empty());
        }
        match self.cell_models.get(cell_id) {
            None => Err("Model not registered".to_owned()),
            Some(m) => Ok(
                ModelRun { model: m.model_name.clone(), prompt: input.get_text("prompt", "") },
            ),
        }
    }

    /// Summarizes the models of all cells, each once.
    pub fn list_models(&self) -> (r: Vec<ModelSummary>)
        requires
            self.wf(),
        ensures
            exists|cells: Seq<Seq<char>>|
                {
                    &&& #[trigger] cells.to_set() == self.cell_models@.dom()
                    &&& cells.no_duplicates()
                    &&& r@.len() == cells.len()
                    &&& forall|i: int|
                        0 <= i < r@.len() ==> summarizes(
                            #[trigger] r@[i],
                            self.cell_models@[cells[i]],
                        )
                },
    {
        let keys = self.cell_models.keys();
        let ghost cells = collections::texts(keys@);
        let mut out: Vec<ModelSummary> = Vec::new();
        let mut i: usize = 0;
        while i < keys.len()
            invariant
                i <= keys@.len(),
                self.wf(),
                cells == collections::texts(keys@),
                cells.to_set() == self.cell_models@.dom(),
                out@.len() == i,
                forall|k: int|
                    0 <= k < i ==> summarizes(#[trigger] out@[k], self.cell_models@[cells[k]]),
            decreases keys.len() - i,
        {
            assert(cells[i as int] == keys@[i as int]@);
            assert(self.cell_models@.dom().contains(cells[i as int]));
            match self.cell_models.get(keys[i].as_str()) {
                Some(m) => {
                    out.push(
                        ModelSummary {
                            id: m.model_id.clone(),
                            name: m.model_name.clone(),
                            kind: m.model_kind.clone(),
                            capabilities: collections::clone_texts(&m.capabilities),
                            board_id: m.board_id.clone(),
                            cell_id: m.cell_id.clone(),
                            file_id: m.file_id.clone(),
                        },
                    );
                },
                None => {},
            }
            i = i + 1;
        }
        assert(cells.to_set() == self.cell_models@.dom());
        out
    }
}

/// What a model wrote for a search.
pub fn lens_text(reply: InferenceReply) -> (r: Result<String, String>)
    ensures
        match reply {
            InferenceReply::Text(content) => r == Ok::<String, String>(content),
            InferenceReply::Other => r matches Err(e) && e@ == "Unexpected output type"@,
            InferenceReply::Failed(m) => r matches Err(e) && e@ == "Inference failed: "@ + m@,
        },
{
    match reply {
        InferenceReply::Text(content) => Ok(content),
        InferenceReply::Other => Err("Unexpected output type".to_owned()),
        InferenceReply::Failed(m) => {
            let mut e = "Inference failed: ".to_owned();
            e.append(m.as_str());
            Err(e)
        },
    }
}

/// A plan is carried out or cancelled once: after the user's word it does not wait any more, and the
/// other plans do as before.
pub proof fn a_plan_waits_once(
    plans: Map<Seq<char>, PendingPlan>,
    request_id: Seq<char>,
    other: Seq<char>,
)
    requires
        request_id != other,
    ensures
        !plans.remove(request_id).dom().contains(request_id),
        plans.remove(request_id).dom().contains(other) == plans.dom().contains(other),
        plans.dom().contains(other) ==> plans.remove(request_id)[other] == plans[other],
{
}

} // verus!
