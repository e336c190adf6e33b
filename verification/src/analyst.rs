//! What the analyst remembers, says and is asked, and what becomes of its plans and models.

use crate::ai_bridge;
use crate::ai_bridge::{
    AIBridge, AIIntegrationEvent, AnalysisResult, CellModel, ConfirmStep, DescribedModel,
    InferenceReply, LensCorrection, LensRun, LensStep, ModelImport, ModelRecord, ModelRun,
    ModelSummary, ParsedOutput, PendingPlan, ProactiveInsight, Section, Skill, StoredModel,
};
use crate::hash;
use crate::json;
use crate::json::Json;
use crate::strings;
use crate::tables::{ObjectRow, Tables};
use crate::text;
use std::collections::VecDeque;
use vstd::prelude::*;
use vstd::string::*;

verus! {

/// The analyst remembers events in the order in which they came, the newest five hundred of them.
pub proof fn the_newest_events_are_remembered(ai: &mut AIBridge, event: AIIntegrationEvent)
    requires
        call_ensures(AIBridge::feed_event, (ai, event), ()),
    ensures
        final(ai).event_buffer@.last() == event,
        old(ai).event_buffer@.len() < 500 ==> final(ai).event_buffer@ == old(
            ai,
        ).event_buffer@.push(event),
        old(ai).event_buffer@.len() == 500 ==> final(ai).event_buffer@ == old(
            ai,
        ).event_buffer@.drop_first().push(event),
        final(ai).insight_queue@ == old(ai).insight_queue@,
        final(ai).pending_plans@ == old(ai).pending_plans@,
        final(ai).cell_models@ == old(ai).cell_models@,
{
    if old(ai).event_buffer@.len() == 500 {
        assert(old(ai).event_buffer@.skip(1) =~= old(ai).event_buffer@.drop_first());
    }
}

/// Whether a number is the whole days from one time to a later one.
pub open spec fn is_days(then: i64, now: i64, days: int) -> bool {
    &&& now >= then ==> 86400 * days <= now - then < 86400 * (days + 1)
    &&& now < then ==> 86400 * -days <= then - now < 86400 * (-days + 1)
}

/// What is said of one event: how it is known, what it is, how often and how long ago it was
/// mentioned.
pub open spec fn line_about(event: AIIntegrationEvent, days: int) -> Seq<char> {
    "- "@ + event.anchor_ref@ + " ("@ + event.anchor_kind@ + "): "@ + text::decimal(
        event.mention_count as nat,
    ) + " mentions, "@ + text::int_text(days) + "d ago"@
}

proof fn lemma_days(then: i64, now: i64)
    ensures
        is_days(then, now, ai_bridge::days_between(then, now)),
{
}

proof fn lemma_line_at(events: Seq<AIIntegrationEvent>, now: i64, i: int) -> (r: (
    Seq<char>,
    Seq<char>,
))
    requires
        0 <= i < events.len(),
    ensures
        ai_bridge::context_lines(events, now) == r.0 + ai_bridge::context_line(events[i], now)
            + r.1,
        i == 0 ==> r.0.len() == 0,
        i > 0 ==> r.0.len() > 0 && r.0.last() == '\n',
        i == events.len() - 1 ==> r.1.len() == 0,
        i < events.len() - 1 ==> r.1.len() > 0 && r.1[0] == '\n',
    decreases events.len(),
{
    reveal_strlit("\n");
    let rest = events.drop_last();
    let line = ai_bridge::context_line(events[i], now);
    let none = Seq::<char>::empty();
    if events.len() == 1 {
        assert(line =~= none + line + none);
        (none, none)
    } else if i == events.len() - 1 {
        let before = ai_bridge::context_lines(rest, now) + "\n"@;
        assert(before + line =~= before + line + none);
        (before, none)
    } else {
        assert(rest[i] == events[i]);
        let (a, b) = lemma_line_at(rest, now, i);
        let last = ai_bridge::context_line(events.last(), now);
        assert((a + line + b) + "\n"@ + last =~= a + line + (b + "\n"@ + last));
        (a, b + "\n"@ + last)
    }
}

/// Whether a text has a line of its own among others.
pub open spec fn has_line(s: Seq<char>, line: Seq<char>, is_first: bool, is_last: bool) -> bool {
    exists|a: Seq<char>, b: Seq<char>|
        {
            &&& s == #[trigger] (a + line + b)
            &&& if is_first {
                a.len() == 0
            } else {
                a.len() > 0 && a.last() == '\n'
            }
            &&& if is_last {
                b.len() == 0
            } else {
                b.len() > 0 && b[0] == '\n'
            }
        }
}

/// The analyst is told of the first twenty events, each in a line of its own, in order; where there
/// is none it is told so.
pub proof fn the_first_events_are_told(
    events: &VecDeque<AIIntegrationEvent>,
    now: i64,
    r: String,
    i: int,
) -> (days: int)
    requires
        call_ensures(ai_bridge::build_context, (events, now), r),
    ensures
        events@.len() == 0 ==> r@ == "(No activity)"@,
        0 <= i < events@.len() && i < 20 ==> {
            &&& is_days(events@[i].last_mention, now, days)
            &&& has_line(
                r@,
                line_about(events@[i], days),
                i == 0,
                i == events@.len() - 1 || i == 19,
            )
        },
{
    if 0 <= i < events@.len() && i < 20 {
        let first = ai_bridge::first_events(events@, 20);
        let days = ai_bridge::days_between(events@[i].last_mention, now);
        lemma_days(events@[i].last_mention, now);
        assert(first[i] == events@[i]);
        let (a, b) = lemma_line_at(first, now, i);
        assert(r@ == a + line_about(events@[i], days) + b);
        days
    } else {
        0
    }
}

/// Whether an event was mentioned more than fifty times and not for more than fourteen days.
pub open spec fn is_neglected(event: AIIntegrationEvent, now: i64) -> bool {
    &&& event.mention_count > 50
    &&& now - event.last_mention > 1209600
}

/// A remark is made exactly where something is neglected.
pub proof fn neglect_is_remarked(
    events: &VecDeque<AIIntegrationEvent>,
    now: i64,
    id: String,
    r: Option<ProactiveInsight>,
)
    requires
        call_ensures(ai_bridge::generate_insight, (events, now, id), r),
    ensures
        r is Some <==> exists|i: int|
            0 <= i < events@.len() && #[trigger] is_neglected(events@[i], now),
{
    lemma_stale(events@, now);
}

proof fn lemma_stale(events: Seq<AIIntegrationEvent>, now: i64)
    ensures
        ai_bridge::any_stale(events, now) <==> exists|i: int|
            0 <= i < events.len() && #[trigger] is_neglected(events[i], now),
{
    if ai_bridge::any_stale(events, now) {
        let i = choose|i: int|
            0 <= i < events.len() && ai_bridge::is_stale(#[trigger] events[i], now);
        assert(is_neglected(events[i], now));
    }
    if exists|i: int| 0 <= i < events.len() && #[trigger] is_neglected(events[i], now) {
        let i = choose|i: int| 0 <= i < events.len() && #[trigger] is_neglected(events[i], now);
        assert(ai_bridge::is_stale(events[i], now));
    }
}

/// A remark is about one of the neglected things that were mentioned most. It says how often that
/// was and for how long it was not, and is critical after thirty days.
pub proof fn the_most_mentioned_is_remarked(
    events: &VecDeque<AIIntegrationEvent>,
    now: i64,
    id: String,
    insight: ProactiveInsight,
) -> (res: (int, int))
    requires
        call_ensures(ai_bridge::generate_insight, (events, now, id), Some(insight)),
    ensures
        ({
            let (w, days) = res;
            let e = events@[w];
            &&& 0 <= w < events@.len()
            &&& is_neglected(e, now)
            &&& forall|i: int|
                0 <= i < events@.len() && #[trigger] is_neglected(events@[i], now)
                    ==> events@[i].mention_count <= e.mention_count
            &&& is_days(e.last_mention, now, days)
            &&& insight.id == id
            &&& insight.message@ == "⚠️ "@ + e.anchor_ref@ + " has "@ + text::decimal(
                e.mention_count as nat,
            ) + " mentions but no activity in "@ + text::int_text(days) + " days"@
            &&& days > 30 ==> insight.severity@ == "critical"@
            &&& days <= 30 ==> insight.severity@ == "warning"@
            &&& insight.anchor_ids@ == seq![e.anchor_id]
            &&& insight.timestamp == now
        }),
{
    let w = choose|w: int| #[trigger]
        ai_bridge::is_worst(events@, now, w) && ai_bridge::tells_of(insight, events@[w], now);
    lemma_days(events@[w].last_mention, now);
    assert(is_neglected(events@[w], now));
    assert forall|i: int|
        0 <= i < events@.len() && #[trigger] is_neglected(
            events@[i],
            now,
        ) implies events@[i].mention_count <= events@[w].mention_count by {
        assert(ai_bridge::is_stale(events@[i], now));
    }
    (w, ai_bridge::days_between(events@[w].last_mention, now))
}

/// The analyst looks for something to remark only where that is wanted and it can; what it finds
/// waits behind what it found before, and the oldest remark is read first.
pub proof fn remarks_wait_in_order(
    ticked: &mut AIBridge,
    polled: &mut AIBridge,
    now: i64,
    id: String,
    found: bool,
    r: Option<ProactiveInsight>,
)
    requires
        call_ensures(AIBridge::tick, (ticked, now, id), found),
        call_ensures(AIBridge::poll_insights, (polled,), r),
    ensures
        found <==> old(ticked).proactive_enabled && old(ticked).initialized && exists|i: int|
            0 <= i < old(ticked).event_buffer@.len() && is_neglected(
                #[trigger] old(ticked).event_buffer@[i],
                now,
            ),
        !found ==> final(ticked).insight_queue@ == old(ticked).insight_queue@,
        found ==> final(ticked).insight_queue@.len() == old(ticked).insight_queue@.len() + 1
            && final(ticked).insight_queue@.drop_last() == old(ticked).insight_queue@
            && final(ticked).insight_queue@.last().id == id
            && final(ticked).insight_queue@.last().timestamp == now,
        final(ticked).event_buffer@ == old(ticked).event_buffer@,
        r is None <==> old(polled).insight_queue@.len() == 0,
        r is Some ==> old(polled).insight_queue@[0] == r->0 && old(
            polled,
        ).insight_queue@.drop_first() == final(polled).insight_queue@,
{
    let events = old(ticked).event_buffer@;
    assert forall|i: int| 0 <= i < events.len() implies ai_bridge::is_stale(
        #[trigger] events[i],
        now,
    ) == is_neglected(events[i], now) by {}
    if exists|i: int| 0 <= i < events.len() && is_neglected(#[trigger] events[i], now) {
        let i = choose|i: int| 0 <= i < events.len() && is_neglected(#[trigger] events[i], now);
        assert(ai_bridge::is_stale(events[i], now));
    }
    if exists|i: int| 0 <= i < events.len() && ai_bridge::is_stale(#[trigger] events[i], now) {
        let i = choose|i: int|
            0 <= i < events.len() && ai_bridge::is_stale(#[trigger] events[i], now);
        assert(is_neglected(events[i], now));
    }
    if r is Some {
        assert(old(polled).insight_queue@.drop_first() =~= final(polled).insight_queue@);
    }
}

/// A question goes to the analyst's own model, word for word and behind what is known of the
/// project; without a model it is refused.
pub proof fn a_question_is_put_as_asked(
    ai: &AIBridge,
    question: &str,
    now: i64,
    context: String,
    r: Result<ModelRun, String>,
)
    requires
        call_ensures(AIBridge::plan_analysis, (ai, question, now), r),
        call_ensures(ai_bridge::build_context, (&ai.event_buffer, now), context),
    ensures
        r is Ok <==> ai.initialized && ai.analyst_model is Some,
        !ai.initialized ==> r is Err && r->Err_0@ == "Not initialized"@,
        ai.initialized && ai.analyst_model is None ==> r is Err && r->Err_0@
            == "Analyst not available"@,
        r matches Ok(run) ==> Some(run.model) == ai.analyst_model && exists|
            a: Seq<char>,
            b: Seq<char>,
            c: Seq<char>,
        | run.prompt@ == #[trigger] (a + context@ + b + question@ + c),
{
    if r is Ok {
        assert((r->Ok_0).prompt@
            == "<|user|>\nYou are a design analyst. Analyze project activity and answer concisely.\n\n## Activity\n"@
            + context@ + "\n\n## Question\n"@ + question@ + "\n<|end|>\n<|assistant|>\n"@);
    }
}

/// An answer of the analyst is what its model wrote, with the first five events as its sources; a
/// failure is told as one.
pub proof fn an_answer_names_its_sources(
    ai: &AIBridge,
    reply: InferenceReply,
    r: Result<AnalysisResult, String>,
    i: int,
)
    requires
        call_ensures(AIBridge::analysis, (ai, reply), r),
    ensures
        r is Err <==> reply is Other,
        r matches Ok(a) ==> (a.success <==> reply is Text),
        reply matches InferenceReply::Text(content) ==> ({
            let a = r->Ok_0;
            &&& a.response == Some(content)
            &&& a.error is None
            &&& a.citations is Some
            &&& a.citations->0@.len() == (if ai.event_buffer@.len() < 5 {
                ai.event_buffer@.len() as int
            } else {
                5
            })
            &&& 0 <= i < a.citations->0@.len() ==> a.citations->0@[i]
                == ai.event_buffer@[i].anchor_id
        }),
        reply matches InferenceReply::Failed(m) ==> r is Ok && (r->Ok_0).error == Some(m)
            && (r->Ok_0).response is None && (r->Ok_0).citations is None,
{
}

proof fn lemma_bullet_at(bullets: Seq<String>, i: int) -> (r: (Seq<char>, Seq<char>))
    requires
        0 <= i < bullets.len(),
    ensures
        ai_bridge::bullet_lines(bullets) == r.0 + ("- "@ + bullets[i]@ + "\n"@) + r.1,
    decreases bullets.len(),
{
    let line = "- "@ + bullets[i]@ + "\n"@;
    if i == bullets.len() - 1 {
        let before = ai_bridge::bullet_lines(bullets.drop_last());
        assert(before + line =~= before + line + Seq::empty());
        (before, Seq::empty())
    } else {
        assert(bullets.drop_last()[i] == bullets[i]);
        let (a, b) = lemma_bullet_at(bullets.drop_last(), i);
        let last = "- "@ + bullets.last()@ + "\n"@;
        assert(a + line + b + last =~= a + line + (b + last));
        (a, b + last)
    }
}

/// A search puts what was learned, each in a line of its own, before what is asked for.
pub proof fn a_search_uses_what_was_learned(
    query: &str,
    bullets: &Vec<String>,
    r: String,
    i: int,
)
    requires
        call_ensures(ai_bridge::build_sql_prompt, (query, bullets), r),
        0 <= i < bullets@.len(),
    ensures
        exists|a: Seq<char>, b: Seq<char>|
            r@ == #[trigger] (a + ("- "@ + bullets@[i]@ + "\n"@) + b + query@
                + "\n<|end|>\n<|assistant|>\n"@),
{
    reveal_strlit("\n<|end|>\n");
    reveal_strlit("<|assistant|>\n");
    reveal_strlit("\n<|end|>\n<|assistant|>\n");
    assert("\n<|end|>\n"@ + "<|assistant|>\n"@ =~= "\n<|end|>\n<|assistant|>\n"@);
    let (x, y) = lemma_bullet_at(bullets@, i);
    lemma_prompt(
        ai_bridge::sql_prompt_head(),
        "## Learned patterns (IMPORTANT - follow these):\n"@,
        x,
        "- "@ + bullets@[i]@ + "\n"@,
        y,
        "\n"@,
        query@,
        "\n<|end|>\n"@,
        "<|assistant|>\n"@,
    );
    let a = ai_bridge::sql_prompt_head() + "## Learned patterns (IMPORTANT - follow these):\n"@ + x;
    assert(r@ == a + ("- "@ + bullets@[i]@ + "\n"@) + (y + "\n"@) + query@
        + "\n<|end|>\n<|assistant|>\n"@);
}

proof fn lemma_prompt(
    head: Seq<char>,
    title: Seq<char>,
    x: Seq<char>,
    line: Seq<char>,
    y: Seq<char>,
    gap: Seq<char>,
    query: Seq<char>,
    end: Seq<char>,
    last: Seq<char>,
)
    ensures
        head + (title + (x + line + y) + gap) + query + end + last == (head + title + x) + line + (y
            + gap) + query + (end + last),
{
    assert(head + (title + (x + line + y) + gap) + query + end + last =~= (head + title + x) + line
        + (y + gap) + query + (end + last));
}

/// The model of a search is the one for queries where it is there, else the analyst's; what is
/// learned is kept apart for the two. Without a model or a database there is no search.
pub proof fn a_search_picks_its_model(
    ai: &AIBridge,
    r: Result<LensRun, String>,
    scope: &'static str,
)
    requires
        call_ensures(AIBridge::start_lens_search, (ai,), r),
        call_ensures(AIBridge::feedback_scope, (ai,), scope),
    ensures
        r is Ok <==> (ai.sql_model is Some || ai.analyst_model is Some) && ai.db_path is Some,
        ai.sql_model is None && ai.analyst_model is None ==> r is Err && r->Err_0@
            == "No model loaded for lens search"@,
        (ai.sql_model is Some || ai.analyst_model is Some) && ai.db_path is None ==> r is Err
            && r->Err_0@ == "Cyan DB path not set"@,
        r matches Ok(run) ==> {
            &&& ai.sql_model is Some ==> run.uses_sql_model && Some(run.model) == ai.sql_model
            &&& ai.sql_model is None ==> !run.uses_sql_model && Some(run.model)
                == ai.analyst_model
            &&& run.scope@ == scope@
        },
        ai.sql_model is Some ==> scope@ == "cyan-sql"@,
        ai.sql_model is None ==> scope@ == "cyan-lens"@,
{
}

/// A plan that needs the user's word waits under its request until it is given, and then no more;
/// one that does not is carried out at once. What waits is the plan as the model wrote it, and
/// where the user was. Other plans are not touched.
pub proof fn plans_wait_for_the_users_word(
    ai: &mut AIBridge,
    asked: &mut AIBridge,
    request_id: String,
    id: &str,
    run: &LensRun,
    parsed: Result<ParsedOutput, String>,
    board: Option<String>,
    workspace: Option<String>,
    r: Result<LensStep, String>,
    confirmed: bool,
    answer: Result<ConfirmStep, String>,
    k: Seq<char>,
)
    requires
        call_ensures(
            AIBridge::finish_lens_search,
            (ai, request_id, run, parsed, board, workspace),
            r,
        ),
        call_ensures(AIBridge::agent_confirm, (asked, id, confirmed), answer),
    ensures
        ({
            let waits = parsed is Ok && parsed->Ok_0 is Plan
                && (parsed->Ok_0->Plan_0).requires_confirmation;
            let plan = parsed->Ok_0->Plan_0;
            let kept = PendingPlan {
                source: plan.source,
                current_board_id: board,
                current_workspace_id: workspace,
            };
            &&& final(ai).pending_plans@.dom().contains(k) <==> old(
                ai,
            ).pending_plans@.dom().contains(k) || (waits && k == request_id@)
            &&& waits ==> final(ai).pending_plans@[request_id@] == kept
            &&& old(ai).pending_plans@.dom().contains(k) && !(waits && k == request_id@)
                ==> final(ai).pending_plans@[k] == old(ai).pending_plans@[k]
            &&& waits ==> r is Ok && r->Ok_0 is Confirm
            &&& parsed is Ok && parsed->Ok_0 is Plan && !waits ==> r == Ok::<LensStep, String>(
                LensStep::Execute(kept),
            )
            &&& parsed is Ok && parsed->Ok_0 is Sql && old(ai).lens_ready ==> r == Ok::<
                LensStep,
                String,
            >(LensStep::Search { sql: parsed->Ok_0->Sql_0 })
            &&& parsed is Ok && parsed->Ok_0 is Sql && !old(ai).lens_ready ==> r is Err
            &&& parsed is Err ==> r is Err && r->Err_0@ == "Parse failed: "@ + parsed->Err_0@
        }),
        r matches Ok(LensStep::Confirm { request_id: q, intent, message, preview, specialist })
            ==> {
            &&& q == request_id
            &&& intent == (parsed->Ok_0->Plan_0).intent
            &&& preview == (parsed->Ok_0->Plan_0).preview
            &&& specialist == run.scope
            &&& (parsed->Ok_0->Plan_0).confirmation is Some ==> message@
                == (parsed->Ok_0->Plan_0).confirmation->0@
            &&& (parsed->Ok_0->Plan_0).confirmation is None ==> message@
                == "Execute this action?"@
        },
        final(asked).pending_plans@.dom().contains(k) <==> old(
            asked,
        ).pending_plans@.dom().contains(k) && k != id@,
        old(asked).pending_plans@.dom().contains(k) && k != id@ ==> final(asked).pending_plans@[k]
            == old(asked).pending_plans@[k],
        !old(asked).pending_plans@.dom().contains(id@) ==> answer is Err,
        old(asked).pending_plans@.dom().contains(id@) && !confirmed ==> answer == Ok::<
            ConfirmStep,
            String,
        >(ConfirmStep::Cancelled),
        old(asked).pending_plans@.dom().contains(id@) && confirmed && old(asked).db_path is Some
            ==> answer == Ok::<ConfirmStep, String>(
            ConfirmStep::Execute(old(asked).pending_plans@[id@]),
        ),
        old(asked).pending_plans@.dom().contains(id@) && confirmed && old(asked).db_path is None
            ==> answer is Err,
{
}

/// Whether the columns of a file's row are those of an imported model.
pub open spec fn holds_model(
    o: ObjectRow,
    group_id: Seq<char>,
    workspace_id: Seq<char>,
    board_id: Seq<char>,
    model: StoredModel,
    now: i64,
) -> bool {
    &&& o.kind is File
    &&& o.group_id == Some(group_id)
    &&& o.workspace_id == Some(workspace_id)
    &&& o.board_id == Some(board_id)
    &&& o.name@ == model.name@
    &&& o.hash is Some && o.hash->0@ == model.hash@
    &&& model.size <= i64::MAX ==> o.size == Some(model.size as i64)
    &&& o.local_path == Some(model.local_path)
    &&& o.source_peer is Some && o.source_peer->0@.len() == 0
    &&& o.created_at == now
}

/// An imported model is a file of its board that came from nobody, under its own name and content.
/// Its description names it and its kind.
pub proof fn an_imported_model_is_a_file_of_its_board(
    place: Option<(String, String)>,
    board_id: &String,
    model: &StoredModel,
    model_kind: &str,
    now: i64,
    clock: u64,
    r: Result<ModelImport, String>,
    described: String,
    t: Tables,
)
    requires
        call_ensures(
            ai_bridge::plan_model_import,
            (place, board_id, model, model_kind, now, clock),
            r,
        ),
    ensures
        r is Ok <==> place is Some,
        r is Err ==> r->Err_0@ == "Board not found"@,
        r matches Ok(import) ==> ({
            let (group_id, workspace_id) = place->0;
            let after = import.statement.apply(t);
            &&& import.file_id@ == hash::text_id(
                "file:"@ + group_id@ + ":"@ + model.name@ + ":"@ + text::int_text(now as int),
            )
            &&& after.objects.dom().contains(import.file_id@)
            &&& holds_model(
                after.objects[import.file_id@],
                group_id@,
                workspace_id@,
                board_id@,
                *model,
                now,
            )
        }),
{
}

/// An import that could be described registers the model as its description says, notes it for the
/// board and puts it into its cell; one that could not be described does neither.
pub proof fn a_described_model_is_registered(
    import: &ModelImport,
    model: &StoredModel,
    model_kind: &String,
    model_id: &String,
    cell_id: &String,
    board_id: &String,
    skill: Result<Skill, String>,
    now: i64,
    r: Result<DescribedModel, String>,
    t: Tables,
)
    requires
        call_ensures(
            ai_bridge::finish_model_import,
            (import, model, model_kind, model_id, cell_id, board_id, skill, now),
            r,
        ),
        t.metadata.dom().contains(board_id@),
    ensures
        r is Ok <==> skill is Ok,
        r is Err ==> r->Err_0@ == "Skill parse failed: "@ + skill->Err_0@,
        r matches Ok(d) ==> {
            let s = skill->Ok_0;
            &&& is_registered(d.record, s, model_id@, board_id@, import.file_id@, now)
            &&& d.record.skill_md@ == import.skill_md@
            &&& d.record.model_hash@ == model.hash@
            &&& d.statement.apply(t).metadata[board_id@].contains_model == Some(model.name)
            &&& d.cell.cell_id@ == cell_id@
            &&& d.cell.board_id@ == board_id@
            &&& d.cell.model_id@ == model_id@
            &&& d.cell.model_name@ == model.name@
            &&& d.cell.model_kind@ == model_kind@
            &&& d.cell.file_id is Some && d.cell.file_id->0@ == import.file_id@
            &&& d.cell.capabilities@ == s.capabilities@
            &&& d.cell.skill_md is Some && d.cell.skill_md->0@ == import.skill_md@
            &&& d.cell.model_path@ == model.local_path@
            &&& !d.cell.loaded
        },
{
}

/// Whether a record says of a model what its description says; without a version it is the first
/// one, and without an author it is of this node.
pub open spec fn is_registered(
    r: ModelRecord,
    s: Skill,
    id: Seq<char>,
    board_id: Seq<char>,
    file_id: Seq<char>,
    now: i64,
) -> bool {
    &&& r.id@ == id
    &&& r.board_id@ == board_id
    &&& r.file_id is Some && r.file_id->0@ == file_id
    &&& r.name@ == s.name@
    &&& r.kind@ == s.kind@
    &&& r.capabilities@ == s.capabilities@
    &&& s.version is Some ==> r.version@ == s.version->0@
    &&& s.version is None ==> r.version@ == "0.1.0"@
    &&& s.author is Some ==> r.author@ == s.author->0@
    &&& s.author is None ==> r.author@ == "local"@
    &&& r.created_at == now
    &&& r.updated_at == now
}

/// The description of a model names it, its kind and its file, and says what such a model does: a
/// "gguf" model writes text, an "onnx" model infers from tensors, of any other that is not known.
pub proof fn a_description_says_what_a_model_does(
    name: &str,
    kind: &str,
    file: &str,
    now: u64,
    filed: String,
    bare: String,
)
    requires
        call_ensures(ai_bridge::generate_skill_md, (name, kind, Some(file), now), filed),
        call_ensures(ai_bridge::generate_skill_md, (name, kind, None, now), bare),
    ensures
        ({
            let k = strings::lowercase(kind@);
            let does = if k == "gguf"@ {
                seq!["text_generation"@]
            } else if k == "onnx"@ {
                seq!["inference"@]
            } else {
                Seq::<Seq<char>>::empty()
            };
            let data = if k == "gguf"@ {
                "text"@
            } else if k == "onnx"@ {
                "tensor"@
            } else {
                "unknown"@
            };
            let head = "---\nname: "@ + name@ + "\nversion: 0.1.0\nkind: "@ + kind@ + "\n"@;
            let tail = "capabilities: "@ + json::text_list_json(does) + "\ninput:\n  type: "@ + data
                + "\noutput:\n  type: "@ + data + "\nauthor: local\ncreated: "@ + text::decimal(
                now as nat,
            ) + "\n---\n\n# "@ + name@ + "\n\nAuto-generated skill.\n"@;
            &&& bare@ == head + tail
            &&& filed@ == head + ("model: "@ + file@ + "\n"@) + tail
        }),
{
    let k = strings::lowercase(kind@);
    let (does, data) = ai_bridge::model_abilities(kind@);
    reveal_strlit("gguf");
    reveal_strlit("onnx");
    assert("gguf"@[0] != "onnx"@[0]);
    lemma_description(
        "---\nname: "@ + name@ + "\nversion: 0.1.0\nkind: "@ + kind@ + "\n"@,
        Seq::empty(),
        "capabilities: "@,
        json::text_list_json(does),
        "\ninput:\n  type: "@,
        data,
        "\noutput:\n  type: "@,
        "\nauthor: local\ncreated: "@,
        text::decimal(now as nat),
        "\n---\n\n# "@,
        name@,
        "\n\nAuto-generated skill.\n"@,
    );
    lemma_description(
        "---\nname: "@ + name@ + "\nversion: 0.1.0\nkind: "@ + kind@ + "\n"@,
        "model: "@ + file@ + "\n"@,
        "capabilities: "@,
        json::text_list_json(does),
        "\ninput:\n  type: "@,
        data,
        "\noutput:\n  type: "@,
        "\nauthor: local\ncreated: "@,
        text::decimal(now as nat),
        "\n---\n\n# "@,
        name@,
        "\n\nAuto-generated skill.\n"@,
    );
    let head = "---\nname: "@ + name@ + "\nversion: 0.1.0\nkind: "@ + kind@ + "\n"@;
    assert(head + Seq::<char>::empty() =~= head);
}

proof fn lemma_description(
    head: Seq<char>,
    file: Seq<char>,
    a: Seq<char>,
    does: Seq<char>,
    b: Seq<char>,
    data: Seq<char>,
    c: Seq<char>,
    d: Seq<char>,
    now: Seq<char>,
    e: Seq<char>,
    name: Seq<char>,
    f: Seq<char>,
)
    ensures
        head + file + a + does + b + data + c + data + d + now + e + name + f == head + file + (a
            + does + b + data + c + data + d + now + e + name + f),
{
    assert(head + file + a + does + b + data + c + data + d + now + e + name + f =~= head + file + (
    a + does + b + data + c + data + d + now + e + name + f));
}

/// Whether a summary says of a model in a cell what is known of it.
pub open spec fn is_about(s: ModelSummary, m: CellModel) -> bool {
    &&& s.id@ == m.model_id@
    &&& s.name@ == m.model_name@
    &&& s.kind@ == m.model_kind@
    &&& s.capabilities@ == m.capabilities@
    &&& s.board_id@ == m.board_id@
    &&& s.cell_id@ == m.cell_id@
    &&& s.file_id == m.file_id
}

/// Whether a summary is about the model of some cell.
pub open spec fn is_in_a_cell(s: ModelSummary, models: Map<Seq<char>, CellModel>) -> bool {
    exists|c: Seq<char>| models.dom().contains(c) && is_about(s, #[trigger] models[c])
}

/// Every model in a cell is listed, and nothing else is.
pub proof fn models_are_listed_by_cell(ai: &AIBridge, r: Vec<ModelSummary>, cell: Seq<char>)
    requires
        call_ensures(AIBridge::list_models, (ai,), r),
    ensures
        ai.cell_models@.dom().contains(cell) ==> exists|i: int|
            0 <= i < r@.len() && is_about(#[trigger] r@[i], ai.cell_models@[cell]),
        forall|i: int| 0 <= i < r@.len() ==> is_in_a_cell(#[trigger] r@[i], ai.cell_models@),
{
    let cells = choose|cells: Seq<Seq<char>>|
        {
            &&& #[trigger] cells.to_set() == ai.cell_models@.dom()
            &&& cells.no_duplicates()
            &&& r@.len() == cells.len()
            &&& forall|i: int|
                0 <= i < r@.len() ==> ai_bridge::summarizes(
                    #[trigger] r@[i],
                    ai.cell_models@[cells[i]],
                )
        };
    if ai.cell_models@.dom().contains(cell) {
        assert(cells.to_set().contains(cell));
        let i = choose|i: int| 0 <= i < cells.len() && cells[i] == cell;
        assert(is_about(r@[i], ai.cell_models@[cell]));
    }
    assert forall|i: int| 0 <= i < r@.len() implies is_in_a_cell(
        #[trigger] r@[i],
        ai.cell_models@,
    ) by {
        assert(cells.to_set().contains(cells[i]));
        assert(is_about(r@[i], ai.cell_models@[cells[i]]));
    }
}

/// A model goes into its own cell and comes out of the cell that is named; other cells keep theirs.
/// A run uses the model of the cell and the prompt of the input.
pub proof fn models_stay_in_their_cells(
    registered: &mut AIBridge,
    unloaded: &mut AIBridge,
    ai: &AIBridge,
    model: CellModel,
    cell_id: &str,
    input: &Json,
    r: Result<ModelRun, String>,
    k: Seq<char>,
)
    requires
        call_ensures(AIBridge::register_model, (registered, model), ()),
        call_ensures(AIBridge::unload_model, (unloaded, cell_id), ()),
        call_ensures(AIBridge::plan_inference, (ai, cell_id, input), r),
    ensures
        final(registered).cell_models@.dom().contains(model.cell_id@),
        final(registered).cell_models@[model.cell_id@] == model,
        k != model.cell_id@ ==> final(registered).cell_models@.dom().contains(k) == old(
            registered,
        ).cell_models@.dom().contains(k),
        k != model.cell_id@ && old(registered).cell_models@.dom().contains(k)
            ==> final(registered).cell_models@[k] == old(registered).cell_models@[k],
        final(unloaded).cell_models@.dom().contains(k) <==> k != cell_id@ && old(
            unloaded,
        ).cell_models@.dom().contains(k),
        final(unloaded).cell_models@.dom().contains(k) ==> final(unloaded).cell_models@[k] == old(
            unloaded,
        ).cell_models@[k],
        r is Ok <==> ai.cell_models@.dom().contains(cell_id@),
        r is Err ==> r->Err_0@ == "Model not registered"@,
        r matches Ok(run) ==> {
            &&& run.model@ == ai.cell_models@[cell_id@].model_name@
            &&& input.member("prompt"@) is Some && input.member("prompt"@)->0 is Text
                ==> run.prompt@ == input.member("prompt"@)->0->Text_0@
            &&& input.member("prompt"@) is None ==> run.prompt@.len() == 0
        },
{
}

/// A correction is learned as what to do or as what to avoid, with what was asked and what is right,
/// each in its place. What a model wrote for a search is used as it is.
pub proof fn corrections_are_learned(
    correction: &LensCorrection,
    was_helpful: bool,
    r: (Section, String),
    reply: InferenceReply,
    text: Result<String, String>,
)
    requires
        call_ensures(ai_bridge::correction_bullet, (correction, was_helpful), r),
        call_ensures(ai_bridge::lens_text, (reply,), text),
    ensures
        was_helpful ==> r.0 is Strategies,
        !was_helpful ==> r.0 is Mistakes,
        correction.wrong_sql is Some ==> r.1@ == "When user asks '"@ + correction.wrong_sql->0@
            + "', the correct approach is: "@ + correction.explanation@,
        correction.wrong_sql is None ==> r.1@ == "When user asks '"@ + Seq::empty()
            + "', the correct approach is: "@ + correction.explanation@,
        text is Ok <==> reply is Text,
        reply is Text ==> text == Ok::<String, String>(reply->Text_0),
        reply is Failed ==> text->Err_0@ == "Inference failed: "@ + reply->Failed_0@,
        reply is Other ==> text->Err_0@ == "Unexpected output type"@,
{
}

/// A picture is decoded only where the analyst can use it, and what cannot be decoded is refused
/// with the reason. Of the models that are needed the first that is missing is named.
pub proof fn pictures_and_models_are_looked_for(
    ai: &AIBridge,
    image: &str,
    r: Result<Vec<u8>, String>,
    sketch: bool,
    ocr: bool,
    lens: bool,
    missing: Option<&'static str>,
)
    requires
        call_ensures(AIBridge::read_picture, (ai, image), r),
        call_ensures(ai_bridge::missing_model, (sketch, ocr, lens), missing),
    ensures
        !ai.initialized ==> r is Err && r->Err_0@ == "Not initialized"@,
        ai.initialized ==> (r is Ok <==> ai_bridge::base64_decoded(image@) is Ok),
        ai.initialized && r is Ok ==> r->Ok_0@ == ai_bridge::base64_decoded(image@)->Ok_0,
        ai.initialized && r is Err ==> r->Err_0@ == "Invalid base64: "@ + ai_bridge::base64_decoded(
            image@,
        )->Err_0,
        missing is None <==> sketch && ocr && lens,
        !sketch ==> missing is Some && missing->0@ == "YOLO (cyan-sketch)"@,
        sketch && !ocr ==> missing is Some && missing->0@ == "OCR (paddleocr)"@,
        sketch && ocr && !lens ==> missing is Some && missing->0@ == "Phi (cyan-lens)"@,
{
}

} // verus!
