//! What there is before anyone has done anything: the demo content, the patterns that searches
//! start with, and an analyst without models.

use crate::ai_bridge;
use crate::ai_bridge::{
    AIBridge, AnalysisResult, ConfirmStep, InferenceReply, LensRun, LensStep, ModelRecord,
    ParsedOutput, Section, Skill,
};
use crate::hash;
use crate::lens_bridge::LensBridge;
use crate::model::{Group, Workspace};
use crate::snapshot;
use crate::snapshot::Demo;
use crate::tables;
use crate::tables::{Statement, Tables};
use vstd::prelude::*;

verus! {

/// Tables without groups get the demo content, and others are left alone. Once it is stored there
/// are its group, its workspace in that group and its board in that workspace, all made now, under
/// the digests of their demo names.
pub proof fn empty_tables_get_demo_content(
    group_count: i64,
    now: i64,
    r: Option<Demo>,
    statements: Vec<Statement>,
    t: Tables,
)
    requires
        call_ensures(snapshot::seed_demo_if_empty, (group_count, now), r),
        r is Some ==> call_ensures(snapshot::demo_statements, (r->0,), statements),
        t.groups == Map::<Seq<char>, Group>::empty(),
        t.workspaces == Map::<Seq<char>, Workspace>::empty(),
        t.objects.dom() == Set::<Seq<char>>::empty(),
    ensures
        group_count > 0 ==> r is None,
        group_count <= 0 ==> r is Some,
        r is Some ==> ({
            let after = tables::apply_all(statements@, t);
            let group = hash::text_id("demo-group"@);
            let workspace = hash::text_id("demo-workspace"@);
            let board = hash::text_id("demo-board"@);
            &&& after.groups.dom() == set![group]
            &&& after.groups[group].name@ == "Demo Group"@
            &&& after.groups[group].icon@ == "folder.fill"@
            &&& after.groups[group].color@ == "#00AEEF"@
            &&& after.groups[group].created_at == now
            &&& after.workspaces.dom() == set![workspace]
            &&& after.workspaces[workspace].name@ == "Demo Workspace"@
            &&& after.workspaces[workspace].group_id@ == group
            &&& after.workspaces[workspace].created_at == now
            &&& after.objects.dom() == set![board]
            &&& after.objects[board].workspace_id is Some
            &&& after.objects[board].workspace_id->0 == workspace
            &&& after.objects[board].name@ == "Demo Board"@
            &&& after.objects[board].created_at == now
        }),
{
    reveal_with_fuel(tables::apply_all, 5);
    if r is Some {
        let after = tables::apply_all(statements@, t);
        assert(after.groups.dom() =~= set![hash::text_id("demo-group"@)]);
        assert(after.workspaces.dom() =~= set![hash::text_id("demo-workspace"@)]);
        assert(after.objects.dom() =~= set![hash::text_id("demo-board"@)]);
    }
}

/// Whether some patterns hold a text in a section.
pub open spec fn told(items: Seq<(Section, &'static str)>, section: Section, t: Seq<char>) -> bool {
    exists|i: int| 0 <= i < items.len() && (#[trigger] items[i]).0 == section && items[i].1@ == t
}

/// A scope without patterns, or whose patterns could not be counted, gets six strategies, five
/// facts on the tables, four mistakes and two checks, in this order; one with patterns gets none.
pub proof fn searches_start_with_patterns(
    existing: Option<u64>,
    r: Option<Vec<(Section, &'static str)>>,
    i: int,
)
    requires
        call_ensures(ai_bridge::playbook_seed, (existing,), r),
    ensures
        r is None <==> existing is Some && existing->0 > 0,
        r is Some ==> r->0@.len() == 17,
        r is Some && 0 <= i < 6 ==> r->0@[i].0 is Strategies,
        r is Some && 6 <= i < 11 ==> r->0@[i].0 is Apis,
        r is Some && 11 <= i < 15 ==> r->0@[i].0 is Mistakes,
        r is Some && 15 <= i < 17 ==> r->0@[i].0 is Verification,
{
    if r is Some {
        let views = ai_bridge::seed_views(r->0@);
        assert(views == ai_bridge::seeds());
        assert(views.len() == 17);
        if 0 <= i < 17 {
            assert(views[i].0 == r->0@[i].0);
        }
    }
}

/// What the first patterns of a scope say.
pub proof fn patterns_say_how_to_search(
    existing: Option<u64>,
    r: Option<Vec<(Section, &'static str)>>,
)
    requires
        call_ensures(ai_bridge::playbook_seed, (existing,), r),
    ensures
        r is Some ==> {
            &&& told(r->0@, Section::Strategies, "When user says 'X boards', first check if X matches a group name"@)
            &&& told(r->0@, Section::Strategies, "Always use JOINs through workspaces when connecting objects to groups"@)
            &&& told(r->0@, Section::Strategies, "For 'recent' queries, ORDER BY last_accessed DESC"@)
            &&& told(r->0@, Section::Strategies, "Use DISTINCT when joining with notebook_cells to avoid duplicates"@)
            &&& told(r->0@, Section::Strategies, "Limit results to 100 unless user specifies a count"@)
            &&& told(r->0@, Section::Strategies, "To find content inside notebooks, JOIN notebook_cells.board_id = objects.id and search notebook_cells.content"@)
            &&& told(r->0@, Section::Apis, "Table 'objects' contains boards - there is no 'boards' table"@)
            &&& told(r->0@, Section::Apis, "notebook_cells.cell_type can be: 'markdown', 'mermaid', 'code', 'image'"@)
            &&& told(r->0@, Section::Apis, "groups table has: id, name, icon, color, created_at"@)
            &&& told(r->0@, Section::Apis, "workspaces links groups to objects via group_id"@)
            &&& told(r->0@, Section::Apis, "Deep link format: cyan://group/{gid}/workspace/{wid}/board/{bid}"@)
            &&& told(r->0@, Section::Mistakes, "Never use 'boards' as table name - use 'objects'"@)
            &&& told(r->0@, Section::Mistakes, "Don't search objects.name when user says 'X boards' - X is often a group name"@)
            &&& told(r->0@, Section::Mistakes, "Don't forget to join through workspaces - objects don't have direct group_id"@)
            &&& told(r->0@, Section::Mistakes, "CRITICAL: When joining notebook_cells to objects, always use notebook_cells.board_id = objects.id (NOT objects.workspace_id)"@)
            &&& told(r->0@, Section::Verification, "Always verify SQL is SELECT-only, no INSERT/UPDATE/DELETE/DROP"@)
            &&& told(r->0@, Section::Verification, "Check that all table names exist in schema"@)
        },
{
    if r is Some {
        let views = ai_bridge::seed_views(r->0@);
        assert(views == ai_bridge::seeds());
        assert(views.len() == r->0@.len());
        assert forall|k: int| 0 <= k < 17 implies views[k].0 == (#[trigger] r->0@[k]).0
            && views[k].1 == r->0@[k].1@ by {}
        assert(r->0@[0].1@ == "When user says 'X boards', first check if X matches a group name"@);
        assert(r->0@[1].1@ == "Always use JOINs through workspaces when connecting objects to groups"@);
        assert(r->0@[2].1@ == "For 'recent' queries, ORDER BY last_accessed DESC"@);
        assert(r->0@[3].1@ == "Use DISTINCT when joining with notebook_cells to avoid duplicates"@);
        assert(r->0@[4].1@ == "Limit results to 100 unless user specifies a count"@);
        assert(r->0@[5].1@ == "To find content inside notebooks, JOIN notebook_cells.board_id = objects.id and search notebook_cells.content"@);
        assert(r->0@[6].1@ == "Table 'objects' contains boards - there is no 'boards' table"@);
        assert(r->0@[7].1@ == "notebook_cells.cell_type can be: 'markdown', 'mermaid', 'code', 'image'"@);
        assert(r->0@[8].1@ == "groups table has: id, name, icon, color, created_at"@);
        assert(r->0@[9].1@ == "workspaces links groups to objects via group_id"@);
        assert(r->0@[10].1@ == "Deep link format: cyan://group/{gid}/workspace/{wid}/board/{bid}"@);
        assert(r->0@[11].1@ == "Never use 'boards' as table name - use 'objects'"@);
        assert(r->0@[12].1@ == "Don't search objects.name when user says 'X boards' - X is often a group name"@);
        assert(r->0@[13].1@ == "Don't forget to join through workspaces - objects don't have direct group_id"@);
        assert(r->0@[14].1@ == "CRITICAL: When joining notebook_cells to objects, always use notebook_cells.board_id = objects.id (NOT objects.workspace_id)"@);
        assert(r->0@[15].1@ == "Always verify SQL is SELECT-only, no INSERT/UPDATE/DELETE/DROP"@);
        assert(r->0@[16].1@ == "Check that all table names exist in schema"@);
    }
}

/// Where nothing was learned a search opens with what the model is, the tables, how they hang
/// together and the form of an answer, and then asks.
pub proof fn a_search_opens_with_the_tables(query: &str, bullets: &Vec<String>, r: String)
    requires
        call_ensures(ai_bridge::build_sql_prompt, (query, bullets), r),
        bullets@.len() == 0,
    ensures
        r@ == "<|system|>\n"@ + "You are CyanLens, an AI assistant for Cyan workspace management.\n\n"@
        + "## Schema\n"@ + "- groups(id, name, icon, color, created_at)\n"@
        + "- workspaces(id, group_id, name, description, created_at)\n"@
        + "- objects(id, workspace_id, type, name, board_mode, archived, created_at, updated_at)\n"@
        + "- notebook_cells(id, board_id, cell_type, content, cell_order)\n"@
        + "- board_labels(id, board_id, label)\n"@
        + "- board_metadata(board_id, starred, template, rating)\n\n"@ + "## Relationships\n"@
        + "- objects.workspace_id → workspaces.id\n"@ + "- workspaces.group_id → groups.id\n"@
        + "- notebook_cells.board_id → objects.id\n"@
        + "- To find boards in a group: JOIN objects → workspaces → groups\n"@
        + "- To search notebook content: JOIN notebook_cells ON notebook_cells.board_id = objects.id\n\n"@
        + "## Output Format\n"@ + "- For QUERIES: Output SQL in ```sql``` block\n"@
        + "- For MUTATIONS (create/update/delete): Output JSON action plan\n"@ + "<|end|>\n"@
        + "<|user|>\n"@
        + query@ + "\n<|end|>\n"@ + "<|assistant|>\n"@,
{
    let head = ai_bridge::sql_prompt_head();
    assert(head + Seq::<char>::empty() =~= head);
}

/// What was learned stands between the opening of a search and the question: what is learned last
/// comes last, and the rest of the prompt stays.
pub proof fn what_is_learned_last_comes_last(
    query: &str,
    none: &Vec<String>,
    fewer: &Vec<String>,
    more: &Vec<String>,
    plain: String,
    before: String,
    after: String,
    opening: Seq<char>,
)
    requires
        none@.len() == 0,
        more@.len() > 0,
        fewer@ == more@.drop_last(),
        call_ensures(ai_bridge::build_sql_prompt, (query, none), plain),
        call_ensures(ai_bridge::build_sql_prompt, (query, fewer), before),
        call_ensures(ai_bridge::build_sql_prompt, (query, more), after),
        plain@ == opening + (query@ + "\n<|end|>\n"@ + "<|assistant|>\n"@),
    ensures
        ({
            let end = "\n"@ + (query@ + "\n<|end|>\n"@ + "<|assistant|>\n"@);
            let line = "- "@ + more@.last()@ + "\n"@;
            &&& fewer@.len() == 0 ==> after@ == opening
                + "## Learned patterns (IMPORTANT - follow these):\n"@ + line + end
            &&& fewer@.len() > 0 ==> before@.len() >= end.len() && before@.skip(
                before@.len() - end.len(),
            ) == end && after@ == before@.take(before@.len() - end.len()) + line + end
        }),
{
    let head = ai_bridge::sql_prompt_head();
    let title = "## Learned patterns (IMPORTANT - follow these):\n"@;
    let tail = query@ + "\n<|end|>\n"@ + "<|assistant|>\n"@;
    let line = "- "@ + more@.last()@ + "\n"@;
    lemma_opening(head, query@, "\n<|end|>\n"@, "<|assistant|>\n"@, opening);
    let lines = ai_bridge::bullet_lines(fewer@);
    lemma_learned(head, title, lines, line, "\n"@, query@, "\n<|end|>\n"@, "<|assistant|>\n"@);
    if fewer@.len() == 0 {
        assert(title + (lines + line) =~= title + line);
        assert(head + title + lines + line =~= head + title + line);
    }
}

proof fn lemma_opening(
    head: Seq<char>,
    query: Seq<char>,
    end: Seq<char>,
    last: Seq<char>,
    opening: Seq<char>,
)
    requires
        head + Seq::empty() + query + end + last == opening + (query + end + last),
    ensures
        opening == head,
{
    let whole = head + Seq::empty() + query + end + last;
    assert(whole.len() == opening.len() + query.len() + end.len() + last.len());
    assert(whole.take(head.len() as int) =~= head);
    assert(whole.take(opening.len() as int) =~= opening);
}

proof fn lemma_learned(
    head: Seq<char>,
    title: Seq<char>,
    lines: Seq<char>,
    line: Seq<char>,
    gap: Seq<char>,
    query: Seq<char>,
    end: Seq<char>,
    last: Seq<char>,
)
    ensures
        ({
            let tail = gap + (query + end + last);
            let before = head + (title + lines + gap) + query + end + last;
            &&& head + (title + (lines + line) + gap) + query + end + last == head + title + lines
                + line + tail
            &&& before.len() >= tail.len()
            &&& before.skip(before.len() - tail.len()) == tail
            &&& before.take(before.len() - tail.len()) == head + title + lines
        }),
{
    let tail = gap + (query + end + last);
    let before = head + (title + lines + gap) + query + end + last;
    assert(head + (title + (lines + line) + gap) + query + end + last =~= head + title + lines + line
        + tail);
    assert(before =~= (head + title + lines) + tail);
    assert(before.skip(before.len() - tail.len()) =~= tail);
    assert(before.take(before.len() - tail.len()) =~= head + title + lines);
}

/// What the analyst says where it cannot go on.
pub proof fn the_analyst_says_why_not(
    analyst: &AIBridge,
    answer: Result<AnalysisResult, String>,
    searching: &mut AIBridge,
    request_id: String,
    run: &LensRun,
    sql: String,
    board: Option<String>,
    workspace: Option<String>,
    step: Result<LensStep, String>,
    asked: &mut AIBridge,
    id: &str,
    confirmed: bool,
    confirmation: Result<ConfirmStep, String>,
)
    requires
        call_ensures(AIBridge::analysis, (analyst, InferenceReply::Other), answer),
        call_ensures(
            AIBridge::finish_lens_search,
            (
                searching,
                request_id,
                run,
                Ok::<ParsedOutput, String>(ParsedOutput::Sql(sql)),
                board,
                workspace,
            ),
            step,
        ),
        call_ensures(AIBridge::agent_confirm, (asked, id, confirmed), confirmation),
    ensures
        answer is Err && answer->Err_0@ == "Unexpected output"@,
        !old(searching).lens_ready ==> step is Err && step->Err_0@ == "Lens not initialized"@,
        old(searching).lens_ready ==> step == Ok::<LensStep, String>(LensStep::Search { sql }),
        !old(asked).pending_plans@.contains_key(id@) ==> confirmation is Err
            && confirmation->Err_0@ == "No pending action found"@,
{
}

/// A new analyst has nothing: no models, no events, no insights, no plans.
pub proof fn an_analyst_starts_with_nothing(analyst: AIBridge, id: Seq<char>)
    requires
        call_ensures(AIBridge::new, (), analyst),
    ensures
        analyst.event_buffer@.len() == 0,
        analyst.insight_queue@.len() == 0,
        !analyst.initialized && !analyst.lens_ready && !analyst.proactive_enabled,
        analyst.analyst_model is None && analyst.sql_model is None && analyst.db_path is None,
        !analyst.cell_models@.contains_key(id),
        !analyst.pending_plans@.contains_key(id),
{
}

/// Once models are loaded the analyst answers. A missing model for queries leaves the one there
/// was; events, insights, plans and the models of cells stay.
pub proof fn loaded_models_are_used(analyst: &mut AIBridge, model: String, sql: Option<String>)
    requires
        call_ensures(AIBridge::models_loaded, (analyst, model, sql), ()),
    ensures
        final(analyst).initialized && final(analyst).lens_ready,
        final(analyst).analyst_model is Some && final(analyst).analyst_model->0@ == model@,
        sql is Some ==> final(analyst).sql_model == sql,
        sql is None ==> final(analyst).sql_model == old(analyst).sql_model,
        final(analyst).event_buffer == old(analyst).event_buffer,
        final(analyst).insight_queue == old(analyst).insight_queue,
        final(analyst).proactive_enabled == old(analyst).proactive_enabled,
        final(analyst).db_path == old(analyst).db_path,
        final(analyst).cell_models == old(analyst).cell_models,
        final(analyst).pending_plans == old(analyst).pending_plans,
{
}

/// Once a database is named searches go to it; what models there are stays.
pub proof fn a_named_database_is_searched(analyst: &mut AIBridge, path: String)
    requires
        call_ensures(AIBridge::set_cyan_db_path, (analyst, path), ()),
    ensures
        final(analyst).db_path is Some && final(analyst).db_path->0@ == path@,
        final(analyst).lens_ready,
        final(analyst).initialized == old(analyst).initialized,
        final(analyst).analyst_model == old(analyst).analyst_model,
        final(analyst).sql_model == old(analyst).sql_model,
        final(analyst).event_buffer == old(analyst).event_buffer,
        final(analyst).insight_queue == old(analyst).insight_queue,
        final(analyst).proactive_enabled == old(analyst).proactive_enabled,
        final(analyst).cell_models == old(analyst).cell_models,
        final(analyst).pending_plans == old(analyst).pending_plans,
{
}

/// The model that a description was imported as is the model that a cell gets from its record: the
/// name, kind and capabilities are those of the description, the file is the uploaded one, and the
/// model is not loaded yet. Other cells keep their models.
pub proof fn an_imported_model_reaches_its_cell(
    skill: &Skill,
    id: &String,
    board_id: &String,
    file_id: &String,
    skill_md: &String,
    model_hash: String,
    now: i64,
    record: &ModelRecord,
    analyst: &mut AIBridge,
    cell_id: &String,
    cell_board: &String,
    path: String,
    other: Seq<char>,
)
    requires
        call_ensures(
            ai_bridge::make_record,
            (skill, id, board_id, file_id, skill_md, model_hash, now),
            *record,
        ),
        call_ensures(AIBridge::adopt_record, (analyst, cell_id, cell_board, record, path), ()),
    ensures
        record.id@ == id@ && record.board_id@ == board_id@ && record.model_hash@ == model_hash@,
        record.created_at == now && record.updated_at == now,
        skill.version is Some ==> record.version@ == skill.version->0@,
        skill.version is None ==> record.version@ == "0.1.0"@,
        skill.author is Some ==> record.author@ == skill.author->0@,
        skill.author is None ==> record.author@ == "local"@,
        final(analyst).cell_models@.contains_key(cell_id@),
        ({
            let model = final(analyst).cell_models@[cell_id@];
            &&& model.cell_id@ == cell_id@
            &&& model.board_id@ == cell_board@
            &&& model.model_id@ == id@
            &&& model.model_name@ == skill.name@
            &&& model.model_kind == skill.kind
            &&& model.capabilities@ == skill.capabilities@
            &&& model.file_id is Some && model.file_id->0@ == file_id@
            &&& model.skill_md is Some && model.skill_md->0@ == skill_md@
            &&& model.model_path@ == path@
            &&& !model.loaded
        }),
        other != cell_id@ ==> (final(analyst).cell_models@.contains_key(other)
            <==> old(analyst).cell_models@.contains_key(other)),
        other != cell_id@ && old(analyst).cell_models@.contains_key(other) ==> (final(analyst).cell_models@[other]
            == old(analyst).cell_models@[other]),
        final(analyst).event_buffer == old(analyst).event_buffer,
        final(analyst).pending_plans == old(analyst).pending_plans,
{
    if other != cell_id@ {
        let before = old(analyst).cell_models@;
        let after = final(analyst).cell_models@;
        assert(before.remove(cell_id@).contains_key(other) == before.contains_key(other));
        assert(after.remove(cell_id@).contains_key(other) == after.contains_key(other));
        if before.contains_key(other) {
            assert(before.remove(cell_id@)[other] == before[other]);
            assert(after.remove(cell_id@)[other] == after[other]);
        }
    }
}

/// A new bridge serves its group and has counted nothing; the counts are those that it keeps.
pub proof fn a_bridge_starts_at_nothing(
    group_id: String,
    bridge: &LensBridge,
    forwarded: u64,
    skipped: u64,
)
    requires
        call_ensures(LensBridge::new, (group_id,), *bridge),
        call_ensures(LensBridge::forwarded_count, (bridge,), forwarded),
        call_ensures(LensBridge::skipped_count, (bridge,), skipped),
    ensures
        bridge.group_id@ == group_id@,
        forwarded == 0,
        skipped == 0,
{
}

} // verus!
