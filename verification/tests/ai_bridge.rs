use cyan_backend::ai_bridge::{
    build_context, build_sql_prompt, correction_bullet, finish_model_import, generate_insight, generate_skill_md,
    lens_text, make_record, missing_model, plan_model_import, playbook_seed, AIBridge,
    AIIntegrationEvent, ActionPlan, CellModel, ConfirmStep, InferenceReply, LensCorrection, LensStep,
    ParsedOutput, Section, Skill, StoredModel,
};
use cyan_backend::json::parse_json;
use cyan_backend::tables::Statement;
use std::collections::VecDeque;

fn s(x: &str) -> String {
    x.to_string()
}

const DAY: i64 = 86400;

fn event(id: &str, mentions: u32, last: i64) -> AIIntegrationEvent {
    AIIntegrationEvent {
        anchor_id: s(id),
        anchor_kind: s("jira"),
        anchor_ref: format!("ref-{}", id),
        mention_count: mentions,
        last_mention: last,
        context: s(""),
        source: s(""),
    }
}

#[test]
fn the_context_lists_twenty_events() {
    assert_eq!(build_context(&VecDeque::new(), 0), "(No activity)");
    let two = VecDeque::from(vec![event("a", 3, 0), event("b", 4, 5 * DAY)]);
    assert_eq!(
        build_context(&two, 3 * DAY + 1),
        "- ref-a (jira): 3 mentions, 3d ago\n- ref-b (jira): 4 mentions, -1d ago"
    );
    let many: VecDeque<AIIntegrationEvent> = (0..30).map(|i| event(&i.to_string(), 1, 0)).collect();
    assert_eq!(build_context(&many, 0).lines().count(), 20);
}

#[test]
fn an_insight_is_about_the_worst_stale_event() {
    let now = 100 * DAY;
    assert!(generate_insight(&VecDeque::new(), now, s("i")).is_none());
    let fresh = VecDeque::from(vec![event("a", 500, now), event("b", 50, 0)]);
    assert!(generate_insight(&fresh, now, s("i")).is_none());
    let stale = VecDeque::from(vec![
        event("a", 60, now - 20 * DAY),
        event("b", 90, now - 40 * DAY),
        event("c", 90, now - 20 * DAY),
    ]);
    let insight = generate_insight(&stale, now, s("i")).unwrap();
    assert_eq!(insight.anchor_ids, vec![s("c")]);
    assert_eq!(insight.message, "⚠️ ref-c has 90 mentions but no activity in 20 days");
    assert_eq!(insight.severity, "warning");
    let older = VecDeque::from(vec![event("b", 90, now - 31 * DAY)]);
    assert_eq!(generate_insight(&older, now, s("i")).unwrap().severity, "critical");
}

#[test]
fn events_are_remembered_up_to_a_number() {
    let mut bridge = AIBridge::new();
    for i in 0..501 {
        bridge.feed_event(event(&i.to_string(), 1, 0));
    }
    assert_eq!(bridge.event_buffer.len(), 500);
    assert_eq!(bridge.event_buffer[0].anchor_id, "1");
    assert_eq!(bridge.event_buffer[499].anchor_id, "500");
}

#[test]
fn insights_are_queued_where_wanted() {
    let mut bridge = AIBridge::new();
    bridge.feed_event(event("a", 60, 0));
    assert!(!bridge.tick(100 * DAY, s("1")));
    bridge.proactive_enabled = true;
    bridge.models_loaded(s("phi"), None);
    assert!(bridge.tick(100 * DAY, s("2")));
    assert!(bridge.tick(100 * DAY, s("3")));
    assert_eq!(bridge.poll_insights().unwrap().id, "2");
    assert_eq!(bridge.poll_insights().unwrap().id, "3");
    assert!(bridge.poll_insights().is_none());
}

#[test]
fn pictures_are_decoded() {
    let mut bridge = AIBridge::new();
    assert_eq!(bridge.read_picture("aGk="), Err(s("Not initialized")));
    bridge.models_loaded(s("phi"), None);
    assert_eq!(bridge.read_picture("aGk="), Ok(b"hi".to_vec()));
    assert!(bridge.read_picture("a$").unwrap_err().starts_with("Invalid base64: "));
    assert!(bridge.read_picture("aGk").is_err());
}

#[test]
fn the_analyst_is_asked_and_answers() {
    let mut bridge = AIBridge::new();
    assert_eq!(bridge.plan_analysis("why", 0), Err(s("Not initialized")));
    bridge.models_loaded(s("phi"), None);
    for i in 0..7 {
        bridge.feed_event(event(&i.to_string(), 1, 0));
    }
    let run = bridge.plan_analysis("why", 0).unwrap();
    assert_eq!(run.model, "phi");
    assert!(run.prompt.ends_with("\n\n## Question\nwhy\n<|end|>\n<|assistant|>\n"));
    let answer = bridge.analysis(InferenceReply::Text(s("because"))).unwrap();
    assert_eq!(answer.response, Some(s("because")));
    assert_eq!(answer.citations.unwrap().len(), 5);
    assert_eq!(bridge.analysis(InferenceReply::Other), Err(s("Unexpected output")));
    let failed = bridge.analysis(InferenceReply::Failed(s("oom"))).unwrap();
    assert!(!failed.success);
    assert_eq!(failed.error, Some(s("oom")));
    bridge.analyst_model = None;
    assert_eq!(bridge.plan_analysis("why", 0), Err(s("Analyst not available")));
}

#[test]
fn a_search_prefers_the_query_model() {
    let mut bridge = AIBridge::new();
    assert_eq!(bridge.start_lens_search(), Err(s("No model loaded for lens search")));
    bridge.models_loaded(s("phi"), None);
    assert_eq!(bridge.start_lens_search(), Err(s("Cyan DB path not set")));
    bridge.set_cyan_db_path(s("/db"));
    let run = bridge.start_lens_search().unwrap();
    assert!(!run.uses_sql_model);
    assert_eq!(run.scope, "cyan-lens");
    assert_eq!(bridge.feedback_scope(), "cyan-lens");
    bridge.models_loaded(s("phi"), Some(s("sql")));
    let run = bridge.start_lens_search().unwrap();
    assert!(run.uses_sql_model);
    assert_eq!(run.model, "sql");
    assert_eq!(run.scope, "cyan-sql");
    assert_eq!(bridge.feedback_scope(), "cyan-sql");
}

fn plan(confirm: bool) -> ActionPlan {
    ActionPlan {
        intent: s("delete"),
        requires_confirmation: confirm,
        confirmation: None,
        preview: vec![s("x")],
        source: s("src"),
    }
}

#[test]
fn a_plan_waits_for_consent_once() {
    let mut bridge = AIBridge::new();
    bridge.models_loaded(s("phi"), None);
    bridge.set_cyan_db_path(s("/db"));
    let run = bridge.start_lens_search().unwrap();
    assert_eq!(
        bridge.finish_lens_search(s("r"), &run, Err(s("bad")), None, None),
        Err(s("Parse failed: bad"))
    );
    assert_eq!(
        bridge.finish_lens_search(s("r"), &run, Ok(ParsedOutput::Sql(s("SELECT 1"))), None, None),
        Ok(LensStep::Search { sql: s("SELECT 1") })
    );
    assert!(matches!(
        bridge.finish_lens_search(s("r"), &run, Ok(ParsedOutput::Plan(plan(false))), None, None),
        Ok(LensStep::Execute(_))
    ));
    assert_eq!(bridge.agent_confirm("r", true), Err(s("No pending action found")));
    match bridge.finish_lens_search(s("r"), &run, Ok(ParsedOutput::Plan(plan(true))), Some(s("b")), None) {
        Ok(LensStep::Confirm { message, request_id, specialist, .. }) => {
            assert_eq!(message, "Execute this action?");
            assert_eq!(request_id, "r");
            assert_eq!(specialist, "cyan-lens");
        }
        _ => panic!("no question"),
    }
    match bridge.agent_confirm("r", true) {
        Ok(ConfirmStep::Execute(p)) => {
            assert_eq!(p.source, "src");
            assert_eq!(p.current_board_id, Some(s("b")));
        }
        _ => panic!("not carried out"),
    }
    assert_eq!(bridge.agent_confirm("r", true), Err(s("No pending action found")));
    let ask = Ok(ParsedOutput::Plan(plan(true)));
    bridge.finish_lens_search(s("q"), &run, ask, None, None).unwrap();
    assert_eq!(bridge.agent_confirm("q", false), Ok(ConfirmStep::Cancelled));
    let mut fresh = AIBridge::new();
    assert_eq!(
        fresh.finish_lens_search(s("r"), &run, Ok(ParsedOutput::Sql(s("x"))), None, None),
        Err(s("Lens not initialized"))
    );
}

#[test]
fn prompts_and_replies() {
    let plain = build_sql_prompt("q", &vec![]);
    assert!(plain.starts_with("<|system|>\nYou are CyanLens,"));
    assert!(plain.ends_with("<|end|>\n<|user|>\nq\n<|end|>\n<|assistant|>\n"));
    let learned = build_sql_prompt("q", &vec![s("one"), s("two")]);
    assert!(learned.ends_with(
        "## Learned patterns (IMPORTANT - follow these):\n- one\n- two\n\nq\n<|end|>\n<|assistant|>\n"
    ));
    assert_eq!(lens_text(InferenceReply::Text(s("t"))), Ok(s("t")));
    assert_eq!(lens_text(InferenceReply::Other), Err(s("Unexpected output type")));
    assert_eq!(lens_text(InferenceReply::Failed(s("e"))), Err(s("Inference failed: e")));
    let (section, text) = correction_bullet(
        &LensCorrection { wrong_sql: Some(s("X")), explanation: s("Y") },
        false,
    );
    assert_eq!(section, Section::Mistakes);
    assert_eq!(text, "When user asks 'X', the correct approach is: Y");
    assert_eq!(playbook_seed(Some(0)).unwrap().len(), 17);
    assert!(playbook_seed(Some(3)).is_none());
    assert_eq!(playbook_seed(None).unwrap()[11].0, Section::Mistakes);
    assert_eq!(missing_model(true, false, false), Some("OCR (paddleocr)"));
    assert_eq!(missing_model(true, true, true), None);
}

#[test]
fn models_are_described() {
    let md = generate_skill_md("m", "GGUF", Some("m.gguf"), 12);
    assert_eq!(
        md,
        "---\nname: m\nversion: 0.1.0\nkind: GGUF\nmodel: m.gguf\n\
         capabilities: [\"text_generation\"]\ninput:\n  type: text\noutput:\n  type: text\n\
         author: local\ncreated: 12\n---\n\n# m\n\nAuto-generated skill.\n"
    );
    assert!(generate_skill_md("m", "zip", None, 0).contains("kind: zip\ncapabilities: []\n"));
    let model = StoredModel { name: s("m"), hash: s("h"), size: 5, local_path: s("/f/h") };
    let import = plan_model_import(Some((s("g"), s("w"))), &s("b"), &model, "onnx", 9, 9).unwrap();
    assert_eq!(import.file_id, blake3::hash(b"file:g:m:9").to_hex().to_string());
    assert!(matches!(&import.statement, Statement::InsertFile(f, _) if f.size == 5));
    assert!(import.skill_md.contains("type: tensor"));
    assert!(matches!(
        plan_model_import(None, &s("b"), &model, "onnx", 9, 9),
        Err(e) if e == "Board not found"
    ));
    let skill = Skill { name: s("n"), version: None, author: None, kind: s("onnx"), capabilities: vec![s("c")] };
    let record = make_record(&skill, &s("id"), &s("b"), &s("f"), &md, s("h"), 3);
    assert_eq!(record.version, "0.1.0");
    assert_eq!(record.author, "local");
    let finish = |read: Result<Skill, String>| {
        finish_model_import(&import, &model, &s("onnx"), &s("id"), &s("c"), &s("b"), read, 9)
    };
    let failed = finish(Err(s("no name")));
    assert!(matches!(failed, Err(e) if e == "Skill parse failed: no name"));
    let done = finish(Ok(skill)).ok().unwrap();
    assert_eq!(done.statement, Statement::SetModel { board_id: s("b"), model: Some(s("m")) });
    assert_eq!(done.record.name, "n");
    assert_eq!(done.record.file_id, Some(import.file_id.clone()));
    assert_eq!(done.cell.model_name, "m");
    assert_eq!(done.cell.capabilities, vec![s("c")]);
    assert!(!done.cell.loaded);
}

#[test]
fn cells_hold_models() {
    let mut bridge = AIBridge::new();
    let input = parse_json(r#"{"prompt":"p"}"#).unwrap();
    assert_eq!(bridge.plan_inference("c", &input), Err(s("Model not registered")));
    bridge.register_model(CellModel {
        cell_id: s("c"),
        board_id: s("b"),
        model_id: s("m"),
        model_name: s("n"),
        model_kind: s("gguf"),
        file_id: None,
        capabilities: vec![s("x")],
        skill_md: None,
        model_path: s("/p"),
        loaded: false,
    });
    let run = bridge.plan_inference("c", &input).unwrap();
    assert_eq!((run.model, run.prompt), (s("n"), s("p")));
    let listed = bridge.list_models();
    assert_eq!(listed.len(), 1);
    assert_eq!(listed[0].capabilities, vec![s("x")]);
    bridge.unload_model("c");
    assert!(bridge.list_models().is_empty());
}

#[test]
fn a_cell_adopts_a_registered_model() {
    let skill = Skill {
        name: s("tiny"),
        version: None,
        author: None,
        kind: s("gguf"),
        capabilities: vec![s("text_generation")],
    };
    let record = make_record(&skill, &s("m"), &s("b"), &s("f"), &s("md"), s("hash"), 7);
    let mut bridge = AIBridge::new();
    bridge.adopt_record(&s("c"), &s("b"), &record, s("/models/tiny"));
    let model = bridge.cell_models.get("c").unwrap();
    assert_eq!(model.model_id, "m");
    assert_eq!(model.model_name, "tiny");
    assert_eq!(model.capabilities, vec![s("text_generation")]);
    assert_eq!(model.skill_md, Some(s("md")));
    assert_eq!(model.model_path, "/models/tiny");
    assert!(!model.loaded);
    assert_eq!(bridge.list_models().len(), 1);
}
