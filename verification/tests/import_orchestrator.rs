use cyan_backend::import_orchestrator::{
    build_kanban_markdown, confluence_page_to_markdown, count_query, extract_gdoc_text, fetch_query,
    import_all_confluence, import_all_google_docs, import_all_jira, import_confluence_space,
    import_google_doc, import_jira_project, import_progress, list_confluence_spaces, list_google_docs,
    list_jira_projects, load_integration_config, parse_string_or_array, project_keys, strip_tags,
    summarize,
    ConfigError, ConfluencePage, GoogleDoc, GoogleParagraph, ImportOutcome, ImportResult, JiraIssue,
};
use cyan_backend::ids::new_board_id;
use cyan_backend::json::{parse_json, Json};
use cyan_backend::model::SwiftEvent;

fn s(x: &str) -> String {
    x.to_string()
}

fn issue(key: &str, status: &str) -> JiraIssue {
    JiraIssue {
        key: s(key),
        summary: s("Sum"),
        status: s(status),
        assignee: None,
        priority: None,
        description: None,
    }
}

#[test]
fn a_board_shows_progress_and_statuses() {
    let mut first = issue("P-1", "In Progress");
    first.assignee = Some(s("Ann"));
    first.priority = Some(s("High"));
    first.description = Some(s("Line one\nline two"));
    let issues = vec![first, issue("P-2", "Waiting"), issue("P-3", "Done"), issue("P-4", "Blocked")];
    let md = build_kanban_markdown("P", &issues);
    let expected = "# P — Project Board\n\n\
        **Progress:** █████░░░░░░░░░░░░░░░ 1/4 (25%)\n\n\
        ---\n\n\
        ## 🔄 In Progress (1)\n\n\
        - [ ] **P-1**: Sum → Ann `High`\n  > Line one\n\n\
        ## ✅ Done (1)\n\n\
        - [x] **P-3**: Sum\n\n\
        ## 📋 Blocked (1)\n\n\
        - [ ] **P-4**: Sum\n\n\
        ## 📋 Waiting (1)\n\n\
        - [ ] **P-2**: Sum\n\n";
    assert_eq!(md, expected);
}

#[test]
fn long_or_empty_first_lines_are_not_quoted() {
    let mut a = issue("A", "Done");
    a.description = Some("x".repeat(120));
    let mut b = issue("B", "Done");
    b.description = Some("x".repeat(119));
    let mut c = issue("C", "Done");
    c.description = Some(s("\nrest"));
    let md = build_kanban_markdown("P", &vec![a, b, c]);
    assert_eq!(md.matches("  > ").count(), 1);
    assert!(md.contains("3/3 (100%)"));
    assert!(md.contains("████████████████████ "));
}

#[test]
fn a_project_becomes_one_board() {
    let none = import_jira_project("P", "w", &vec![]);
    assert!(none.board.is_none());
    assert_eq!(none.result.errors, vec![s("No issues found for project P")]);
    let one = import_jira_project("P", "w", &vec![issue("P-1", "To Do")]);
    let board = one.board.unwrap();
    assert_eq!(board.name, "📋 P — Kanban");
    assert_eq!(
        board.id,
        blake3::hash("wb:w-📋 P — Kanban".as_bytes()).to_hex().to_string()
    );
    assert!(board.notebook);
    assert!(none.progress.is_none());
    assert!(matches!(
        one.progress,
        Some(SwiftEvent::StatusUpdate { message })
            if message == "Imported 1 items into 1 boards from jira"
    ));
    assert_eq!(one.result.items_imported, 1);
    assert_eq!(count_query("P"), "project = P ORDER BY created DESC");
    assert_eq!(
        fetch_query("P"),
        "project = P ORDER BY status ASC, priority DESC, created DESC"
    );
}

#[test]
fn pages_lose_their_tags() {
    let page = ConfluencePage {
        title: s("T"),
        body: Some(s("<h1>Head</h1><p>a <strong>b</strong> <span class=\"x\">c</span></p><ul><li>i</li></ul>")),
    };
    assert_eq!(confluence_page_to_markdown(&page), "# T\n\n# Head\n\na **b** c\n- i\n");
    let empty = ConfluencePage { title: s("E"), body: None };
    assert_eq!(confluence_page_to_markdown(&empty), "# E\n\n\n");
    assert_eq!(strip_tags("a<b>c</b>d > e"), "acd  e");
    let done = import_confluence_space("w", &vec![page]);
    assert_eq!(done.boards[0].name, "📄 T");
    assert_eq!(done.boards[0].id, new_board_id("w", "📄 T"));
    assert!(!done.boards[0].notebook);
    assert_eq!(done.result.boards_created, 1);
    assert!(done.progress.is_some());
    assert!(import_confluence_space("w", &vec![]).progress.is_none());
}

#[test]
fn documents_are_joined_by_line() {
    let doc = GoogleDoc {
        title: s("D"),
        body: Some(vec![
            Some(GoogleParagraph { runs: vec![Some(s("a")), None, Some(s("b"))] }),
            None,
            Some(GoogleParagraph { runs: vec![] }),
            Some(GoogleParagraph { runs: vec![Some(s("c"))] }),
        ]),
    };
    assert_eq!(extract_gdoc_text(&doc), "ab\n\nc");
    let done = import_google_doc("w", &doc);
    assert_eq!(done.board.markdown, "# D\n\nab\n\nc");
    assert_eq!(done.board.id, new_board_id("w", "📄 D"));
    assert_eq!(done.result.items_imported, 1);
    assert!(done.progress.is_some());
    assert_eq!(extract_gdoc_text(&GoogleDoc { title: s("x"), body: None }), "");
}

#[test]
fn configurations_are_read() {
    let missing = load_integration_config(None, &s("jira"));
    assert_eq!(missing, Err(ConfigError::NotConfigured(s("jira"))));
    assert_eq!(
        ConfigError::NotConfigured(s("jira")).message(),
        "No jira integration configured. Right-click a workspace to add one."
    );
    assert_eq!(load_integration_config(Some(s("{")), &s("jira")), Err(ConfigError::Invalid));
    assert_eq!(ConfigError::Invalid.message(), "Invalid integration config");
    let c = load_integration_config(
        Some(s(r#"{"domain":"d","api_token":"t","spaces":"[\"A\",\"B\"]","document_ids":["x"]}"#)),
        &s("confluence"),
    )
    .unwrap();
    assert_eq!(c.domain, "d");
    assert_eq!(c.email, "");
    assert_eq!(c.token, "t");
    assert_eq!(c.projects, vec![s("A"), s("B")]);
    assert_eq!(c.document_ids, vec![s("x")]);
    assert_eq!(parse_string_or_array(Some(&Json::Text(s("solo")))), Some(vec![s("solo")]));
    assert_eq!(parse_string_or_array(Some(&Json::Text(s("")))), None);
    assert_eq!(parse_string_or_array(Some(&Json::Null)), None);
    assert_eq!(parse_string_or_array(None), None);
}

#[test]
fn lists_have_two_forms() {
    let array = parse_json(r#"["a","b"]"#).unwrap();
    let text = Json::Text(s(r#"["a","b"]"#));
    assert_eq!(parse_string_or_array(Some(&array)), Some(vec![s("a"), s("b")]));
    assert_eq!(parse_string_or_array(Some(&text)), parse_string_or_array(Some(&array)));
    assert_eq!(parse_string_or_array(Some(&Json::Text(s("[1]")))), Some(vec![s("[1]")]));
    assert_eq!(parse_string_or_array(Some(&Json::Text(s("[]")))), Some(vec![]));
}

#[test]
fn an_import_is_reported_if_it_made_a_board() {
    let result = |boards: usize| ImportResult {
        source: s("jira"),
        boards_created: boards,
        items_imported: 12,
        errors: vec![],
    };
    assert!(import_progress(&result(0)).is_none());
    assert!(matches!(
        import_progress(&result(2)),
        Some(SwiftEvent::StatusUpdate { message })
            if message == "Imported 12 items into 2 boards from jira"
    ));
}

#[test]
fn imports_add_up() {
    let ok = |boards: usize, items: usize| {
        Ok(ImportResult { source: s("jira"), boards_created: boards, items_imported: items, errors: vec![] })
    };
    let outcomes = vec![
        ImportOutcome { name: s("A"), result: ok(1, 5) },
        ImportOutcome { name: s("B"), result: Err(s("boom")) },
        ImportOutcome { name: s("C"), result: ok(1, 2) },
    ];
    let sum = summarize("jira", &outcomes);
    assert_eq!(sum.boards_created, 2);
    assert_eq!(sum.items_imported, 7);
    assert_eq!(sum.errors, vec![s("B: boom")]);
    assert_eq!(import_all_jira(&outcomes), sum);
    assert_eq!(import_all_confluence(&outcomes).source, "confluence");
    assert_eq!(import_all_google_docs(&outcomes).items_imported, 3);
}

#[test]
fn lists_of_what_can_be_imported() {
    let listed = list_confluence_spaces(&vec![s("K")]);
    assert_eq!(listed[0].key, "K");
    assert_eq!(listed[0].name, "K");
    let fetched = match parse_json(r#"[{"key":"A"},{"name":"x"},{"key":"B"}]"#) {
        Some(Json::Array(items)) => items,
        _ => panic!("no array"),
    };
    assert_eq!(project_keys(&vec![s("C")], &fetched), vec![s("C")]);
    let keys = project_keys(&vec![], &fetched);
    assert_eq!(keys, vec![s("A"), s("B")]);
    let projects = list_jira_projects(&keys, &vec![Some(4), None]);
    assert_eq!(projects[0].item_count, Some(4));
    assert_eq!(projects[1].item_count, None);
    let files = match parse_json(r#"[{"id":"1","name":"One"},{"id":"2"},{"name":"x"}]"#) {
        Some(Json::Array(items)) => items,
        _ => panic!("no array"),
    };
    let docs = list_google_docs(&files);
    assert_eq!(docs.len(), 1);
    assert_eq!(docs[0].name, "One");
}
