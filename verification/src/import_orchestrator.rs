//! Importing tickets, pages and documents of other tools as boards.

use crate::collections;
use crate::command;
use crate::discovery;
use crate::ids;
use crate::json;
use crate::json::Json;
use crate::model::{CommandMsg, SwiftEvent};
use crate::strings;
use crate::text;
use vstd::prelude::*;
use vstd::string::*;
use vstd::utf8::*;

verus! {

/// What an import did.
#[derive(Clone, Debug, PartialEq, Eq)]
pub struct ImportResult {
    pub source: String,
    pub boards_created: usize,
    pub items_imported: usize,
    pub errors: Vec<String>,
}

/// Something that can be imported.
#[derive(Clone, Debug, PartialEq, Eq)]
pub struct ImportableProject {
    pub key: String,
    pub name: String,
    pub item_count: Option<usize>,
}

/// How to reach an integration, and what to import from it.
#[derive(Clone, Debug, PartialEq, Eq)]
pub struct IntegrationConfig {
    pub domain: String,
    pub email: String,
    pub token: String,
    pub projects: Vec<String>,
    pub document_ids: Vec<String>,
}

/// The list that a value holds: an array of texts, a text that is a JSON array of texts, or a text
/// that is the only item. An empty text holds none.
pub open spec fn list_in(value: Option<Json>) -> Option<Seq<Seq<char>>> {
    match value {
        Some(Json::Array(items)) => Some(discovery::strings_of(items@)),
        Some(Json::Text(s)) => if s@.len() == 0 {
            None
        } else {
            match json::parsed_text_list(s@) {
                Some(items) => Some(items),
                None => Some(seq![s@]),
            }
        },
        _ => None,
    }
}

/// Whether a text is what `json::text_list_to_json` writes for a list.
pub open spec fn is_written_list(list: Seq<Seq<char>>, text: Seq<char>) -> bool {
    &&& text == json::text_list_json(list)
    &&& text.len() > 0
    &&& json::parsed_text_list(text) == Some(list)
}

/// Whether an array holds the texts of a list.
pub open spec fn is_array_of(list: Seq<Seq<char>>, items: Seq<Json>) -> bool {
    &&& items.len() == list.len()
    &&& forall|i: int|
        0 <= i < items.len() ==> ((#[trigger] items[i]) matches Json::Text(s) && s@ == list[i])
}

proof fn lemma_array_holds(list: Seq<Seq<char>>, items: Seq<Json>)
    requires
        is_array_of(list, items),
    ensures
        discovery::strings_of(items) == list,
    decreases items.len(),
{
    if items.len() > 0 {
        assert forall|i: int| 0 <= i < items.drop_last().len() implies ((
        #[trigger] items.drop_last()[i]) matches Json::Text(s) && s@ == list.drop_last()[i]) by {
            assert(items.drop_last()[i] == items[i]);
        }
        lemma_array_holds(list.drop_last(), items.drop_last());
        assert(items[items.len() - 1] is Text);
        assert(list =~= list.drop_last().push(list.last()));
    } else {
        assert(list =~= Seq::empty());
    }
}

/// A list of texts reads back as itself, given as an array and given as the text that the array is
/// written as.
pub proof fn lists_read_the_same_in_both_forms(
    list: Seq<Seq<char>>,
    items: Vec<Json>,
    text: String,
)
    requires
        is_array_of(list, items@),
        is_written_list(list, text@),
    ensures
        list_in(Some(Json::Array(items))) == Some(list),
        list_in(Some(Json::Text(text))) == Some(list),
{
    lemma_array_holds(list, items@);
}

/// Nothing but an array or a text that is not empty holds a list, and each of those does.
pub proof fn what_holds_a_list(value: Option<Json>)
    ensures
        list_in(value) is None <==> match value {
            Some(Json::Array(_)) => false,
            Some(Json::Text(s)) => s@.len() == 0,
            _ => true,
        },
{
}

/// Reads a value that is either an array or a text that stands for one.
pub fn parse_string_or_array(value: Option<&Json>) -> (r: Option<Vec<String>>)
    ensures
        match r {
            Some(items) => list_in(opt_json(value)) == Some(collections::texts(items@)),
            None => list_in(opt_json(value)) is None,
        },
{
    match value {
        Some(Json::Array(items)) => Some(discovery::collect_strings(items)),
        Some(Json::Text(s)) => if s.as_str().is_empty() {
            None
        } else {
            match json::text_list_from_json(s.as_str()) {
                Some(items) => Some(items),
                None => {
                    let mut items: Vec<String> = Vec::new();
                    items.push(s.clone());
                    assert(collections::texts(items@) =~= seq![s@]);
                    Some(items)
                },
            }
        },
        _ => None,
    }
}

/// The value behind an optional reference.
pub open spec fn opt_json(value: Option<&Json>) -> Option<Json> {
    match value {
        Some(v) => Some(*v),
        None => None,
    }
}

/// The first of two lists that is there, or none.
pub open spec fn list_or(a: Option<Seq<Seq<char>>>, b: Option<Seq<Seq<char>>>) -> Seq<Seq<char>> {
    match a {
        Some(items) => items,
        None => match b {
            Some(items) => items,
            None => Seq::empty(),
        },
    }
}

/// Whether a configuration is what a JSON object says. The token may go by several names, and the
/// projects may be called spaces.
pub open spec fn configures(json: Json, c: IntegrationConfig) -> bool {
    &&& c.domain@ == json.text_or("domain"@, Seq::empty())
    &&& c.email@ == json.text_or("email"@, Seq::empty())
    &&& c.token@ == json.text_or(
        "token"@,
        json.text_or("api_token"@, json.text_or("access_token"@, Seq::empty())),
    )
    &&& collections::texts(c.projects@) == list_or(
        list_in(json.member("projects"@)),
        list_in(json.member("spaces"@)),
    )
    &&& collections::texts(c.document_ids@) == list_or(
        list_in(json.member("document_ids"@)),
        None,
    )
}

/// Reads the configuration of an integration.
pub fn read_config(json: &Json) -> (r: IntegrationConfig)
    ensures
        configures(*json, r),
{
    proof {
        reveal_strlit("");
        assert(""@ =~= Seq::empty());
    }
    let access = json.get_text("access_token", "");
    let api = json.get_text("api_token", access.as_str());
    let projects = match parse_string_or_array(json.get("projects")) {
        Some(items) => items,
        None => match parse_string_or_array(json.get("spaces")) {
            Some(items) => items,
            None => {
                let none: Vec<String> = Vec::new();
                assert(collections::texts(none@) =~= Seq::empty());
                none
            },
        },
    };
    let document_ids = match parse_string_or_array(json.get("document_ids")) {
        Some(items) => items,
        None => {
            let none: Vec<String> = Vec::new();
            assert(collections::texts(none@) =~= Seq::empty());
            none
        },
    };
    IntegrationConfig {
        domain: json.get_text("domain", ""),
        email: json.get_text("email", ""),
        token: json.get_text("token", api.as_str()),
        projects,
        document_ids,
    }
}

/// Why an import could not start.
#[derive(Debug, PartialEq, Eq)]
pub enum ConfigError {
    /// No integration of this type is bound.
    NotConfigured(String),
    /// The stored configuration is not JSON.
    Invalid,
}

impl ConfigError {
    /// The reason in words.
    pub fn message(&self) -> (r: String)
        ensures
            r@ == match self {
                ConfigError::NotConfigured(kind) => "No "@ + kind@
                    + " integration configured. Right-click a workspace to add one."@,
                ConfigError::Invalid => "Invalid integration config"@,
            },
    {
        match self {
            ConfigError::NotConfigured(kind) => {
                let mut s = "No ".to_owned();
                s.append(kind.as_str());
                s.append(" integration configured. Right-click a workspace to add one.");
                s
            },
            ConfigError::Invalid => "Invalid integration config".to_owned(),
        }
    }
}

/// Reads the stored configuration of an integration, where one is bound.
pub fn load_integration_config(stored: Option<String>, integration_type: &String) -> (r: Result<
    IntegrationConfig,
    ConfigError,
>)
    ensures
        match stored {
            None => r == Err::<IntegrationConfig, ConfigError>(
                ConfigError::NotConfigured(*integration_type),
            ),
            Some(text) => match json::parsed_json(text@) {
                None => r == Err::<IntegrationConfig, ConfigError>(ConfigError::Invalid),
                Some(json) => r matches Ok(c) && configures(json, c),
            },
        },
{
    match stored {
        None => Err(ConfigError::NotConfigured(integration_type.clone())),
        Some(text) => match json::parse_json(text.as_str()) {
            None => Err(ConfigError::Invalid),
            Some(json) => Ok(read_config(&json)),
        },
    }
}

/// A ticket of an issue tracker.
#[derive(Clone, Debug, PartialEq, Eq)]
pub struct JiraIssue {
    pub key: String,
    pub summary: String,
    pub status: String,
    pub assignee: Option<String>,
    pub priority: Option<String>,
    pub description: Option<String>,
}

/// The query that counts the tickets of a project.
pub fn count_query(key: &str) -> (r: String)
    ensures
        r@ == "project = "@ + key@ + " ORDER BY created DESC"@,
{
    let mut s = "project = ".to_owned();
    s.append(key);
    s.append(" ORDER BY created DESC");
    s
}

/// The query that fetches the tickets of a project.
pub fn fetch_query(key: &str) -> (r: String)
    ensures
        r@ == "project = "@ + key@ + " ORDER BY status ASC, priority DESC, created DESC"@,
{
    let mut s = "project = ".to_owned();
    s.append(key);
    s.append(" ORDER BY status ASC, priority DESC, created DESC");
    s
}

/// Whether a status means that a ticket is done.
pub open spec fn means_done(status: Seq<char>) -> bool {
    let s = strings::lowercase(status);
    strings::has_part(s, "done"@) || strings::has_part(s, "closed"@) || strings::has_part(
        s,
        "resolved"@,
    )
}

/// Whether a status means that a ticket is being worked on.
pub open spec fn means_active(status: Seq<char>) -> bool {
    let s = strings::lowercase(status);
    strings::has_part(s, "progress"@) || strings::has_part(s, "review"@)
}

/// Whether the lower case of a text is that of its characters, as it is of every ASCII text.
pub open spec fn lowers_plainly(s: Seq<char>) -> bool {
    is_ascii_chars(s) ==> strings::lowercase(s) == s.map_values(|c: char| strings::ascii_lower(c))
}

fn is_done(status: &str) -> (r: bool)
    ensures
        r == means_done(status@),
        lowers_plainly(status@),
{
    let s = strings::to_lower(status);
    strings::contains(s.as_str(), "done") || strings::contains(s.as_str(), "closed")
        || strings::contains(s.as_str(), "resolved")
}

fn is_active(status: &str) -> (r: bool)
    ensures
        r == means_active(status@),
{
    let s = strings::to_lower(status);
    strings::contains(s.as_str(), "progress") || strings::contains(s.as_str(), "review")
}

/// How many tickets are done.
pub open spec fn done_in(issues: Seq<JiraIssue>) -> nat
    decreases issues.len(),
{
    if issues.len() == 0 {
        0
    } else {
        done_in(issues.drop_last()) + if means_done(issues.last().status@) {
            1nat
        } else {
            0nat
        }
    }
}

fn count_done(issues: &Vec<JiraIssue>) -> (r: usize)
    ensures
        r == done_in(issues@),
        r <= issues@.len(),
        forall|i: int| 0 <= i < issues@.len() ==> lowers_plainly((#[trigger] issues@[i]).status@),
{
    let mut count: usize = 0;
    let mut i: usize = 0;
    while i < issues.len()
        invariant
            i <= issues@.len(),
            count <= i,
            count == done_in(issues@.take(i as int)),
            forall|k: int| 0 <= k < i ==> lowers_plainly((#[trigger] issues@[k]).status@),
        decreases issues.len() - i,
    {
        assert(issues@.take(i + 1).drop_last() =~= issues@.take(i as int));
        if is_done(issues[i].status.as_str()) {
            count = count + 1;
        }
        i = i + 1;
    }
    assert(issues@.take(i as int) =~= issues@);
    count
}

/// The percentage of a part, rounded down; none of nothing.
pub open spec fn percent(part: nat, whole: nat) -> nat {
    if whole == 0 {
        0
    } else {
        (part * 100) / whole
    }
}

fn percentage(part: usize, whole: usize) -> (r: usize)
    requires
        part <= whole,
    ensures
        r == percent(part as nat, whole as nat),
        r <= 100,
{
    if whole == 0 {
        return 0;
    }
    let p: u128 = part as u128 * 100;
    let q: u128 = p / (whole as u128);
    proof {
        assert(p <= 100 * (whole as u128));
        assert(q <= 100) by (nonlinear_arith)
            requires
                q == p / (whole as u128),
                p <= 100 * (whole as u128),
                whole > 0,
        ;
    }
    q as usize
}

/// A text repeated some times.
pub open spec fn times(s: Seq<char>, n: nat) -> Seq<char>
    decreases n,
{
    if n == 0 {
        Seq::empty()
    } else {
        times(s, (n - 1) as nat) + s
    }
}

fn append_times(out: &mut String, s: &str, n: usize)
    ensures
        final(out)@ == old(out)@ + times(s@, n as nat),
{
    let ghost before = out@;
    let mut i: usize = 0;
    assert(out@ =~= before + times(s@, 0));
    while i < n
        invariant
            i <= n,
            out@ == before + times(s@, i as nat),
        decreases n - i,
    {
        out.append(s);
        assert(out@ =~= before + (times(s@, i as nat) + s@));
        i = i + 1;
    }
}

/// The bar that shows a percentage in twenty steps.
pub open spec fn progress_bar(pct: nat) -> Seq<char> {
    times("█"@, pct / 5) + times("░"@, (20 - pct / 5) as nat)
}

/// The emblem of a status.
pub open spec fn emblem(status: Seq<char>) -> Seq<char> {
    if means_done(status) {
        "✅"@
    } else if means_active(status) {
        "🔄"@
    } else {
        "📋"@
    }
}

/// An optional part of a line.
pub open spec fn optional(before: Seq<char>, value: Option<String>, after: Seq<char>) -> Seq<char> {
    match value {
        Some(v) => before + v@ + after,
        None => Seq::empty(),
    }
}

/// The quotation of a description: its first line, unless that is empty or takes 120 bytes or more.
pub open spec fn quotation(description: Option<String>) -> Seq<char> {
    match description {
        Some(d) => {
            let line = strings::first_line_of(d@);
            if line.len() > 0 && encode_utf8(line).len() < 120 {
                "  > "@ + line + "\n"@
            } else {
                Seq::empty()
            }
        },
        None => Seq::empty(),
    }
}

/// The lines of one ticket in a section.
pub open spec fn ticket_lines(done: bool, issue: JiraIssue) -> Seq<char> {
    "- ["@ + (if done {
        "x"@
    } else {
        " "@
    }) + "] **"@ + issue.key@ + "**: "@ + issue.summary@ + optional(" → "@, issue.assignee, ""@)
        + optional(" `"@, issue.priority, "`"@) + "\n"@ + quotation(issue.description)
}

/// The tickets of one status, in order.
pub open spec fn of_status(issues: Seq<JiraIssue>, status: Seq<char>) -> Seq<JiraIssue>
    decreases issues.len(),
{
    if issues.len() == 0 {
        Seq::empty()
    } else {
        let before = of_status(issues.drop_last(), status);
        if issues.last().status@ == status {
            before.push(issues.last())
        } else {
            before
        }
    }
}

/// The lines of some tickets.
pub open spec fn all_lines(done: bool, issues: Seq<JiraIssue>) -> Seq<char>
    decreases issues.len(),
{
    if issues.len() == 0 {
        Seq::empty()
    } else {
        all_lines(done, issues.drop_last()) + ticket_lines(done, issues.last())
    }
}

/// The section of one status.
pub open spec fn section(issues: Seq<JiraIssue>, status: Seq<char>) -> Seq<char> {
    let mine = of_status(issues, status);
    "## "@ + emblem(status) + " "@ + status + " ("@ + text::decimal(mine.len()) + ")\n\n"@
        + all_lines(means_done(status), mine) + "\n"@
}

fn append_ticket(md: &mut String, done: bool, issue: &JiraIssue)
    ensures
        final(md)@ == old(md)@ + ticket_lines(done, *issue),
{
    let ghost start = md@;
    let mut s = "- [".to_owned();
    if done {
        s.append("x");
    } else {
        s.append(" ");
    }
    s.append("] **");
    s.append(issue.key.as_str());
    s.append("**: ");
    s.append(issue.summary.as_str());
    let ghost base = s@;
    proof {
        reveal_strlit("");
        assert(""@ =~= Seq::empty());
    }
    match &issue.assignee {
        Some(a) => {
            s.append(" → ");
            s.append(a.as_str());
        },
        None => {},
    }
    assert(s@ =~= base + optional(" → "@, issue.assignee, ""@));
    let ghost assigned = s@;
    match &issue.priority {
        Some(p) => {
            s.append(" `");
            s.append(p.as_str());
            s.append("`");
        },
        None => {},
    }
    assert(s@ =~= assigned + optional(" `"@, issue.priority, "`"@));
    s.append("\n");
    let ghost line = s@;
    match &issue.description {
        Some(d) => {
            let first = strings::first_line(d.as_str());
            if !first.as_str().is_empty() && first.as_str().as_bytes().len() < 120 {
                s.append("  > ");
                s.append(first.as_str());
                s.append("\n");
            }
        },
        None => {},
    }
    assert(s@ =~= line + quotation(issue.description));
    md.append(s.as_str());
}

/// Writes the section of one status.
pub fn render_status_section(md: &mut String, status: &str, issues: &Vec<JiraIssue>)
    ensures
        final(md)@ == old(md)@ + section(issues@, status@),
{
    let ghost start = md@;
    let done = is_done(status);
    let mut lines = String::new();
    let mut count: usize = 0;
    let mut i: usize = 0;
    while i < issues.len()
        invariant
            i <= issues@.len(),
            count <= i,
            done == means_done(status@),
            count == of_status(issues@.take(i as int), status@).len(),
            lines@ == all_lines(done, of_status(issues@.take(i as int), status@)),
        decreases issues.len() - i,
    {
        let ghost before = of_status(issues@.take(i as int), status@);
        assert(issues@.take(i + 1).drop_last() =~= issues@.take(i as int));
        if text::str_eq(issues[i].status.as_str(), status) {
            append_ticket(&mut lines, done, &issues[i]);
            count = count + 1;
            assert(before.push(issues@[i as int]).drop_last() =~= before);
        }
        i = i + 1;
    }
    assert(issues@.take(i as int) =~= issues@);
    let mut s = "## ".to_owned();
    if done {
        s.append("✅");
    } else if is_active(status) {
        s.append("🔄");
    } else {
        s.append("📋");
    }
    s.append(" ");
    s.append(status);
    s.append(" (");
    s.append(text::u64_text(count as u64).as_str());
    s.append(")\n\n");
    s.append(lines.as_str());
    s.append("\n");
    md.append(s.as_str());
}

/// The statuses that come first, in their order.
pub open spec fn known_statuses() -> Seq<Seq<char>> {
    seq!["To Do"@, "In Progress"@, "In Review"@, "Done"@, "Closed"@, "Resolved"@]
}

/// Whether some ticket has a status.
pub open spec fn occurs(issues: Seq<JiraIssue>, status: Seq<char>) -> bool {
    exists|i: int| 0 <= i < issues.len() && (#[trigger] issues[i]).status@ == status
}

/// The known statuses that occur, in their order.
pub open spec fn occurring(issues: Seq<JiraIssue>, known: Seq<Seq<char>>) -> Seq<Seq<char>>
    decreases known.len(),
{
    if known.len() == 0 {
        Seq::empty()
    } else {
        let before = occurring(issues, known.drop_last());
        if occurs(issues, known.last()) {
            before.push(known.last())
        } else {
            before
        }
    }
}

/// Whether texts are in ascending order, without repetition.
pub open spec fn ascending(s: Seq<Seq<char>>) -> bool {
    forall|i: int, j: int|
        0 <= i < j < s.len() ==> strings::text_before(#[trigger] s[i], #[trigger] s[j])
}

/// Whether `rest` lists the statuses that occur and are not known, in ascending order.
pub open spec fn other_statuses(issues: Seq<JiraIssue>, rest: Seq<Seq<char>>) -> bool {
    &&& ascending(rest)
    &&& forall|s: Seq<char>|
        #![trigger rest.contains(s)]
        rest.contains(s) <==> occurs(issues, s) && !known_statuses().contains(s)
}

/// The sections of some statuses.
pub open spec fn sections(issues: Seq<JiraIssue>, statuses: Seq<Seq<char>>) -> Seq<char>
    decreases statuses.len(),
{
    if statuses.len() == 0 {
        Seq::empty()
    } else {
        sections(issues, statuses.drop_last()) + section(issues, statuses.last())
    }
}

/// The head of a board: the project and its progress.
pub open spec fn kanban_head(key: Seq<char>, done: nat, total: nat) -> Seq<char> {
    "# "@ + key + " — Project Board\n\n"@ + "**Progress:** "@ + progress_bar(percent(done, total))
        + " "@ + text::decimal(done) + "/"@ + text::decimal(total) + " ("@ + text::decimal(
        percent(done, total),
    ) + "%)\n\n"@ + "---\n\n"@
}

/// Whether a text is the board of a project.
pub open spec fn is_kanban(key: Seq<char>, issues: Seq<JiraIssue>, md: Seq<char>) -> bool {
    exists|rest: Seq<Seq<char>>|
        #[trigger] other_statuses(issues, rest) && md == kanban_head(
            key,
            done_in(issues),
            issues.len(),
        ) + sections(issues, occurring(issues, known_statuses())) + sections(issues, rest)
}

fn status_occurs(issues: &Vec<JiraIssue>, status: &str) -> (r: bool)
    ensures
        r == occurs(issues@, status@),
{
    let mut i: usize = 0;
    while i < issues.len()
        invariant
            i <= issues@.len(),
            forall|j: int| 0 <= j < i ==> (#[trigger] issues@[j]).status@ != status@,
        decreases issues.len() - i,
    {
        if text::str_eq(issues[i].status.as_str(), status) {
            return true;
        }
        i = i + 1;
    }
    false
}

fn is_known(status: &str) -> (r: bool)
    ensures
        r == known_statuses().contains(status@),
{
    let r = text::str_eq(status, "To Do") || text::str_eq(status, "In Progress") || text::str_eq(
        status,
        "In Review",
    ) || text::str_eq(status, "Done") || text::str_eq(status, "Closed") || text::str_eq(
        status,
        "Resolved",
    );
    proof {
        let k = known_statuses();
        assert(k[0] == "To Do"@ && k[1] == "In Progress"@ && k[2] == "In Review"@ && k[3]
            == "Done"@ && k[4] == "Closed"@ && k[5] == "Resolved"@);
        assert(k.len() == 6);
    }
    r
}

proof fn lemma_before_chain(a: Seq<u8>, b: Seq<u8>, c: Seq<u8>)
    requires
        strings::bytes_before(a, b),
        strings::bytes_before(b, c),
    ensures
        strings::bytes_before(a, c),
    decreases a.len(),
{
    if a.len() > 0 && b.len() > 0 && c.len() > 0 && a[0] == b[0] && b[0] == c[0] {
        lemma_before_chain(a.drop_first(), b.drop_first(), c.drop_first());
    }
}

/// Puts a status into an ascending list, unless it is there.
fn insert_status(list: &mut Vec<String>, status: &String)
    requires
        ascending(collections::texts(old(list)@)),
    ensures
        ascending(collections::texts(final(list)@)),
        forall|s: Seq<char>|
            #![trigger collections::texts(final(list)@).contains(s)]
            collections::texts(final(list)@).contains(s) <==> collections::texts(
                old(list)@,
            ).contains(s) || s == status@,
{
    let ghost start = collections::texts(list@);
    let mut i: usize = 0;
    while i < list.len() && strings::before(list[i].as_str(), status.as_str())
        invariant
            i <= list@.len(),
            start == collections::texts(list@),
            forall|j: int| 0 <= j < i ==> strings::text_before(#[trigger] start[j], status@),
        decreases list.len() - i,
    {
        assert(start[i as int] == list@[i as int]@);
        i = i + 1;
    }
    if i < list.len() && text::str_eq(list[i].as_str(), status.as_str()) {
        assert(start[i as int] == status@);
        return;
    }
    let ghost at_i = i as int;
    proof {
        if i < list@.len() {
            assert(start[at_i] == list@[at_i]@);
            encode_utf8_decode_utf8(start[at_i]);
            encode_utf8_decode_utf8(status@);
            assert(encode_utf8(start[at_i]) != encode_utf8(status@));
            strings::bytes_are_ordered(encode_utf8(start[at_i]), encode_utf8(status@));
            assert(strings::text_before(status@, start[at_i]));
        }
    }
    list.insert(i, status.clone());
    proof {
        let end = collections::texts(list@);
        assert(end =~= start.insert(at_i, status@));
        assert forall|a: int, b: int|
            0 <= a < b < end.len() implies strings::text_before(#[trigger] end[a], #[trigger] end[b]) by {
            if a < at_i && b < at_i {
                assert(end[a] == start[a] && end[b] == start[b]);
            } else if a < at_i && b == at_i {
                assert(end[a] == start[a]);
            } else if a < at_i {
                assert(end[a] == start[a] && end[b] == start[b - 1]);
            } else if a == at_i {
                assert(end[b] == start[b - 1]);
                if b - 1 > at_i {
                    assert(strings::text_before(start[at_i], start[b - 1]));
                    lemma_before_chain(
                        encode_utf8(status@),
                        encode_utf8(start[at_i]),
                        encode_utf8(start[b - 1]),
                    );
                }
            } else {
                assert(end[a] == start[a - 1] && end[b] == start[b - 1]);
            }
        }
        assert forall|s: Seq<char>|
            #![trigger end.contains(s)]
            end.contains(s) <==> start.contains(s) || s == status@ by {
            if end.contains(s) {
                let k = choose|k: int| 0 <= k < end.len() && end[k] == s;
                if k < at_i {
                    assert(start[k] == s);
                } else if k > at_i {
                    assert(start[k - 1] == s);
                }
            }
            if start.contains(s) {
                let k = choose|k: int| 0 <= k < start.len() && start[k] == s;
                let m = if k < at_i {
                    k
                } else {
                    k + 1
                };
                assert(end[m] == s);
            }
            assert(end[at_i] == status@);
        }
    }
}

fn collect_others(issues: &Vec<JiraIssue>) -> (r: Vec<String>)
    ensures
        other_statuses(issues@, collections::texts(r@)),
{
    let mut list: Vec<String> = Vec::new();
    let mut i: usize = 0;
    assert(collections::texts(list@) =~= Seq::empty());
    while i < issues.len()
        invariant
            i <= issues@.len(),
            other_statuses(issues@.take(i as int), collections::texts(list@)),
        decreases issues.len() - i,
    {
        let ghost before = collections::texts(list@);
        let ghost here = issues@[i as int].status@;
        if !is_known(issues[i].status.as_str()) {
            insert_status(&mut list, &issues[i].status);
        }
        proof {
            let now = collections::texts(list@);
            let a = issues@.take(i as int);
            let b = issues@.take(i + 1);
            assert forall|s: Seq<char>|
                #![trigger now.contains(s)]
                now.contains(s) <==> occurs(b, s) && !known_statuses().contains(s) by {
                assert(occurs(b, s) <==> occurs(a, s) || s == here) by {
                    if occurs(b, s) {
                        let k = choose|k: int| 0 <= k < b.len() && (#[trigger] b[k]).status@ == s;
                        if k < i {
                            assert(a[k].status@ == s);
                        }
                    }
                    if occurs(a, s) {
                        let k = choose|k: int| 0 <= k < a.len() && (#[trigger] a[k]).status@ == s;
                        assert(b[k].status@ == s);
                    }
                    assert(b[i as int].status@ == here);
                }
                assert(before.contains(s) <==> occurs(a, s) && !known_statuses().contains(s));
            }
        }
        i = i + 1;
    }
    assert(issues@.take(i as int) =~= issues@);
    list
}

/// Writes the board of a project: its progress, then the tickets by status, the known statuses
/// first and the others in ascending order.
pub fn build_kanban_markdown(project_key: &str, issues: &Vec<JiraIssue>) -> (r: String)
    ensures
        is_kanban(project_key@, issues@, r@),
        forall|i: int| 0 <= i < issues@.len() ==> lowers_plainly((#[trigger] issues@[i]).status@),
{
    let done = count_done(issues);
    let total: usize = issues.len();
    let pct = percentage(done, total);
    let mut md = "# ".to_owned();
    md.append(project_key);
    md.append(" — Project Board\n\n");
    md.append("**Progress:** ");
    let ghost titled = md@;
    append_times(&mut md, "█", pct / 5);
    append_times(&mut md, "░", 20 - pct / 5);
    assert(md@ =~= titled + progress_bar(pct as nat));
    md.append(" ");
    md.append(text::u64_text(done as u64).as_str());
    md.append("/");
    md.append(text::u64_text(total as u64).as_str());
    md.append(" (");
    md.append(text::u64_text(pct as u64).as_str());
    md.append("%)\n\n");
    md.append("---\n\n");
    let ghost head = kanban_head(project_key@, done_in(issues@), issues@.len());
    assert(md@ =~= head);
    let known: [&str; 6] = ["To Do", "In Progress", "In Review", "Done", "Closed", "Resolved"];
    let ghost names = known_statuses();
    let mut i: usize = 0;
    assert(md@ =~= head + sections(issues@, occurring(issues@, names.take(0))));
    while i < 6
        invariant
            i <= 6,
            names == known_statuses(),
            known@ == seq!["To Do", "In Progress", "In Review", "Done", "Closed", "Resolved"],
            md@ == head + sections(issues@, occurring(issues@, names.take(i as int))),
        decreases 6 - i,
    {
        let ghost before = md@;
        let ghost done_names = occurring(issues@, names.take(i as int));
        assert(names.take(i + 1).drop_last() =~= names.take(i as int));
        let name: &str = known[i];
        assert(name@ == names[i as int]);
        if status_occurs(issues, name) {
            render_status_section(&mut md, name, issues);
            proof {
                assert(done_names.push(name@).drop_last() =~= done_names);
                assert(md@ =~= head + (sections(issues@, done_names) + section(issues@, name@)));
            }
        }
        i = i + 1;
    }
    assert(names.take(6) =~= names);
    let ghost first = md@;
    let others = collect_others(issues);
    let ghost rest = collections::texts(others@);
    let mut k: usize = 0;
    assert(md@ =~= first + sections(issues@, rest.take(0)));
    while k < others.len()
        invariant
            k <= others@.len(),
            rest == collections::texts(others@),
            md@ == first + sections(issues@, rest.take(k as int)),
        decreases others.len() - k,
    {
        assert(rest.take(k + 1).drop_last() =~= rest.take(k as int));
        assert(rest.take(k + 1).last() == others@[k as int]@);
        render_status_section(&mut md, others[k].as_str(), issues);
        assert(md@ =~= first + (sections(issues@, rest.take(k as int)) + section(
            issues@,
            others@[k as int]@,
        )));
        k = k + 1;
    }
    assert(rest.take(k as int) =~= rest);
    assert(other_statuses(issues@, rest));
    md
}

proof fn lemma_occurring(issues: Seq<JiraIssue>, known: Seq<Seq<char>>)
    ensures
        forall|s: Seq<char>|
            #![trigger occurring(issues, known).contains(s)]
            occurring(issues, known).contains(s) <==> known.contains(s) && occurs(issues, s),
        known.no_duplicates() ==> occurring(issues, known).no_duplicates(),
    decreases known.len(),
{
    if known.len() > 0 {
        let rest = known.drop_last();
        let last = known.last();
        lemma_occurring(issues, rest);
        let before = occurring(issues, rest);
        assert(known =~= rest.push(last));
        assert forall|s: Seq<char>| #![trigger occurring(issues, known).contains(s)]
            occurring(issues, known).contains(s) <==> known.contains(s) && occurs(issues, s) by {
            assert(rest.push(last).contains(s) <==> rest.contains(s) || s == last) by {
                if rest.contains(s) {
                    let k = choose|k: int| 0 <= k < rest.len() && rest[k] == s;
                    assert(rest.push(last)[k] == s);
                }
                if s == last {
                    assert(rest.push(last)[rest.len() as int] == s);
                }
            }
            assert(before.push(last).contains(s) <==> before.contains(s) || s == last) by {
                if before.contains(s) {
                    let k = choose|k: int| 0 <= k < before.len() && before[k] == s;
                    assert(before.push(last)[k] == s);
                }
                if s == last {
                    assert(before.push(last)[before.len() as int] == s);
                }
            }
        }
        if known.no_duplicates() {
            assert(rest.no_duplicates());
            assert(!rest.contains(last)) by {
                if rest.contains(last) {
                    let k = choose|k: int| 0 <= k < rest.len() && rest[k] == last;
                    assert(known[k] == known[known.len() - 1]);
                }
            }
            assert(!before.contains(last));
            assert(before.push(last).no_duplicates()) by {
                assert forall|a: int, b: int|
                    0 <= a < before.len() + 1 && 0 <= b < before.len() + 1 && a
                        != b implies before.push(last)[a] != before.push(last)[b] by {
                    if a < before.len() {
                        assert(before.contains(before[a]));
                    }
                    if b < before.len() {
                        assert(before.contains(before[b]));
                    }
                }
            }
        }
    }
}

/// Each ticket of a project is in one section of its board: its status is among the known ones or
/// among the others, not both, and no status has two sections.
pub proof fn every_ticket_has_one_section(issues: Seq<JiraIssue>, rest: Seq<Seq<char>>)
    requires
        other_statuses(issues, rest),
    ensures
        occurring(issues, known_statuses()).no_duplicates(),
        rest.no_duplicates(),
        forall|i: int|
            0 <= i < issues.len() ==> occurring(issues, known_statuses()).contains(
                (#[trigger] issues[i]).status@,
            ) != rest.contains(issues[i].status@),
{
    reveal_strlit("To Do");
    reveal_strlit("In Progress");
    reveal_strlit("In Review");
    reveal_strlit("Done");
    reveal_strlit("Closed");
    reveal_strlit("Resolved");
    let k = known_statuses();
    assert(k[0].len() == 5 && k[1].len() == 11 && k[2].len() == 9 && k[3].len() == 4 && k[4].len()
        == 6 && k[5].len() == 8);
    assert forall|i: int, j: int| 0 <= i < k.len() && 0 <= j < k.len() && i != j implies k[i]
        != k[j] by {
        assert(k[i].len() != k[j].len());
    }
    lemma_occurring(issues, known_statuses());
    assert forall|i: int, j: int|
        0 <= i < rest.len() && 0 <= j < rest.len() && i != j implies rest[i] != rest[j] by {
        strings::bytes_are_ordered(encode_utf8(rest[i]), encode_utf8(rest[i]));
        if i < j {
            assert(strings::text_before(rest[i], rest[j]));
        } else {
            assert(strings::text_before(rest[j], rest[i]));
        }
    }
    assert forall|i: int| 0 <= i < issues.len() implies occurring(
        issues,
        known_statuses(),
    ).contains((#[trigger] issues[i]).status@) != rest.contains(issues[i].status@) by {
        assert(occurs(issues, issues[i].status@));
    }
}

/// A board that an import creates: it is created first, then it gets one cell with the content, and
/// where `notebook` is set it is then shown as a notebook.
pub struct ImportedBoard {
    pub id: String,
    pub name: String,
    pub markdown: String,
    pub notebook: bool,
}

/// What an import writes goes to the board that it creates: the command that creates a board of
/// that name in the workspace gives it the identifier that the import uses.
pub proof fn imports_fill_the_board_they_create(
    b: ImportedBoard,
    workspace_id: String,
    clock: Seq<char>,
)
    requires
        b.id@ == ids::board_id(workspace_id@, b.name@),
    ensures
        command::created_id(CommandMsg::CreateBoard { workspace_id, name: b.name }, clock) == b.id@,
{
}

/// How an import is reported.
pub open spec fn report(result: ImportResult) -> Seq<char> {
    "Imported "@ + text::int_text(result.items_imported as int) + " items into "@ + text::int_text(
        result.boards_created as int,
    ) + " boards from "@ + result.source@
}

/// Whether the user interface hears of an import: of one that created a board, and of no other.
pub open spec fn is_reported(result: ImportResult, event: Option<SwiftEvent>) -> bool {
    match event {
        Some(SwiftEvent::StatusUpdate { message }) => result.boards_created > 0 && message@
            == report(result),
        Some(_) => false,
        None => result.boards_created == 0,
    }
}

/// What the user interface hears of an import.
pub fn import_progress(result: &ImportResult) -> (r: Option<SwiftEvent>)
    ensures
        is_reported(*result, r),
{
    if result.boards_created == 0 {
        return None;
    }
    let mut message = "Imported ".to_owned();
    message.append(text::u64_text(result.items_imported as u64).as_str());
    message.append(" items into ");
    message.append(text::u64_text(result.boards_created as u64).as_str());
    message.append(" boards from ");
    message.append(result.source.as_str());
    Some(SwiftEvent::StatusUpdate { message })
}

/// What importing a project does.
pub struct ProjectImport {
    pub board: Option<ImportedBoard>,
    pub result: ImportResult,
    /// Shown once the board is created.
    pub progress: Option<SwiftEvent>,
}

/// Imports the tickets of a project as one board; a project without tickets gives none.
pub fn import_jira_project(project_key: &str, workspace_id: &str, issues: &Vec<JiraIssue>) -> (r:
    ProjectImport)
    ensures
        r.result.source@ == "jira"@,
        is_reported(r.result, r.progress),
        r.progress is Some <==> r.board is Some,
        if issues@.len() == 0 {
            &&& r.board is None
            &&& r.result.boards_created == 0
            &&& r.result.items_imported == 0
            &&& collections::texts(r.result.errors@) == seq![
                "No issues found for project "@ + project_key@,
            ]
        } else {
            &&& r.board matches Some(b)
            &&& b.name@ == "📋 "@ + project_key@ + " — Kanban"@
            &&& b.id@ == ids::board_id(workspace_id@, b.name@)
            &&& is_kanban(project_key@, issues@, b.markdown@)
            &&& b.notebook
            &&& r.result.boards_created == 1
            &&& r.result.items_imported == issues@.len()
            &&& r.result.errors@ == Seq::<String>::empty()
        },
{
    if issues.len() == 0 {
        let mut e = "No issues found for project ".to_owned();
        e.append(project_key);
        let mut errors: Vec<String> = Vec::new();
        errors.push(e);
        assert(collections::texts(errors@) =~= seq![
            "No issues found for project "@ + project_key@,
        ]);
        return ProjectImport {
            board: None,
            result: ImportResult {
                source: "jira".to_owned(),
                boards_created: 0,
                items_imported: 0,
                errors,
            },
            progress: None,
        };
    }
    let mut name = "📋 ".to_owned();
    name.append(project_key);
    name.append(" — Kanban");
    let id = ids::new_board_id(workspace_id, name.as_str());
    let markdown = build_kanban_markdown(project_key, issues);
    let result = ImportResult {
        source: "jira".to_owned(),
        boards_created: 1,
        items_imported: issues.len(),
        errors: Vec::new(),
    };
    let progress = import_progress(&result);
    ProjectImport {
        board: Some(ImportedBoard { id, name, markdown, notebook: true }),
        result,
        progress,
    }
}

/// A page of a wiki; the body is HTML.
pub struct ConfluencePage {
    pub title: String,
    pub body: Option<String>,
}

/// HTML with the tags replaced that have a counterpart in Markdown, one after another.
pub open spec fn tags_replaced(html: Seq<char>) -> Seq<char> {
    let s = strings::replaced(html, "<p>"@, "\n"@);
    let s = strings::replaced(s, "</p>"@, "\n"@);
    let s = strings::replaced(s, "<br>"@, "\n"@);
    let s = strings::replaced(s, "<br/>"@, "\n"@);
    let s = strings::replaced(s, "<strong>"@, "**"@);
    let s = strings::replaced(s, "</strong>"@, "**"@);
    let s = strings::replaced(s, "<em>"@, "_"@);
    let s = strings::replaced(s, "</em>"@, "_"@);
    let s = strings::replaced(s, "<h1>"@, "# "@);
    let s = strings::replaced(s, "</h1>"@, "\n"@);
    let s = strings::replaced(s, "<h2>"@, "## "@);
    let s = strings::replaced(s, "</h2>"@, "\n"@);
    let s = strings::replaced(s, "<h3>"@, "### "@);
    let s = strings::replaced(s, "</h3>"@, "\n"@);
    let s = strings::replaced(s, "<li>"@, "- "@);
    let s = strings::replaced(s, "</li>"@, "\n"@);
    let s = strings::replaced(s, "<ul>"@, ""@);
    let s = strings::replaced(s, "</ul>"@, "\n"@);
    let s = strings::replaced(s, "<ol>"@, ""@);
    let s = strings::replaced(s, "</ol>"@, "\n"@);
    let s = strings::replaced(s, "<code>"@, "`"@);
    strings::replaced(s, "</code>"@, "`"@)
}

fn replace_tags(html: &str) -> (r: String)
    ensures
        r@ == tags_replaced(html@),
{
    proof {
        reveal_strlit("<p>");
        reveal_strlit("</p>");
        reveal_strlit("<br>");
        reveal_strlit("<br/>");
        reveal_strlit("<strong>");
        reveal_strlit("</strong>");
        reveal_strlit("<em>");
        reveal_strlit("</em>");
        reveal_strlit("<h1>");
        reveal_strlit("</h1>");
        reveal_strlit("<h2>");
        reveal_strlit("</h2>");
        reveal_strlit("<h3>");
        reveal_strlit("</h3>");
        reveal_strlit("<li>");
        reveal_strlit("</li>");
        reveal_strlit("<ul>");
        reveal_strlit("</ul>");
        reveal_strlit("<ol>");
        reveal_strlit("</ol>");
        reveal_strlit("<code>");
        reveal_strlit("</code>");
    }
    let s = strings::replace(html, "<p>", "\n");
    let s = strings::replace(s.as_str(), "</p>", "\n");
    let s = strings::replace(s.as_str(), "<br>", "\n");
    let s = strings::replace(s.as_str(), "<br/>", "\n");
    let s = strings::replace(s.as_str(), "<strong>", "**");
    let s = strings::replace(s.as_str(), "</strong>", "**");
    let s = strings::replace(s.as_str(), "<em>", "_");
    let s = strings::replace(s.as_str(), "</em>", "_");
    let s = strings::replace(s.as_str(), "<h1>", "# ");
    let s = strings::replace(s.as_str(), "</h1>", "\n");
    let s = strings::replace(s.as_str(), "<h2>", "## ");
    let s = strings::replace(s.as_str(), "</h2>", "\n");
    let s = strings::replace(s.as_str(), "<h3>", "### ");
    let s = strings::replace(s.as_str(), "</h3>", "\n");
    let s = strings::replace(s.as_str(), "<li>", "- ");
    let s = strings::replace(s.as_str(), "</li>", "\n");
    let s = strings::replace(s.as_str(), "<ul>", "");
    let s = strings::replace(s.as_str(), "</ul>", "\n");
    let s = strings::replace(s.as_str(), "<ol>", "");
    let s = strings::replace(s.as_str(), "</ol>", "\n");
    let s = strings::replace(s.as_str(), "<code>", "`");
    strings::replace(s.as_str(), "</code>", "`")
}

/// Whether the end of a text is inside a tag.
pub open spec fn ends_in_tag(s: Seq<char>) -> bool
    decreases s.len(),
{
    if s.len() == 0 {
        false
    } else if s.last() == '<' {
        true
    } else if s.last() == '>' {
        false
    } else {
        ends_in_tag(s.drop_last())
    }
}

/// A text without its tags and without any angle bracket.
pub open spec fn stripped(s: Seq<char>) -> Seq<char>
    decreases s.len(),
{
    if s.len() == 0 {
        Seq::empty()
    } else {
        let before = stripped(s.drop_last());
        if s.last() == '<' || s.last() == '>' || ends_in_tag(s.drop_last()) {
            before
        } else {
            before.push(s.last())
        }
    }
}

/// Takes the tags out of a text.
pub fn strip_tags(s: &str) -> (r: String)
    ensures
        r@ == stripped(s@),
{
    let chars = strings::chars_of(s);
    let mut out = String::new();
    let mut in_tag = false;
    let mut i: usize = 0;
    while i < chars.len()
        invariant
            i <= chars@.len(),
            chars@ == s@,
            in_tag == ends_in_tag(s@.take(i as int)),
            out@ == stripped(s@.take(i as int)),
        decreases chars.len() - i,
    {
        assert(s@.take(i + 1).drop_last() =~= s@.take(i as int));
        assert(s@.take(i + 1).last() == s@[i as int]);
        let c = chars[i];
        if c == '<' {
            in_tag = true;
        } else if c == '>' {
            in_tag = false;
        } else if !in_tag {
            out.push(c);
        }
        i = i + 1;
    }
    assert(s@.take(i as int) =~= s@);
    out
}

/// What is left of a page has no angle bracket in it.
pub proof fn stripped_text_has_no_brackets(s: Seq<char>)
    ensures
        !stripped(s).contains('<'),
        !stripped(s).contains('>'),
    decreases s.len(),
{
    if s.len() > 0 {
        let before = stripped(s.drop_last());
        stripped_text_has_no_brackets(s.drop_last());
        let now = stripped(s);
        assert forall|c: char| now.contains(c) && (c == '<' || c == '>') implies false by {
            let i = choose|i: int| 0 <= i < now.len() && now[i] == c;
            if i < before.len() {
                assert(before[i] == c);
                assert(before.contains(c));
            }
        }
    }
}

/// Whether a text is the Markdown of a page: its title, then its body without tags and without
/// white space around it.
pub open spec fn is_page_markdown(page: ConfluencePage, md: Seq<char>) -> bool {
    exists|content: Seq<char>|
        #[trigger] strings::is_trimmed(plain_body(page), content) && md == "# "@ + page.title@
            + "\n\n"@ + content + "\n"@
}

/// The body of a page without tags; empty where it has none.
pub open spec fn plain_body(page: ConfluencePage) -> Seq<char> {
    stripped(
        tags_replaced(
            match page.body {
                Some(b) => b@,
                None => Seq::empty(),
            },
        ),
    )
}

/// Writes a page as Markdown.
pub fn confluence_page_to_markdown(page: &ConfluencePage) -> (r: String)
    ensures
        is_page_markdown(*page, r@),
{
    proof {
        reveal_strlit("");
        assert(""@ =~= Seq::empty());
    }
    let body: &str = match &page.body {
        Some(b) => b.as_str(),
        None => "",
    };
    let replaced = replace_tags(body);
    let plain = strip_tags(replaced.as_str());
    assert(plain@ == plain_body(*page));
    let content = strings::trim(plain.as_str());
    let mut md = "# ".to_owned();
    md.append(page.title.as_str());
    md.append("\n\n");
    md.append(content.as_str());
    md.append("\n");
    assert(strings::is_trimmed(plain_body(*page), content@));
    md
}

/// The board of a titled page or document.
pub open spec fn titled_board(
    b: ImportedBoard,
    workspace_id: Seq<char>,
    title: Seq<char>,
) -> bool {
    &&& b.name@ == "📄 "@ + title
    &&& b.id@ == ids::board_id(workspace_id, b.name@)
    &&& !b.notebook
}

/// What importing a space does.
pub struct SpaceImport {
    pub boards: Vec<ImportedBoard>,
    pub result: ImportResult,
    /// Shown once the boards are created.
    pub progress: Option<SwiftEvent>,
}

/// Imports the pages of a space, each as a board.
pub fn import_confluence_space(workspace_id: &str, pages: &Vec<ConfluencePage>) -> (r: SpaceImport)
    ensures
        r.boards@.len() == pages@.len(),
        forall|i: int|
            0 <= i < pages@.len() ==> titled_board(
                #[trigger] r.boards@[i],
                workspace_id@,
                pages@[i].title@,
            ) && is_page_markdown(pages@[i], r.boards@[i].markdown@),
        r.result.source@ == "confluence"@,
        r.result.boards_created == pages@.len(),
        r.result.items_imported == pages@.len(),
        r.result.errors@ == Seq::<String>::empty(),
        is_reported(r.result, r.progress),
{
    let mut boards: Vec<ImportedBoard> = Vec::new();
    let mut i: usize = 0;
    while i < pages.len()
        invariant
            i <= pages@.len(),
            boards@.len() == i,
            forall|j: int|
                0 <= j < i ==> titled_board(
                    #[trigger] boards@[j],
                    workspace_id@,
                    pages@[j].title@,
                ) && is_page_markdown(pages@[j], boards@[j].markdown@),
        decreases pages.len() - i,
    {
        let mut name = "📄 ".to_owned();
        name.append(pages[i].title.as_str());
        let markdown = confluence_page_to_markdown(&pages[i]);
        let id = ids::new_board_id(workspace_id, name.as_str());
        boards.push(ImportedBoard { id, name, markdown, notebook: false });
        i = i + 1;
    }
    let result = ImportResult {
        source: "confluence".to_owned(),
        boards_created: pages.len(),
        items_imported: pages.len(),
        errors: Vec::new(),
    };
    let progress = import_progress(&result);
    SpaceImport { boards, result, progress }
}

/// A paragraph of a document: its runs of text, some of which hold none.
pub struct GoogleParagraph {
    pub runs: Vec<Option<String>>,
}

/// A document: its structural elements, some of which are no paragraphs.
pub struct GoogleDoc {
    pub title: String,
    pub body: Option<Vec<Option<GoogleParagraph>>>,
}

/// The text of some runs.
pub open spec fn runs_text(runs: Seq<Option<String>>) -> Seq<char>
    decreases runs.len(),
{
    if runs.len() == 0 {
        Seq::empty()
    } else {
        runs_text(runs.drop_last()) + match runs.last() {
            Some(s) => s@,
            None => Seq::empty(),
        }
    }
}

/// The texts of the paragraphs among some elements.
pub open spec fn paragraphs(elements: Seq<Option<GoogleParagraph>>) -> Seq<Seq<char>>
    decreases elements.len(),
{
    if elements.len() == 0 {
        Seq::empty()
    } else {
        let before = paragraphs(elements.drop_last());
        match elements.last() {
            Some(p) => before.push(runs_text(p.runs@)),
            None => before,
        }
    }
}

/// Texts with a separator between them.
pub open spec fn joined_texts(parts: Seq<Seq<char>>, sep: Seq<char>) -> Seq<char>
    decreases parts.len(),
{
    if parts.len() == 0 {
        Seq::empty()
    } else if parts.len() == 1 {
        parts[0]
    } else {
        joined_texts(parts.drop_last(), sep) + sep + parts.last()
    }
}

/// The text of a document: its paragraphs, one per line.
pub open spec fn document_text(doc: GoogleDoc) -> Seq<char> {
    match doc.body {
        Some(elements) => joined_texts(paragraphs(elements@), "\n"@),
        None => Seq::empty(),
    }
}

fn run_text(runs: &Vec<Option<String>>) -> (r: String)
    ensures
        r@ == runs_text(runs@),
{
    let mut s = String::new();
    let mut i: usize = 0;
    while i < runs.len()
        invariant
            i <= runs@.len(),
            s@ == runs_text(runs@.take(i as int)),
        decreases runs.len() - i,
    {
        let ghost before = s@;
        assert(runs@.take(i + 1).drop_last() =~= runs@.take(i as int));
        match &runs[i] {
            Some(t) => {
                s.append(t.as_str());
            },
            None => {
                assert(before + Seq::<char>::empty() =~= before);
            },
        }
        i = i + 1;
    }
    assert(runs@.take(i as int) =~= runs@);
    s
}

/// Extracts the text of a document.
pub fn extract_gdoc_text(doc: &GoogleDoc) -> (r: String)
    ensures
        r@ == document_text(*doc),
{
    match &doc.body {
        None => String::new(),
        Some(elements) => {
            let mut s = String::new();
            let mut empty = true;
            let mut i: usize = 0;
            assert(elements@.take(0) =~= Seq::empty());
            while i < elements.len()
                invariant
                    i <= elements@.len(),
                    empty == (paragraphs(elements@.take(i as int)).len() == 0),
                    s@ == joined_texts(paragraphs(elements@.take(i as int)), "\n"@),
                decreases elements.len() - i,
            {
                let ghost before = paragraphs(elements@.take(i as int));
                assert(elements@.take(i + 1).drop_last() =~= elements@.take(i as int));
                match &elements[i] {
                    Some(p) => {
                        let t = run_text(&p.runs);
                        proof {
                            assert(before.push(t@).drop_last() =~= before);
                        }
                        if empty {
                            s = t;
                            empty = false;
                        } else {
                            s.append("\n");
                            s.append(t.as_str());
                        }
                    },
                    None => {},
                }
                i = i + 1;
            }
            assert(elements@.take(i as int) =~= elements@);
            s
        },
    }
}

/// What importing a document does.
pub struct DocumentImport {
    pub board: ImportedBoard,
    pub result: ImportResult,
    /// Shown once the board is created.
    pub progress: Option<SwiftEvent>,
}

/// Imports a document as a board.
pub fn import_google_doc(workspace_id: &str, doc: &GoogleDoc) -> (r: DocumentImport)
    ensures
        titled_board(r.board, workspace_id@, doc.title@),
        r.board.markdown@ == "# "@ + doc.title@ + "\n\n"@ + document_text(*doc),
        r.result.source@ == "googledocs"@,
        r.result.boards_created == 1,
        r.result.items_imported == 1,
        r.result.errors@ == Seq::<String>::empty(),
        is_reported(r.result, r.progress),
{
    let mut name = "📄 ".to_owned();
    name.append(doc.title.as_str());
    let id = ids::new_board_id(workspace_id, name.as_str());
    let mut markdown = "# ".to_owned();
    markdown.append(doc.title.as_str());
    markdown.append("\n\n");
    markdown.append(extract_gdoc_text(doc).as_str());
    let result = ImportResult {
        source: "googledocs".to_owned(),
        boards_created: 1,
        items_imported: 1,
        errors: Vec::new(),
    };
    let progress = import_progress(&result);
    DocumentImport {
        board: ImportedBoard { id, name, markdown, notebook: false },
        result,
        progress,
    }
}

/// One import among several: what was imported, and how it went.
pub struct ImportOutcome {
    pub name: String,
    pub result: Result<ImportResult, String>,
}

/// The boards that some imports created.
pub open spec fn boards_in(outcomes: Seq<ImportOutcome>) -> nat
    decreases outcomes.len(),
{
    if outcomes.len() == 0 {
        0
    } else {
        boards_in(outcomes.drop_last()) + match outcomes.last().result {
            Ok(r) => r.boards_created as nat,
            Err(_) => 0nat,
        }
    }
}

/// The items that some imports brought.
pub open spec fn items_in(outcomes: Seq<ImportOutcome>) -> nat
    decreases outcomes.len(),
{
    if outcomes.len() == 0 {
        0
    } else {
        items_in(outcomes.drop_last()) + match outcomes.last().result {
            Ok(r) => r.items_imported as nat,
            Err(_) => 0nat,
        }
    }
}

/// The messages of the imports that failed.
pub open spec fn errors_in(outcomes: Seq<ImportOutcome>) -> Seq<Seq<char>>
    decreases outcomes.len(),
{
    if outcomes.len() == 0 {
        Seq::empty()
    } else {
        let before = errors_in(outcomes.drop_last());
        match outcomes.last().result {
            Ok(_) => before,
            Err(e) => before.push(outcomes.last().name@ + ": "@ + e@),
        }
    }
}

proof fn lemma_sums_grow(outcomes: Seq<ImportOutcome>, n: int)
    requires
        0 <= n <= outcomes.len(),
    ensures
        boards_in(outcomes.take(n)) <= boards_in(outcomes),
        items_in(outcomes.take(n)) <= items_in(outcomes),
    decreases outcomes.len(),
{
    if n == outcomes.len() {
        assert(outcomes.take(n) =~= outcomes);
    } else {
        assert(outcomes.drop_last().take(n) =~= outcomes.take(n));
        lemma_sums_grow(outcomes.drop_last(), n);
    }
}

/// Adds up several imports from one source.
pub fn summarize(source: &str, outcomes: &Vec<ImportOutcome>) -> (r: ImportResult)
    requires
        boards_in(outcomes@) <= usize::MAX,
        items_in(outcomes@) <= usize::MAX,
    ensures
        r.source@ == source@,
        r.boards_created == boards_in(outcomes@),
        r.items_imported == items_in(outcomes@),
        collections::texts(r.errors@) == errors_in(outcomes@),
{
    let mut boards: usize = 0;
    let mut items: usize = 0;
    let mut errors: Vec<String> = Vec::new();
    let mut i: usize = 0;
    assert(collections::texts(errors@) =~= Seq::empty());
    while i < outcomes.len()
        invariant
            i <= outcomes@.len(),
            boards_in(outcomes@) <= usize::MAX,
            items_in(outcomes@) <= usize::MAX,
            boards == boards_in(outcomes@.take(i as int)),
            items == items_in(outcomes@.take(i as int)),
            collections::texts(errors@) == errors_in(outcomes@.take(i as int)),
        decreases outcomes.len() - i,
    {
        proof {
            assert(outcomes@.take(i + 1).drop_last() =~= outcomes@.take(i as int));
            lemma_sums_grow(outcomes@, i + 1);
        }
        let ghost before = collections::texts(errors@);
        match &outcomes[i].result {
            Ok(r) => {
                boards = boards + r.boards_created;
                items = items + r.items_imported;
            },
            Err(e) => {
                let mut m = outcomes[i].name.clone();
                m.append(": ");
                m.append(e.as_str());
                let ghost message = m@;
                errors.push(m);
                assert(collections::texts(errors@) =~= before.push(message));
            },
        }
        i = i + 1;
    }
    assert(outcomes@.take(i as int) =~= outcomes@);
    ImportResult { source: source.to_owned(), boards_created: boards, items_imported: items, errors }
}

/// Adds up the imports of several projects.
pub fn import_all_jira(outcomes: &Vec<ImportOutcome>) -> (r: ImportResult)
    requires
        boards_in(outcomes@) <= usize::MAX,
        items_in(outcomes@) <= usize::MAX,
    ensures
        r.source@ == "jira"@,
        r.boards_created == boards_in(outcomes@),
        r.items_imported == items_in(outcomes@),
        collections::texts(r.errors@) == errors_in(outcomes@),
{
    summarize("jira", outcomes)
}

/// Adds up the imports of several spaces.
pub fn import_all_confluence(outcomes: &Vec<ImportOutcome>) -> (r: ImportResult)
    requires
        boards_in(outcomes@) <= usize::MAX,
        items_in(outcomes@) <= usize::MAX,
    ensures
        r.source@ == "confluence"@,
        r.boards_created == boards_in(outcomes@),
        r.items_imported == items_in(outcomes@),
        collections::texts(r.errors@) == errors_in(outcomes@),
{
    summarize("confluence", outcomes)
}

/// Adds up the imports of several documents; each counts as an item, also where it failed.
pub fn import_all_google_docs(outcomes: &Vec<ImportOutcome>) -> (r: ImportResult)
    requires
        boards_in(outcomes@) <= usize::MAX,
        items_in(outcomes@) <= usize::MAX,
    ensures
        r.source@ == "googledocs"@,
        r.boards_created == boards_in(outcomes@),
        r.items_imported == outcomes@.len(),
        collections::texts(r.errors@) == errors_in(outcomes@),
{
    let sum = summarize("googledocs", outcomes);
    ImportResult {
        source: sum.source,
        boards_created: sum.boards_created,
        items_imported: outcomes.len(),
        errors: sum.errors,
    }
}

/// Lists configured spaces, each under its key.
pub fn list_confluence_spaces(keys: &Vec<String>) -> (r: Vec<ImportableProject>)
    ensures
        r@ == keys@.map_values(
            |k: String| ImportableProject { key: k, name: k, item_count: None },
        ),
{
    let mut out: Vec<ImportableProject> = Vec::new();
    let mut i: usize = 0;
    while i < keys.len()
        invariant
            i <= keys@.len(),
            out@ == keys@.take(i as int).map_values(
                |k: String| ImportableProject { key: k, name: k, item_count: None },
            ),
        decreases keys.len() - i,
    {
        out.push(
            ImportableProject { key: keys[i].clone(), name: keys[i].clone(), item_count: None },
        );
        assert(keys@.take(i + 1) =~= keys@.take(i as int).push(keys@[i as int]));
        i = i + 1;
    }
    assert(keys@.take(i as int) =~= keys@);
    out
}

/// The keys of fetched projects; one without a key is passed over.
pub open spec fn fetched_keys(projects: Seq<Json>) -> Seq<Seq<char>>
    decreases projects.len(),
{
    if projects.len() == 0 {
        Seq::empty()
    } else {
        let before = fetched_keys(projects.drop_last());
        match projects.last().member_text("key"@) {
            Some(key) => before.push(key),
            None => before,
        }
    }
}

/// The keys of the projects to list: those that are configured, or else those that were fetched.
pub fn project_keys(configured: &Vec<String>, fetched: &Vec<Json>) -> (r: Vec<String>)
    ensures
        collections::texts(r@) == if configured@.len() > 0 {
            collections::texts(configured@)
        } else {
            fetched_keys(fetched@)
        },
{
    if configured.len() > 0 {
        return collections::clone_texts(configured);
    }
    let mut out: Vec<String> = Vec::new();
    let mut i: usize = 0;
    assert(collections::texts(out@) =~= fetched_keys(fetched@.take(0)));
    while i < fetched.len()
        invariant
            i <= fetched@.len(),
            collections::texts(out@) == fetched_keys(fetched@.take(i as int)),
        decreases fetched.len() - i,
    {
        let ghost before = collections::texts(out@);
        assert(fetched@.take(i + 1).drop_last() =~= fetched@.take(i as int));
        match fetched[i].get_opt_text("key") {
            Some(key) => {
                let ghost chars = key@;
                out.push(key);
                assert(collections::texts(out@) =~= before.push(chars));
            },
            None => {},
        }
        i = i + 1;
    }
    assert(fetched@.take(i as int) =~= fetched@);
    out
}

/// Lists projects under their keys, each with the number of its tickets where that could be had.
pub fn list_jira_projects(keys: &Vec<String>, counts: &Vec<Option<usize>>) -> (r: Vec<
    ImportableProject,
>)
    requires
        keys@.len() == counts@.len(),
    ensures
        r@.len() == keys@.len(),
        forall|i: int|
            0 <= i < keys@.len() ==> #[trigger] r@[i] == (ImportableProject {
                key: keys@[i],
                name: keys@[i],
                item_count: counts@[i],
            }),
{
    let mut out: Vec<ImportableProject> = Vec::new();
    let mut i: usize = 0;
    while i < keys.len()
        invariant
            i <= keys@.len(),
            keys@.len() == counts@.len(),
            out@.len() == i,
            forall|j: int|
                0 <= j < i ==> #[trigger] out@[j] == (ImportableProject {
                    key: keys@[j],
                    name: keys@[j],
                    item_count: counts@[j],
                }),
        decreases keys.len() - i,
    {
        out.push(
            ImportableProject { key: keys[i].clone(), name: keys[i].clone(), item_count: counts[i] },
        );
        i = i + 1;
    }
    out
}

/// Whether a project is what a listed file says.
pub open spec fn listed_file(file: Json, p: ImportableProject) -> bool {
    &&& file.member_text("id"@) == Some(p.key@)
    &&& file.member_text("name"@) == Some(p.name@)
    &&& p.item_count is None
}

/// The listed files that name themselves.
pub open spec fn named_files(files: Seq<Json>) -> Seq<Json>
    decreases files.len(),
{
    if files.len() == 0 {
        Seq::empty()
    } else {
        let before = named_files(files.drop_last());
        if files.last().member_text("id"@) is Some && files.last().member_text("name"@) is Some {
            before.push(files.last())
        } else {
            before
        }
    }
}

/// Lists documents: those with an identifier and a name.
pub fn list_google_docs(files: &Vec<Json>) -> (r: Vec<ImportableProject>)
    ensures
        r@.len() == named_files(files@).len(),
        forall|i: int|
            0 <= i < r@.len() ==> listed_file(named_files(files@)[i], #[trigger] r@[i]),
{
    let mut out: Vec<ImportableProject> = Vec::new();
    let mut i: usize = 0;
    while i < files.len()
        invariant
            i <= files@.len(),
            out@.len() == named_files(files@.take(i as int)).len(),
            forall|j: int|
                0 <= j < out@.len() ==> listed_file(
                    named_files(files@.take(i as int))[j],
                    #[trigger] out@[j],
                ),
        decreases files.len() - i,
    {
        assert(files@.take(i + 1).drop_last() =~= files@.take(i as int));
        match (files[i].get_opt_text("id"), files[i].get_opt_text("name")) {
            (Some(key), Some(name)) => {
                out.push(ImportableProject { key, name, item_count: None });
            },
            _ => {},
        }
        i = i + 1;
    }
    assert(files@.take(i as int) =~= files@);
    out
}

} // verus!
