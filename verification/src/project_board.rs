//! What the board of an imported project shows of its tickets.

use crate::import_orchestrator as import;
use crate::import_orchestrator::{JiraIssue, ProjectImport};
use crate::strings;
use crate::text;
use vstd::prelude::*;
use vstd::string::*;
use vstd::utf8::*;

verus! {

/// Whether a text has another somewhere in it.
pub open spec fn includes(s: Seq<char>, part: Seq<char>) -> bool {
    exists|before: Seq<char>, after: Seq<char>| s == #[trigger] (before + part + after)
}

/// Whether the lower case of a status speaks of something that is finished.
pub open spec fn is_finished(status: Seq<char>) -> bool {
    let s = strings::lowercase(status);
    includes(s, "done"@) || includes(s, "closed"@) || includes(s, "resolved"@)
}

/// Whether the lower case of a status speaks of something that is under way.
pub open spec fn is_under_way(status: Seq<char>) -> bool {
    let s = strings::lowercase(status);
    includes(s, "progress"@) || includes(s, "review"@)
}

/// How many tickets are finished.
pub open spec fn finished_in(issues: Seq<JiraIssue>) -> nat {
    issues.filter(|i: JiraIssue| is_finished(i.status@)).len()
}

/// How many tickets have a status.
pub open spec fn having(issues: Seq<JiraIssue>, status: Seq<char>) -> nat {
    issues.filter(|i: JiraIssue| i.status@ == status).len()
}

proof fn lemma_includes(s: Seq<char>, part: Seq<char>)
    ensures
        strings::has_part(s, part) == includes(s, part),
{
    if strings::has_part(s, part) {
        let i = choose|i: int| #[trigger] strings::stands_at(s, part, i);
        assert(s =~= s.take(i) + s.subrange(i, i + part.len()) + s.skip(i + part.len()));
        assert(s == s.take(i) + part + s.skip(i + part.len()));
    }
    if includes(s, part) {
        let (before, after) = choose|before: Seq<char>, after: Seq<char>|
            s == #[trigger] (before + part + after);
        let at = before.len() as int;
        assert(s.subrange(at, at + part.len()) =~= part);
        assert(strings::stands_at(s, part, before.len() as int));
    }
}

proof fn lemma_meanings(status: Seq<char>)
    ensures
        import::means_done(status) == is_finished(status),
        import::means_active(status) == is_under_way(status),
{
    let s = strings::lowercase(status);
    lemma_includes(s, "done"@);
    lemma_includes(s, "closed"@);
    lemma_includes(s, "resolved"@);
    lemma_includes(s, "progress"@);
    lemma_includes(s, "review"@);
}

proof fn lemma_finished_count(issues: Seq<JiraIssue>)
    ensures
        import::done_in(issues) == finished_in(issues),
        finished_in(issues) <= issues.len(),
    decreases issues.len(),
{
    reveal(Seq::filter);
    if issues.len() > 0 {
        lemma_finished_count(issues.drop_last());
        lemma_meanings(issues.last().status@);
    }
}

proof fn lemma_status_count(issues: Seq<JiraIssue>, status: Seq<char>)
    ensures
        import::of_status(issues, status).len() == having(issues, status),
    decreases issues.len(),
{
    reveal(Seq::filter);
    if issues.len() > 0 {
        lemma_status_count(issues.drop_last(), status);
    }
}

/// The heading of the section of a status: what it means, the status itself and how many tickets
/// have it.
pub open spec fn heading(issues: Seq<JiraIssue>, status: Seq<char>) -> Seq<char> {
    (if is_finished(status) {
        "## ✅ "@
    } else if is_under_way(status) {
        "## 🔄 "@
    } else {
        "## 📋 "@
    }) + status + " ("@ + text::decimal(having(issues, status)) + ")\n\n"@
}

/// How the line of a ticket begins: ticked where its status is a finished one.
pub open spec fn entry(issue: JiraIssue) -> Seq<char> {
    (if is_finished(issue.status@) {
        "- [x] **"@
    } else {
        "- [ ] **"@
    }) + issue.key@ + "**: "@ + issue.summary@
}

/// How the line of a ticket ends: who works on it and how urgent it is, where that is known.
pub open spec fn ending(issue: JiraIssue) -> Seq<char> {
    (match issue.assignee {
        Some(a) => " → "@ + a@,
        None => ""@,
    }) + (match issue.priority {
        Some(p) => " `"@ + p@ + "`"@,
        None => ""@,
    }) + "\n"@
}

proof fn lemma_literals_join()
    ensures
        "## "@ + "✅"@ + " "@ == "## ✅ "@,
        "## "@ + "🔄"@ + " "@ == "## 🔄 "@,
        "## "@ + "📋"@ + " "@ == "## 📋 "@,
        "- ["@ + "x"@ + "] **"@ == "- [x] **"@,
        "- ["@ + " "@ + "] **"@ == "- [ ] **"@,
{
    reveal_strlit("## ");
    reveal_strlit("✅");
    reveal_strlit("🔄");
    reveal_strlit("📋");
    reveal_strlit(" ");
    reveal_strlit("x");
    reveal_strlit("- [");
    reveal_strlit("] **");
    reveal_strlit("## ✅ ");
    reveal_strlit("## 🔄 ");
    reveal_strlit("## 📋 ");
    reveal_strlit("- [x] **");
    reveal_strlit("- [ ] **");
    assert("## "@ + "✅"@ + " "@ =~= "## ✅ "@);
    assert("## "@ + "🔄"@ + " "@ =~= "## 🔄 "@);
    assert("## "@ + "📋"@ + " "@ =~= "## 📋 "@);
    assert("- ["@ + "x"@ + "] **"@ =~= "- [x] **"@);
    assert("- ["@ + " "@ + "] **"@ =~= "- [ ] **"@);
}

proof fn lemma_section_starts(issues: Seq<JiraIssue>, status: Seq<char>)
    ensures
        import::section(issues, status) == heading(issues, status) + import::all_lines(
            is_finished(status),
            import::of_status(issues, status),
        ) + "\n"@,
{
    lemma_literals_join();
    lemma_meanings(status);
    lemma_status_count(issues, status);
    let mine = import::of_status(issues, status);
    assert("## "@ + import::emblem(status) + " "@ + status + " ("@ + text::decimal(mine.len())
        + ")\n\n"@ =~= heading(issues, status));
}

proof fn lemma_line(done: bool, issue: JiraIssue)
    requires
        done == is_finished(issue.status@),
    ensures
        import::ticket_lines(done, issue) == entry(issue) + ending(issue) + import::quotation(
            issue.description,
        ),
{
    lemma_literals_join();
    reveal_strlit("");
    assert(""@ =~= Seq::empty());
    assert(import::optional(" → "@, issue.assignee, ""@) =~= (match issue.assignee {
        Some(a) => " → "@ + a@,
        None => ""@,
    }));
    assert(import::optional(" `"@, issue.priority, "`"@) =~= (match issue.priority {
        Some(p) => " `"@ + p@ + "`"@,
        None => ""@,
    }));
    assert(import::ticket_lines(done, issue) =~= entry(issue) + ending(issue) + import::quotation(
        issue.description,
    ));
}

proof fn lemma_of_status_has(issues: Seq<JiraIssue>, i: int) -> (k: int)
    requires
        0 <= i < issues.len(),
    ensures
        0 <= k < import::of_status(issues, issues[i].status@).len(),
        import::of_status(issues, issues[i].status@)[k] == issues[i],
    decreases issues.len(),
{
    let status = issues[i].status@;
    if i == issues.len() - 1 {
        import::of_status(issues.drop_last(), status).len() as int
    } else {
        assert(issues.drop_last()[i] == issues[i]);
        lemma_of_status_has(issues.drop_last(), i)
    }
}

proof fn lemma_all_lines_have(done: bool, issues: Seq<JiraIssue>, k: int) -> (r: (Seq<char>, Seq<char>))
    requires
        0 <= k < issues.len(),
    ensures
        import::all_lines(done, issues) == r.0 + import::ticket_lines(done, issues[k]) + r.1,
        r.1.len() > 0 ==> r.1[0] == '-',
    decreases issues.len(),
{
    reveal_strlit("- [");
    let before = import::all_lines(done, issues.drop_last());
    if k == issues.len() - 1 {
        assert(import::all_lines(done, issues) =~= before + import::ticket_lines(done, issues[k])
            + Seq::empty());
        (before, Seq::empty())
    } else {
        assert(issues.drop_last()[k] == issues[k]);
        let (a, b) = lemma_all_lines_have(done, issues.drop_last(), k);
        let last = import::ticket_lines(done, issues.last());
        assert(import::all_lines(done, issues) =~= a + import::ticket_lines(done, issues[k]) + (b
            + last));
        (a, b + last)
    }
}

proof fn lemma_sections_have(issues: Seq<JiraIssue>, statuses: Seq<Seq<char>>, k: int) -> (r: (
    Seq<char>,
    Seq<char>,
))
    requires
        0 <= k < statuses.len(),
    ensures
        import::sections(issues, statuses) == r.0 + import::section(issues, statuses[k]) + r.1,
        r.0 == import::sections(issues, statuses.take(k)),
    decreases statuses.len(),
{
    let before = import::sections(issues, statuses.drop_last());
    if k == statuses.len() - 1 {
        assert(import::sections(issues, statuses) =~= before + import::section(issues, statuses[k])
            + Seq::empty());
        assert(statuses.take(k) =~= statuses.drop_last());
        (before, Seq::empty())
    } else {
        assert(statuses.drop_last()[k] == statuses[k]);
        let (a, b) = lemma_sections_have(issues, statuses.drop_last(), k);
        assert(statuses.drop_last().take(k) =~= statuses.take(k));
        let last = import::section(issues, statuses.last());
        assert(import::sections(issues, statuses) =~= a + import::section(issues, statuses[k]) + (b
            + last));
        (a, b + last)
    }
}

/// Whether a text is the first line of another; what ends the line is not part of it.
pub open spec fn begins_with_line(d: Seq<char>, line: Seq<char>) -> bool {
    &&& !line.contains('\n')
    &&& {
        ||| d == line
        ||| !(line.len() > 0 && line.last() == '\r') && exists|more: Seq<char>|
            d == #[trigger] (line + "\n"@ + more)
        ||| exists|more: Seq<char>| d == #[trigger] (line + "\r\n"@ + more)
    }
}

/// Whether a line is quoted below a ticket: the first of its description, where it is not empty and
/// takes less than 120 bytes.
pub open spec fn is_quoted(issue: JiraIssue, line: Seq<char>) -> bool {
    &&& issue.description is Some
    &&& begins_with_line(issue.description->0@, line)
    &&& line.len() > 0
    &&& encode_utf8(line).len() < 120
}

/// Whether nothing of a description is quoted: there is none, or its first line is empty or long.
pub open spec fn is_not_quoted(issue: JiraIssue, line: Seq<char>) -> bool {
    issue.description matches Some(d) ==> begins_with_line(d@, line) && (line.len() == 0
        || encode_utf8(line).len() >= 120)
}

/// Whether a board lists a ticket under the heading of its status, ticked or not as the status
/// says, with what is quoted of its description below.
pub open spec fn lists(
    md: Seq<char>,
    issues: Seq<JiraIssue>,
    issue: JiraIssue,
    line: Seq<char>,
) -> bool {
    exists|a: Seq<char>, b: Seq<char>, c: Seq<char>|
        md == #[trigger] (a + heading(issues, issue.status@) + b + entry(issue) + ending(issue) + c)
            && (is_quoted(issue, line) ==> exists|more: Seq<char>|
            c == #[trigger] ("  > "@ + line + "\n"@ + more)) && (is_not_quoted(issue, line) ==> c.len()
            > 0 && c[0] != ' ')
}

proof fn lemma_first_break(d: Seq<char>, from: int, n: int)
    requires
        0 <= from <= n <= d.len(),
        forall|k: int| from <= k < n ==> d[k] != '\n',
        n < d.len() ==> d[n] == '\n',
    ensures
        strings::first_break(d, from) == n,
    decreases n - from,
{
    if from < n {
        lemma_first_break(d, from + 1, n);
    }
}

proof fn lemma_first_line(d: Seq<char>, line: Seq<char>)
    requires
        begins_with_line(d, line),
    ensures
        strings::first_line_of(d) == line,
{
    reveal_strlit("\n");
    reveal_strlit("\r\n");
    let m = line.len() as int;
    assert forall|k: int| 0 <= k < m implies line[k] != '\n' by {
        assert(line.contains(line[k]));
    }
    if d == line {
        lemma_first_break(d, 0, m);
    } else if !(line.len() > 0 && line.last() == '\r') && exists|more: Seq<char>|
        d == #[trigger] (line + "\n"@ + more) {
        let more = choose|more: Seq<char>| d == #[trigger] (line + "\n"@ + more);
        assert forall|k: int| 0 <= k < m implies d[k] == line[k] by {}
        assert(d[m] == '\n');
        lemma_first_break(d, 0, m);
        assert(d.take(m) =~= line);
    } else {
        let more = choose|more: Seq<char>| d == #[trigger] (line + "\r\n"@ + more);
        assert forall|k: int| 0 <= k < m implies d[k] == line[k] by {}
        assert(d[m] == '\r' && d[m + 1] == '\n');
        lemma_first_break(d, 0, m + 1);
        assert(d.take(m) =~= line);
    }
}

proof fn lemma_regroup(
    before: Seq<char>,
    heading: Seq<char>,
    a: Seq<char>,
    entry: Seq<char>,
    ending: Seq<char>,
    quotation: Seq<char>,
    b: Seq<char>,
    end: Seq<char>,
    after: Seq<char>,
)
    ensures
        before + (heading + (a + (entry + ending + quotation) + b) + end) + after == before
            + heading + a + entry + ending + (quotation + b + end + after),
{
    assert(before + (heading + (a + (entry + ending + quotation) + b) + end) + after =~= before
        + heading + a + entry + ending + (quotation + b + end + after));
}

proof fn lemma_regroup_three(
    head: Seq<char>,
    a: Seq<char>,
    middle: Seq<char>,
    b: Seq<char>,
    last: Seq<char>,
)
    ensures
        head + (a + middle + b) + last == (head + a) + middle + (b + last),
{
    assert(head + (a + middle + b) + last =~= (head + a) + middle + (b + last));
}

proof fn lemma_section_lists(
    issues: Seq<JiraIssue>,
    i: int,
    before: Seq<char>,
    after: Seq<char>,
    md: Seq<char>,
    line: Seq<char>,
)
    requires
        0 <= i < issues.len(),
        md == before + import::section(issues, issues[i].status@) + after,
    ensures
        lists(md, issues, issues[i], line),
{
    let issue = issues[i];
    let status = issue.status@;
    let done = is_finished(status);
    lemma_section_starts(issues, status);
    let mine = import::of_status(issues, status);
    let k = lemma_of_status_has(issues, i);
    let (a, b) = lemma_all_lines_have(done, mine, k);
    lemma_line(done, issue);
    lemma_regroup(
        before,
        heading(issues, status),
        a,
        entry(issue),
        ending(issue),
        import::quotation(issue.description),
        b,
        "\n"@,
        after,
    );
    let quotation = import::quotation(issue.description);
    let c = quotation + b + "\n"@ + after;
    reveal_strlit("\n");
    if is_quoted(issue, line) {
        lemma_first_line(issue.description->0@, line);
        assert(c =~= "  > "@ + line + "\n"@ + (b + "\n"@ + after));
    }
    if is_not_quoted(issue, line) {
        if issue.description is Some {
            lemma_first_line(issue.description->0@, line);
        }
        assert(quotation.len() == 0);
        if b.len() > 0 {
            assert(c[0] == b[0]);
        } else {
            assert(c[0] == '\n');
        }
    }
    assert(md == before + heading(issues, status) + a + entry(issue) + ending(issue) + c);
}

/// Every ticket of a project is listed on its board, under a heading that names its status and says
/// how many tickets have it. It is ticked exactly where the lower case of its status has "done",
/// "closed" or "resolved" in it. The first line of its description is quoted unless it is empty or
/// long.
pub proof fn tickets_are_listed_by_status(
    project_key: &str,
    issues: &Vec<JiraIssue>,
    md: String,
    i: int,
    line: Seq<char>,
)
    requires
        call_ensures(import::build_kanban_markdown, (project_key, issues), md),
        0 <= i < issues@.len(),
    ensures
        lists(md@, issues@, issues@[i], line),
{
    lemma_listed(project_key@, issues@, md@, i, line);
}

/// The board of an imported project lists its tickets in the same way.
pub proof fn imported_tickets_are_listed_by_status(
    project_key: &str,
    workspace_id: &str,
    issues: &Vec<JiraIssue>,
    r: ProjectImport,
    i: int,
    line: Seq<char>,
)
    requires
        call_ensures(import::import_jira_project, (project_key, workspace_id, issues), r),
        0 <= i < issues@.len(),
    ensures
        r.board matches Some(b) && lists(b.markdown@, issues@, issues@[i], line),
{
    lemma_listed(project_key@, issues@, r.board->0.markdown@, i, line);
}

proof fn lemma_listed(
    project_key: Seq<char>,
    all: Seq<JiraIssue>,
    md: Seq<char>,
    i: int,
    line: Seq<char>,
)
    requires
        import::is_kanban(project_key, all, md),
        0 <= i < all.len(),
    ensures
        lists(md, all, all[i], line),
{
    let known = import::occurring(all, import::known_statuses());
    let rest = choose|rest: Seq<Seq<char>>|
        #[trigger] import::other_statuses(all, rest) && md == import::kanban_head(
            project_key,
            import::done_in(all),
            all.len(),
        ) + import::sections(all, known) + import::sections(all, rest);
    let head = import::kanban_head(project_key, import::done_in(all), all.len());
    let first = import::sections(all, known);
    let second = import::sections(all, rest);
    let status = all[i].status@;
    import::every_ticket_has_one_section(all, rest);
    if known.contains(status) {
        let k = choose|k: int| 0 <= k < known.len() && known[k] == status;
        let (a, b) = lemma_sections_have(all, known, k);
        lemma_regroup_three(head, a, import::section(all, status), b, second);
        lemma_section_lists(all, i, head + a, b + second, md, line);
    } else {
        assert(rest.contains(status));
        let k = choose|k: int| 0 <= k < rest.len() && rest[k] == status;
        let (a, b) = lemma_sections_have(all, rest, k);
        lemma_regroup_three(head + first, a, import::section(all, status), b, Seq::empty());
        assert(b + Seq::<char>::empty() =~= b);
        assert(md + Seq::<char>::empty() =~= md);
        lemma_section_lists(all, i, head + first + a, b, md, line);
    }
}

/// Whether a text is a bar of twenty steps of which some are filled.
pub open spec fn is_bar(bar: Seq<char>, filled: int) -> bool {
    &&& bar.len() == 20
    &&& forall|k: int| 0 <= k < filled && k < 20 ==> #[trigger] bar[k] == '█'
    &&& forall|k: int| filled <= k < 20 && 0 <= k ==> #[trigger] bar[k] == '░'
}

proof fn lemma_times(c: char, s: Seq<char>, n: nat)
    requires
        s == seq![c],
    ensures
        import::times(s, n).len() == n,
        forall|k: int| 0 <= k < n ==> #[trigger] import::times(s, n)[k] == c,
    decreases n,
{
    if n > 0 {
        lemma_times(c, s, (n - 1) as nat);
    }
}

/// The progress that a board shows: how many tickets there are, how many of them are finished, the
/// percentage of those, rounded down, and a bar that is filled by a twentieth for every five
/// percent.
pub proof fn progress_counts_finished_tickets(
    project_key: &str,
    issues: &Vec<JiraIssue>,
    md: String,
) -> (r: (Seq<char>, nat, Seq<char>))
    requires
        call_ensures(import::build_kanban_markdown, (project_key, issues), md),
    ensures
        ({
            let (bar, pct, after) = r;
            let done = finished_in(issues@);
            let total = issues@.len();
            &&& md@ == "# "@ + project_key@ + " — Project Board\n\n**Progress:** "@ + bar + " "@
                + text::decimal(done) + "/"@ + text::decimal(total) + " ("@ + text::decimal(pct)
                + "%)\n\n---\n\n"@ + after
            &&& is_bar(bar, pct as int / 5)
            &&& total == 0 ==> pct == 0
            &&& pct * total <= 100 * done
            &&& total > 0 ==> 100 * done < (pct + 1) * total
            &&& done <= total
            &&& pct <= 100
        }),
{
    let all = issues@;
    lemma_finished_count(all);
    let done = finished_in(all);
    let total = all.len();
    let pct = import::percent(done, total);
    let known = import::occurring(all, import::known_statuses());
    let rest = choose|rest: Seq<Seq<char>>|
        #[trigger] import::other_statuses(all, rest) && md@ == import::kanban_head(
            project_key@,
            import::done_in(all),
            all.len(),
        ) + import::sections(all, known) + import::sections(all, rest);
    let after = import::sections(all, known) + import::sections(all, rest);
    let bar = import::progress_bar(pct);
    if total > 0 {
        assert(pct * total <= 100 * done && 100 * done < (pct + 1) * total && pct <= 100)
            by (nonlinear_arith)
            requires
                pct == (done * 100) / total,
                total > 0,
                done <= total,
        ;
    } else {
        assert(pct * total <= 100 * done) by (nonlinear_arith)
            requires
                pct == 0,
        ;
    }
    reveal_strlit("█");
    reveal_strlit("░");
    assert("█"@ =~= seq!['█']);
    assert("░"@ =~= seq!['░']);
    lemma_times('█', "█"@, pct / 5);
    lemma_times('░', "░"@, (20 - pct / 5) as nat);
    reveal_strlit(" — Project Board\n\n");
    reveal_strlit("**Progress:** ");
    reveal_strlit(" — Project Board\n\n**Progress:** ");
    assert(" — Project Board\n\n"@ + "**Progress:** "@ =~= " — Project Board\n\n**Progress:** "@);
    reveal_strlit("%)\n\n");
    reveal_strlit("---\n\n");
    reveal_strlit("%)\n\n---\n\n");
    assert("%)\n\n"@ + "---\n\n"@ =~= "%)\n\n---\n\n"@);
    assert(md@ =~= "# "@ + project_key@ + (" — Project Board\n\n"@ + "**Progress:** "@) + bar
        + " "@ + text::decimal(done) + "/"@ + text::decimal(total) + " ("@ + text::decimal(pct) + (
    "%)\n\n"@ + "---\n\n"@) + after);
    (bar, pct, after)
}

proof fn lemma_part_has_its_chars(s: Seq<char>, part: Seq<char>, k: int) -> (at: int)
    requires
        includes(s, part),
        0 <= k < part.len(),
    ensures
        0 <= at <= s.len() - part.len(),
        s[at + k] == part[k],
{
    let (before, after) = choose|before: Seq<char>, after: Seq<char>|
        s == #[trigger] (before + part + after);
    assert(s[before.len() + k] == part[k]);
    before.len() as int
}

proof fn lemma_open_status(status: Seq<char>)
    requires
        status == "To Do"@ || status == "In Progress"@ || status == "In Review"@,
        import::lowers_plainly(status),
    ensures
        !is_finished(status),
        is_under_way(status) == (status != "To Do"@),
{
    reveal_strlit("To Do");
    reveal_strlit("In Progress");
    reveal_strlit("In Review");
    reveal_strlit("done");
    reveal_strlit("closed");
    reveal_strlit("resolved");
    reveal_strlit("progress");
    reveal_strlit("review");
    let s = strings::lowercase(status);
    assert(is_ascii_chars(status));
    assert(s == status.map_values(|c: char| strings::ascii_lower(c)));
    if includes(s, "done"@) {
        let at = lemma_part_has_its_chars(s, "done"@, 0);
    }
    if includes(s, "closed"@) {
        let at = lemma_part_has_its_chars(s, "closed"@, 0);
    }
    if includes(s, "resolved"@) {
        let at = lemma_part_has_its_chars(s, "resolved"@, 7);
    }
    if status == "To Do"@ {
        if includes(s, "progress"@) {
            let at = lemma_part_has_its_chars(s, "progress"@, 0);
        }
        if includes(s, "review"@) {
            let at = lemma_part_has_its_chars(s, "review"@, 0);
        }
    }
    if status == "In Progress"@ {
        assert(s =~= s.take(3) + "progress"@ + Seq::empty());
        assert("To Do"@.len() != status.len());
    }
    if status == "In Review"@ {
        assert(s =~= s.take(3) + "review"@ + Seq::empty());
        assert("To Do"@.len() != status.len());
    }
}

proof fn lemma_finished_status(status: Seq<char>)
    requires
        status == "Done"@ || status == "Closed"@ || status == "Resolved"@,
        import::lowers_plainly(status),
    ensures
        is_finished(status),
{
    reveal_strlit("Done");
    reveal_strlit("Closed");
    reveal_strlit("Resolved");
    reveal_strlit("done");
    reveal_strlit("closed");
    reveal_strlit("resolved");
    let s = strings::lowercase(status);
    assert(is_ascii_chars(status));
    assert(s == status.map_values(|c: char| strings::ascii_lower(c)));
    if status == "Done"@ {
        assert(s =~= Seq::empty() + "done"@ + Seq::empty());
    } else if status == "Closed"@ {
        assert(s =~= Seq::empty() + "closed"@ + Seq::empty());
    } else {
        assert(s =~= Seq::empty() + "resolved"@ + Seq::empty());
    }
}

/// What the usual statuses mean on a board: a ticket that is "Done", "Closed" or "Resolved" is
/// finished, one that is "In Progress" or "In Review" is under way, and one that is "To Do" is
/// neither. The case of ASCII letters does not matter.
pub proof fn usual_statuses_mean_what_they_say(
    project_key: &str,
    issues: &Vec<JiraIssue>,
    md: String,
    i: int,
)
    requires
        call_ensures(import::build_kanban_markdown, (project_key, issues), md),
        0 <= i < issues@.len(),
    ensures
        ({
            let status = issues@[i].status@;
            &&& status == "Done"@ || status == "Closed"@ || status == "Resolved"@ ==> is_finished(
                status,
            )
            &&& status == "In Progress"@ || status == "In Review"@ ==> !is_finished(status)
                && is_under_way(status)
            &&& status == "To Do"@ ==> !is_finished(status) && !is_under_way(status)
            &&& is_ascii_chars(status) ==> strings::lowercase(status) == status.map_values(
                |c: char| strings::ascii_lower(c),
            )
        }),
{
    let status = issues@[i].status@;
    assert(import::lowers_plainly(status));
    if status == "Done"@ || status == "Closed"@ || status == "Resolved"@ {
        lemma_finished_status(status);
    }
    if status == "To Do"@ || status == "In Progress"@ || status == "In Review"@ {
        lemma_open_status(status);
        reveal_strlit("To Do");
        reveal_strlit("In Progress");
        reveal_strlit("In Review");
    }
}

/// The place of a status among the sections of a board: the usual ones come first.
pub open spec fn rank(status: Seq<char>) -> int {
    if status == "To Do"@ {
        0
    } else if status == "In Progress"@ {
        1
    } else if status == "In Review"@ {
        2
    } else if status == "Done"@ {
        3
    } else if status == "Closed"@ {
        4
    } else if status == "Resolved"@ {
        5
    } else {
        6
    }
}

proof fn lemma_two_sections(issues: Seq<JiraIssue>, statuses: Seq<Seq<char>>, j: int, k: int) -> (r: (
    Seq<char>,
    Seq<char>,
    Seq<char>,
))
    requires
        0 <= j < k < statuses.len(),
    ensures
        import::sections(issues, statuses) == r.0 + heading(issues, statuses[j]) + r.1 + heading(
            issues,
            statuses[k],
        ) + r.2,
{
    let (a, b) = lemma_sections_have(issues, statuses, k);
    let (c, d) = lemma_sections_have(issues, statuses.take(k), j);
    lemma_section_starts(issues, statuses[j]);
    lemma_section_starts(issues, statuses[k]);
    let x = import::all_lines(is_finished(statuses[j]), import::of_status(issues, statuses[j]));
    let y = import::all_lines(is_finished(statuses[k]), import::of_status(issues, statuses[k]));
    lemma_regroup_two(
        c,
        heading(issues, statuses[j]),
        x,
        "\n"@,
        d,
        heading(issues, statuses[k]),
        y,
        b,
    );
    (c, x + "\n"@ + d, y + "\n"@ + b)
}

proof fn lemma_regroup_two(
    c: Seq<char>,
    h: Seq<char>,
    x: Seq<char>,
    end: Seq<char>,
    d: Seq<char>,
    g: Seq<char>,
    y: Seq<char>,
    b: Seq<char>,
)
    ensures
        (c + (h + x + end) + d) + (g + y + end) + b == c + h + (x + end + d) + g + (y + end + b),
{
    assert((c + (h + x + end) + d) + (g + y + end) + b =~= c + h + (x + end + d) + g + (y + end
        + b));
}

proof fn lemma_ranks(i: int)
    requires
        0 <= i < 6,
    ensures
        import::known_statuses().len() == 6,
        rank(import::known_statuses()[i]) == i,
{
    reveal_strlit("To Do");
    reveal_strlit("In Progress");
    reveal_strlit("In Review");
    reveal_strlit("Done");
    reveal_strlit("Closed");
    reveal_strlit("Resolved");
    assert("To Do"@.len() == 5 && "In Progress"@.len() == 11 && "In Review"@.len() == 9
        && "Done"@.len() == 4 && "Closed"@.len() == 6 && "Resolved"@.len() == 8);
}

proof fn lemma_occurring_by_rank(issues: Seq<JiraIssue>, n: int)
    requires
        0 <= n <= 6,
    ensures
        ({
            let names = import::occurring(issues, import::known_statuses().take(n));
            &&& forall|j: int| 0 <= j < names.len() ==> 0 <= rank(#[trigger] names[j]) < n
            &&& forall|j: int, k: int|
                0 <= j < k < names.len() ==> rank(#[trigger] names[j]) < rank(#[trigger] names[k])
            &&& forall|s: Seq<char>|
                import::occurs(issues, s) && rank(s) < n ==> #[trigger] names.contains(s)
        }),
    decreases n,
{
    let known = import::known_statuses();
    let names = import::occurring(issues, known.take(n));
    if n > 0 {
        assert(known.take(n).drop_last() =~= known.take(n - 1));
        lemma_occurring_by_rank(issues, n - 1);
        lemma_ranks(n - 1);
        let before = import::occurring(issues, known.take(n - 1));
        let last = known[n - 1];
        assert forall|s: Seq<char>| import::occurs(issues, s) && rank(s) < n implies
            #[trigger] names.contains(s) by {
            if rank(s) == n - 1 {
                assert(s == last);
                assert(names[names.len() - 1] == s);
            } else {
                assert(before.contains(s));
                let k = choose|k: int| 0 <= k < before.len() && before[k] == s;
                assert(names[k] == s);
            }
        }
    }
}

/// The sections of a board come in order: "To Do", "In Progress", "In Review", "Done", "Closed",
/// "Resolved", then every other status, in the order of their bytes.
pub proof fn sections_come_in_order(
    project_key: &str,
    issues: &Vec<JiraIssue>,
    md: String,
    i: int,
    j: int,
)
    requires
        call_ensures(import::build_kanban_markdown, (project_key, issues), md),
        0 <= i < issues@.len(),
        0 <= j < issues@.len(),
        rank(issues@[i].status@) < rank(issues@[j].status@) || rank(issues@[i].status@) == rank(
            issues@[j].status@,
        ) == 6 && strings::text_before(issues@[i].status@, issues@[j].status@),
    ensures
        exists|a: Seq<char>, b: Seq<char>, c: Seq<char>|
            md@ == #[trigger] (a + heading(issues@, issues@[i].status@) + b + heading(
                issues@,
                issues@[j].status@,
            ) + c),
{
    let all = issues@;
    let s1 = all[i].status@;
    let s2 = all[j].status@;
    assert(import::occurs(all, s1) && import::occurs(all, s2));
    let names = import::known_statuses();
    assert(names.take(6) =~= names);
    lemma_occurring_by_rank(all, 6);
    let known = import::occurring(all, names);
    let rest = choose|rest: Seq<Seq<char>>|
        #[trigger] import::other_statuses(all, rest) && md@ == import::kanban_head(
            project_key@,
            import::done_in(all),
            all.len(),
        ) + import::sections(all, known) + import::sections(all, rest);
    let head = import::kanban_head(project_key@, import::done_in(all), all.len());
    let first = import::sections(all, known);
    let second = import::sections(all, rest);
    import::every_ticket_has_one_section(all, rest);
    if rank(s2) < 6 {
        let p = choose|p: int| 0 <= p < known.len() && known[p] == s1;
        let q = choose|q: int| 0 <= q < known.len() && known[q] == s2;
        assert(known.contains(s1) && known.contains(s2));
        let (a, b, c) = lemma_two_sections(all, known, p, q);
        lemma_within(head, a, heading(all, s1), b, heading(all, s2), c, second);
        assert(md@ == (head + a) + heading(all, s1) + b + heading(all, s2) + (c + second));
    } else if rank(s1) < 6 {
        assert(known.contains(s1));
        let p = choose|p: int| 0 <= p < known.len() && known[p] == s1;
        assert(!known.contains(s2)) by {
            if known.contains(s2) {
                let q = choose|q: int| 0 <= q < known.len() && known[q] == s2;
                assert(rank(known[q]) < 6);
            }
        }
        assert(rest.contains(s2));
        let q = choose|q: int| 0 <= q < rest.len() && rest[q] == s2;
        let (a, b) = lemma_sections_have(all, known, p);
        let (c, d) = lemma_sections_have(all, rest, q);
        lemma_section_starts(all, s1);
        lemma_section_starts(all, s2);
        let x = import::all_lines(is_finished(s1), import::of_status(all, s1));
        let y = import::all_lines(is_finished(s2), import::of_status(all, s2));
        lemma_across(head, a, heading(all, s1), x, "\n"@, b, c, heading(all, s2), y, d);
        assert(md@ == (head + a) + heading(all, s1) + (x + "\n"@ + b + c) + heading(all, s2) + (y
            + "\n"@ + d));
    } else {
        assert(!known.contains(s1) && !known.contains(s2)) by {
            if known.contains(s1) {
                let q = choose|q: int| 0 <= q < known.len() && known[q] == s1;
                assert(rank(known[q]) < 6);
            }
            if known.contains(s2) {
                let q = choose|q: int| 0 <= q < known.len() && known[q] == s2;
                assert(rank(known[q]) < 6);
            }
        }
        assert(rest.contains(s1) && rest.contains(s2));
        let p = choose|p: int| 0 <= p < rest.len() && rest[p] == s1;
        let q = choose|q: int| 0 <= q < rest.len() && rest[q] == s2;
        if q <= p {
            strings::bytes_are_ordered(encode_utf8(s1), encode_utf8(s2));
            strings::bytes_are_ordered(encode_utf8(s2), encode_utf8(s1));
            if q < p {
                assert(strings::text_before(rest[q], rest[p]));
            }
        }
        let (a, b, c) = lemma_two_sections(all, rest, p, q);
        lemma_within(head + first, a, heading(all, s1), b, heading(all, s2), c, Seq::empty());
        assert(md@ + Seq::<char>::empty() =~= md@);
        assert(c + Seq::<char>::empty() =~= c);
        assert(md@ == (head + first + a) + heading(all, s1) + b + heading(all, s2) + c);
    }
}

proof fn lemma_within(
    head: Seq<char>,
    a: Seq<char>,
    h: Seq<char>,
    b: Seq<char>,
    g: Seq<char>,
    c: Seq<char>,
    last: Seq<char>,
)
    ensures
        head + (a + h + b + g + c) + last == (head + a) + h + b + g + (c + last),
{
    assert(head + (a + h + b + g + c) + last =~= (head + a) + h + b + g + (c + last));
}

proof fn lemma_across(
    head: Seq<char>,
    a: Seq<char>,
    h: Seq<char>,
    x: Seq<char>,
    end: Seq<char>,
    b: Seq<char>,
    c: Seq<char>,
    g: Seq<char>,
    y: Seq<char>,
    d: Seq<char>,
)
    ensures
        head + (a + (h + x + end) + b) + (c + (g + y + end) + d) == (head + a) + h + (x + end + b
            + c) + g + (y + end + d),
{
    assert(head + (a + (h + x + end) + b) + (c + (g + y + end) + d) =~= (head + a) + h + (x + end
        + b + c) + g + (y + end + d));
}

} // verus!
