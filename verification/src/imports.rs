//! What imported pages, documents and lists say, and how imports add up.

use crate::collections;
use crate::hash;
use crate::import_orchestrator as import;
use crate::import_orchestrator::{
    ConfigError, ConfluencePage, DocumentImport, GoogleDoc, GoogleParagraph, ImportOutcome,
    ImportResult, ImportableProject, ImportedBoard, IntegrationConfig, JiraIssue, ProjectImport,
    SpaceImport,
};
use crate::json;
use crate::json::Json;
use crate::model::SwiftEvent;
use crate::strings;
use crate::text;
use vstd::prelude::*;
use vstd::string::*;

verus! {

/// Whether the member under a key is this text.
pub open spec fn says(json: Json, key: Seq<char>, value: Seq<char>) -> bool {
    json.member(key) matches Some(Json::Text(v)) && v@ == value
}

/// Whether the member under a key is a text.
pub open spec fn has_text(json: Json, key: Seq<char>) -> bool {
    json.member(key) matches Some(Json::Text(_))
}

/// A configuration is read from its own members. The token is the first of "token", "api_token" and
/// "access_token" that is a text; what is not said is empty.
pub proof fn a_configuration_says_what_its_members_say(
    stored: Option<String>,
    integration_type: &String,
    r: Result<IntegrationConfig, ConfigError>,
)
    requires
        call_ensures(import::load_integration_config, (stored, integration_type), r),
    ensures
        stored is None ==> r == Err::<IntegrationConfig, ConfigError>(
            ConfigError::NotConfigured(*integration_type),
        ),
        stored is Some && json::parsed_json(stored->0@) is None ==> r == Err::<
            IntegrationConfig,
            ConfigError,
        >(ConfigError::Invalid),
        stored is Some && json::parsed_json(stored->0@) is Some ==> r is Ok && ({
            let json = json::parsed_json(stored->0@)->0;
            let c = r->Ok_0;
            &&& has_text(json, "domain"@) ==> says(json, "domain"@, c.domain@)
            &&& !has_text(json, "domain"@) ==> c.domain@.len() == 0
            &&& has_text(json, "email"@) ==> says(json, "email"@, c.email@)
            &&& !has_text(json, "email"@) ==> c.email@.len() == 0
            &&& has_text(json, "token"@) ==> says(json, "token"@, c.token@)
            &&& !has_text(json, "token"@) && has_text(json, "api_token"@) ==> says(
                json,
                "api_token"@,
                c.token@,
            )
            &&& !has_text(json, "token"@) && !has_text(json, "api_token"@) && has_text(
                json,
                "access_token"@,
            ) ==> says(json, "access_token"@, c.token@)
            &&& !has_text(json, "token"@) && !has_text(json, "api_token"@) && !has_text(
                json,
                "access_token"@,
            ) ==> c.token@.len() == 0
            &&& import::list_in(json.member("projects"@)) matches Some(list) ==> collections::texts(
                c.projects@,
            ) == list
            &&& import::list_in(json.member("projects"@)) is None ==> ({
                &&& import::list_in(json.member("spaces"@)) is Some ==> Some(
                    collections::texts(c.projects@),
                ) == import::list_in(json.member("spaces"@))
                &&& import::list_in(json.member("spaces"@)) is None ==> c.projects@.len() == 0
            })
            &&& import::list_in(json.member("document_ids"@)) is Some ==> Some(
                collections::texts(c.document_ids@),
            ) == import::list_in(json.member("document_ids"@))
            &&& import::list_in(json.member("document_ids"@)) is None ==> c.document_ids@.len() == 0
        }),
{
    if r is Ok {
        let c = r->Ok_0;
        assert(collections::texts(c.projects@).len() == c.projects@.len());
        assert(collections::texts(c.document_ids@).len() == c.document_ids@.len());
    }
}

/// Whether a text is a tag: something in angle brackets.
pub open spec fn is_tag(t: Seq<char>) -> bool {
    &&& t.len() >= 3
    &&& t[0] == '<'
    &&& t.last() == '>'
    &&& forall|i: int| 0 < i < t.len() - 1 ==> #[trigger] t[i] != '<' && t[i] != '>'
}

/// Whether a text has no angle bracket.
pub open spec fn is_plain(s: Seq<char>) -> bool {
    forall|i: int| 0 <= i < s.len() ==> #[trigger] s[i] != '<' && s[i] != '>'
}

/// What stands in Markdown for a tag; nothing for one that has no counterpart.
pub open spec fn markdown_of(tag: Seq<char>) -> Seq<char> {
    if tag == "<strong>"@ || tag == "</strong>"@ {
        "**"@
    } else if tag == "<em>"@ || tag == "</em>"@ {
        "_"@
    } else if tag == "<code>"@ || tag == "</code>"@ {
        "`"@
    } else if tag == "<h1>"@ {
        "# "@
    } else if tag == "<h2>"@ {
        "## "@
    } else if tag == "<h3>"@ {
        "### "@
    } else if tag == "<li>"@ {
        "- "@
    } else if tag == "<p>"@ || tag == "</p>"@ || tag == "<br>"@ || tag == "<br/>"@ || tag
        == "</h1>"@ || tag == "</h2>"@ || tag == "</h3>"@ || tag == "</li>"@ || tag == "</ul>"@
        || tag == "</ol>"@ {
        "\n"@
    } else {
        ""@
    }
}

proof fn lemma_replace_plain(s: Seq<char>, pat: Seq<char>, by: Seq<char>)
    requires
        is_plain(s),
        is_tag(pat),
    ensures
        strings::replaced(s, pat, by) == s,
    decreases s.len(),
{
    if s.len() > 0 {
        if strings::stands_at(s, pat, 0) {
            assert(s.subrange(0, pat.len() as int)[0] == pat[0]);
        }
        assert forall|i: int| 0 <= i < s.skip(1).len() implies #[trigger] s.skip(1)[i] != '<'
            && s.skip(1)[i] != '>' by {
            assert(s.skip(1)[i] == s[i + 1]);
        }
        lemma_replace_plain(s.skip(1), pat, by);
        assert(seq![s[0]] + s.skip(1) =~= s);
    }
}

proof fn lemma_replace_other(
    x: Seq<char>,
    tag: Seq<char>,
    y: Seq<char>,
    pat: Seq<char>,
    by: Seq<char>,
)
    requires
        is_plain(x),
        is_tag(tag) || is_plain(tag),
        is_plain(y),
        is_tag(pat),
        pat != tag,
    ensures
        strings::replaced(x + tag + y, pat, by) == x + tag + y,
    decreases x.len() + tag.len(),
{
    let s = x + tag + y;
    if is_plain(tag) {
        assert(is_plain(s)) by {
            assert forall|i: int| 0 <= i < s.len() implies #[trigger] s[i] != '<' && s[i]
                != '>' by {
                if i < x.len() {
                    assert(s[i] == x[i]);
                } else if i < x.len() + tag.len() {
                    assert(s[i] == tag[i - x.len()]);
                } else {
                    assert(s[i] == y[i - x.len() - tag.len()]);
                }
            }
        }
        lemma_replace_plain(s, pat, by);
    } else if x.len() > 0 {
        assert(s[0] == x[0]);
        if strings::stands_at(s, pat, 0) {
            assert(s.subrange(0, pat.len() as int)[0] == pat[0]);
        }
        assert(s.skip(1) =~= x.skip(1) + tag + y);
        assert forall|i: int| 0 <= i < x.skip(1).len() implies #[trigger] x.skip(1)[i] != '<'
            && x.skip(1)[i] != '>' by {
            assert(x.skip(1)[i] == x[i + 1]);
        }
        lemma_replace_other(x.skip(1), tag, y, pat, by);
        assert(seq![s[0]] + s.skip(1) =~= s);
    } else {
        assert(s =~= tag + y);
        if strings::stands_at(s, pat, 0) {
            let head = s.subrange(0, pat.len() as int);
            let n = pat.len() as int;
            let m = tag.len() as int;
            if n < m {
                assert(head[n - 1] == s[n - 1]);
                assert(s[n - 1] == tag[n - 1]);
            } else if n > m {
                assert(head[m - 1] == s[m - 1]);
                assert(s[m - 1] == tag[m - 1]);
            } else {
                assert(head =~= tag);
            }
        }
        let rest = tag.skip(1) + y;
        assert(s.skip(1) =~= rest);
        lemma_replace_tail(rest, pat, by);
        assert(seq![s[0]] + rest =~= s);
    }
}

proof fn lemma_replace_tail(s: Seq<char>, pat: Seq<char>, by: Seq<char>)
    requires
        is_tag(pat),
        forall|i: int| 0 <= i < s.len() ==> #[trigger] s[i] != '<',
    ensures
        strings::replaced(s, pat, by) == s,
    decreases s.len(),
{
    if s.len() > 0 {
        if strings::stands_at(s, pat, 0) {
            assert(s.subrange(0, pat.len() as int)[0] == pat[0]);
        }
        assert forall|i: int| 0 <= i < s.skip(1).len() implies #[trigger] s.skip(1)[i] != '<' by {
            assert(s.skip(1)[i] == s[i + 1]);
        }
        lemma_replace_tail(s.skip(1), pat, by);
        assert(seq![s[0]] + s.skip(1) =~= s);
    }
}

proof fn lemma_replace_same(x: Seq<char>, tag: Seq<char>, y: Seq<char>, by: Seq<char>)
    requires
        is_plain(x),
        is_tag(tag),
        is_plain(y),
    ensures
        strings::replaced(x + tag + y, tag, by) == x + by + y,
    decreases x.len(),
{
    let s = x + tag + y;
    if x.len() > 0 {
        assert(s[0] == x[0]);
        if strings::stands_at(s, tag, 0) {
            assert(s.subrange(0, tag.len() as int)[0] == tag[0]);
        }
        assert(s.skip(1) =~= x.skip(1) + tag + y);
        assert forall|i: int| 0 <= i < x.skip(1).len() implies #[trigger] x.skip(1)[i] != '<'
            && x.skip(1)[i] != '>' by {
            assert(x.skip(1)[i] == x[i + 1]);
        }
        lemma_replace_same(x.skip(1), tag, y, by);
        assert(seq![x[0]] + (x.skip(1) + by + y) =~= x + by + y);
    } else {
        assert(s =~= tag + y);
        assert(s.subrange(0, tag.len() as int) =~= tag);
        assert(strings::stands_at(s, tag, 0));
        assert(s.skip(tag.len() as int) =~= y);
        lemma_replace_plain(y, tag, by);
        assert(by + y =~= x + by + y);
    }
}

spec fn step_of(s: Seq<char>, table: Seq<(Seq<char>, Seq<char>)>) -> Seq<char>
    decreases table.len(),
{
    if table.len() == 0 {
        s
    } else {
        strings::replaced(step_of(s, table.drop_last()), table.last().0, table.last().1)
    }
}

spec fn found_in(table: Seq<(Seq<char>, Seq<char>)>, tag: Seq<char>) -> Seq<char>
    decreases table.len(),
{
    if table.len() == 0 {
        tag
    } else if table.last().0 == tag && !is_plain(found_in(table.drop_last(), tag)) {
        table.last().1
    } else {
        found_in(table.drop_last(), tag)
    }
}

proof fn lemma_steps(
    x: Seq<char>,
    tag: Seq<char>,
    y: Seq<char>,
    table: Seq<(Seq<char>, Seq<char>)>,
)
    requires
        is_plain(x),
        is_tag(tag),
        is_plain(y),
        forall|i: int|
            0 <= i < table.len() ==> is_tag((#[trigger] table[i]).0) && is_plain(table[i].1),
    ensures
        step_of(x + tag + y, table) == x + found_in(table, tag) + y,
        found_in(table, tag) == tag || is_plain(found_in(table, tag)),
    decreases table.len(),
{
    if table.len() > 0 {
        let rest = table.drop_last();
        assert forall|i: int| 0 <= i < rest.len() implies is_tag((#[trigger] rest[i]).0)
            && is_plain(rest[i].1) by {
            assert(rest[i] == table[i]);
        }
        assert(is_tag(table[table.len() - 1].0));
        lemma_steps(x, tag, y, rest);
        let now = found_in(rest, tag);
        let (pat, by) = table.last();
        assert(tag[0] == '<');
        if now == tag {
            assert(!is_plain(now));
            if pat == tag {
                lemma_replace_same(x, tag, y, by);
            } else {
                lemma_replace_other(x, tag, y, pat, by);
            }
        } else {
            if pat == now {
                assert(pat[0] == '<');
                assert(now[0] != '<');
            }
            lemma_replace_other(x, now, y, pat, by);
        }
    }
}

spec fn tag_table() -> Seq<(Seq<char>, Seq<char>)> {
    seq![
        ("<p>"@, "\n"@),
        ("</p>"@, "\n"@),
        ("<br>"@, "\n"@),
        ("<br/>"@, "\n"@),
        ("<strong>"@, "**"@),
        ("</strong>"@, "**"@),
        ("<em>"@, "_"@),
        ("</em>"@, "_"@),
        ("<h1>"@, "# "@),
        ("</h1>"@, "\n"@),
        ("<h2>"@, "## "@),
        ("</h2>"@, "\n"@),
        ("<h3>"@, "### "@),
        ("</h3>"@, "\n"@),
        ("<li>"@, "- "@),
        ("</li>"@, "\n"@),
        ("<ul>"@, ""@),
        ("</ul>"@, "\n"@),
        ("<ol>"@, ""@),
        ("</ol>"@, "\n"@),
        ("<code>"@, "`"@),
        ("</code>"@, "`"@),
    ]
}

proof fn lemma_table_rows(i: int)
    requires
        0 <= i < 22,
    ensures
        tag_table().len() == 22,
        is_tag(tag_table()[i].0),
        is_plain(tag_table()[i].1),
{
    reveal_strlit("<p>");
    reveal_strlit("</p>");
    reveal_strlit("<br>");
    reveal_strlit("<br/>");
    reveal_strlit("<strong>");
    reveal_strlit("</strong>");
    reveal_strlit("<em>");
    reveal_strlit("</em>");
    reveal_strlit("<h1>");
    reveal_strlit("</h1>");
    reveal_strlit("<h2>");
    reveal_strlit("</h2>");
    reveal_strlit("<h3>");
    reveal_strlit("</h3>");
    reveal_strlit("<li>");
    reveal_strlit("</li>");
    reveal_strlit("<ul>");
    reveal_strlit("</ul>");
    reveal_strlit("<ol>");
    reveal_strlit("</ol>");
    reveal_strlit("<code>");
    reveal_strlit("</code>");
    reveal_strlit("\n");
    reveal_strlit("**");
    reveal_strlit("_");
    reveal_strlit("# ");
    reveal_strlit("## ");
    reveal_strlit("### ");
    reveal_strlit("- ");
    reveal_strlit("");
    reveal_strlit("`");
}

proof fn lemma_step_at(s: Seq<char>, tag: Seq<char>, k: int)
    requires
        0 <= k < 22,
    ensures
        step_of(s, tag_table().take(k + 1)) == strings::replaced(
            step_of(s, tag_table().take(k)),
            tag_table()[k].0,
            tag_table()[k].1,
        ),
        found_in(tag_table().take(k + 1), tag) == (if tag_table()[k].0 == tag && !is_plain(
            found_in(tag_table().take(k), tag),
        ) {
            tag_table()[k].1
        } else {
            found_in(tag_table().take(k), tag)
        }),
{
    let t = tag_table();
    assert(t.take(k + 1).drop_last() =~= t.take(k));
    assert(t.take(k + 1).last() == t[k]);
}

proof fn lemma_all_steps(s: Seq<char>)
    ensures
        import::tags_replaced(s) == step_of(s, tag_table()),
{
    let t = tag_table();
    assert(t.take(22) =~= t);
    lemma_step_at(s, s, 0);
    lemma_step_at(s, s, 1);
    lemma_step_at(s, s, 2);
    lemma_step_at(s, s, 3);
    lemma_step_at(s, s, 4);
    lemma_step_at(s, s, 5);
    lemma_step_at(s, s, 6);
    lemma_step_at(s, s, 7);
    lemma_step_at(s, s, 8);
    lemma_step_at(s, s, 9);
    lemma_step_at(s, s, 10);
    lemma_step_at(s, s, 11);
    lemma_step_at(s, s, 12);
    lemma_step_at(s, s, 13);
    lemma_step_at(s, s, 14);
    lemma_step_at(s, s, 15);
    lemma_step_at(s, s, 16);
    lemma_step_at(s, s, 17);
    lemma_step_at(s, s, 18);
    lemma_step_at(s, s, 19);
    lemma_step_at(s, s, 20);
    lemma_step_at(s, s, 21);
    assert(step_of(s, t.take(0)) == s);
}

/// Whether a tag has a counterpart in Markdown, which may be nothing.
pub open spec fn has_counterpart(tag: Seq<char>) -> bool {
    tag == "<p>"@
        || tag == "</p>"@
        || tag == "<br>"@
        || tag == "<br/>"@
        || tag == "<strong>"@
        || tag == "</strong>"@
        || tag == "<em>"@
        || tag == "</em>"@
        || tag == "<h1>"@
        || tag == "</h1>"@
        || tag == "<h2>"@
        || tag == "</h2>"@
        || tag == "<h3>"@
        || tag == "</h3>"@
        || tag == "<li>"@
        || tag == "</li>"@
        || tag == "<ul>"@
        || tag == "</ul>"@
        || tag == "<ol>"@
        || tag == "</ol>"@
        || tag == "<code>"@
        || tag == "</code>"@
}

proof fn lemma_tag_found(tag: Seq<char>, k: int)
    requires
        0 <= k <= 22,
        is_tag(tag),
    ensures
        (exists|j: int| 0 <= j < k && (#[trigger] tag_table()[j]).0 == tag) ==> exists|j: int|
            0 <= j < k && (#[trigger] tag_table()[j]).0 == tag && found_in(
                tag_table().take(k),
                tag,
            ) == tag_table()[j].1,
        !(exists|j: int| 0 <= j < k && (#[trigger] tag_table()[j]).0 == tag) ==> found_in(
            tag_table().take(k),
            tag,
        ) == tag,
    decreases k,
{
    if k > 0 {
        lemma_tag_found(tag, k - 1);
        lemma_step_at(tag, tag, k - 1);
        let now = found_in(tag_table().take(k - 1), tag);
        assert(tag[0] == '<');
        if exists|j: int| 0 <= j < k - 1 && (#[trigger] tag_table()[j]).0 == tag {
            let j = choose|j: int|
                0 <= j < k - 1 && (#[trigger] tag_table()[j]).0 == tag && now == tag_table()[j].1;
            lemma_table_rows(j);
            assert(found_in(tag_table().take(k), tag) == tag_table()[j].1);
        } else {
            assert(now == tag);
            assert(!is_plain(tag));
            if tag_table()[k - 1].0 == tag {
                assert(found_in(tag_table().take(k), tag) == tag_table()[k - 1].1);
            }
        }
    }
}

proof fn lemma_same_counterpart(j: int)
    requires
        0 <= j < 22,
    ensures
        markdown_of(tag_table()[j].0) == tag_table()[j].1,
        has_counterpart(tag_table()[j].0),
{
    reveal_strlit("<p>");
    reveal_strlit("</p>");
    reveal_strlit("<br>");
    reveal_strlit("<br/>");
    reveal_strlit("<strong>");
    reveal_strlit("</strong>");
    reveal_strlit("<em>");
    reveal_strlit("</em>");
    reveal_strlit("<h1>");
    reveal_strlit("</h1>");
    reveal_strlit("<h2>");
    reveal_strlit("</h2>");
    reveal_strlit("<h3>");
    reveal_strlit("</h3>");
    reveal_strlit("<li>");
    reveal_strlit("</li>");
    reveal_strlit("<ul>");
    reveal_strlit("</ul>");
    reveal_strlit("<ol>");
    reveal_strlit("</ol>");
    reveal_strlit("<code>");
    reveal_strlit("</code>");
    let tag = tag_table()[j].0;
    assert("<p>"@.len() == 3);
    assert("</p>"@.len() == 4);
    assert("<br>"@.len() == 4);
    assert("<br/>"@.len() == 5);
    assert("<strong>"@.len() == 8);
    assert("</strong>"@.len() == 9);
    assert("<em>"@.len() == 4);
    assert("</em>"@.len() == 5);
    assert("<h1>"@.len() == 4);
    assert("</h1>"@.len() == 5);
    assert("<h2>"@.len() == 4);
    assert("</h2>"@.len() == 5);
    assert("<h3>"@.len() == 4);
    assert("</h3>"@.len() == 5);
    assert("<li>"@.len() == 4);
    assert("</li>"@.len() == 5);
    assert("<ul>"@.len() == 4);
    assert("</ul>"@.len() == 5);
    assert("<ol>"@.len() == 4);
    assert("</ol>"@.len() == 5);
    assert("<code>"@.len() == 6);
    assert("</code>"@.len() == 7);
    assert("<p>"@[1] == 'p' && "<p>"@[2] == '>');
    assert("</p>"@[1] == '/' && "</p>"@[2] == 'p' && "</p>"@[3] == '>');
    assert("<br>"@[1] == 'b' && "<br>"@[2] == 'r' && "<br>"@[3] == '>');
    assert("<br/>"@[1] == 'b' && "<br/>"@[2] == 'r' && "<br/>"@[3] == '/');
    assert("<strong>"@[1] == 's' && "<strong>"@[2] == 't' && "<strong>"@[3] == 'r');
    assert("</strong>"@[1] == '/' && "</strong>"@[2] == 's' && "</strong>"@[3] == 't');
    assert("<em>"@[1] == 'e' && "<em>"@[2] == 'm' && "<em>"@[3] == '>');
    assert("</em>"@[1] == '/' && "</em>"@[2] == 'e' && "</em>"@[3] == 'm');
    assert("<h1>"@[1] == 'h' && "<h1>"@[2] == '1' && "<h1>"@[3] == '>');
    assert("</h1>"@[1] == '/' && "</h1>"@[2] == 'h' && "</h1>"@[3] == '1');
    assert("<h2>"@[1] == 'h' && "<h2>"@[2] == '2' && "<h2>"@[3] == '>');
    assert("</h2>"@[1] == '/' && "</h2>"@[2] == 'h' && "</h2>"@[3] == '2');
    assert("<h3>"@[1] == 'h' && "<h3>"@[2] == '3' && "<h3>"@[3] == '>');
    assert("</h3>"@[1] == '/' && "</h3>"@[2] == 'h' && "</h3>"@[3] == '3');
    assert("<li>"@[1] == 'l' && "<li>"@[2] == 'i' && "<li>"@[3] == '>');
    assert("</li>"@[1] == '/' && "</li>"@[2] == 'l' && "</li>"@[3] == 'i');
    assert("<ul>"@[1] == 'u' && "<ul>"@[2] == 'l' && "<ul>"@[3] == '>');
    assert("</ul>"@[1] == '/' && "</ul>"@[2] == 'u' && "</ul>"@[3] == 'l');
    assert("<ol>"@[1] == 'o' && "<ol>"@[2] == 'l' && "<ol>"@[3] == '>');
    assert("</ol>"@[1] == '/' && "</ol>"@[2] == 'o' && "</ol>"@[3] == 'l');
    assert("<code>"@[1] == 'c' && "<code>"@[2] == 'o' && "<code>"@[3] == 'd');
    assert("</code>"@[1] == '/' && "</code>"@[2] == 'c' && "</code>"@[3] == 'o');
}

proof fn lemma_markdown(tag: Seq<char>)
    requires
        is_tag(tag),
    ensures
        has_counterpart(tag) ==> found_in(tag_table(), tag) == markdown_of(tag),
        !has_counterpart(tag) ==> found_in(tag_table(), tag) == tag,
{
    let t = tag_table();
    assert(t.take(22) =~= t);
    lemma_tag_found(tag, 22);
    if has_counterpart(tag) {
        assert(t[0].0 == "<p>"@);
        assert(t[1].0 == "</p>"@);
        assert(t[2].0 == "<br>"@);
        assert(t[3].0 == "<br/>"@);
        assert(t[4].0 == "<strong>"@);
        assert(t[5].0 == "</strong>"@);
        assert(t[6].0 == "<em>"@);
        assert(t[7].0 == "</em>"@);
        assert(t[8].0 == "<h1>"@);
        assert(t[9].0 == "</h1>"@);
        assert(t[10].0 == "<h2>"@);
        assert(t[11].0 == "</h2>"@);
        assert(t[12].0 == "<h3>"@);
        assert(t[13].0 == "</h3>"@);
        assert(t[14].0 == "<li>"@);
        assert(t[15].0 == "</li>"@);
        assert(t[16].0 == "<ul>"@);
        assert(t[17].0 == "</ul>"@);
        assert(t[18].0 == "<ol>"@);
        assert(t[19].0 == "</ol>"@);
        assert(t[20].0 == "<code>"@);
        assert(t[21].0 == "</code>"@);
        let j = choose|j: int|
            0 <= j < 22 && (#[trigger] t[j]).0 == tag && found_in(t, tag) == t[j].1;
        lemma_same_counterpart(j);
    } else if exists|j: int| 0 <= j < 22 && (#[trigger] t[j]).0 == tag {
        let j = choose|j: int| 0 <= j < 22 && (#[trigger] t[j]).0 == tag;
        lemma_same_counterpart(j);
    }
}

proof fn lemma_stripped_plain(s: Seq<char>)
    requires
        is_plain(s),
    ensures
        import::stripped(s) == s,
        !import::ends_in_tag(s),
    decreases s.len(),
{
    if s.len() > 0 {
        assert forall|i: int| 0 <= i < s.drop_last().len() implies #[trigger] s.drop_last()[i]
            != '<' && s.drop_last()[i] != '>' by {
            assert(s.drop_last()[i] == s[i]);
        }
        assert(s[s.len() - 1] != '<');
        lemma_stripped_plain(s.drop_last());
        assert(s.drop_last().push(s.last()) =~= s);
    }
}

proof fn lemma_stripped_open(x: Seq<char>, tag: Seq<char>, n: int)
    requires
        is_plain(x),
        is_tag(tag),
        1 <= n < tag.len(),
    ensures
        import::stripped(x + tag.take(n)) == x,
        import::ends_in_tag(x + tag.take(n)),
    decreases n,
{
    let s = x + tag.take(n);
    assert(s.drop_last() =~= x + tag.take(n - 1));
    assert(s.last() == tag[n - 1]);
    if n == 1 {
        assert(x + tag.take(0) =~= x);
        lemma_stripped_plain(x);
    } else {
        lemma_stripped_open(x, tag, n - 1);
    }
}

proof fn lemma_stripped_tag(x: Seq<char>, tag: Seq<char>, y: Seq<char>)
    requires
        is_plain(x),
        is_tag(tag),
        is_plain(y),
    ensures
        import::stripped(x + tag + y) == x + y,
        !import::ends_in_tag(x + tag + y),
    decreases y.len(),
{
    let s = x + tag + y;
    if y.len() == 0 {
        let n = tag.len() - 1;
        lemma_stripped_open(x, tag, n);
        assert(s.drop_last() =~= x + tag.take(n));
        assert(s.last() == tag.last());
        assert(x + y =~= x);
    } else {
        let z = y.drop_last();
        assert forall|i: int| 0 <= i < z.len() implies #[trigger] z[i] != '<' && z[i] != '>' by {
            assert(z[i] == y[i]);
        }
        assert(y[y.len() - 1] != '<');
        lemma_stripped_tag(x, tag, z);
        assert(s.drop_last() =~= x + tag + z);
        assert(s.last() == y.last());
        assert((x + z).push(y.last()) =~= x + y);
    }
}

/// A tag in the body of a page becomes what stands for it in Markdown, or nothing where it has no
/// counterpart; the text around it stays. The page has its title above and no white space around
/// its content.
pub proof fn tags_become_markdown(
    page: &ConfluencePage,
    x: Seq<char>,
    tag: Seq<char>,
    y: Seq<char>,
    md: String,
)
    requires
        call_ensures(import::confluence_page_to_markdown, (page,), md),
        page.body is Some,
        page.body->0@ == x + tag + y,
        is_plain(x),
        is_tag(tag),
        is_plain(y),
    ensures
        exists|content: Seq<char>|
            #[trigger] strings::is_trimmed(x + markdown_of(tag) + y, content) && md@ == "# "@
                + page.title@ + "\n\n"@ + content + "\n"@,
{
    let t = tag_table();
    assert forall|i: int| 0 <= i < t.len() implies is_tag((#[trigger] t[i]).0) && is_plain(
        t[i].1,
    ) by {
        lemma_table_rows(i);
    }
    lemma_all_steps(x + tag + y);
    lemma_steps(x, tag, y, t);
    lemma_markdown(tag);
    reveal_strlit("");
    if has_counterpart(tag) {
        let s = x + markdown_of(tag) + y;
        assert(tag[0] == '<');
        assert(is_plain(markdown_of(tag))) by {
            lemma_counterparts_are_plain(tag);
        }
        assert forall|i: int| 0 <= i < s.len() implies #[trigger] s[i] != '<' && s[i] != '>' by {
            let m = markdown_of(tag);
            if i < x.len() {
                assert(s[i] == x[i]);
            } else if i < x.len() + m.len() {
                assert(s[i] == m[i - x.len()]);
            } else {
                assert(s[i] == y[i - x.len() - m.len()]);
            }
        }
        lemma_stripped_plain(s);
    } else {
        lemma_stripped_tag(x, tag, y);
        assert(markdown_of(tag) == ""@);
        assert(x + ""@ + y =~= x + y);
    }
    let plain = import::plain_body(*page);
    assert(plain == x + markdown_of(tag) + y);
    let content = choose|content: Seq<char>|
        #[trigger] strings::is_trimmed(plain, content) && md@ == "# "@ + page.title@ + "\n\n"@
            + content + "\n"@;
    assert(strings::is_trimmed(x + markdown_of(tag) + y, content));
}

proof fn lemma_counterparts_are_plain(tag: Seq<char>)
    ensures
        is_plain(markdown_of(tag)),
{
    reveal_strlit("\n");
    reveal_strlit("**");
    reveal_strlit("_");
    reveal_strlit("# ");
    reveal_strlit("## ");
    reveal_strlit("### ");
    reveal_strlit("- ");
    reveal_strlit("");
    reveal_strlit("`");
}

/// The body of a page; empty where it has none.
pub open spec fn body_of(page: ConfluencePage) -> Seq<char> {
    match page.body {
        Some(b) => b@,
        None => Seq::empty(),
    }
}

/// A page without tags keeps its text; one without a body has none. Taking the tags out of a text
/// leaves what stands around them.
pub proof fn plain_pages_keep_their_text(
    page: &ConfluencePage,
    md: String,
    s: &str,
    r: String,
    x: Seq<char>,
    tag: Seq<char>,
    y: Seq<char>,
)
    requires
        call_ensures(import::confluence_page_to_markdown, (page,), md),
        page.body is Some ==> is_plain(page.body->0@),
        call_ensures(import::strip_tags, (s,), r),
        s@ == x + tag + y,
        is_plain(x),
        is_tag(tag),
        is_plain(y),
    ensures
        exists|content: Seq<char>|
            #[trigger] strings::is_trimmed(body_of(*page), content) && md@ == "# "@ + page.title@ + "\n\n"@ + content + "\n"@,
        r@ == x + y,
{
    let body = body_of(*page);
    lemma_stripped_tag(x, tag, y);
    lemma_all_steps(body);
    let t = tag_table();
    assert(t.take(22) =~= t);
    lemma_plain_steps(body, 22);
    lemma_stripped_plain(body);
}

proof fn lemma_plain_steps(s: Seq<char>, k: int)
    requires
        is_plain(s),
        0 <= k <= 22,
    ensures
        step_of(s, tag_table().take(k)) == s,
    decreases k,
{
    if k > 0 {
        lemma_plain_steps(s, k - 1);
        lemma_step_at(s, s, k - 1);
        lemma_table_rows(k - 1);
        lemma_replace_plain(s, tag_table()[k - 1].0, tag_table()[k - 1].1);
    }
}

/// Whether an import is reported: how much came from where, and only where a board was created.
pub open spec fn is_told(result: ImportResult, event: Option<SwiftEvent>) -> bool {
    &&& event is Some <==> result.boards_created > 0
    &&& event is Some ==> event->0 is StatusUpdate && event->0->StatusUpdate_message@
        == "Imported "@ + text::int_text(result.items_imported as int) + " items into "@
        + text::int_text(result.boards_created as int) + " boards from "@ + result.source@
}

/// Whether a board is named after what it was made from and stands in a workspace under that name.
pub open spec fn is_named(b: ImportedBoard, workspace_id: Seq<char>, name: Seq<char>) -> bool {
    &&& b.name@ == name
    &&& b.id@ == hash::text_id("wb:"@ + workspace_id + "-"@ + name)
}

/// A project becomes one board that shows as a notebook, named after the project, and all its
/// tickets count as items. Without tickets there is no board, and that is noted.
pub proof fn a_project_becomes_a_board(
    project_key: &str,
    workspace_id: &str,
    issues: &Vec<JiraIssue>,
    r: ProjectImport,
)
    requires
        call_ensures(import::import_jira_project, (project_key, workspace_id, issues), r),
    ensures
        r.result.source@ == "jira"@,
        is_told(r.result, r.progress),
        r.board is Some <==> issues@.len() > 0,
        r.board matches Some(b) ==> {
            &&& is_named(b, workspace_id@, "📋 "@ + project_key@ + " — Kanban"@)
            &&& b.notebook
            &&& r.result.boards_created == 1
            &&& r.result.items_imported == issues@.len()
            &&& r.result.errors@.len() == 0
        },
        r.board is None ==> {
            &&& r.result.boards_created == 0
            &&& r.result.items_imported == 0
            &&& r.result.errors@.len() == 1
            &&& r.result.errors@[0]@ == "No issues found for project "@ + project_key@
        },
{
    if r.board is None {
        let errors = collections::texts(r.result.errors@);
        assert(errors.len() == r.result.errors@.len());
        assert(errors.len() == 1);
        assert(errors[0] == r.result.errors@[0]@);
    }
}

/// Each page of a space becomes a board of its own, named after the page and holding its Markdown,
/// in order.
pub proof fn pages_become_boards(
    workspace_id: &str,
    pages: &Vec<ConfluencePage>,
    r: SpaceImport,
    i: int,
)
    requires
        call_ensures(import::import_confluence_space, (workspace_id, pages), r),
    ensures
        r.result.source@ == "confluence"@,
        is_told(r.result, r.progress),
        r.boards@.len() == pages@.len(),
        r.result.boards_created == pages@.len(),
        r.result.items_imported == pages@.len(),
        r.result.errors@.len() == 0,
        0 <= i < pages@.len() ==> is_named(r.boards@[i], workspace_id@, "📄 "@ + pages@[i].title@)
            && !r.boards@[i].notebook && import::is_page_markdown(
            pages@[i],
            r.boards@[i].markdown@,
        ),
{
    if 0 <= i < pages@.len() {
        assert(import::titled_board(r.boards@[i], workspace_id@, pages@[i].title@));
    }
}

/// The text of the runs of a paragraph, one behind the other.
pub open spec fn text_of(p: GoogleParagraph) -> Seq<char> {
    p.runs@.map_values(
        |run: Option<String>|
            match run {
                Some(s) => s@,
                None => Seq::empty(),
            },
    ).flatten()
}

proof fn lemma_runs(runs: Seq<Option<String>>)
    ensures
        import::runs_text(runs) == runs.map_values(
            |run: Option<String>|
                match run {
                    Some(s) => s@,
                    None => Seq::empty(),
                },
        ).flatten(),
    decreases runs.len(),
{
    let f = |run: Option<String>|
        match run {
            Some(s) => s@,
            None => Seq::empty(),
        };
    let parts = runs.map_values(f);
    parts.lemma_flatten_and_flatten_alt_are_equivalent();
    if runs.len() > 0 {
        let rest = runs.drop_last();
        lemma_runs(rest);
        let less = rest.map_values(f);
        less.lemma_flatten_and_flatten_alt_are_equivalent();
        assert(parts.drop_last() =~= less);
        assert(parts.last() == f(runs.last()));
    }
}

proof fn lemma_paragraph_at(elements: Seq<Option<GoogleParagraph>>, i: int) -> (r: (
    Seq<char>,
    Seq<char>,
))
    requires
        0 <= i < elements.len(),
        forall|k: int| 0 <= k < elements.len() ==> (#[trigger] elements[k]) is Some,
    ensures
        import::paragraphs(elements).len() == elements.len(),
        import::joined_texts(import::paragraphs(elements), "\n"@) == r.0 + import::runs_text(
            elements[i]->0.runs@,
        ) + r.1,
        i == 0 ==> r.0.len() == 0,
        i > 0 ==> r.0.len() > 0 && r.0.last() == '\n',
        i == elements.len() - 1 ==> r.1.len() == 0,
        i < elements.len() - 1 ==> r.1.len() > 0 && r.1[0] == '\n',
    decreases elements.len(),
{
    reveal_strlit("\n");
    let rest = elements.drop_last();
    let parts = import::paragraphs(elements);
    let mine = import::runs_text(elements[i]->0.runs@);
    let none = Seq::<char>::empty();
    assert(elements[elements.len() - 1] is Some);
    assert forall|k: int| 0 <= k < rest.len() implies (#[trigger] rest[k]) is Some by {
        assert(rest[k] == elements[k]);
    }
    if rest.len() == 0 {
        assert(import::paragraphs(rest) =~= Seq::<Seq<char>>::empty());
        assert(parts.len() == 1 && parts[0] == mine);
        assert(mine =~= none + mine + none);
        (none, none)
    } else {
        let before = import::paragraphs(rest);
        let other: int = if i < rest.len() {
            i
        } else {
            0
        };
        let (a, b) = lemma_paragraph_at(rest, other);
        assert(parts.drop_last() =~= before);
        let last = parts.last();
        if i < rest.len() {
            assert(rest[i] == elements[i]);
            assert((a + mine + b) + "\n"@ + last =~= a + mine + (b + "\n"@ + last));
            (a, b + "\n"@ + last)
        } else {
            let head = import::joined_texts(before, "\n"@) + "\n"@;
            assert(head + mine =~= head + mine + none);
            (head, none)
        }
    }
}

/// Whether a text has a line of its own among others.
pub open spec fn has_line(s: Seq<char>, line: Seq<char>, is_first: bool, is_last: bool) -> bool {
    exists|a: Seq<char>, b: Seq<char>|
        {
            &&& s == #[trigger] (a + line + b)
            &&& if is_first {
                a.len() == 0
            } else {
                a.len() > 0 && a.last() == '\n'
            }
            &&& if is_last {
                b.len() == 0
            } else {
                b.len() > 0 && b[0] == '\n'
            }
        }
}

/// The text of a document has each paragraph in a line of its own, in order, with its runs one
/// behind the other. The document becomes a board named after it, with that text under its title.
pub proof fn a_document_becomes_a_board(
    workspace_id: &str,
    doc: &GoogleDoc,
    r: DocumentImport,
    extracted: String,
    i: int,
)
    requires
        call_ensures(import::import_google_doc, (workspace_id, doc), r),
        call_ensures(import::extract_gdoc_text, (doc,), extracted),
    ensures
        is_named(r.board, workspace_id@, "📄 "@ + doc.title@),
        !r.board.notebook,
        r.board.markdown@ == "# "@ + doc.title@ + "\n\n"@ + extracted@,
        r.result.source@ == "googledocs"@,
        r.result.boards_created == 1,
        r.result.items_imported == 1,
        r.result.errors@.len() == 0,
        is_told(r.result, r.progress),
        doc.body is None ==> extracted@.len() == 0,
        doc.body matches Some(elements) ==> ({
            0 <= i < elements@.len() && (forall|k: int|
                0 <= k < elements@.len() ==> (#[trigger] elements@[k]) is Some) ==> has_line(
                extracted@,
                text_of(elements@[i]->0),
                i == 0,
                i == elements@.len() - 1,
            )
        }),
{
    match doc.body {
        Some(elements) => {
            if 0 <= i < elements@.len() && (forall|k: int|
                0 <= k < elements@.len() ==> (#[trigger] elements@[k]) is Some) {
                let (a, b) = lemma_paragraph_at(elements@, i);
                lemma_runs(elements@[i]->0.runs@);
                assert(extracted@ == a + text_of(elements@[i]->0) + b);
            }
        },
        None => {},
    }
}

/// Several imports add up: one more counts its boards and items where it went well, and else its
/// name and reason among the errors, behind those before. Of documents each counts as an item.
pub proof fn imports_add_up(
    fewer: &Vec<ImportOutcome>,
    more: &Vec<ImportOutcome>,
    last: ImportOutcome,
    jira: ImportResult,
    jira_more: ImportResult,
    wiki: ImportResult,
    wiki_more: ImportResult,
    docs: ImportResult,
    docs_more: ImportResult,
)
    requires
        more@ == fewer@.push(last),
        call_ensures(import::import_all_jira, (fewer,), jira),
        call_ensures(import::import_all_jira, (more,), jira_more),
        call_ensures(import::import_all_confluence, (fewer,), wiki),
        call_ensures(import::import_all_confluence, (more,), wiki_more),
        call_ensures(import::import_all_google_docs, (fewer,), docs),
        call_ensures(import::import_all_google_docs, (more,), docs_more),
    ensures
        jira.source@ == "jira"@,
        wiki.source@ == "confluence"@,
        docs.source@ == "googledocs"@,
        adds(jira, jira_more, last),
        adds(wiki, wiki_more, last),
        docs_more.items_imported == docs.items_imported + 1,
        docs_more.boards_created == docs.boards_created + boards_of(last),
        adds_error(docs, docs_more, last),
        fewer@.len() == 0 ==> jira.boards_created == 0 && jira.items_imported == 0
            && jira.errors@.len() == 0 && wiki.boards_created == 0 && wiki.items_imported == 0
            && wiki.errors@.len() == 0 && docs.boards_created == 0 && docs.items_imported == 0
            && docs.errors@.len() == 0,
{
    assert(more@.drop_last() =~= fewer@);
    assert(collections::texts(jira.errors@).len() == jira.errors@.len());
    assert(collections::texts(wiki.errors@).len() == wiki.errors@.len());
    assert(collections::texts(docs.errors@).len() == docs.errors@.len());
}

/// How many boards one import created.
pub open spec fn boards_of(o: ImportOutcome) -> int {
    if o.result is Ok {
        (o.result->Ok_0).boards_created as int
    } else {
        0
    }
}

/// Whether a failed import, and no other, adds its name and its reason to the errors.
pub open spec fn adds_error(fewer: ImportResult, more: ImportResult, o: ImportOutcome) -> bool {
    &&& o.result is Ok ==> collections::texts(more.errors@) == collections::texts(fewer.errors@)
    &&& o.result is Err ==> collections::texts(more.errors@) == collections::texts(
        fewer.errors@,
    ).push(o.name@ + ": "@ + o.result->Err_0@)
}

/// Whether one import adds its boards, its items and its error.
pub open spec fn adds(fewer: ImportResult, more: ImportResult, o: ImportOutcome) -> bool {
    &&& more.boards_created == fewer.boards_created + boards_of(o)
    &&& more.items_imported == fewer.items_imported + (if o.result is Ok {
        (o.result->Ok_0).items_imported as int
    } else {
        0
    })
    &&& adds_error(fewer, more, o)
}

/// A listed document goes by its identifier and its name; one that lacks either is passed over. A
/// fetched project goes by its key, where none are configured.
pub proof fn lists_grow_by_what_is_named(
    files: &Vec<Json>,
    more_files: &Vec<Json>,
    last: Json,
    docs: Vec<ImportableProject>,
    more_docs: Vec<ImportableProject>,
    configured: &Vec<String>,
    keys: Vec<String>,
    more_keys: Vec<String>,
)
    requires
        more_files@ == files@.push(last),
        call_ensures(import::list_google_docs, (files,), docs),
        call_ensures(import::list_google_docs, (more_files,), more_docs),
        call_ensures(import::project_keys, (configured, files), keys),
        call_ensures(import::project_keys, (configured, more_files), more_keys),
    ensures
        ({
            let named = has_text(last, "id"@) && has_text(last, "name"@);
            &&& !named ==> more_docs@.len() == docs@.len()
            &&& named ==> {
                &&& more_docs@.len() == docs@.len() + 1
                &&& says(last, "id"@, more_docs@.last().key@)
                &&& says(last, "name"@, more_docs@.last().name@)
                &&& more_docs@.last().item_count is None
            }
        }),
        forall|i: int|
            0 <= i < docs@.len() ==> (#[trigger] docs@[i]).key@ == more_docs@[i].key@
                && docs@[i].name@ == more_docs@[i].name@,
        configured@.len() > 0 ==> collections::texts(keys@) == collections::texts(configured@),
        configured@.len() == 0 && has_text(last, "key"@) ==> more_keys@.len() == keys@.len() + 1
            && says(last, "key"@, more_keys@.last()@) && collections::texts(
            more_keys@,
        ).drop_last() == collections::texts(keys@),
        configured@.len() == 0 && !has_text(last, "key"@) ==> collections::texts(more_keys@)
            == collections::texts(keys@),
        files@.len() == 0 ==> docs@.len() == 0,
        files@.len() == 0 && configured@.len() == 0 ==> keys@.len() == 0,
{
    assert(more_files@.drop_last() =~= files@);
    let before = import::named_files(files@);
    let after = import::named_files(more_files@);
    assert forall|i: int| 0 <= i < docs@.len() implies (#[trigger] docs@[i]).key@
        == more_docs@[i].key@ && docs@[i].name@ == more_docs@[i].name@ by {
        assert(after[i] == before[i]);
        assert(import::listed_file(after[i], more_docs@[i]));
    }
    if after.len() > before.len() {
        assert(import::listed_file(after[after.len() - 1], more_docs@[more_docs@.len() - 1]));
    }
    let a = collections::texts(keys@);
    let b = collections::texts(more_keys@);
    assert(a.len() == keys@.len() && b.len() == more_keys@.len());
    if configured@.len() == 0 && has_text(last, "key"@) {
        assert(b[b.len() - 1] == more_keys@.last()@);
        assert(b.drop_last() =~= a);
    }
}

/// Spaces and projects are listed under their keys, in order, projects with the number of their
/// tickets.
pub proof fn keys_are_listed_in_order(
    keys: &Vec<String>,
    counts: &Vec<Option<usize>>,
    spaces: Vec<ImportableProject>,
    projects: Vec<ImportableProject>,
    key: &str,
    counting: String,
    fetching: String,
    i: int,
)
    requires
        call_ensures(import::list_confluence_spaces, (keys,), spaces),
        call_ensures(import::list_jira_projects, (keys, counts), projects),
        call_ensures(import::count_query, (key,), counting),
        call_ensures(import::fetch_query, (key,), fetching),
        keys@.len() == counts@.len(),
    ensures
        spaces@.len() == keys@.len(),
        projects@.len() == keys@.len(),
        0 <= i < keys@.len() ==> spaces@[i].key@ == keys@[i]@ && spaces@[i].name@ == keys@[i]@
            && spaces@[i].item_count is None,
        0 <= i < keys@.len() ==> projects@[i].key@ == keys@[i]@ && projects@[i].name@ == keys@[i]@
            && projects@[i].item_count == counts@[i],
        counting@ == "project = "@ + key@ + " ORDER BY created DESC"@,
        fetching@ == "project = "@ + key@ + " ORDER BY status ASC, priority DESC, created DESC"@,
{
    if 0 <= i < keys@.len() {
        assert(projects@[i] == ImportableProject {
            key: keys@[i],
            name: keys@[i],
            item_count: counts@[i],
        });
    }
}

} // verus!
