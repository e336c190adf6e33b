//! What a change to a board does to its own row and to those of the peers that hear of it.

use crate::board;
use crate::board::{BoardChange, MetadataScope, PinnedRow, ShownMetadata};
use crate::collections;
use crate::gossip;
use crate::json;
use crate::model::{NetworkCommand, NetworkEvent};
use crate::replication;
use crate::tables;
use crate::tables::{MetadataRow, ObjectRow, Statement, Tables};
use vstd::prelude::*;
use vstd::string::*;

verus! {

proof fn lemma_apply_one(s: Statement, t: Tables)
    ensures
        tables::apply_all(seq![s], t) == s.apply(t),
{
    reveal_with_fuel(tables::apply_all, 2);
    assert(seq![s].drop_last() =~= Seq::<Statement>::empty());
}

/// Whether a change goes to a group, where there is one.
pub open spec fn goes_to(broadcast: Option<NetworkCommand>, group_id: String) -> bool {
    &&& broadcast is Some <==> group_id@.len() > 0
    &&& broadcast matches Some(cmd) ==> cmd is Broadcast && cmd->Broadcast_group_id@ == group_id@
}

/// A board can be a canvas, a notebook or notes; "freeform" means a canvas, and nothing else is
/// accepted. The board then has that mode, and so it does for a peer that hears of it.
pub proof fn a_board_has_the_mode_it_was_given(
    board_id: &String,
    mode: &str,
    group_id: String,
    r: Option<BoardChange>,
    heard_at: i64,
    heard: Vec<Statement>,
    t: Tables,
)
    requires
        call_ensures(board::set_board_mode, (board_id, mode, group_id), r),
        r is Some && (r->0).broadcast is Some ==> call_ensures(
            gossip::event_statements,
            (&(r->0).broadcast->0->Broadcast_event, heard_at),
            heard,
        ),
        t.objects.dom().contains(board_id@),
    ensures
        r is Some <==> mode@ == "canvas"@ || mode@ == "notebook"@ || mode@ == "notes"@ || mode@
            == "freeform"@,
        r matches Some(change) ==> ({
            let after = change.statement.apply(t);
            &&& after == Tables { objects: after.objects, ..t }
            &&& after.objects.dom() == t.objects.dom()
            &&& after.objects[board_id@] == ObjectRow {
                board_mode: after.objects[board_id@].board_mode,
                ..t.objects[board_id@]
            }
            &&& forall|k: Seq<char>| #[trigger]
                t.objects.dom().contains(k) && k != board_id@ ==> after.objects[k] == t.objects[k]
            &&& mode@ == "freeform"@ ==> after.objects[board_id@].board_mode == Some("canvas"@)
            &&& mode@ != "freeform"@ ==> after.objects[board_id@].board_mode == Some(mode@)
            &&& goes_to(change.broadcast, group_id)
            &&& change.broadcast is Some ==> tables::apply_all(heard@, t) == after
        }),
{
    reveal_strlit("canvas");
    reveal_strlit("freeform");
    reveal_strlit("notebook");
    reveal_strlit("notes");
    match r {
        Some(change) => {
            let after = change.statement.apply(t);
            assert(after.objects.dom() =~= t.objects.dom());
            if change.broadcast is Some {
                assert(heard@ =~= seq![heard@[0]]);
                lemma_apply_one(heard@[0], t);
            }
        },
        None => {},
    }
}

/// A stored mode is shown as it is, but for "freeform", which is shown as the canvas it means; a
/// board that is not there counts as a canvas.
pub proof fn modes_are_shown_as_stored(stored: Option<String>, r: String)
    requires
        call_ensures(board::board_mode, (stored,), r),
    ensures
        stored is None ==> r@ == "canvas"@,
        stored is Some && stored->0@ == "freeform"@ ==> r@ == "canvas"@,
        stored is Some && stored->0@ != "freeform"@ ==> r@ == stored->0@,
{
}

/// Whether a change leaves everything as it was but the metadata of one board.
pub open spec fn only_touches(board_id: Seq<char>, before: Tables, after: Tables) -> bool {
    &&& after == Tables { metadata: after.metadata, ..before }
    &&& forall|k: Seq<char>|
        k != board_id ==> #[trigger] after.metadata.dom().contains(k)
            == before.metadata.dom().contains(k)
    &&& forall|k: Seq<char>| #[trigger]
        before.metadata.dom().contains(k) && k != board_id ==> after.metadata[k]
            == before.metadata[k]
}

/// A rating is stored and told from zero to five: one beyond becomes the nearest of these. Nothing
/// else of the board changes, and peers that hear of it store the same.
pub proof fn a_board_has_the_rating_it_was_given(
    board_id: &String,
    rating: i32,
    group_id: String,
    r: BoardChange,
    heard_at: i64,
    heard: Vec<Statement>,
    t: Tables,
)
    requires
        call_ensures(board::rate_board, (board_id, rating, group_id), r),
        r.broadcast is Some ==> call_ensures(
            gossip::event_statements,
            (&r.broadcast->0->Broadcast_event, heard_at),
            heard,
        ),
    ensures
        ({
            let after = r.statement.apply(t);
            let row = after.metadata[board_id@];
            &&& only_touches(board_id@, t, after)
            &&& after.metadata.dom().contains(board_id@)
            &&& row == MetadataRow {
                rating: row.rating,
                ..tables::metadata_of(t.metadata, board_id@)
            }
            &&& 0 <= rating <= 5 ==> row.rating == rating
            &&& rating < 0 ==> row.rating == 0
            &&& rating > 5 ==> row.rating == 5
            &&& goes_to(r.broadcast, group_id)
            &&& r.broadcast is Some ==> tables::apply_all(heard@, t) == after
        }),
{
    if r.broadcast is Some {
        assert(heard@ =~= seq![heard@[0]]);
        lemma_apply_one(heard@[0], t);
    }
}

/// The labels that are stored for a board and told to its group are those that were given, those
/// that were there and one more, or those that were there without one.
pub proof fn a_board_has_the_labels_it_was_given(
    board_id: &String,
    labels_json: &String,
    stored: &Option<String>,
    label: String,
    gone: &str,
    group_id: String,
    set: Option<BoardChange>,
    added: BoardChange,
    removed: BoardChange,
    t: Tables,
    l: Seq<char>,
)
    requires
        call_ensures(board::set_board_labels, (board_id, labels_json, group_id), set),
        call_ensures(board::add_board_label, (board_id, stored, label, group_id), added),
        call_ensures(board::remove_board_label, (board_id, stored, gone, group_id), removed),
        stored is Some <==> t.metadata.dom().contains(board_id@),
        stored matches Some(text) ==> t.metadata[board_id@].labels == text@,
    ensures
        set is Some <==> json::parsed_text_list(labels_json@) is Some,
        set matches Some(change) ==> ({
            let after = change.statement.apply(t);
            &&& only_touches(board_id@, t, after)
            &&& after.metadata.dom().contains(board_id@)
            &&& after.metadata[board_id@].labels == labels_json@
            &&& goes_to(change.broadcast, group_id)
            &&& told_labels(change.broadcast, board_id@, json::parsed_text_list(labels_json@)->0)
        }),
        ({
            let after = added.statement.apply(t);
            let before = replication::labels_read(t, board_id@);
            let now = replication::labels_read(after, board_id@);
            &&& only_touches(board_id@, t, after)
            &&& now.contains(l) <==> before.contains(l) || l == label@
            &&& before.contains(label@) ==> now == before
            &&& !before.contains(label@) ==> now == before.push(label@)
            &&& goes_to(added.broadcast, group_id)
            &&& told_labels(added.broadcast, board_id@, now)
        }),
        ({
            let after = removed.statement.apply(t);
            let before = replication::labels_read(t, board_id@);
            let now = replication::labels_read(after, board_id@);
            &&& only_touches(board_id@, t, after)
            &&& now.contains(l) <==> before.contains(l) && l != gone@
            &&& goes_to(removed.broadcast, group_id)
            &&& told_labels(removed.broadcast, board_id@, now)
        }),
{
    let before = replication::labels_read(t, board_id@);
    assert(before == board::stored_labels(*stored));
    board::adding_a_label(before, label@);
    board::removing_a_label(before, gone@);
    lemma_with(before, label@, l);
    lemma_without(before, gone@, l);
    if !t.metadata.dom().contains(board_id@) {
        assert(before.len() == 0);
        lemma_without_nothing(before, gone@);
    }
}

proof fn lemma_with(before: Seq<Seq<char>>, label: Seq<char>, l: Seq<char>)
    ensures
        board::with_label(before, label).contains(l) <==> before.contains(l) || l == label,
{
    if !before.contains(label) {
        let after = before.push(label);
        if after.contains(l) {
            let k = choose|k: int| 0 <= k < after.len() && after[k] == l;
            if k < before.len() {
                assert(before[k] == l);
            }
        }
        if before.contains(l) {
            let k = choose|k: int| 0 <= k < before.len() && before[k] == l;
            assert(after[k] == l);
        }
        assert(after[before.len() as int] == label);
    }
}

proof fn lemma_without(before: Seq<Seq<char>>, label: Seq<char>, l: Seq<char>)
    ensures
        board::without_label(before, label).contains(l) <==> before.contains(l) && l != label,
    decreases before.len(),
{
    reveal(Seq::filter);
    if before.len() > 0 {
        let rest = before.drop_last();
        let last = before.last();
        lemma_without(rest, label, l);
        assert(before =~= rest.push(last));
        let kept = board::without_label(rest, label);
        assert(before.contains(l) <==> rest.contains(l) || l == last) by {
            if rest.contains(l) {
                let k = choose|k: int| 0 <= k < rest.len() && rest[k] == l;
                assert(before[k] == l);
            }
            assert(before[rest.len() as int] == last);
        }
        if last != label {
            let now = kept.push(last);
            assert(board::without_label(before, label) == now);
            if kept.contains(l) {
                let k = choose|k: int| 0 <= k < kept.len() && kept[k] == l;
                assert(now[k] == l);
            }
            assert(now[kept.len() as int] == last);
            if now.contains(l) {
                let k = choose|k: int| 0 <= k < now.len() && now[k] == l;
                if k < kept.len() {
                    assert(kept[k] == l);
                }
            }
        }
    }
}

proof fn lemma_without_nothing(before: Seq<Seq<char>>, label: Seq<char>)
    requires
        before.len() == 0,
    ensures
        board::without_label(before, label).len() == 0,
        board::without_label(before, label) == before,
{
    reveal(Seq::filter);
    assert(board::without_label(before, label) =~= before);
}

/// Whether what a group is told, if anything, are these labels of a board.
pub open spec fn told_labels(
    broadcast: Option<NetworkCommand>,
    board_id: Seq<char>,
    labels: Seq<Seq<char>>,
) -> bool {
    broadcast is Some ==> ({
        let event = broadcast->0->Broadcast_event;
        &&& event is BoardLabelsUpdated
        &&& event->BoardLabelsUpdated_board_id@ == board_id
        &&& collections::texts(event->BoardLabelsUpdated_labels@) == labels
    })
}

/// What else is noted of a board: one more view, and when; the model it holds, none where its name
/// is empty; its skills, where they are a list; and whether it is pinned. Each change touches the
/// board that it names and nothing of it besides.
pub proof fn a_board_has_what_was_noted_of_it(
    board_id: String,
    now: i64,
    model: Option<String>,
    skills_json: String,
    viewed: Statement,
    holding: Statement,
    skilled: Option<Statement>,
    pinned: Statement,
    unpinned: Statement,
    t: Tables,
)
    requires
        call_ensures(board::record_board_view, (board_id, now), viewed),
        call_ensures(board::set_board_model, (board_id, model), holding),
        call_ensures(board::set_board_skills, (board_id, skills_json), skilled),
        call_ensures(board::pin_board, (board_id,), pinned),
        call_ensures(board::unpin_board, (board_id,), unpinned),
        t.metadata.dom().contains(board_id@),
    ensures
        ({
            let before = t.metadata[board_id@];
            let after = viewed.apply(t);
            &&& only_touches(board_id@, t, after)
            &&& after.metadata[board_id@] == MetadataRow {
                view_count: before.view_count + 1,
                last_accessed: now,
                ..before
            }
        }),
        ({
            let before = t.metadata[board_id@];
            let after = holding.apply(t);
            let row = after.metadata[board_id@];
            &&& only_touches(board_id@, t, after)
            &&& row == MetadataRow { contains_model: row.contains_model, ..before }
            &&& model is None || model->0@.len() == 0 ==> row.contains_model is None
            &&& model is Some && model->0@.len() > 0 ==> row.contains_model == model
        }),
        skilled is Some <==> json::parsed_text_list(skills_json@) is Some,
        skilled matches Some(s) ==> ({
            let before = t.metadata[board_id@];
            let after = s.apply(t);
            &&& only_touches(board_id@, t, after)
            &&& after.metadata[board_id@] == MetadataRow {
                contains_skills: skills_json@,
                ..before
            }
        }),
        ({
            let before = t.metadata[board_id@];
            let after = pinned.apply(t);
            &&& only_touches(board_id@, t, after)
            &&& after.metadata[board_id@] == MetadataRow { is_pinned: true, ..before }
        }),
        ({
            let before = t.metadata[board_id@];
            let after = unpinned.apply(t);
            &&& only_touches(board_id@, t, after)
            &&& after.metadata[board_id@] == MetadataRow { is_pinned: false, ..before }
        }),
{
}

/// What is shown of a board is what its row says, column by column. Where it has no row, nothing is
/// shown but what it is called and which kind of board it is.
pub proof fn metadata_is_shown_as_stored(
    row: Option<PinnedRow>,
    board_id: String,
    mode: Option<String>,
    r: ShownMetadata,
    rows: &Vec<PinnedRow>,
    all: Vec<ShownMetadata>,
    i: int,
)
    requires
        call_ensures(board::board_metadata, (row, board_id, mode), r),
        call_ensures(board::boards_metadata, (rows,), all),
    ensures
        row matches Some(p) ==> is_shown(p, r),
        all@.len() == rows@.len(),
        0 <= i < rows@.len() ==> is_shown(rows@[i], all@[i]),
        row is None ==> {
            &&& r.metadata.board_id@ == board_id@
            &&& r.metadata.labels@.len() == 0
            &&& r.metadata.rating == 0
            &&& r.metadata.view_count == 0
            &&& r.metadata.contains_model is None
            &&& r.metadata.contains_skills@.len() == 0
            &&& mode is None ==> r.metadata.board_type@ == "canvas"@
            &&& mode is Some ==> r.metadata.board_type@ == mode->0@
            &&& r.metadata.last_accessed == 0
            &&& !r.is_pinned
        },
{
}

/// Whether each thing that is shown of a board is what its row says.
pub open spec fn is_shown(p: PinnedRow, r: ShownMetadata) -> bool {
    &&& r.metadata.board_id@ == p.row.board_id@
    &&& collections::texts(r.metadata.labels@) == json::stored_list(p.row.labels@)
    &&& r.metadata.rating == p.row.rating
    &&& r.metadata.view_count == p.row.view_count
    &&& r.metadata.contains_model == p.row.contains_model
    &&& collections::texts(r.metadata.contains_skills@) == json::stored_list(
        p.row.contains_skills@,
    )
    &&& r.metadata.board_type@ == p.row.board_type@
    &&& r.metadata.last_accessed == p.row.last_accessed
    &&& r.is_pinned <==> p.is_pinned != 0
}

/// The link to a board leads through its group and workspace where they are known, in this order; a
/// search for a label looks for the quotation mark before it; a query asks for what it names, or
/// for everything; and of the top boards between one and fifty are returned, ten if not said.
pub proof fn links_and_queries_name_what_they_are_about(
    group: String,
    workspace: String,
    board_id: &str,
    linked: String,
    alone: String,
    label: &str,
    pattern: String,
    name: &str,
    scope: MetadataScope,
    limit: i32,
    n: i32,
)
    requires
        call_ensures(board::board_link, (Some((group, workspace)), board_id), linked),
        call_ensures(board::board_link, (None, board_id), alone),
        call_ensures(board::label_pattern, (label,), pattern),
        call_ensures(board::metadata_scope, (name,), scope),
        call_ensures(board::top_board_limit, (limit,), n),
    ensures
        linked@ == "cyan://group/"@ + group@ + "/workspace/"@ + workspace@ + "/board/"@ + board_id@,
        alone@ == "cyan://board/"@ + board_id@,
        pattern@ == "%\""@ + label@ + "%"@,
        scope is Workspace <==> name@ == "workspace"@,
        scope is Group <==> name@ == "group"@,
        1 <= limit <= 50 ==> n == limit,
        limit <= 0 ==> n == 10,
        limit > 50 ==> n == 50,
{
    reveal_strlit("workspace");
    reveal_strlit("group");
    assert("workspace"@.len() != "group"@.len());
}

} // verus!
