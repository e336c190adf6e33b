//! Boards: their mode, labels, rating, links and metadata.

use crate::collections;
use crate::json;
use crate::model::{BoardMetadata, NetworkCommand, NetworkEvent};
use crate::snapshot;
use crate::snapshot::MetadataRead;
use crate::tables;
use crate::tables::{Statement, Tables};
use crate::text::str_eq;
use vstd::prelude::*;
use vstd::string::*;

verus! {

/// The broadcast of an event to a group: nobody is told where the group is not known.
pub open spec fn tell(group_id: String, event: NetworkEvent) -> Option<NetworkCommand> {
    if group_id@.len() == 0 {
        None
    } else {
        Some(NetworkCommand::Broadcast { group_id, event })
    }
}

/// Broadcasts an event to a group, unless the group is not known.
pub fn tell_group(group_id: String, event: NetworkEvent) -> (r: Option<NetworkCommand>)
    ensures
        r == tell(group_id, event),
{
    if group_id.as_str().is_empty() {
        None
    } else {
        Some(NetworkCommand::Broadcast { group_id, event })
    }
}

/// The mode that a name stands for: `freeform` is an old name of `canvas`.
pub open spec fn normal_mode(mode: Seq<char>) -> Seq<char> {
    if mode == "freeform"@ {
        "canvas"@
    } else {
        mode
    }
}

/// Whether a mode can be set.
pub open spec fn is_mode(mode: Seq<char>) -> bool {
    mode == "canvas"@ || mode == "notebook"@ || mode == "notes"@
}

/// The mode of a board as it was stored, under its current name; a board that is not there counts
/// as a canvas.
pub fn board_mode(stored: Option<String>) -> (r: String)
    ensures
        r@ == match stored {
            Some(mode) => normal_mode(mode@),
            None => "canvas"@,
        },
{
    match stored {
        Some(mode) => normalize_mode(mode.as_str()),
        None => "canvas".to_owned(),
    }
}

fn normalize_mode(mode: &str) -> (r: String)
    ensures
        r@ == normal_mode(mode@),
{
    if str_eq(mode, "freeform") {
        "canvas".to_owned()
    } else {
        mode.to_owned()
    }
}

/// A change to a board: what is stored and what the group is told.
pub struct BoardChange {
    pub statement: Statement,
    pub broadcast: Option<NetworkCommand>,
}

/// Changes the mode of a board; a name that is no mode is refused. `group_id` is the group of the
/// board, empty where it has none.
pub fn set_board_mode(board_id: &String, mode: &str, group_id: String) -> (r: Option<BoardChange>)
    ensures
        r is Some <==> is_mode(normal_mode(mode@)),
        r matches Some(change) ==> {
            &&& change.statement matches Statement::SetBoardMode { board_id: b, mode: m }
            &&& b == board_id
            &&& m@ == normal_mode(mode@)
            &&& change.broadcast == tell(
                group_id,
                NetworkEvent::BoardModeChanged { board_id: b, mode: m },
            )
        },
{
    let mode = normalize_mode(mode);
    if !str_eq(mode.as_str(), "canvas") && !str_eq(mode.as_str(), "notebook") && !str_eq(
        mode.as_str(),
        "notes",
    ) {
        return None;
    }
    let event = NetworkEvent::BoardModeChanged { board_id: board_id.clone(), mode: mode.clone() };
    Some(
        BoardChange {
            statement: Statement::SetBoardMode { board_id: board_id.clone(), mode },
            broadcast: tell_group(group_id, event),
        },
    )
}

/// Normalising a mode twice is normalising it once, and a mode that can be set reads back as
/// itself.
pub proof fn modes_are_stable(mode: Seq<char>)
    ensures
        normal_mode(normal_mode(mode)) == normal_mode(mode),
        is_mode(mode) ==> normal_mode(mode) == mode,
{
    reveal_strlit("freeform");
    reveal_strlit("canvas");
    reveal_strlit("notebook");
    reveal_strlit("notes");
    assert("freeform"@.len() != "canvas"@.len());
    assert("freeform"@[0] != "notebook"@[0]);
    assert("freeform"@.len() != "notes"@.len());
}

/// Metadata of a board as it comes out of its table, with the flag of a pinned board: zero where the
/// board is not pinned or has no row.
pub struct PinnedRow {
    pub row: MetadataRead,
    pub is_pinned: i32,
}

/// The metadata of a board as it is shown.
#[derive(Debug, PartialEq, Eq)]
pub struct ShownMetadata {
    pub metadata: BoardMetadata,
    pub is_pinned: bool,
}

/// Whether what is shown of a board is what its row holds.
pub open spec fn shows_row(row: PinnedRow, r: ShownMetadata) -> bool {
    &&& snapshot::metadata_of_row(row.row, r.metadata)
    &&& r.is_pinned == (row.is_pinned != 0)
}

fn show_row(row: &PinnedRow) -> (r: ShownMetadata)
    ensures
        shows_row(*row, r),
{
    ShownMetadata { metadata: snapshot::read_metadata(&row.row), is_pinned: row.is_pinned != 0 }
}

/// The metadata of a board: what its row holds, or nothing but its identifier and mode where there
/// is no row, and then it is not pinned. `mode` is the mode that the board's own row holds.
pub fn board_metadata(row: Option<PinnedRow>, board_id: String, mode: Option<String>) -> (r:
    ShownMetadata)
    ensures
        match row {
            Some(row) => shows_row(row, r),
            None => {
                &&& r.metadata.board_id == board_id
                &&& r.metadata.labels@ == Seq::<String>::empty()
                &&& r.metadata.rating == 0
                &&& r.metadata.view_count == 0
                &&& r.metadata.contains_model is None
                &&& r.metadata.contains_skills@ == Seq::<String>::empty()
                &&& r.metadata.board_type@ == match mode {
                    Some(m) => m@,
                    None => "canvas"@,
                }
                &&& r.metadata.last_accessed == 0
                &&& !r.is_pinned
            },
        },
{
    match row {
        Some(row) => show_row(&row),
        None => {
            let mut metadata = BoardMetadata::default();
            metadata.board_id = board_id;
            metadata.board_type = match mode {
                Some(m) => m,
                None => "canvas".to_owned(),
            };
            ShownMetadata { metadata, is_pinned: false }
        },
    }
}

/// The metadata of boards, in order.
pub fn boards_metadata(rows: &Vec<PinnedRow>) -> (r: Vec<ShownMetadata>)
    ensures
        r@.len() == rows@.len(),
        forall|i: int| 0 <= i < rows@.len() ==> shows_row(#[trigger] rows@[i], r@[i]),
{
    let mut out: Vec<ShownMetadata> = Vec::new();
    let mut i: usize = 0;
    while i < rows.len()
        invariant
            i <= rows@.len(),
            out@.len() == i,
            forall|j: int| 0 <= j < i ==> shows_row(#[trigger] rows@[j], out@[j]),
        decreases rows.len() - i,
    {
        out.push(show_row(&rows[i]));
        i = i + 1;
    }
    out
}

/// Which boards a metadata query is about.
#[derive(Clone, Copy, Debug, PartialEq, Eq, Structural)]
pub enum MetadataScope {
    Workspace,
    Group,
    /// All boards, at most a hundred.
    All,
}

/// The scope that a name stands for; any other name stands for all boards.
pub fn metadata_scope(name: &str) -> (r: MetadataScope)
    ensures
        r == if name@ == "workspace"@ {
            MetadataScope::Workspace
        } else if name@ == "group"@ {
            MetadataScope::Group
        } else {
            MetadataScope::All
        },
{
    if str_eq(name, "workspace") {
        MetadataScope::Workspace
    } else if str_eq(name, "group") {
        MetadataScope::Group
    } else {
        MetadataScope::All
    }
}

/// How many top boards are returned: ten where no number was given, and fifty at most.
pub fn top_board_limit(limit: i32) -> (r: i32)
    ensures
        r == if limit <= 0 {
            10
        } else if limit < 50 {
            limit as int
        } else {
            50
        },
        1 <= r <= 50,
{
    if limit <= 0 {
        10
    } else if limit < 50 {
        limit
    } else {
        50
    }
}

/// A list of labels with one more, unless it is there already.
pub open spec fn with_label(labels: Seq<Seq<char>>, label: Seq<char>) -> Seq<Seq<char>> {
    if labels.contains(label) {
        labels
    } else {
        labels.push(label)
    }
}

/// A list of labels without one.
pub open spec fn without_label(labels: Seq<Seq<char>>, label: Seq<char>) -> Seq<Seq<char>> {
    labels.filter(|l: Seq<char>| l != label)
}

/// The labels that are stored for a board: none where there is no row.
pub open spec fn stored_labels(stored: Option<String>) -> Seq<Seq<char>> {
    match stored {
        Some(text) => json::stored_list(text@),
        None => Seq::empty(),
    }
}

fn read_labels(stored: &Option<String>) -> (r: Vec<String>)
    ensures
        collections::texts(r@) == stored_labels(*stored),
{
    match stored {
        Some(text) => json::read_stored_list(text.as_str()),
        None => {
            let r: Vec<String> = Vec::new();
            assert(collections::texts(r@) =~= Seq::empty());
            r
        },
    }
}

/// Whether the group is told the labels of a board.
pub open spec fn tells_labels(
    broadcast: Option<NetworkCommand>,
    group_id: String,
    board_id: String,
    labels: Seq<Seq<char>>,
) -> bool {
    if group_id@.len() == 0 {
        broadcast is None
    } else {
        &&& broadcast matches Some(NetworkCommand::Broadcast { group_id: g, event })
        &&& g == group_id
        &&& event matches NetworkEvent::BoardLabelsUpdated { board_id: b, labels: l }
        &&& b == board_id
        &&& collections::texts(l@) == labels
    }
}

/// Sets the labels of a board to a JSON list; what is no list of texts is refused.
pub fn set_board_labels(board_id: &String, labels_json: &String, group_id: String) -> (r: Option<
    BoardChange,
>)
    ensures
        r is Some <==> json::parsed_text_list(labels_json@) is Some,
        r matches Some(change) ==> {
            &&& change.statement == (Statement::SetLabels {
                board_id: *board_id,
                labels: *labels_json,
            })
            &&& tells_labels(
                change.broadcast,
                group_id,
                *board_id,
                json::parsed_text_list(labels_json@)->0,
            )
        },
{
    match json::text_list_from_json(labels_json.as_str()) {
        None => None,
        Some(labels) => {
            let event = NetworkEvent::BoardLabelsUpdated { board_id: board_id.clone(), labels };
            Some(
                BoardChange {
                    statement: Statement::SetLabels {
                        board_id: board_id.clone(),
                        labels: labels_json.clone(),
                    },
                    broadcast: tell_group(group_id, event),
                },
            )
        },
    }
}

/// Adds a label to those that are stored for a board. What is stored reads back as the new list.
pub fn add_board_label(board_id: &String, stored: &Option<String>, label: String, group_id: String) -> (r:
    BoardChange)
    ensures
        ({
            let labels = with_label(stored_labels(*stored), label@);
            &&& r.statement matches Statement::SetLabels { board_id: b, labels: text }
            &&& b == board_id
            &&& text@ == json::text_list_json(labels)
            &&& json::stored_list(text@) == labels
            &&& tells_labels(r.broadcast, group_id, *board_id, labels)
        }),
{
    let mut labels = read_labels(stored);
    let ghost before = collections::texts(labels@);
    match collections::position(&labels, label.as_str()) {
        Some(i) => {
            assert(before[i as int] == label@);
            assert(before.contains(label@));
        },
        None => {
            labels.push(label);
            assert(collections::texts(labels@) =~= before.push(label@));
        },
    }
    let text = json::text_list_to_json(&labels);
    let event = NetworkEvent::BoardLabelsUpdated { board_id: board_id.clone(), labels };
    BoardChange {
        statement: Statement::SetLabels { board_id: board_id.clone(), labels: text },
        broadcast: tell_group(group_id, event),
    }
}

/// Takes a label from those that are stored for a board.
pub fn remove_board_label(board_id: &String, stored: &Option<String>, label: &str, group_id: String) -> (r:
    BoardChange)
    ensures
        ({
            let labels = without_label(stored_labels(*stored), label@);
            &&& r.statement matches Statement::UpdateLabels { board_id: b, labels: text }
            &&& b == board_id
            &&& text@ == json::text_list_json(labels)
            &&& json::stored_list(text@) == labels
            &&& tells_labels(r.broadcast, group_id, *board_id, labels)
        }),
{
    let all = read_labels(stored);
    let ghost listed = collections::texts(all@);
    let ghost keep = |l: Seq<char>| l != label@;
    let mut labels: Vec<String> = Vec::new();
    let mut i: usize = 0;
    proof {
        assert(listed.take(0) =~= Seq::empty());
        reveal(Seq::filter);
        assert(collections::texts(labels@) =~= listed.take(0).filter(keep));
    }
    while i < all.len()
        invariant
            i <= all@.len(),
            listed == collections::texts(all@),
            keep == (|l: Seq<char>| l != label@),
            collections::texts(labels@) == listed.take(i as int).filter(keep),
        decreases all.len() - i,
    {
        let ghost before = collections::texts(labels@);
        proof {
            reveal(Seq::filter);
            assert(listed.take(i + 1).drop_last() =~= listed.take(i as int));
            assert(listed.take(i + 1).last() == all@[i as int]@);
        }
        if !str_eq(all[i].as_str(), label) {
            labels.push(all[i].clone());
            assert(collections::texts(labels@) =~= before.push(all@[i as int]@));
        }
        i = i + 1;
    }
    assert(listed.take(i as int) =~= listed);
    let text = json::text_list_to_json(&labels);
    let event = NetworkEvent::BoardLabelsUpdated { board_id: board_id.clone(), labels };
    BoardChange {
        statement: Statement::UpdateLabels { board_id: board_id.clone(), labels: text },
        broadcast: tell_group(group_id, event),
    }
}

/// Adding a label twice is adding it once; it is there afterwards, and every other label stays.
pub proof fn adding_a_label(labels: Seq<Seq<char>>, label: Seq<char>)
    ensures
        with_label(labels, label).contains(label),
        with_label(with_label(labels, label), label) == with_label(labels, label),
        forall|l: Seq<char>| labels.contains(l) ==> #[trigger] with_label(labels, label).contains(l),
        labels.no_duplicates() ==> with_label(labels, label).no_duplicates(),
{
    if !labels.contains(label) {
        assert(labels.push(label)[labels.len() as int] == label);
        assert forall|l: Seq<char>| labels.contains(l) implies labels.push(label).contains(l) by {
            let i = choose|i: int| 0 <= i < labels.len() && labels[i] == l;
            assert(labels.push(label)[i] == l);
        }
        if labels.no_duplicates() {
            assert forall|i: int, j: int|
                0 <= i < j < labels.push(label).len() implies labels.push(label)[i]
                != labels.push(label)[j] by {
                if j == labels.len() {
                    assert(labels.contains(labels[i]));
                }
            }
        }
    }
}

/// Removing a label removes every occurrence of it, and undoes the addition of one that was not
/// there.
pub proof fn removing_a_label(labels: Seq<Seq<char>>, label: Seq<char>)
    ensures
        !without_label(labels, label).contains(label),
        !labels.contains(label) ==> without_label(with_label(labels, label), label) == labels,
{
    let keep = |l: Seq<char>| l != label;
    let kept = without_label(labels, label);
    if kept.contains(label) {
        let i = choose|i: int| 0 <= i < kept.len() && kept[i] == label;
        labels.lemma_filter_pred(keep, i);
    }
    if !labels.contains(label) {
        lemma_filter_none(labels, label);
        reveal(Seq::filter);
        assert(labels.push(label).drop_last() =~= labels);
        assert(without_label(labels.push(label), label) == without_label(labels, label));
    }
}

proof fn lemma_filter_none(labels: Seq<Seq<char>>, label: Seq<char>)
    requires
        !labels.contains(label),
    ensures
        without_label(labels, label) == labels,
    decreases labels.len(),
{
    reveal(Seq::filter);
    if labels.len() > 0 {
        let rest = labels.drop_last();
        assert(!rest.contains(label)) by {
            if rest.contains(label) {
                let i = choose|i: int| 0 <= i < rest.len() && rest[i] == label;
                assert(labels[i] == label);
            }
        }
        lemma_filter_none(rest, label);
        assert(labels.last() != label) by {
            assert(labels[labels.len() - 1] == labels.last());
        }
        assert(rest.push(labels.last()) =~= labels);
    }
}

/// A rating, brought into the range from zero to five.
pub open spec fn clamped_rating(rating: i32) -> i32 {
    if rating < 0 {
        0
    } else if rating > 5 {
        5
    } else {
        rating
    }
}

/// Rates a board.
pub fn rate_board(board_id: &String, rating: i32, group_id: String) -> (r: BoardChange)
    ensures
        0 <= clamped_rating(rating) <= 5,
        r.statement == (Statement::SetRating {
            board_id: *board_id,
            rating: clamped_rating(rating),
        }),
        r.broadcast == tell(
            group_id,
            NetworkEvent::BoardRated { board_id: *board_id, rating: clamped_rating(rating) },
        ),
{
    let rating: i32 = if rating < 0 {
        0
    } else if rating > 5 {
        5
    } else {
        rating
    };
    let event = NetworkEvent::BoardRated { board_id: board_id.clone(), rating };
    BoardChange {
        statement: Statement::SetRating { board_id: board_id.clone(), rating },
        broadcast: tell_group(group_id, event),
    }
}

/// Counts a view of a board.
pub fn record_board_view(board_id: String, now: i64) -> (r: Statement)
    ensures
        r == (Statement::CountView { board_id, now }),
{
    Statement::CountView { board_id, now }
}

/// Sets which model a board holds; an empty name means none.
pub fn set_board_model(board_id: String, model: Option<String>) -> (r: Statement)
    ensures
        r == (Statement::SetModel {
            board_id,
            model: if model is Some && model->0@.len() == 0 {
                None
            } else {
                model
            },
        }),
{
    let model = match model {
        Some(m) => if m.as_str().is_empty() {
            None
        } else {
            Some(m)
        },
        None => None,
    };
    Statement::SetModel { board_id, model }
}

/// Sets the skills of a board to a JSON list; what is no list of texts is refused.
pub fn set_board_skills(board_id: String, skills_json: String) -> (r: Option<Statement>)
    ensures
        r == if json::parsed_text_list(skills_json@) is Some {
            Some(Statement::SetSkills { board_id, skills: skills_json })
        } else {
            None
        },
{
    match json::text_list_from_json(skills_json.as_str()) {
        Some(_) => Some(Statement::SetSkills { board_id, skills: skills_json }),
        None => None,
    }
}

/// Pins a board.
pub fn pin_board(board_id: String) -> (r: Statement)
    ensures
        r == (Statement::PinBoard { board_id }),
{
    Statement::PinBoard { board_id }
}

/// Unpins a board.
pub fn unpin_board(board_id: String) -> (r: Statement)
    ensures
        r == (Statement::UnpinBoard { board_id }),
{
    Statement::UnpinBoard { board_id }
}

/// A board that is pinned and then unpinned is not pinned, and pinning touches nothing else of it.
pub proof fn pinning_and_unpinning(board_id: String, t: Tables)
    ensures
        ({
            let pinned = (Statement::PinBoard { board_id }).apply(t);
            let unpinned = (Statement::UnpinBoard { board_id }).apply(pinned);
            &&& tables::metadata_of(pinned.metadata, board_id@).is_pinned
            &&& !tables::metadata_of(unpinned.metadata, board_id@).is_pinned
            &&& tables::metadata_of(pinned.metadata, board_id@) == (tables::MetadataRow {
                is_pinned: true,
                ..tables::metadata_of(t.metadata, board_id@)
            })
        }),
{
}

/// The link to a board within its group and workspace.
pub open spec fn full_link(group: Seq<char>, workspace: Seq<char>, board: Seq<char>) -> Seq<char> {
    "cyan://group/"@ + group + "/workspace/"@ + workspace + "/board/"@ + board
}

/// Writes the link to a board: through its group and workspace where they are known.
pub fn board_link(place: Option<(String, String)>, board_id: &str) -> (r: String)
    ensures
        r@ == match place {
            Some((group, workspace)) => full_link(group@, workspace@, board_id@),
            None => "cyan://board/"@ + board_id@,
        },
{
    match place {
        Some((group, workspace)) => {
            let mut s = "cyan://group/".to_owned();
            s.append(group.as_str());
            s.append("/workspace/");
            s.append(workspace.as_str());
            s.append("/board/");
            s.append(board_id);
            s
        },
        None => {
            let mut s = "cyan://board/".to_owned();
            s.append(board_id);
            s
        },
    }
}

/// The pattern that finds a stored list of labels with one that begins like a text.
pub fn label_pattern(label: &str) -> (r: String)
    ensures
        r@ == "%\""@ + label@ + "%"@,
{
    let mut s = "%\"".to_owned();
    s.append(label);
    s.append("%");
    s
}

} // verus!
