//! Elements of whiteboards and cells of notebooks.

use crate::board;
use crate::collections;
use crate::gossip;
use crate::json;
use crate::json::Json;
use crate::model::{NetworkCommand, NetworkEvent, Real};
use crate::tables::{CellRecord, ElementRecord, OnConflict, Statement};
use vstd::prelude::*;
use vstd::string::*;

verus! {

/// The bit pattern of zero.
pub const ZERO: u64 = 0;

/// The bit pattern of one hundred.
pub const HUNDRED: u64 = 0x4059000000000000;

/// A number, or the one with a default bit pattern.
pub open spec fn real_or(value: Option<Real>, default: u64) -> Real {
    match value {
        Some(x) => x,
        None => Real { bits: default },
    }
}

/// Whether an optional text reads as a member of an object.
pub open spec fn reads_member(elem: Json, key: Seq<char>, text: Option<String>) -> bool {
    match text {
        Some(s) => elem.member_text(key) == Some(s@),
        None => elem.member_text(key) is None,
    }
}

/// Whether an element is what a JSON object describes.
pub open spec fn describes_element(elem: Json, now: i64, e: ElementRecord) -> bool {
    &&& e.id@ == elem.text_or("id"@, Seq::empty())
    &&& e.board_id@ == elem.text_or("board_id"@, Seq::empty())
    &&& e.element_type@ == elem.text_or("element_type"@, "rectangle"@)
    &&& e.x == real_or(elem.member_real("x"@), ZERO)
    &&& e.y == real_or(elem.member_real("y"@), ZERO)
    &&& e.width == real_or(elem.member_real("width"@), HUNDRED)
    &&& e.height == real_or(elem.member_real("height"@), HUNDRED)
    &&& e.z_index == elem.int_or("z_index"@, 0) as i32
    &&& reads_member(elem, "style_json"@, e.style_json)
    &&& reads_member(elem, "content_json"@, e.content_json)
    &&& e.created_at == elem.int_or("created_at"@, now)
    &&& e.updated_at == now
}

fn real_of(elem: &Json, key: &str, default: u64) -> (r: Real)
    ensures
        r == real_or(elem.member_real(key@), default),
{
    match elem.get_real(key) {
        Some(x) => x,
        None => Real { bits: default },
    }
}

/// Whether an object names an element or cell and its board.
pub open spec fn is_placed(elem: Json) -> bool {
    elem.text_or("id"@, Seq::empty()).len() > 0 && elem.text_or("board_id"@, Seq::empty()).len() > 0
}

/// Reads an element from a JSON object; one without an identifier or a board is refused.
pub fn read_element(elem: &Json, now: i64) -> (r: Option<ElementRecord>)
    ensures
        r is Some <==> is_placed(*elem),
        r matches Some(e) ==> describes_element(*elem, now, e),
{
    proof {
        reveal_strlit("");
        assert(""@ =~= Seq::empty());
    }
    let e = ElementRecord {
        id: elem.get_text("id", ""),
        board_id: elem.get_text("board_id", ""),
        element_type: elem.get_text("element_type", "rectangle"),
        x: real_of(elem, "x", ZERO),
        y: real_of(elem, "y", ZERO),
        width: real_of(elem, "width", HUNDRED),
        height: real_of(elem, "height", HUNDRED),
        #[verifier::truncate]
        z_index: elem.get_i64("z_index", 0) as i32,
        style_json: elem.get_opt_text("style_json"),
        content_json: elem.get_opt_text("content_json"),
        created_at: elem.get_i64("created_at", now),
        updated_at: now,
    };
    if e.id.as_str().is_empty() || e.board_id.as_str().is_empty() {
        return None;
    }
    Some(e)
}

/// Reads an element from a JSON text; what is not JSON is refused too.
pub fn parse_element(text: &str, now: i64) -> (r: Option<ElementRecord>)
    ensures
        match json::parsed_json(text@) {
            Some(elem) => {
                &&& r is Some <==> is_placed(elem)
                &&& r matches Some(e) ==> describes_element(elem, now, e)
            },
            None => r is None,
        },
{
    match json::parse_json(text) {
        Some(elem) => read_element(&elem, now),
        None => None,
    }
}

/// Stores an element under its identifier.
pub fn save_element(e: &ElementRecord) -> (r: Statement)
    ensures
        r == Statement::InsertElement(*e, OnConflict::Replace),
{
    Statement::InsertElement(
        ElementRecord {
            id: e.id.clone(),
            board_id: e.board_id.clone(),
            element_type: e.element_type.clone(),
            x: e.x,
            y: e.y,
            width: e.width,
            height: e.height,
            z_index: e.z_index,
            style_json: e.style_json.clone(),
            content_json: e.content_json.clone(),
            created_at: e.created_at,
            updated_at: e.updated_at,
        },
        OnConflict::Replace,
    )
}

/// The event that tells of a saved element: that it was added, or that it was changed.
pub open spec fn element_event(e: ElementRecord, is_new: bool) -> NetworkEvent {
    if is_new {
        NetworkEvent::WhiteboardElementAdded {
            id: e.id,
            board_id: e.board_id,
            element_type: e.element_type,
            x: e.x,
            y: e.y,
            width: e.width,
            height: e.height,
            z_index: e.z_index,
            style_json: e.style_json,
            content_json: e.content_json,
            created_at: e.created_at,
            updated_at: e.updated_at,
        }
    } else {
        NetworkEvent::WhiteboardElementUpdated {
            id: e.id,
            board_id: e.board_id,
            element_type: e.element_type,
            x: e.x,
            y: e.y,
            width: e.width,
            height: e.height,
            z_index: e.z_index,
            style_json: e.style_json,
            content_json: e.content_json,
            updated_at: e.updated_at,
        }
    }
}

/// Tells the group of a saved element.
pub fn element_saved(e: ElementRecord, is_new: bool, group_id: String) -> (r: Option<NetworkCommand>)
    ensures
        r == board::tell(group_id, element_event(e, is_new)),
{
    let event = if is_new {
        NetworkEvent::WhiteboardElementAdded {
            id: e.id,
            board_id: e.board_id,
            element_type: e.element_type,
            x: e.x,
            y: e.y,
            width: e.width,
            height: e.height,
            z_index: e.z_index,
            style_json: e.style_json,
            content_json: e.content_json,
            created_at: e.created_at,
            updated_at: e.updated_at,
        }
    } else {
        NetworkEvent::WhiteboardElementUpdated {
            id: e.id,
            board_id: e.board_id,
            element_type: e.element_type,
            x: e.x,
            y: e.y,
            width: e.width,
            height: e.height,
            z_index: e.z_index,
            style_json: e.style_json,
            content_json: e.content_json,
            updated_at: e.updated_at,
        }
    };
    board::tell_group(group_id, event)
}

/// The deletion of an element: one without an identifier is refused.
pub fn delete_element(id: &String) -> (r: Option<Statement>)
    ensures
        r == if id@.len() == 0 {
            None
        } else {
            Some(Statement::DeleteElement { id: *id })
        },
{
    if id.as_str().is_empty() {
        None
    } else {
        Some(Statement::DeleteElement { id: id.clone() })
    }
}

/// Tells the group of a deleted element, where its board and group were found.
pub fn element_deleted(id: String, board_id: String, group_id: String) -> (r: Option<NetworkCommand>)
    ensures
        r == if board_id@.len() == 0 {
            None
        } else {
            board::tell(group_id, NetworkEvent::WhiteboardElementDeleted { id, board_id })
        },
{
    if board_id.as_str().is_empty() {
        None
    } else {
        board::tell_group(group_id, NetworkEvent::WhiteboardElementDeleted { id, board_id })
    }
}

/// The deletion of every element of a board: a board without an identifier is refused.
pub fn clear_whiteboard(board_id: &String, group_id: String) -> (r: Option<board::BoardChange>)
    ensures
        r is Some <==> board_id@.len() > 0,
        r matches Some(change) ==> change.statement == (Statement::ClearElements {
            board_id: *board_id,
        }) && change.broadcast == board::tell(
            group_id,
            NetworkEvent::WhiteboardCleared { board_id: *board_id },
        ),
{
    if board_id.as_str().is_empty() {
        return None;
    }
    let event = NetworkEvent::WhiteboardCleared { board_id: board_id.clone() };
    Some(
        board::BoardChange {
            statement: Statement::ClearElements { board_id: board_id.clone() },
            broadcast: board::tell_group(group_id, event),
        },
    )
}

/// Whether a cell is what a JSON object describes.
pub open spec fn describes_cell(cell: Json, now: i64, c: CellRecord) -> bool {
    &&& c.id@ == cell.text_or("id"@, Seq::empty())
    &&& c.board_id@ == cell.text_or("board_id"@, Seq::empty())
    &&& c.cell_type@ == cell.text_or("cell_type"@, "markdown"@)
    &&& c.cell_order == cell.int_or("cell_order"@, 0) as i32
    &&& reads_member(cell, "content"@, c.content)
    &&& reads_member(cell, "output"@, c.output)
    &&& c.collapsed == cell.member_true("collapsed"@)
    &&& c.height == cell.member_real("height"@)
    &&& reads_member(cell, "metadata_json"@, c.metadata_json)
    &&& c.created_at == cell.int_or("created_at"@, now)
    &&& c.updated_at == now
}

/// Reads a cell from a JSON object; one without an identifier or a board is refused.
pub fn read_cell(cell: &Json, now: i64) -> (r: Option<CellRecord>)
    ensures
        r is Some <==> is_placed(*cell),
        r matches Some(c) ==> describes_cell(*cell, now, c),
{
    proof {
        reveal_strlit("");
        assert(""@ =~= Seq::empty());
    }
    let c = CellRecord {
        id: cell.get_text("id", ""),
        board_id: cell.get_text("board_id", ""),
        cell_type: cell.get_text("cell_type", "markdown"),
        #[verifier::truncate]
        cell_order: cell.get_i64("cell_order", 0) as i32,
        content: cell.get_opt_text("content"),
        output: cell.get_opt_text("output"),
        collapsed: cell.get_bool("collapsed"),
        height: cell.get_real("height"),
        metadata_json: cell.get_opt_text("metadata_json"),
        created_at: cell.get_i64("created_at", now),
        updated_at: now,
    };
    if c.id.as_str().is_empty() || c.board_id.as_str().is_empty() {
        return None;
    }
    Some(c)
}

/// Reads a cell from a JSON text; what is not JSON is refused too.
pub fn parse_cell(text: &str, now: i64) -> (r: Option<CellRecord>)
    ensures
        match json::parsed_json(text@) {
            Some(cell) => {
                &&& r is Some <==> is_placed(cell)
                &&& r matches Some(c) ==> describes_cell(cell, now, c)
            },
            None => r is None,
        },
{
    match json::parse_json(text) {
        Some(cell) => read_cell(&cell, now),
        None => None,
    }
}

/// Stores a cell under its identifier.
pub fn save_cell(c: &CellRecord) -> (r: Statement)
    ensures
        r == Statement::InsertCell(*c, OnConflict::Replace),
{
    Statement::InsertCell(
        CellRecord {
            id: c.id.clone(),
            board_id: c.board_id.clone(),
            cell_type: c.cell_type.clone(),
            cell_order: c.cell_order,
            content: c.content.clone(),
            output: c.output.clone(),
            collapsed: c.collapsed,
            height: c.height,
            metadata_json: c.metadata_json.clone(),
            created_at: c.created_at,
            updated_at: c.updated_at,
        },
        OnConflict::Replace,
    )
}

/// The event that tells of a saved cell: a new one is told without its output and layout.
pub open spec fn cell_event(c: CellRecord, is_new: bool) -> NetworkEvent {
    if is_new {
        NetworkEvent::NotebookCellAdded {
            id: c.id,
            board_id: c.board_id,
            cell_type: c.cell_type,
            cell_order: c.cell_order,
            content: c.content,
        }
    } else {
        NetworkEvent::NotebookCellUpdated {
            id: c.id,
            board_id: c.board_id,
            cell_type: c.cell_type,
            cell_order: c.cell_order,
            content: c.content,
            output: c.output,
            collapsed: c.collapsed,
            height: c.height,
            metadata_json: c.metadata_json,
        }
    }
}

/// Tells the group of a saved cell.
pub fn cell_saved(c: CellRecord, is_new: bool, group_id: String) -> (r: Option<NetworkCommand>)
    ensures
        r == board::tell(group_id, cell_event(c, is_new)),
{
    let event = if is_new {
        NetworkEvent::NotebookCellAdded {
            id: c.id,
            board_id: c.board_id,
            cell_type: c.cell_type,
            cell_order: c.cell_order,
            content: c.content,
        }
    } else {
        NetworkEvent::NotebookCellUpdated {
            id: c.id,
            board_id: c.board_id,
            cell_type: c.cell_type,
            cell_order: c.cell_order,
            content: c.content,
            output: c.output,
            collapsed: c.collapsed,
            height: c.height,
            metadata_json: c.metadata_json,
        }
    };
    board::tell_group(group_id, event)
}

/// What deleting a cell does.
pub struct CellDeletion {
    pub statements: Vec<Statement>,
    pub broadcast: Option<NetworkCommand>,
}

/// Deletes a cell whose board and group were found; any other is refused. The elements that were
/// drawn in the cell stay, on no cell.
pub fn delete_cell(id: &String, place: Option<(String, String)>) -> (r: Option<CellDeletion>)
    ensures
        r is Some <==> place is Some,
        r matches Some(d) ==> {
            &&& d.statements@ == seq![
                Statement::DetachElements { cell_id: *id },
                Statement::DeleteCell { id: *id },
            ]
            &&& d.broadcast == board::tell(
                (place->0).1,
                NetworkEvent::NotebookCellDeleted { id: *id, board_id: (place->0).0 },
            )
        },
{
    match place {
        None => None,
        Some((board_id, group_id)) => {
            let mut statements: Vec<Statement> = Vec::new();
            statements.push(Statement::DetachElements { cell_id: id.clone() });
            statements.push(Statement::DeleteCell { id: id.clone() });
            let event = NetworkEvent::NotebookCellDeleted { id: id.clone(), board_id };
            Some(CellDeletion { statements, broadcast: board::tell_group(group_id, event) })
        },
    }
}

/// What reordering the cells of a board does.
pub struct Reordering {
    pub statements: Vec<Statement>,
    pub broadcast: Option<NetworkCommand>,
}

/// Whether a reordering is what a list of cells asks for.
pub open spec fn reorders(
    board_id: String,
    cell_ids: Seq<Seq<char>>,
    now: i64,
    group_id: String,
    r: Reordering,
) -> bool {
    exists|ids: Vec<String>|
        {
            &&& #[trigger] collections::texts(ids@) == cell_ids
            &&& r.statements@ == gossip::placings(board_id, ids@, now)
            &&& r.broadcast == board::tell(
                group_id,
                NetworkEvent::NotebookCellsReordered { board_id, cell_ids: ids },
            )
        }
}

/// Gives the cells of a board the order of a JSON list; what is no list of texts is refused.
pub fn reorder_cells(board_id: &String, cell_ids_json: &str, now: i64, group_id: String) -> (r: Option<
    Reordering,
>)
    ensures
        match json::parsed_text_list(cell_ids_json@) {
            Some(cell_ids) => r matches Some(o) && reorders(*board_id, cell_ids, now, group_id, o),
            None => r is None,
        },
{
    match json::text_list_from_json(cell_ids_json) {
        None => None,
        Some(cell_ids) => {
            let ghost ids = cell_ids;
            let statements = gossip::place_cells(board_id, &cell_ids, now);
            let event = NetworkEvent::NotebookCellsReordered {
                board_id: board_id.clone(),
                cell_ids,
            };
            let r = Reordering { statements, broadcast: board::tell_group(group_id, event) };
            assert(collections::texts(ids@) == json::parsed_text_list(cell_ids_json@)->0);
            Some(r)
        },
    }
}

/// A peer that did not have an element stores the one that was saved, and one that had it stores
/// everything of the saved one but the time of creation, which stays its own.
pub proof fn peers_see_the_saved_element(
    e: ElementRecord,
    is_new: bool,
    heard_at: i64,
    t: crate::tables::Tables,
)
    requires
        is_new == !t.elements.dom().contains(e.id@),
    ensures
        ({
            let s = gossip::event_rows(element_event(e, is_new), heard_at);
            let after = s[0].apply(t).elements;
            &&& s.len() == 1
            &&& after.dom() == t.elements.dom().insert(e.id@)
            &&& if is_new {
                after[e.id@].element == e
            } else {
                after[e.id@].element == (ElementRecord {
                    id: t.elements[e.id@].element.id,
                    created_at: t.elements[e.id@].element.created_at,
                    ..e
                })
            }
        }),
{
    let s = gossip::event_rows(element_event(e, is_new), heard_at);
    let after = s[0].apply(t).elements;
    assert(after.dom() =~= t.elements.dom().insert(e.id@));
}

/// Whether a member of an object is a text.
pub open spec fn holds_text(object: Json, key: Seq<char>, value: Seq<char>) -> bool {
    object.member(key) matches Some(Json::Text(s)) && s@ == value
}

/// Whether a member of an object is an optional text: a text, or nothing.
pub open spec fn holds_optional(object: Json, key: Seq<char>, value: Option<String>) -> bool {
    match value {
        Some(s) => holds_text(object, key, s@),
        None => object.member(key) is None,
    }
}

/// Whether a member of an object is a number.
pub open spec fn holds_real(object: Json, key: Seq<char>, value: Real) -> bool {
    object.member(key) matches Some(Json::Number { bits, .. }) && bits == value.bits
}

/// Whether a member of an object is an integer.
pub open spec fn holds_integer(object: Json, key: Seq<char>, value: int) -> bool {
    object.member(key) matches Some(Json::Number { integer: Some(n), .. }) && n == value
}

/// Whether a member of an object is a text with at least one character.
pub open spec fn names_something(object: Json, key: Seq<char>) -> bool {
    object.member(key) matches Some(Json::Text(s)) && s@.len() > 0
}

/// Whether two objects have the same members, one key apart.
pub open spec fn agree_but(a: Json, b: Json, key: Seq<char>) -> bool {
    forall|k: Seq<char>| k != key ==> #[trigger] a.member(k) == b.member(k)
}

/// Whether two optional texts are the same.
pub open spec fn same_text(a: Option<String>, b: Option<String>) -> bool {
    match (a, b) {
        (Some(x), Some(y)) => x@ == y@,
        (None, None) => true,
        _ => false,
    }
}

/// Whether an object is an element written out, member by member.
pub open spec fn is_written_element(object: Json, e: ElementRecord) -> bool {
    &&& holds_text(object, "id"@, e.id@)
    &&& holds_text(object, "board_id"@, e.board_id@)
    &&& holds_text(object, "element_type"@, e.element_type@)
    &&& holds_real(object, "x"@, e.x)
    &&& holds_real(object, "y"@, e.y)
    &&& holds_real(object, "width"@, e.width)
    &&& holds_real(object, "height"@, e.height)
    &&& holds_integer(object, "z_index"@, e.z_index as int)
    &&& holds_optional(object, "style_json"@, e.style_json)
    &&& holds_optional(object, "content_json"@, e.content_json)
    &&& holds_integer(object, "created_at"@, e.created_at as int)
}

/// Reading back what an element was written as gives the element, changed just now.
pub proof fn a_written_element_reads_back(
    object: &Json,
    e: ElementRecord,
    now: i64,
    r: Option<ElementRecord>,
)
    requires
        is_written_element(*object, e),
        e.id@.len() > 0,
        e.board_id@.len() > 0,
        call_ensures(read_element, (object, now), r),
    ensures
        r matches Some(got) && {
            &&& got.id@ == e.id@
            &&& got.board_id@ == e.board_id@
            &&& got.element_type@ == e.element_type@
            &&& got.x == e.x
            &&& got.y == e.y
            &&& got.width == e.width
            &&& got.height == e.height
            &&& got.z_index == e.z_index
            &&& same_text(got.style_json, e.style_json)
            &&& same_text(got.content_json, e.content_json)
            &&& got.created_at == e.created_at
            &&& got.updated_at == now
        },
{
}

/// An element is read exactly where its object names it and its board. Each member of the object
/// decides its own value of the element and no other: two objects that differ in one member give
/// elements that agree in all else. What is missing has its default: a rectangle at the origin, a
/// hundred wide and high, at the bottom, made just now.
pub proof fn members_of_an_element_do_not_mix(
    a: &Json,
    b: &Json,
    key: Seq<char>,
    now: i64,
    ra: Option<ElementRecord>,
    rb: Option<ElementRecord>,
)
    requires
        agree_but(*a, *b, key),
        call_ensures(read_element, (a, now), ra),
        call_ensures(read_element, (b, now), rb),
    ensures
        ra is Some <==> names_something(*a, "id"@) && names_something(*a, "board_id"@),
        ra matches Some(x) ==> rb matches Some(y) ==> {
            &&& key != "id"@ ==> x.id@ == y.id@
            &&& key != "board_id"@ ==> x.board_id@ == y.board_id@
            &&& key != "element_type"@ ==> x.element_type@ == y.element_type@
            &&& key != "x"@ ==> x.x == y.x
            &&& key != "y"@ ==> x.y == y.y
            &&& key != "width"@ ==> x.width == y.width
            &&& key != "height"@ ==> x.height == y.height
            &&& key != "z_index"@ ==> x.z_index == y.z_index
            &&& key != "style_json"@ ==> same_text(x.style_json, y.style_json)
            &&& key != "content_json"@ ==> same_text(x.content_json, y.content_json)
            &&& key != "created_at"@ ==> x.created_at == y.created_at
            &&& x.updated_at == now
        },
        ra matches Some(x) ==> {
            &&& a.member("element_type"@) is None ==> x.element_type@ == "rectangle"@
            &&& a.member("x"@) is None ==> x.x.bits == 0
            &&& a.member("y"@) is None ==> x.y.bits == 0
            &&& a.member("width"@) is None ==> x.width.bits == 0x4059000000000000
            &&& a.member("height"@) is None ==> x.height.bits == 0x4059000000000000
            &&& a.member("z_index"@) is None ==> x.z_index == 0
            &&& a.member("style_json"@) is None ==> x.style_json is None
            &&& a.member("content_json"@) is None ==> x.content_json is None
            &&& a.member("created_at"@) is None ==> x.created_at == now
        },
{
}

/// Whether an object is a cell written out, member by member.
pub open spec fn is_written_cell(object: Json, c: CellRecord) -> bool {
    &&& holds_text(object, "id"@, c.id@)
    &&& holds_text(object, "board_id"@, c.board_id@)
    &&& holds_text(object, "cell_type"@, c.cell_type@)
    &&& holds_integer(object, "cell_order"@, c.cell_order as int)
    &&& holds_optional(object, "content"@, c.content)
    &&& holds_optional(object, "output"@, c.output)
    &&& object.member("collapsed"@) == Some(Json::Bool(c.collapsed))
    &&& match c.height {
        Some(h) => holds_real(object, "height"@, h),
        None => object.member("height"@) is None,
    }
    &&& holds_optional(object, "metadata_json"@, c.metadata_json)
    &&& holds_integer(object, "created_at"@, c.created_at as int)
}

/// Reading back what a cell was written as gives the cell, changed just now.
pub proof fn a_written_cell_reads_back(object: &Json, c: CellRecord, now: i64, r: Option<CellRecord>)
    requires
        is_written_cell(*object, c),
        c.id@.len() > 0,
        c.board_id@.len() > 0,
        call_ensures(read_cell, (object, now), r),
    ensures
        r matches Some(got) && {
            &&& got.id@ == c.id@
            &&& got.board_id@ == c.board_id@
            &&& got.cell_type@ == c.cell_type@
            &&& got.cell_order == c.cell_order
            &&& same_text(got.content, c.content)
            &&& same_text(got.output, c.output)
            &&& got.collapsed == c.collapsed
            &&& got.height == c.height
            &&& same_text(got.metadata_json, c.metadata_json)
            &&& got.created_at == c.created_at
            &&& got.updated_at == now
        },
{
}

/// A cell is read exactly where its object names it and its board. Each member of the object decides
/// its own value of the cell and no other. What is missing has its default: Markdown without content
/// or output, first and open, made just now.
pub proof fn members_of_a_cell_do_not_mix(
    a: &Json,
    b: &Json,
    key: Seq<char>,
    now: i64,
    ra: Option<CellRecord>,
    rb: Option<CellRecord>,
)
    requires
        agree_but(*a, *b, key),
        call_ensures(read_cell, (a, now), ra),
        call_ensures(read_cell, (b, now), rb),
    ensures
        ra is Some <==> names_something(*a, "id"@) && names_something(*a, "board_id"@),
        ra matches Some(x) ==> rb matches Some(y) ==> {
            &&& key != "id"@ ==> x.id@ == y.id@
            &&& key != "board_id"@ ==> x.board_id@ == y.board_id@
            &&& key != "cell_type"@ ==> x.cell_type@ == y.cell_type@
            &&& key != "cell_order"@ ==> x.cell_order == y.cell_order
            &&& key != "content"@ ==> same_text(x.content, y.content)
            &&& key != "output"@ ==> same_text(x.output, y.output)
            &&& key != "collapsed"@ ==> x.collapsed == y.collapsed
            &&& key != "height"@ ==> x.height == y.height
            &&& key != "metadata_json"@ ==> same_text(x.metadata_json, y.metadata_json)
            &&& key != "created_at"@ ==> x.created_at == y.created_at
            &&& x.updated_at == now
        },
        ra matches Some(x) ==> {
            &&& a.member("cell_type"@) is None ==> x.cell_type@ == "markdown"@
            &&& a.member("cell_order"@) is None ==> x.cell_order == 0
            &&& a.member("content"@) is None ==> x.content is None
            &&& a.member("output"@) is None ==> x.output is None
            &&& a.member("collapsed"@) is None ==> !x.collapsed
            &&& a.member("height"@) is None ==> x.height is None
            &&& a.member("metadata_json"@) is None ==> x.metadata_json is None
            &&& a.member("created_at"@) is None ==> x.created_at == now
        },
{
}

/// A text is read as the object that it is in JSON, and what is not JSON is refused: what
/// `parse_element` and `parse_cell` give of a text is what the object gives.
pub proof fn texts_are_read_as_their_objects(
    text: &str,
    object: Json,
    e: ElementRecord,
    c: CellRecord,
    now: i64,
    element: Option<ElementRecord>,
    cell: Option<CellRecord>,
)
    requires
        call_ensures(parse_element, (text, now), element),
        call_ensures(parse_cell, (text, now), cell),
    ensures
        json::parsed_json(text@) is None ==> element is None && cell is None,
        json::parsed_json(text@) == Some(object) && is_written_element(object, e) && e.id@.len() > 0
            && e.board_id@.len() > 0 ==> (element matches Some(got) && {
            &&& got.id@ == e.id@
            &&& got.board_id@ == e.board_id@
            &&& got.element_type@ == e.element_type@
            &&& got.x == e.x
            &&& got.y == e.y
            &&& got.width == e.width
            &&& got.height == e.height
            &&& got.z_index == e.z_index
            &&& same_text(got.style_json, e.style_json)
            &&& same_text(got.content_json, e.content_json)
            &&& got.created_at == e.created_at
            &&& got.updated_at == now
        }),
        json::parsed_json(text@) == Some(object) && is_written_cell(object, c) && c.id@.len() > 0
            && c.board_id@.len() > 0 ==> (cell matches Some(got) && {
            &&& got.id@ == c.id@
            &&& got.board_id@ == c.board_id@
            &&& got.cell_type@ == c.cell_type@
            &&& got.cell_order == c.cell_order
            &&& same_text(got.content, c.content)
            &&& same_text(got.output, c.output)
            &&& got.collapsed == c.collapsed
            &&& got.height == c.height
            &&& same_text(got.metadata_json, c.metadata_json)
            &&& got.created_at == c.created_at
            &&& got.updated_at == now
        }),
{
}

/// Whoever saves, deletes or clears tells the group of the board, and only that group; where the
/// group is not known, nobody is told. A deleted element or cell and a cleared board are told by
/// their own identifiers.
pub proof fn the_group_of_the_board_is_told(
    e: ElementRecord,
    c: CellRecord,
    is_new: bool,
    id: &String,
    board_id: &String,
    group_id: String,
    saved: Option<NetworkCommand>,
    cell: Option<NetworkCommand>,
    deleted: Option<NetworkCommand>,
    cleared: Option<board::BoardChange>,
    cell_deleted: Option<CellDeletion>,
)
    requires
        call_ensures(element_saved, (e, is_new, group_id), saved),
        call_ensures(cell_saved, (c, is_new, group_id), cell),
        call_ensures(element_deleted, (*id, *board_id, group_id), deleted),
        call_ensures(clear_whiteboard, (board_id, group_id), cleared),
        call_ensures(delete_cell, (id, Some((*board_id, group_id))), cell_deleted),
    ensures
        saved is Some <==> group_id@.len() > 0,
        saved matches Some(s) ==> (s matches NetworkCommand::Broadcast { group_id: g, .. } && g
            == group_id),
        cell is Some <==> group_id@.len() > 0,
        cell matches Some(s) ==> (s matches NetworkCommand::Broadcast { group_id: g, .. } && g
            == group_id),
        deleted is Some <==> group_id@.len() > 0 && board_id@.len() > 0,
        deleted matches Some(s) ==> (s matches NetworkCommand::Broadcast { group_id: g, event } && g
            == group_id && (event matches NetworkEvent::WhiteboardElementDeleted {
            id: i,
            board_id: b,
        } && i == *id && b == *board_id)),
        cleared is Some <==> board_id@.len() > 0,
        cleared matches Some(ch) ==> (ch.broadcast is Some <==> group_id@.len() > 0) && (
        ch.broadcast matches Some(NetworkCommand::Broadcast { group_id: g, event }) ==> g
            == group_id && event == (NetworkEvent::WhiteboardCleared { board_id: *board_id })),
        cell_deleted matches Some(d) && (d.broadcast is Some <==> group_id@.len() > 0) && (
        d.broadcast matches Some(NetworkCommand::Broadcast { group_id: g, event }) ==> g == group_id
            && event == (NetworkEvent::NotebookCellDeleted { id: *id, board_id: *board_id })),
{
}

} // verus!
