//! Taking elements and cells off a board and putting cells in order, here and at peers.

use crate::board::BoardChange;
use crate::collections;
use crate::element;
use crate::element::{CellDeletion, Reordering};
use crate::gossip;
use crate::json;
use crate::model::{NetworkCommand, NetworkEvent};
use crate::replication;
use crate::tables;
use crate::tables::{CellRecord, Statement, Tables};
use vstd::prelude::*;
use vstd::string::*;

verus! {

proof fn lemma_apply_one(s: Statement, t: Tables)
    ensures
        tables::apply_all(seq![s], t) == s.apply(t),
{
    reveal_with_fuel(tables::apply_all, 2);
    assert(seq![s].drop_last() =~= Seq::<Statement>::empty());
}

proof fn lemma_apply_two(s1: Statement, s2: Statement, t: Tables)
    ensures
        tables::apply_all(seq![s1, s2], t) == s2.apply(s1.apply(t)),
{
    assert(seq![s1, s2].drop_last() =~= seq![s1]);
    lemma_apply_one(s1, t);
}

/// Whether an event goes to a group, and to nobody where the group is not known.
pub open spec fn tells(r: Option<NetworkCommand>, group_id: String, event: NetworkEvent) -> bool {
    &&& group_id@.len() == 0 ==> r is None
    &&& group_id@.len() > 0 ==> r == Some(NetworkCommand::Broadcast { group_id, event })
}

/// A deleted element is gone, and nothing else is; a cleared board has no elements, and other
/// boards keep theirs. The group is told which element or which board that was.
pub proof fn removed_elements_are_gone(
    id: &String,
    board_id: &String,
    group_id: String,
    deleted: Option<Statement>,
    told: Option<NetworkCommand>,
    cleared: Option<BoardChange>,
    t: Tables,
    k: Seq<char>,
)
    requires
        call_ensures(element::delete_element, (id,), deleted),
        call_ensures(element::element_deleted, (*id, *board_id, group_id), told),
        call_ensures(element::clear_whiteboard, (board_id, group_id), cleared),
    ensures
        deleted is Some <==> id@.len() > 0,
        deleted matches Some(s) ==> ({
            let after = s.apply(t);
            &&& after == Tables { elements: after.elements, ..t }
            &&& after.elements.dom().contains(k) <==> t.elements.dom().contains(k) && k != id@
            &&& after.elements.dom().contains(k) ==> after.elements[k] == t.elements[k]
        }),
        board_id@.len() == 0 ==> told is None,
        board_id@.len() > 0 ==> tells(
            told,
            group_id,
            NetworkEvent::WhiteboardElementDeleted { id: *id, board_id: *board_id },
        ),
        cleared is Some <==> board_id@.len() > 0,
        cleared matches Some(change) ==> ({
            let after = change.statement.apply(t);
            &&& after == Tables { elements: after.elements, ..t }
            &&& after.elements.dom().contains(k) <==> t.elements.dom().contains(k)
                && t.elements[k].element.board_id@ != board_id@
            &&& after.elements.dom().contains(k) ==> after.elements[k] == t.elements[k]
            &&& tells(
                change.broadcast,
                group_id,
                NetworkEvent::WhiteboardCleared { board_id: *board_id },
            )
        }),
{
}

/// A deleted cell is gone. The elements that were drawn in it stay as they are, on no cell; all
/// others stay where they are. The group of its board is told.
pub proof fn a_deleted_cell_leaves_its_elements(
    id: &String,
    place: Option<(String, String)>,
    r: Option<CellDeletion>,
    t: Tables,
    k: Seq<char>,
)
    requires
        call_ensures(element::delete_cell, (id, place), r),
    ensures
        r is Some <==> place is Some,
        r matches Some(d) ==> ({
            let after = tables::apply_all(d.statements@, t);
            let (board_id, group_id) = place->0;
            &&& after == Tables { elements: after.elements, cells: after.cells, ..t }
            &&& after.cells.dom().contains(k) <==> t.cells.dom().contains(k) && k != id@
            &&& after.cells.dom().contains(k) ==> after.cells[k] == t.cells[k]
            &&& after.elements.dom().contains(k) <==> t.elements.dom().contains(k)
            &&& t.elements.dom().contains(k) ==> after.elements[k].element
                == t.elements[k].element
            &&& t.elements.dom().contains(k) && t.elements[k].cell_id == Some(id@)
                ==> after.elements[k].cell_id is None
            &&& t.elements.dom().contains(k) && t.elements[k].cell_id != Some(id@)
                ==> after.elements[k].cell_id == t.elements[k].cell_id
            &&& tells(
                d.broadcast,
                group_id,
                NetworkEvent::NotebookCellDeleted { id: *id, board_id },
            )
        }),
{
    match r {
        Some(d) => {
            assert(d.statements@ =~= seq![d.statements@[0], d.statements@[1]]);
            lemma_apply_two(d.statements@[0], d.statements@[1], t);
        },
        None => {},
    }
}

proof fn lemma_last_place(ids: Seq<String>, i: int)
    requires
        0 <= i < ids.len(),
        forall|j: int| i < j < ids.len() ==> (#[trigger] ids[j])@ != ids[i]@,
    ensures
        replication::last_place(ids, ids[i]@) == Some(i),
    decreases ids.len(),
{
    if i < ids.len() - 1 {
        assert(ids[ids.len() - 1]@ != ids[i]@);
        assert(ids.drop_last()[i] == ids[i]);
        assert forall|j: int| i < j < ids.drop_last().len() implies (
        #[trigger] ids.drop_last()[j])@ != ids[i]@ by {
            assert(ids.drop_last()[j] == ids[j]);
        }
        lemma_last_place(ids.drop_last(), i);
    }
}

proof fn lemma_no_place(ids: Seq<String>, id: Seq<char>)
    requires
        forall|j: int| 0 <= j < ids.len() ==> (#[trigger] ids[j])@ != id,
    ensures
        replication::last_place(ids, id) is None,
    decreases ids.len(),
{
    if ids.len() > 0 {
        assert(ids[ids.len() - 1]@ != id);
        assert forall|j: int| 0 <= j < ids.drop_last().len() implies (
        #[trigger] ids.drop_last()[j])@ != id by {
            assert(ids.drop_last()[j] == ids[j]);
        }
        lemma_no_place(ids.drop_last(), id);
    }
}

/// Each cell of a board that a list names has its place in the list as its order afterwards; cells
/// of other boards, cells that are not named and everything else stay. A peer that hears of it at
/// the same time has the same cells.
pub proof fn cells_take_the_order_of_the_list(
    board_id: &String,
    cell_ids_json: &str,
    now: i64,
    group_id: String,
    cell_ids: Seq<Seq<char>>,
    r: Option<Reordering>,
    heard: Vec<Statement>,
    t: Tables,
    k: Seq<char>,
)
    requires
        json::parsed_text_list(cell_ids_json@) == Some(cell_ids),
        call_ensures(element::reorder_cells, (board_id, cell_ids_json, now, group_id), r),
        group_id@.len() > 0,
        r is Some && (r->0).broadcast is Some ==> call_ensures(
            gossip::event_statements,
            (&(r->0).broadcast->0->Broadcast_event, now),
            heard,
        ),
    ensures
        r is Some,
        ({
            let after = tables::apply_all((r->0).statements@, t);
            &&& after == Tables { cells: after.cells, ..t }
            &&& after.cells.dom() == t.cells.dom()
            &&& forall|i: int|
                #![trigger cell_ids[i]]
                0 <= i < cell_ids.len() && i <= i32::MAX && cell_ids[i] == k && (forall|j: int|
                    i < j < cell_ids.len() ==> #[trigger] cell_ids[j] != k)
                    && t.cells.dom().contains(k) && t.cells[k].board_id@ == board_id@
                    ==> after.cells[k] == (CellRecord {
                    cell_order: i as i32,
                    updated_at: now,
                    ..t.cells[k]
                })
            &&& t.cells.dom().contains(k) && (t.cells[k].board_id@ != board_id@
                || !cell_ids.contains(k)) ==> after.cells[k] == t.cells[k]
            &&& (r->0).broadcast is Some
            &&& (r->0).broadcast->0 is Broadcast
            &&& (r->0).broadcast->0->Broadcast_group_id == group_id
            &&& tables::apply_all(heard@, t) == after
        }),
{
    let o = r->0;
    let ids = choose|ids: Vec<String>|
        {
            &&& #[trigger] collections::texts(ids@) == cell_ids
            &&& o.statements@ == gossip::placings(*board_id, ids@, now)
            &&& o.broadcast == crate::board::tell(
                group_id,
                NetworkEvent::NotebookCellsReordered { board_id: *board_id, cell_ids: ids },
            )
        };
    replication::reordering_places_cells(*board_id, ids@, now, t);
    let after = tables::apply_all(o.statements@, t);
    assert(after.cells.dom() =~= t.cells.dom());
    assert forall|i: int|
        #![trigger cell_ids[i]]
        0 <= i < cell_ids.len() && i <= i32::MAX && cell_ids[i] == k && (forall|j: int|
            i < j < cell_ids.len() ==> #[trigger] cell_ids[j] != k) && t.cells.dom().contains(k)
            && t.cells[k].board_id@ == board_id@ implies after.cells[k] == (CellRecord {
        cell_order: i as i32,
        updated_at: now,
        ..t.cells[k]
    }) by {
        assert(ids@[i]@ == cell_ids[i]);
        assert forall|j: int| i < j < ids@.len() implies (#[trigger] ids@[j])@ != ids@[i]@ by {
            assert(cell_ids[j] == ids@[j]@);
        }
        lemma_last_place(ids@, i);
    }
    if !cell_ids.contains(k) {
        assert forall|j: int| 0 <= j < ids@.len() implies (#[trigger] ids@[j])@ != k by {
            assert(cell_ids[j] == ids@[j]@);
            assert(cell_ids.contains(cell_ids[j]));
        }
        lemma_no_place(ids@, k);
    }
}

} // verus!
