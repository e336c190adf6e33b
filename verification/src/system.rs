//! The event buffers that the user interface polls, and how the tables are brought up to date.

use crate::board;
use crate::model::SwiftEvent;
use crate::tables::{ObjectRow, Tables};
use crate::text::str_eq;
use std::collections::VecDeque;
use vstd::prelude::*;
use vstd::string::*;

verus! {

/// Events that wait to be polled, already written as JSON: those of the integration console apart
/// from all others.
#[derive(Debug)]
pub struct EventBuffers {
    pub general: VecDeque<String>,
    pub integration: VecDeque<String>,
}

impl EventBuffers {
    pub fn new() -> (r: Self)
        ensures
            r.general@ == Seq::<String>::empty(),
            r.integration@ == Seq::<String>::empty(),
    {
        EventBuffers { general: VecDeque::new(), integration: VecDeque::new() }
    }

    /// Puts an event behind those that wait in its buffer.
    pub fn route(&mut self, event: &SwiftEvent, json: String)
        ensures
            final(self).general@ == if event.for_console() {
                old(self).general@
            } else {
                old(self).general@.push(json)
            },
            final(self).integration@ == if event.for_console() {
                old(self).integration@.push(json)
            } else {
                old(self).integration@
            },
    {
        if event.is_integration_event() {
            self.integration.push_back(json);
        } else {
            self.general.push_back(json);
        }
    }

    /// Takes the oldest event that is not for the integration console.
    pub fn poll_events(&mut self) -> (r: Option<String>)
        ensures
            final(self).integration == old(self).integration,
            polled(old(self).general@, final(self).general@, r),
    {
        self.general.pop_front()
    }

    /// Takes the oldest event for the integration console.
    pub fn poll_integration_events(&mut self) -> (r: Option<String>)
        ensures
            final(self).general == old(self).general,
            polled(old(self).integration@, final(self).integration@, r),
    {
        self.integration.pop_front()
    }
}

/// Whether the oldest entry, if there is one, was taken from a buffer.
pub open spec fn polled(before: Seq<String>, after: Seq<String>, r: Option<String>) -> bool {
    if before.len() == 0 {
        r is None && after == before
    } else {
        r == Some(before[0]) && after == before.drop_first()
    }
}

/// The parts of the user interface that have a buffer of their own.
#[derive(Clone, Copy, Debug, PartialEq, Eq, Structural)]
pub enum Component {
    FileTree,
    ChatPanel,
    Whiteboard,
    BoardGrid,
    NetworkStatus,
}

/// The component that a name stands for.
pub fn component(name: &str) -> (r: Option<Component>)
    ensures
        r == if name@ == "file_tree"@ {
            Some(Component::FileTree)
        } else if name@ == "chat_panel"@ {
            Some(Component::ChatPanel)
        } else if name@ == "whiteboard"@ {
            Some(Component::Whiteboard)
        } else if name@ == "board_grid"@ {
            Some(Component::BoardGrid)
        } else if name@ == "network"@ || name@ == "status"@ {
            Some(Component::NetworkStatus)
        } else {
            None
        },
{
    if str_eq(name, "file_tree") {
        Some(Component::FileTree)
    } else if str_eq(name, "chat_panel") {
        Some(Component::ChatPanel)
    } else if str_eq(name, "whiteboard") {
        Some(Component::Whiteboard)
    } else if str_eq(name, "board_grid") {
        Some(Component::BoardGrid)
    } else if str_eq(name, "network") || str_eq(name, "status") {
        Some(Component::NetworkStatus)
    } else {
        None
    }
}

/// What a database that is being opened already has.
#[derive(Clone, Copy, Debug, PartialEq, Eq, Structural)]
pub struct SchemaProbe {
    pub objects_board_id: bool,
    pub objects_source_peer: bool,
    pub objects_local_path: bool,
    pub elements_cell_id: bool,
    pub objects_board_mode: bool,
    pub board_metadata: bool,
    pub user_profiles: bool,
    pub direct_messages: bool,
}

/// One step that brings a database up to date.
#[derive(Clone, Copy, Debug, PartialEq, Eq, Structural)]
pub enum Migration {
    AddBoardId,
    AddSourcePeer,
    AddLocalPath,
    AddCellId,
    /// New boards are canvases.
    AddBoardMode,
    /// Boards without a mode, or with the old name of one, become canvases.
    RenameFreeform,
    CreateBoardMetadata,
    IndexBoardRating,
    CreateUserProfiles,
    CreateDirectMessages,
    IndexDirectMessages,
}

/// A step, where it is called for.
pub open spec fn if_missing(present: bool, steps: Seq<Migration>) -> Seq<Migration> {
    if present {
        Seq::empty()
    } else {
        steps
    }
}

/// The steps that a database needs, in order.
pub open spec fn steps_for(probe: SchemaProbe) -> Seq<Migration> {
    if_missing(probe.objects_board_id, seq![Migration::AddBoardId]) + if_missing(
        probe.objects_source_peer,
        seq![Migration::AddSourcePeer],
    ) + if_missing(probe.objects_local_path, seq![Migration::AddLocalPath]) + if_missing(
        probe.elements_cell_id,
        seq![Migration::AddCellId],
    ) + if_missing(probe.objects_board_mode, seq![Migration::AddBoardMode])
        + seq![Migration::RenameFreeform] + if_missing(
        probe.board_metadata,
        seq![Migration::CreateBoardMetadata, Migration::IndexBoardRating],
    ) + if_missing(probe.user_profiles, seq![Migration::CreateUserProfiles]) + if_missing(
        probe.direct_messages,
        seq![Migration::CreateDirectMessages, Migration::IndexDirectMessages],
    )
}

fn add_if_missing(steps: &mut Vec<Migration>, present: bool, step: Migration)
    ensures
        final(steps)@ == old(steps)@ + if_missing(present, seq![step]),
{
    if !present {
        steps.push(step);
    }
}

/// Works out the steps that a database needs.
pub fn run_migrations(probe: SchemaProbe) -> (r: Vec<Migration>)
    ensures
        r@ == steps_for(probe),
{
    let mut out: Vec<Migration> = Vec::new();
    add_if_missing(&mut out, probe.objects_board_id, Migration::AddBoardId);
    assert(out@ =~= if_missing(probe.objects_board_id, seq![Migration::AddBoardId]));
    add_if_missing(&mut out, probe.objects_source_peer, Migration::AddSourcePeer);
    add_if_missing(&mut out, probe.objects_local_path, Migration::AddLocalPath);
    add_if_missing(&mut out, probe.elements_cell_id, Migration::AddCellId);
    add_if_missing(&mut out, probe.objects_board_mode, Migration::AddBoardMode);
    let ghost s5 = out@;
    out.push(Migration::RenameFreeform);
    assert(out@ =~= s5 + seq![Migration::RenameFreeform]);
    let ghost s6 = out@;
    add_if_missing(&mut out, probe.board_metadata, Migration::CreateBoardMetadata);
    add_if_missing(&mut out, probe.board_metadata, Migration::IndexBoardRating);
    assert(out@ =~= s6 + if_missing(
        probe.board_metadata,
        seq![Migration::CreateBoardMetadata, Migration::IndexBoardRating],
    ));
    add_if_missing(&mut out, probe.user_profiles, Migration::CreateUserProfiles);
    let ghost s8 = out@;
    add_if_missing(&mut out, probe.direct_messages, Migration::CreateDirectMessages);
    add_if_missing(&mut out, probe.direct_messages, Migration::IndexDirectMessages);
    assert(out@ =~= s8 + if_missing(
        probe.direct_messages,
        seq![Migration::CreateDirectMessages, Migration::IndexDirectMessages],
    ));
    out
}

/// What a database has after a step.
pub open spec fn after_step(probe: SchemaProbe, step: Migration) -> SchemaProbe {
    match step {
        Migration::AddBoardId => SchemaProbe { objects_board_id: true, ..probe },
        Migration::AddSourcePeer => SchemaProbe { objects_source_peer: true, ..probe },
        Migration::AddLocalPath => SchemaProbe { objects_local_path: true, ..probe },
        Migration::AddCellId => SchemaProbe { elements_cell_id: true, ..probe },
        Migration::AddBoardMode => SchemaProbe { objects_board_mode: true, ..probe },
        Migration::CreateBoardMetadata => SchemaProbe { board_metadata: true, ..probe },
        Migration::CreateUserProfiles => SchemaProbe { user_profiles: true, ..probe },
        Migration::CreateDirectMessages => SchemaProbe { direct_messages: true, ..probe },
        _ => probe,
    }
}

/// What a database has after some steps.
pub open spec fn after_steps(probe: SchemaProbe, steps: Seq<Migration>) -> SchemaProbe
    decreases steps.len(),
{
    if steps.len() == 0 {
        probe
    } else {
        after_step(after_steps(probe, steps.drop_last()), steps.last())
    }
}

proof fn lemma_steps_append(probe: SchemaProbe, a: Seq<Migration>, b: Seq<Migration>)
    ensures
        after_steps(probe, a + b) == after_steps(after_steps(probe, a), b),
    decreases b.len(),
{
    if b.len() == 0 {
        assert(a + b =~= a);
    } else {
        assert((a + b).drop_last() =~= a + b.drop_last());
        lemma_steps_append(probe, a, b.drop_last());
    }
}

proof fn lemma_if_missing(probe: SchemaProbe, present: bool, steps: Seq<Migration>)
    requires
        1 <= steps.len() <= 2,
    ensures
        after_steps(probe, if_missing(present, steps)) == if present {
            probe
        } else if steps.len() == 1 {
            after_step(probe, steps[0])
        } else {
            after_step(after_step(probe, steps[0]), steps[1])
        },
{
    reveal_with_fuel(after_steps, 3);
    assert(steps.len() == 2 ==> steps.drop_last().drop_last() =~= Seq::<Migration>::empty());
    assert(steps.len() == 1 ==> steps.drop_last() =~= Seq::<Migration>::empty());
}

/// Once the steps that a database needs have succeeded, it has everything, and the next opening
/// only renames old modes.
pub proof fn migrations_complete(probe: SchemaProbe)
    ensures
        after_steps(probe, steps_for(probe)) == (SchemaProbe {
            objects_board_id: true,
            objects_source_peer: true,
            objects_local_path: true,
            elements_cell_id: true,
            objects_board_mode: true,
            board_metadata: true,
            user_profiles: true,
            direct_messages: true,
        }),
        steps_for(after_steps(probe, steps_for(probe))) == seq![Migration::RenameFreeform],
{
    let s1 = if_missing(probe.objects_board_id, seq![Migration::AddBoardId]);
    let s2 = if_missing(probe.objects_source_peer, seq![Migration::AddSourcePeer]);
    let s3 = if_missing(probe.objects_local_path, seq![Migration::AddLocalPath]);
    let s4 = if_missing(probe.elements_cell_id, seq![Migration::AddCellId]);
    let s5 = if_missing(probe.objects_board_mode, seq![Migration::AddBoardMode]);
    let s6 = seq![Migration::RenameFreeform];
    let m7 = seq![Migration::CreateBoardMetadata, Migration::IndexBoardRating];
    let s7 = if_missing(probe.board_metadata, m7);
    let s8 = if_missing(probe.user_profiles, seq![Migration::CreateUserProfiles]);
    let m9 = seq![Migration::CreateDirectMessages, Migration::IndexDirectMessages];
    let s9 = if_missing(probe.direct_messages, m9);
    let p1 = after_steps(probe, s1);
    let p2 = after_steps(p1, s2);
    let p3 = after_steps(p2, s3);
    let p4 = after_steps(p3, s4);
    let p5 = after_steps(p4, s5);
    let p6 = after_steps(p5, s6);
    let p7 = after_steps(p6, s7);
    let p8 = after_steps(p7, s8);
    let p9 = after_steps(p8, s9);
    lemma_if_missing(probe, probe.objects_board_id, seq![Migration::AddBoardId]);
    lemma_if_missing(p1, probe.objects_source_peer, seq![Migration::AddSourcePeer]);
    lemma_if_missing(p2, probe.objects_local_path, seq![Migration::AddLocalPath]);
    lemma_if_missing(p3, probe.elements_cell_id, seq![Migration::AddCellId]);
    lemma_if_missing(p4, probe.objects_board_mode, seq![Migration::AddBoardMode]);
    lemma_if_missing(p5, false, s6);
    lemma_if_missing(p6, probe.board_metadata, m7);
    lemma_if_missing(p7, probe.user_profiles, seq![Migration::CreateUserProfiles]);
    lemma_if_missing(p8, probe.direct_messages, m9);
    lemma_steps_append(probe, s1, s2);
    lemma_steps_append(probe, s1 + s2, s3);
    lemma_steps_append(probe, s1 + s2 + s3, s4);
    lemma_steps_append(probe, s1 + s2 + s3 + s4, s5);
    lemma_steps_append(probe, s1 + s2 + s3 + s4 + s5, s6);
    lemma_steps_append(probe, s1 + s2 + s3 + s4 + s5 + s6, s7);
    lemma_steps_append(probe, s1 + s2 + s3 + s4 + s5 + s6 + s7, s8);
    lemma_steps_append(probe, s1 + s2 + s3 + s4 + s5 + s6 + s7 + s8, s9);
    assert(steps_for(probe) == s1 + s2 + s3 + s4 + s5 + s6 + s7 + s8 + s9);
    assert(steps_for(p9) =~= s6);
}

/// The tables after a step. A column that is missing reads as empty and a missing table as one
/// without rows, so only the steps that fill in modes change what is read.
pub open spec fn rows_after_step(t: Tables, step: Migration) -> Tables {
    match step {
        Migration::AddBoardMode => Tables {
            objects: t.objects.map_values(
                |o: ObjectRow| ObjectRow { board_mode: Some("canvas"@), ..o },
            ),
            ..t
        },
        Migration::RenameFreeform => Tables {
            objects: t.objects.map_values(
                |o: ObjectRow|
                    if o.board_mode is None || o.board_mode == Some("freeform"@) {
                        ObjectRow { board_mode: Some("canvas"@), ..o }
                    } else {
                        o
                    },
            ),
            ..t
        },
        _ => t,
    }
}

/// The tables after some steps.
pub open spec fn rows_after_steps(t: Tables, steps: Seq<Migration>) -> Tables
    decreases steps.len(),
{
    if steps.len() == 0 {
        t
    } else {
        rows_after_step(rows_after_steps(t, steps.drop_last()), steps.last())
    }
}

/// Whether tables can be those of a database with these columns: without the column for modes, no
/// object has one.
pub open spec fn fits_probe(t: Tables, probe: SchemaProbe) -> bool {
    !probe.objects_board_mode ==> forall|k: Seq<char>| #[trigger]
        t.objects.dom().contains(k) ==> t.objects[k].board_mode is None
}

/// The mode that an object has once its database is up to date: its own under its current name, and
/// that of a canvas where it has none.
pub open spec fn migrated_mode(mode: Option<Seq<char>>) -> Seq<char> {
    match mode {
        Some(mode) => board::normal_mode(mode),
        None => "canvas"@,
    }
}

/// The tables with every mode brought up to date and all else as it was.
pub open spec fn migrated(t: Tables) -> Tables {
    Tables {
        objects: t.objects.map_values(
            |o: ObjectRow| ObjectRow { board_mode: Some(migrated_mode(o.board_mode)), ..o },
        ),
        ..t
    }
}

proof fn lemma_rows_append(t: Tables, a: Seq<Migration>, b: Seq<Migration>)
    ensures
        rows_after_steps(t, a + b) == rows_after_steps(rows_after_steps(t, a), b),
    decreases b.len(),
{
    if b.len() == 0 {
        assert(a + b =~= a);
    } else {
        assert((a + b).drop_last() =~= a + b.drop_last());
        lemma_rows_append(t, a, b.drop_last());
    }
}

proof fn lemma_rows_kept(t: Tables, steps: Seq<Migration>)
    requires
        forall|i: int|
            0 <= i < steps.len() ==> !((#[trigger] steps[i]) is AddBoardMode) && !(
            steps[i] is RenameFreeform),
    ensures
        rows_after_steps(t, steps) == t,
    decreases steps.len(),
{
    if steps.len() > 0 {
        let rest = steps.drop_last();
        assert forall|i: int| 0 <= i < rest.len() implies !((#[trigger] rest[i]) is AddBoardMode)
            && !(rest[i] is RenameFreeform) by {
            assert(rest[i] == steps[i]);
        }
        lemma_rows_kept(t, rest);
        assert(!(steps[steps.len() - 1] is AddBoardMode));
    }
}

proof fn lemma_regroup(
    x: Seq<Migration>,
    a: Seq<Migration>,
    b: Seq<Migration>,
    c: Seq<Migration>,
)
    ensures
        x + a + b + c == x + (a + b + c),
{
    assert(x + a + b + c =~= x + (a + b + c));
}

proof fn lemma_rename(t: Tables)
    ensures
        rows_after_step(t, Migration::RenameFreeform) == migrated(t),
{
    assert(rows_after_step(t, Migration::RenameFreeform).objects =~= migrated(t).objects);
}

/// Bringing a database up to date leaves every object with a mode under its current name: a board
/// without one, or with the old name of one, becomes a canvas, every other mode stays, no row is
/// lost and nothing else changes.
#[verifier::rlimit(40)]
pub proof fn migrations_bring_modes_up_to_date(probe: SchemaProbe, t: Tables)
    requires
        fits_probe(t, probe),
    ensures
        rows_after_steps(t, steps_for(probe)) == migrated(t),
{
    let before = if_missing(probe.objects_board_id, seq![Migration::AddBoardId]) + if_missing(
        probe.objects_source_peer,
        seq![Migration::AddSourcePeer],
    ) + if_missing(probe.objects_local_path, seq![Migration::AddLocalPath]) + if_missing(
        probe.elements_cell_id,
        seq![Migration::AddCellId],
    );
    let add = if_missing(probe.objects_board_mode, seq![Migration::AddBoardMode]);
    let rename = seq![Migration::RenameFreeform];
    let after = if_missing(
        probe.board_metadata,
        seq![Migration::CreateBoardMetadata, Migration::IndexBoardRating],
    ) + if_missing(probe.user_profiles, seq![Migration::CreateUserProfiles]) + if_missing(
        probe.direct_messages,
        seq![Migration::CreateDirectMessages, Migration::IndexDirectMessages],
    );
    lemma_regroup(
        before + add + rename,
        if_missing(
            probe.board_metadata,
            seq![Migration::CreateBoardMetadata, Migration::IndexBoardRating],
        ),
        if_missing(probe.user_profiles, seq![Migration::CreateUserProfiles]),
        if_missing(
            probe.direct_messages,
            seq![Migration::CreateDirectMessages, Migration::IndexDirectMessages],
        ),
    );
    assert(steps_for(probe) == before + add + rename + after);
    lemma_rows_append(t, before, add);
    lemma_rows_append(t, before + add, rename);
    lemma_rows_append(t, before + add + rename, after);
    lemma_rows_kept(t, before);
    let added = rows_after_steps(t, add);
    reveal_with_fuel(rows_after_steps, 2);
    assert(add.len() > 0 ==> add.drop_last() =~= Seq::<Migration>::empty());
    assert(rename.drop_last() =~= Seq::<Migration>::empty());
    lemma_rename(added);
    reveal_strlit("canvas");
    reveal_strlit("freeform");
    assert(migrated(added).objects =~= migrated(t).objects);
    lemma_rows_kept(migrated(t), after);
}

/// Bringing a database up to date again changes no row.
pub proof fn migrating_twice_is_migrating_once(probe: SchemaProbe, t: Tables)
    requires
        fits_probe(t, probe),
    ensures
        ({
            let once = rows_after_steps(t, steps_for(probe));
            rows_after_steps(once, steps_for(after_steps(probe, steps_for(probe)))) == once
        }),
{
    let once = rows_after_steps(t, steps_for(probe));
    let probe_after = after_steps(probe, steps_for(probe));
    migrations_complete(probe);
    migrations_bring_modes_up_to_date(probe, t);
    migrations_bring_modes_up_to_date(probe_after, once);
    reveal_strlit("canvas");
    reveal_strlit("freeform");
    assert("canvas"@.len() != "freeform"@.len());
    assert(migrated(once).objects =~= once.objects);
}

/// After a database was brought up to date, the mode that is read of a board is the mode that is
/// stored.
pub proof fn migrated_modes_read_as_stored(mode: Option<Seq<char>>)
    ensures
        board::normal_mode(migrated_mode(mode)) == migrated_mode(mode),
{
    reveal_strlit("canvas");
    reveal_strlit("freeform");
    assert("canvas"@.len() != "freeform"@.len());
}

} // verus!
