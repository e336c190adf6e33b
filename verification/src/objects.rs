//! Board objects and records in a buffer of limited size.

use vstd::bytes::*;
use vstd::prelude::*;

verus! {

/// The type byte of a path.
pub const OBJECT_TYPE_PATH: u8 = 1;

/// The type byte of a sticky note.
pub const OBJECT_TYPE_STICKY: u8 = 2;

/// The type byte of a rectangle.
pub const OBJECT_TYPE_RECTANGLE: u8 = 3;

/// The type byte of a circle.
pub const OBJECT_TYPE_CIRCLE: u8 = 4;

/// The type byte of an arrow.
pub const OBJECT_TYPE_ARROW: u8 = 5;

/// The type byte of a text.
pub const OBJECT_TYPE_TEXT: u8 = 6;

/// The objects of a board, each as the bytes of its record.
pub struct BoardObjects {
    pub paths: Vec<Vec<u8>>,
    pub sticky_notes: Vec<Vec<u8>>,
    pub rectangles: Vec<Vec<u8>>,
    pub circles: Vec<Vec<u8>>,
    pub arrows: Vec<Vec<u8>>,
    pub text_objects: Vec<Vec<u8>>,
}

/// An object in the buffer: its type, its size in four bytes, and its bytes.
pub open spec fn object_record(kind: u8, data: Seq<u8>) -> Seq<u8> {
    seq![kind] + spec_u32_to_le_bytes(data.len() as u32) + data
}

/// A buffer after objects of one type were written behind what it holds. One that does not fit is
/// left out.
pub open spec fn written(out: Seq<u8>, kind: u8, items: Seq<Vec<u8>>, capacity: int) -> Seq<u8>
    decreases items.len(),
{
    if items.len() == 0 {
        out
    } else {
        let before = written(out, kind, items.drop_last(), capacity);
        if before.len() + 5 + items.last()@.len() <= capacity {
            before + object_record(kind, items.last()@)
        } else {
            before
        }
    }
}

/// The records of objects of one type.
pub open spec fn object_records(kind: u8, items: Seq<Vec<u8>>) -> Seq<u8>
    decreases items.len(),
{
    if items.len() == 0 {
        Seq::empty()
    } else {
        object_records(kind, items.drop_last()) + object_record(kind, items.last()@)
    }
}

impl BoardObjects {
    /// How many objects there are.
    pub open spec fn count(&self) -> nat {
        self.paths@.len() + self.sticky_notes@.len() + self.rectangles@.len() + self.circles@.len()
            + self.arrows@.len() + self.text_objects@.len()
    }

    /// The number of objects as it stands in the buffer: its lowest 32 bits.
    pub open spec fn count_bytes(&self) -> Seq<u8> {
        spec_u32_to_le_bytes((self.count() % 0x1_0000_0000) as u32)
    }

    /// The buffer of the objects: their number, then the objects type by type, as far as they fit.
    pub open spec fn buffer(&self, capacity: int) -> Seq<u8> {
        let head = if 4 <= capacity {
            self.count_bytes()
        } else {
            Seq::empty()
        };
        let s = written(head, OBJECT_TYPE_PATH, self.paths@, capacity);
        let s = written(s, OBJECT_TYPE_STICKY, self.sticky_notes@, capacity);
        let s = written(s, OBJECT_TYPE_RECTANGLE, self.rectangles@, capacity);
        let s = written(s, OBJECT_TYPE_CIRCLE, self.circles@, capacity);
        let s = written(s, OBJECT_TYPE_ARROW, self.arrows@, capacity);
        written(s, OBJECT_TYPE_TEXT, self.text_objects@, capacity)
    }

    /// All objects with nothing left out.
    pub open spec fn complete(&self) -> Seq<u8> {
        self.count_bytes() + object_records(OBJECT_TYPE_PATH, self.paths@) + object_records(
            OBJECT_TYPE_STICKY,
            self.sticky_notes@,
        ) + object_records(OBJECT_TYPE_RECTANGLE, self.rectangles@) + object_records(
            OBJECT_TYPE_CIRCLE,
            self.circles@,
        ) + object_records(OBJECT_TYPE_ARROW, self.arrows@) + object_records(
            OBJECT_TYPE_TEXT,
            self.text_objects@,
        )
    }

    /// Writes the objects into a buffer of a given size. What is returned is the part of the buffer
    /// that was written.
    pub fn load_board_objects(&self, capacity: usize) -> (r: Vec<u8>)
        ensures
            r@ == self.buffer(capacity as int),
            r@.len() <= capacity,
    {
        let total: u128 = self.paths.len() as u128 + self.sticky_notes.len() as u128
            + self.rectangles.len() as u128 + self.circles.len() as u128 + self.arrows.len() as u128
            + self.text_objects.len() as u128;
        let mut out: Vec<u8> = Vec::new();
        if capacity >= 4 {
            let low: u128 = total % 0x1_0000_0000;
            out = u32_to_le_bytes(low as u32);
            proof {
                lemma_auto_spec_u32_to_from_le_bytes();
            }
        }
        write_objects(&mut out, OBJECT_TYPE_PATH, &self.paths, capacity);
        write_objects(&mut out, OBJECT_TYPE_STICKY, &self.sticky_notes, capacity);
        write_objects(&mut out, OBJECT_TYPE_RECTANGLE, &self.rectangles, capacity);
        write_objects(&mut out, OBJECT_TYPE_CIRCLE, &self.circles, capacity);
        write_objects(&mut out, OBJECT_TYPE_ARROW, &self.arrows, capacity);
        write_objects(&mut out, OBJECT_TYPE_TEXT, &self.text_objects, capacity);
        out
    }
}

fn append_bytes(out: &mut Vec<u8>, bytes: &Vec<u8>)
    ensures
        final(out)@ == old(out)@ + bytes@,
{
    let ghost before = out@;
    let mut i: usize = 0;
    assert(out@ =~= before + bytes@.take(0));
    while i < bytes.len()
        invariant
            i <= bytes@.len(),
            out@ == before + bytes@.take(i as int),
        decreases bytes.len() - i,
    {
        out.push(bytes[i]);
        assert(out@ =~= before + bytes@.take(i + 1));
        i = i + 1;
    }
    assert(bytes@.take(i as int) =~= bytes@);
}

fn write_objects(out: &mut Vec<u8>, kind: u8, items: &Vec<Vec<u8>>, capacity: usize)
    requires
        old(out)@.len() <= capacity,
    ensures
        final(out)@ == written(old(out)@, kind, items@, capacity as int),
        final(out)@.len() <= capacity,
{
    let ghost start = out@;
    let mut i: usize = 0;
    while i < items.len()
        invariant
            i <= items@.len(),
            out@.len() <= capacity,
            out@ == written(start, kind, items@.take(i as int), capacity as int),
        decreases items.len() - i,
    {
        let ghost before = out@;
        assert(items@.take(i + 1).drop_last() =~= items@.take(i as int));
        assert(items@.take(i + 1).last() == items@[i as int]);
        let room: usize = capacity - out.len();
        if room >= 5 && items[i].len() <= room - 5 {
            out.push(kind);
            let size = u32_to_le_bytes(#[verifier::truncate] (items[i].len() as u32));
            proof {
                lemma_auto_spec_u32_to_from_le_bytes();
            }
            append_bytes(out, &size);
            append_bytes(out, &items[i]);
            assert(out@ =~= before + object_record(kind, items@[i as int]@));
        }
        i = i + 1;
    }
    assert(items@.take(i as int) =~= items@);
}

proof fn lemma_written_fits(out: Seq<u8>, kind: u8, items: Seq<Vec<u8>>, capacity: int)
    requires
        out.len() + object_records(kind, items).len() <= capacity,
    ensures
        written(out, kind, items, capacity) == out + object_records(kind, items),
    decreases items.len(),
{
    lemma_auto_spec_u32_to_from_le_bytes();
    if items.len() == 0 {
        assert(out + Seq::<u8>::empty() =~= out);
    } else {
        lemma_written_fits(out, kind, items.drop_last(), capacity);
        let before = object_records(kind, items.drop_last());
        let last = object_record(kind, items.last()@);
        assert(out + (before + last) =~= (out + before) + last);
    }
}

/// Where the buffer is large enough, nothing is left out.
pub proof fn nothing_is_lost_with_room(objects: BoardObjects, capacity: int)
    requires
        objects.complete().len() <= capacity,
    ensures
        objects.buffer(capacity) == objects.complete(),
{
    lemma_auto_spec_u32_to_from_le_bytes();
    let s = objects.count_bytes();
    lemma_written_fits(s, OBJECT_TYPE_PATH, objects.paths@, capacity);
    let s = s + object_records(OBJECT_TYPE_PATH, objects.paths@);
    lemma_written_fits(s, OBJECT_TYPE_STICKY, objects.sticky_notes@, capacity);
    let s = s + object_records(OBJECT_TYPE_STICKY, objects.sticky_notes@);
    lemma_written_fits(s, OBJECT_TYPE_RECTANGLE, objects.rectangles@, capacity);
    let s = s + object_records(OBJECT_TYPE_RECTANGLE, objects.rectangles@);
    lemma_written_fits(s, OBJECT_TYPE_CIRCLE, objects.circles@, capacity);
    let s = s + object_records(OBJECT_TYPE_CIRCLE, objects.circles@);
    lemma_written_fits(s, OBJECT_TYPE_ARROW, objects.arrows@, capacity);
    let s = s + object_records(OBJECT_TYPE_ARROW, objects.arrows@);
    lemma_written_fits(s, OBJECT_TYPE_TEXT, objects.text_objects@, capacity);
}

/// Records one behind the other.
pub open spec fn joined_records(items: Seq<Vec<u8>>) -> Seq<u8>
    decreases items.len(),
{
    if items.len() == 0 {
        Seq::empty()
    } else {
        joined_records(items.drop_last()) + items.last()@
    }
}

/// What came of writing records: the bytes, where they fit, and how many bytes they take.
pub struct PackedRecords {
    pub bytes: Option<Vec<u8>>,
    pub actual_size: usize,
}

proof fn lemma_joined_len(items: Seq<Vec<u8>>, record_size: nat)
    requires
        forall|i: int| 0 <= i < items.len() ==> (#[trigger] items[i])@.len() == record_size,
    ensures
        joined_records(items).len() == items.len() * record_size,
    decreases items.len(),
{
    if items.len() > 0 {
        lemma_joined_len(items.drop_last(), record_size);
        let n = items.len();
        assert((n - 1) * record_size + record_size == n * record_size) by (nonlinear_arith);
    } else {
        assert(0 * record_size == 0) by (nonlinear_arith);
    }
}

/// Writes records of one size into a buffer; where they do not all fit, none is written.
pub fn pack_records(items: &Vec<Vec<u8>>, record_size: usize, capacity: usize) -> (r: PackedRecords)
    requires
        forall|i: int| 0 <= i < items@.len() ==> (#[trigger] items@[i])@.len() == record_size,
        items@.len() * record_size <= usize::MAX,
    ensures
        r.actual_size == items@.len() * record_size,
        match r.bytes {
            Some(bytes) => r.actual_size <= capacity && bytes@ == joined_records(items@)
                && bytes@.len() == r.actual_size,
            None => r.actual_size > capacity,
        },
{
    let actual_size: usize = items.len() * record_size;
    if actual_size > capacity {
        return PackedRecords { bytes: None, actual_size };
    }
    let mut out: Vec<u8> = Vec::new();
    let mut i: usize = 0;
    while i < items.len()
        invariant
            i <= items@.len(),
            out@ == joined_records(items@.take(i as int)),
        decreases items.len() - i,
    {
        assert(items@.take(i + 1).drop_last() =~= items@.take(i as int));
        append_bytes(&mut out, &items[i]);
        i = i + 1;
    }
    assert(items@.take(i as int) =~= items@);
    proof {
        lemma_joined_len(items@, record_size as nat);
    }
    PackedRecords { bytes: Some(out), actual_size }
}

/// The colour to give a group; all zeros mean that it stays as it is.
pub fn color_change(red: u8, green: u8, blue: u8, alpha: u8) -> (r: Option<[u8; 4]>)
    ensures
        match r {
            Some(c) => (red != 0 || green != 0 || blue != 0 || alpha != 0) && c@ == seq![
                red,
                green,
                blue,
                alpha,
            ],
            None => red == 0 && green == 0 && blue == 0 && alpha == 0,
        },
{
    if red == 0 && green == 0 && blue == 0 && alpha == 0 {
        None
    } else {
        let c: [u8; 4] = [red, green, blue, alpha];
        assert(c@ =~= seq![red, green, blue, alpha]);
        Some(c)
    }
}

/// The objects that a buffer holds behind its head, read one after the other: a type, a size in four
/// bytes, and as many bytes.
pub open spec fn read_objects(bytes: Seq<u8>) -> Seq<(u8, Seq<u8>)>
    decreases bytes.len(),
{
    if bytes.len() < 5 {
        Seq::empty()
    } else {
        let size = spec_u32_from_le_bytes(bytes.subrange(1, 5)) as int;
        if bytes.len() < 5 + size {
            Seq::empty()
        } else {
            seq![(bytes[0], bytes.subrange(5, 5 + size))] + read_objects(bytes.skip(5 + size))
        }
    }
}

/// Objects of one type, each with its type.
pub open spec fn of_type(kind: u8, items: Seq<Vec<u8>>) -> Seq<(u8, Seq<u8>)> {
    items.map_values(|item: Vec<u8>| (kind, item@))
}

proof fn lemma_read_one(kind: u8, data: Seq<u8>, more: Seq<u8>)
    requires
        data.len() <= u32::MAX,
    ensures
        read_objects(object_record(kind, data) + more) == seq![(kind, data)] + read_objects(more),
{
    lemma_auto_spec_u32_to_from_le_bytes();
    let size = spec_u32_to_le_bytes(data.len() as u32);
    let bytes = object_record(kind, data) + more;
    assert(bytes.subrange(1, 5) =~= size);
    assert(bytes.subrange(5, 5 + data.len() as int) =~= data);
    assert(bytes.skip(5 + data.len() as int) =~= more);
}

proof fn lemma_read_type(kind: u8, items: Seq<Vec<u8>>, more: Seq<u8>)
    requires
        forall|i: int| 0 <= i < items.len() ==> (#[trigger] items[i])@.len() <= u32::MAX,
    ensures
        read_objects(object_records(kind, items) + more) == of_type(kind, items) + read_objects(
            more,
        ),
    decreases items.len(),
{
    if items.len() == 0 {
        assert(object_records(kind, items) + more =~= more);
        assert(of_type(kind, items) + read_objects(more) =~= read_objects(more));
    } else {
        let rest = items.drop_last();
        let last = items.last()@;
        assert forall|i: int| 0 <= i < rest.len() implies (#[trigger] rest[i])@.len()
            <= u32::MAX by {
            assert(rest[i] == items[i]);
        }
        assert(items[items.len() - 1]@.len() <= u32::MAX);
        lemma_read_type(kind, rest, object_record(kind, last) + more);
        lemma_read_one(kind, last, more);
        assert(object_records(kind, items) + more =~= object_records(kind, rest) + (object_record(
            kind,
            last,
        ) + more));
        assert(of_type(kind, items) =~= of_type(kind, rest) + seq![(kind, last)]);
        assert(of_type(kind, items) + read_objects(more) =~= of_type(kind, rest) + (seq![
            (kind, last),
        ] + read_objects(more)));
    }
}

/// Whether the bytes of every object can be counted in four bytes.
pub open spec fn is_countable(items: Seq<Vec<u8>>) -> bool {
    forall|i: int| 0 <= i < items.len() ==> (#[trigger] items[i])@.len() <= u32::MAX
}

/// What is read from a buffer that was large enough is what was written to it: how many objects
/// there are, and each with its type and bytes, paths first, then sticky notes, rectangles,
/// circles, arrows and texts.
pub proof fn a_written_buffer_reads_back(objects: &BoardObjects, capacity: usize, r: Vec<u8>)
    requires
        call_ensures(BoardObjects::load_board_objects, (objects, capacity), r),
        objects.complete().len() <= capacity,
        objects.count() <= u32::MAX,
        is_countable(objects.paths@),
        is_countable(objects.sticky_notes@),
        is_countable(objects.rectangles@),
        is_countable(objects.circles@),
        is_countable(objects.arrows@),
        is_countable(objects.text_objects@),
    ensures
        r@.len() >= 4,
        spec_u32_from_le_bytes(r@.take(4)) == objects.paths@.len() + objects.sticky_notes@.len()
            + objects.rectangles@.len() + objects.circles@.len() + objects.arrows@.len()
            + objects.text_objects@.len(),
        read_objects(r@.skip(4)) == of_type(1, objects.paths@) + of_type(2, objects.sticky_notes@)
            + of_type(3, objects.rectangles@) + of_type(4, objects.circles@) + of_type(
            5,
            objects.arrows@,
        ) + of_type(6, objects.text_objects@),
{
    nothing_is_lost_with_room(*objects, capacity as int);
    lemma_auto_spec_u32_to_from_le_bytes();
    let head = objects.count_bytes();
    let a = object_records(OBJECT_TYPE_PATH, objects.paths@);
    let b = object_records(OBJECT_TYPE_STICKY, objects.sticky_notes@);
    let c = object_records(OBJECT_TYPE_RECTANGLE, objects.rectangles@);
    let d = object_records(OBJECT_TYPE_CIRCLE, objects.circles@);
    let e = object_records(OBJECT_TYPE_ARROW, objects.arrows@);
    let f = object_records(OBJECT_TYPE_TEXT, objects.text_objects@);
    lemma_parts(head, a, b, c, d, e, f);
    assert(r@ == head + a + b + c + d + e + f);
    assert(r@.take(4) =~= head);
    assert((objects.count() % 0x1_0000_0000) == objects.count());
    let none = Seq::<u8>::empty();
    lemma_read_type(6, objects.text_objects@, none);
    lemma_read_type(5, objects.arrows@, f + none);
    lemma_read_type(4, objects.circles@, e + (f + none));
    lemma_read_type(3, objects.rectangles@, d + (e + (f + none)));
    lemma_read_type(2, objects.sticky_notes@, c + (d + (e + (f + none))));
    lemma_read_type(1, objects.paths@, b + (c + (d + (e + (f + none)))));
    assert(read_objects(none) == Seq::<(u8, Seq<u8>)>::empty());
    lemma_lists(
        of_type(1, objects.paths@),
        of_type(2, objects.sticky_notes@),
        of_type(3, objects.rectangles@),
        of_type(4, objects.circles@),
        of_type(5, objects.arrows@),
        of_type(6, objects.text_objects@),
    );
}

proof fn lemma_parts(
    head: Seq<u8>,
    a: Seq<u8>,
    b: Seq<u8>,
    c: Seq<u8>,
    d: Seq<u8>,
    e: Seq<u8>,
    f: Seq<u8>,
)
    requires
        head.len() == 4,
    ensures
        (head + a + b + c + d + e + f).skip(4) == a + (b + (c + (d + (e + (f
            + Seq::<u8>::empty()))))),
{
    assert((head + a + b + c + d + e + f).skip(4) =~= a + (b + (c + (d + (e + (f
        + Seq::<u8>::empty()))))));
}

proof fn lemma_lists(
    a: Seq<(u8, Seq<u8>)>,
    b: Seq<(u8, Seq<u8>)>,
    c: Seq<(u8, Seq<u8>)>,
    d: Seq<(u8, Seq<u8>)>,
    e: Seq<(u8, Seq<u8>)>,
    f: Seq<(u8, Seq<u8>)>,
)
    ensures
        a + (b + (c + (d + (e + (f + Seq::<(u8, Seq<u8>)>::empty()))))) == a + b + c + d + e + f,
{
    assert(a + (b + (c + (d + (e + (f + Seq::<(u8, Seq<u8>)>::empty()))))) =~= a + b + c + d + e
        + f);
}

/// Packed records stand one behind the other, each in its place, where they all fit.
pub proof fn packed_records_stand_in_their_places(
    items: &Vec<Vec<u8>>,
    record_size: usize,
    capacity: usize,
    r: PackedRecords,
    i: int,
)
    requires
        call_ensures(pack_records, (items, record_size, capacity), r),
        forall|k: int| 0 <= k < items@.len() ==> (#[trigger] items@[k])@.len() == record_size,
        0 <= i < items@.len(),
    ensures
        r.actual_size == items@.len() * record_size,
        r.bytes is Some <==> r.actual_size <= capacity,
        r.bytes matches Some(bytes) ==> {
            &&& 0 <= i * record_size
            &&& (i + 1) * record_size <= bytes@.len()
            &&& bytes@.subrange(i * record_size, (i + 1) * record_size) == items@[i]@
        },
{
    if r.bytes is Some {
        lemma_place_of_record(items@, record_size as nat, i);
    }
}

proof fn lemma_place_of_record(items: Seq<Vec<u8>>, size: nat, i: int)
    requires
        forall|k: int| 0 <= k < items.len() ==> (#[trigger] items[k])@.len() == size,
        0 <= i < items.len(),
    ensures
        0 <= i * size,
        (i + 1) * size <= joined_records(items).len(),
        joined_records(items).subrange(i * size, (i + 1) * size) == items[i]@,
    decreases items.len(),
{
    let rest = items.drop_last();
    let n = items.len() as int;
    assert forall|k: int| 0 <= k < rest.len() implies (#[trigger] rest[k])@.len() == size by {
        assert(rest[k] == items[k]);
    }
    lemma_joined_len(rest, size);
    lemma_joined_len(items, size);
    assert(items[n - 1]@.len() == size);
    assert(0 <= i * size && (i + 1) * size == i * size + size && (n - 1) * size + size == n * size
        && (i + 1) * size <= n * size) by (nonlinear_arith)
        requires
            0 <= i < n,
    ;
    if i < n - 1 {
        lemma_place_of_record(rest, size, i);
        assert(rest[i] == items[i]);
        assert(joined_records(items).subrange(i * size, (i + 1) * size) =~= joined_records(
            rest,
        ).subrange(i * size, (i + 1) * size));
    } else {
        assert(joined_records(items).subrange(i * size, (i + 1) * size) =~= items[i]@);
    }
}

/// A colour is given as it was asked for, red, green, blue and opacity in this order, unless all of
/// it is zero.
pub proof fn colours_are_given_as_asked(
    red: u8,
    green: u8,
    blue: u8,
    alpha: u8,
    r: Option<[u8; 4]>,
)
    requires
        call_ensures(color_change, (red, green, blue, alpha), r),
    ensures
        r is None <==> red == 0 && green == 0 && blue == 0 && alpha == 0,
        r matches Some(c) ==> c@.len() == 4 && c@[0] == red && c@[1] == green && c@[2] == blue
            && c@[3] == alpha,
{
}

} // verus!
