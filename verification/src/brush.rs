//! The brush: edits of cells, the strokes they make up, the history that takes
//! strokes back, and the batches in which edits go to the device.

use std::collections::VecDeque;

use vstd::prelude::*;
use vstd::slice::slice_subrange;

use crate::packing::{pack_in, packed_as, unpack_in, ByteOrder};
use crate::rps::{workgroup_count, workgroups_for};

verus! {

/// The largest number of edits that one batch holds.
pub const MAX_BRUSH_EDITS: usize = 524_288;

/// The largest number of units that a history holds.
pub const MAX_BRUSH_UNDO_UNITS: usize = 50_000;

/// The number of bytes of an edit in the device's memory.
pub const BRUSH_EDIT_BYTES: usize = 8;

/// What the device is told about a batch.
#[derive(Clone, Copy, Debug, PartialEq, Eq, Structural)]
pub struct BrushParams {
    pub count: u32,
}

/// A value for the cell at one place of a board.
#[derive(Clone, Copy, Debug, PartialEq, Eq, Structural)]
pub struct BrushEdit {
    pub idx: u32,
    pub value: u32,
}

impl BrushEdit {
    /// The edit that puts `value` at the place `idx`.
    pub fn new(idx: u32, value: u32) -> (edit: Self)
        ensures
            edit == (BrushEdit { idx, value }),
    {
        Self { idx, value }
    }
}

/// The edits that take one application of the brush back.
#[derive(Debug)]
pub struct BrushStroke {
    edits: Vec<BrushEdit>,
}

impl View for BrushStroke {
    type V = Seq<BrushEdit>;

    closed spec fn view(&self) -> Seq<BrushEdit> {
        self.edits@
    }
}

impl BrushStroke {
    /// The stroke of the given edits.
    pub fn new(edits: Vec<BrushEdit>) -> (stroke: Self)
        ensures
            stroke@ == edits@,
    {
        BrushStroke { edits }
    }

    /// The edits of the stroke.
    pub fn edits(&self) -> (edits: &Vec<BrushEdit>)
        ensures
            edits@ == self@,
    {
        &self.edits
    }
}

/// The strokes between putting the brush down and lifting it, in the order in
/// which they were made.
#[derive(Debug)]
pub struct BrushUndoUnit {
    pub strokes: Vec<BrushStroke>,
}

/// The edits of each stroke.
pub open spec fn stroke_edits(strokes: Seq<BrushStroke>) -> Seq<Seq<BrushEdit>> {
    strokes.map_values(|stroke: BrushStroke| stroke@)
}

/// The edits of each stroke of each unit.
pub open spec fn unit_edits(units: Seq<BrushUndoUnit>) -> Seq<Seq<Seq<BrushEdit>>> {
    units.map_values(|unit: BrushUndoUnit| stroke_edits(unit.strokes@))
}

/// `strokes` in the opposite order.
pub fn reversed_strokes(strokes: Vec<BrushStroke>) -> (reversed: Vec<BrushStroke>)
    ensures
        reversed@ == strokes@.reverse(),
{
    let ghost all = strokes@;
    let mut strokes = strokes;
    let mut reversed: Vec<BrushStroke> = Vec::new();
    while strokes.len() > 0
        invariant
            strokes@ == all.take(strokes.len() as int),
            strokes.len() <= all.len(),
            reversed@ =~= all.reverse().take(all.len() - strokes.len()),
        decreases strokes.len(),
    {
        match strokes.pop() {
            Some(stroke) => reversed.push(stroke),
            None => {},
        }
    }
    reversed
}

/// What a history holds: the strokes since the brush was put down, and the
/// finished units, the oldest first.
#[verifier::ext_equal]
pub struct BrushHistory {
    pub in_progress: Seq<Seq<BrushEdit>>,
    pub units: Seq<Seq<Seq<BrushEdit>>>,
}

impl BrushHistory {
    /// A history of nothing.
    pub open spec fn empty() -> BrushHistory {
        BrushHistory { in_progress: Seq::empty(), units: Seq::empty() }
    }

    /// Whether the history is within its bounds.
    pub open spec fn wf(self) -> bool {
        &&& self.units.len() <= MAX_BRUSH_UNDO_UNITS
        &&& forall|i: int| 0 <= i < self.units.len() ==> (#[trigger] self.units[i]).len() > 0
    }

    /// The history without the strokes since the brush was put down.
    pub open spec fn without_progress(self) -> BrushHistory {
        BrushHistory { in_progress: Seq::empty(), units: self.units }
    }

    /// The history after one more stroke.
    pub open spec fn recorded(self, stroke: Seq<BrushEdit>) -> BrushHistory {
        BrushHistory { in_progress: self.in_progress.push(stroke), units: self.units }
    }

    /// The history after more strokes, one after the other.
    pub open spec fn recorded_all(self, strokes: Seq<Seq<BrushEdit>>) -> BrushHistory
        decreases strokes.len(),
    {
        if strokes.len() == 0 {
            self
        } else {
            self.recorded_all(strokes.drop_last()).recorded(strokes.last())
        }
    }

    /// The history after the brush was lifted: the strokes become a unit, unless
    /// there are none, and a full history drops its oldest unit for it.
    pub open spec fn finished(self) -> BrushHistory {
        if self.in_progress.len() == 0 {
            self
        } else if self.units.len() == MAX_BRUSH_UNDO_UNITS {
            BrushHistory {
                in_progress: Seq::empty(),
                units: self.units.drop_first().push(self.in_progress),
            }
        } else {
            BrushHistory { in_progress: Seq::empty(), units: self.units.push(self.in_progress) }
        }
    }

    /// The history without its newest unit.
    pub open spec fn popped(self) -> BrushHistory {
        if self.units.len() == 0 {
            self
        } else {
            BrushHistory { in_progress: self.in_progress, units: self.units.drop_last() }
        }
    }
}

/// A bounded history of finished units.
#[derive(Debug)]
pub struct BrushUndoStack {
    in_progress_strokes: Vec<BrushStroke>,
    undo_units: VecDeque<BrushUndoUnit>,
}

impl View for BrushUndoStack {
    type V = BrushHistory;

    closed spec fn view(&self) -> BrushHistory {
        BrushHistory {
            in_progress: stroke_edits(self.in_progress_strokes@),
            units: unit_edits(self.undo_units@),
        }
    }
}

impl Default for BrushUndoStack {
    fn default() -> (stack: Self)
        ensures
            stack@ == BrushHistory::empty(),
    {
        let stack = BrushUndoStack {
            in_progress_strokes: Vec::new(),
            undo_units: VecDeque::new(),
        };
        stack
    }
}

impl BrushUndoStack {
    /// A history of nothing.
    pub fn new() -> (stack: Self)
        ensures
            stack@ == BrushHistory::empty(),
    {
        Self::default()
    }

    /// Forgets everything.
    pub fn clear(&mut self)
        ensures
            final(self)@ == BrushHistory::empty(),
    {
        self.in_progress_strokes.clear();
        self.undo_units.clear();
    }

    /// Starts a unit: the strokes of one that was not finished are forgotten.
    pub fn begin_unit(&mut self)
        ensures
            final(self)@ == old(self)@.without_progress(),
    {
        self.in_progress_strokes.clear();
    }

    /// Adds a stroke to the unit that was started.
    pub fn record_stroke(&mut self, stroke: BrushStroke)
        ensures
            final(self)@ == old(self)@.recorded(stroke@),
    {
        self.in_progress_strokes.push(stroke);
    }

    /// Finishes the unit that was started.
    pub fn finish_unit(&mut self)
        ensures
            final(self)@ == old(self)@.finished(),
    {
        if self.in_progress_strokes.is_empty() {
            return;
        }
        if self.undo_units.len() == MAX_BRUSH_UNDO_UNITS {
            let _ = self.undo_units.pop_front();
        }
        let mut strokes: Vec<BrushStroke> = Vec::new();
        std::mem::swap(&mut strokes, &mut self.in_progress_strokes);
        self.undo_units.push_back(BrushUndoUnit { strokes });
    }

    /// Forgets the strokes of the unit that was started.
    pub fn cancel_unit(&mut self)
        ensures
            final(self)@ == old(self)@.without_progress(),
    {
        self.in_progress_strokes.clear();
    }

    /// Whether there is a unit to take back.
    pub fn has_undo(&self) -> (has: bool)
        ensures
            has == (self@.units.len() > 0),
    {
        self.undo_units.len() > 0
    }

    /// Takes the newest unit out of the history and gives its strokes, the last
    /// one first.
    pub fn pop_undo_strokes(&mut self) -> (strokes: Option<Vec<BrushStroke>>)
        ensures
            final(self)@ == old(self)@.popped(),
            match strokes {
                Some(strokes) => old(self)@.units.len() > 0 && stroke_edits(strokes@) == old(
                    self,
                )@.units.last().reverse(),
                None => old(self)@.units.len() == 0,
            },
    {
        match self.undo_units.pop_back() {
            Some(unit) => {
                let strokes = reversed_strokes(unit.strokes);
                Some(strokes)
            },
            None => None,
        }
    }
}

/// Whether no two edits change the same place.
pub open spec fn has_own_places(edits: Seq<BrushEdit>) -> bool {
    forall|i: int, j: int|
        #![trigger edits[i], edits[j]]
        0 <= i < j < edits.len() ==> edits[i].idx != edits[j].idx
}

/// Whether every edit has its place on a board of `cells` cells.
pub open spec fn fits_board(edits: Seq<BrushEdit>, cells: nat) -> bool {
    forall|i: int| 0 <= i < edits.len() ==> (#[trigger] edits[i]).idx < cells
}

/// A board after edits.
pub open spec fn edited_board(board: Seq<u32>, edits: Seq<BrushEdit>) -> Seq<u32>
    decreases edits.len(),
{
    if edits.len() == 0 {
        board
    } else {
        edited_board(board, edits.drop_last()).update(edits.last().idx as int, edits.last().value)
    }
}

/// The edits that hold what `board` has at the places of `edits`. This is what
/// the device leaves in a batch that it applied to `board`.
pub open spec fn inverse_edits(board: Seq<u32>, edits: Seq<BrushEdit>) -> Seq<BrushEdit> {
    edits.map_values(|edit: BrushEdit| BrushEdit { idx: edit.idx, value: board[edit.idx as int] })
}

/// A board after the edits of strokes, one stroke after the other.
pub open spec fn stroked_board(board: Seq<u32>, strokes: Seq<Seq<BrushEdit>>) -> Seq<u32>
    decreases strokes.len(),
{
    if strokes.len() == 0 {
        board
    } else {
        edited_board(stroked_board(board, strokes.drop_last()), strokes.last())
    }
}

/// The inverse of each of the strokes that are made on `board`, one after the
/// other.
pub open spec fn inverse_strokes(board: Seq<u32>, strokes: Seq<Seq<BrushEdit>>) -> Seq<
    Seq<BrushEdit>,
>
    decreases strokes.len(),
{
    if strokes.len() == 0 {
        Seq::empty()
    } else {
        inverse_strokes(board, strokes.drop_last()).push(
            inverse_edits(stroked_board(board, strokes.drop_last()), strokes.last()),
        )
    }
}

/// A history within its bounds stays there, whatever is done to it.
pub proof fn history_stays_within_bounds(history: BrushHistory, stroke: Seq<BrushEdit>)
    requires
        history.wf(),
    ensures
        BrushHistory::empty().wf(),
        history.without_progress().wf(),
        history.recorded(stroke).wf(),
        history.finished().wf(),
        history.popped().wf(),
{
}

/// A finished unit is the next to be taken back, and taking it back leaves the
/// history as it was before, but for the oldest unit of a full one.
pub proof fn finished_unit_is_taken_back_first(history: BrushHistory)
    requires
        history.wf(),
        history.in_progress.len() > 0,
    ensures
        history.finished().units.last() == history.in_progress,
        history.finished().popped().units == if history.units.len() < MAX_BRUSH_UNDO_UNITS {
            history.units
        } else {
            history.units.drop_first()
        },
        history.finished().popped().in_progress.len() == 0,
{
}

proof fn lemma_edited_len(board: Seq<u32>, edits: Seq<BrushEdit>)
    requires
        fits_board(edits, board.len()),
    ensures
        edited_board(board, edits).len() == board.len(),
    decreases edits.len(),
{
    if edits.len() > 0 {
        let rest = edits.drop_last();
        lemma_edited_len(board, rest);
    }
}

/// A place that no edit names keeps its cell.
pub proof fn edits_change_their_places_only(board: Seq<u32>, edits: Seq<BrushEdit>, place: int)
    requires
        fits_board(edits, board.len()),
        0 <= place < board.len(),
        forall|i: int| 0 <= i < edits.len() ==> (#[trigger] edits[i]).idx != place,
    ensures
        edited_board(board, edits)[place] == board[place],
    decreases edits.len(),
{
    if edits.len() > 0 {
        let rest = edits.drop_last();
        edits_change_their_places_only(board, rest, place);
        lemma_edited_len(board, rest);
    }
}

/// A place that an edit names gets the edit's value.
pub proof fn edits_reach_their_places(board: Seq<u32>, edits: Seq<BrushEdit>, i: int)
    requires
        fits_board(edits, board.len()),
        has_own_places(edits),
        0 <= i < edits.len(),
    ensures
        edited_board(board, edits)[edits[i].idx as int] == edits[i].value,
    decreases edits.len(),
{
    let rest = edits.drop_last();
    lemma_edited_len(board, rest);
    if i < rest.len() {
        edits_reach_their_places(board, rest, i);
    }
}

/// Making edits and then their inverse gives the board back.
pub proof fn inverse_edits_restore_the_board(board: Seq<u32>, edits: Seq<BrushEdit>)
    requires
        fits_board(edits, board.len()),
        has_own_places(edits),
    ensures
        edited_board(edited_board(board, edits), inverse_edits(board, edits)) == board,
{
    let painted = edited_board(board, edits);
    let inverse = inverse_edits(board, edits);
    let restored = edited_board(painted, inverse);
    lemma_edited_len(board, edits);
    lemma_edited_len(painted, inverse);
    assert forall|place: int| 0 <= place < board.len() implies restored[place] == board[place] by {
        if exists|i: int| 0 <= i < edits.len() && (#[trigger] edits[i]).idx == place {
            let i = choose|i: int| 0 <= i < edits.len() && (#[trigger] edits[i]).idx == place;
            edits_reach_their_places(painted, inverse, i);
        } else {
            edits_change_their_places_only(painted, inverse, place);
            edits_change_their_places_only(board, edits, place);
        }
    }
}

pub(crate) proof fn lemma_stroked_len(board: Seq<u32>, strokes: Seq<Seq<BrushEdit>>)
    requires
        forall|i: int| 0 <= i < strokes.len() ==> fits_board(#[trigger] strokes[i], board.len()),
    ensures
        stroked_board(board, strokes).len() == board.len(),
    decreases strokes.len(),
{
    if strokes.len() > 0 {
        let earlier = strokes.drop_last();
        lemma_stroked_len(board, earlier);
        lemma_edited_len(stroked_board(board, earlier), strokes.last());
    }
}

/// The first of several strokes can be made apart from the others.
proof fn lemma_stroked_from_the_front(board: Seq<u32>, strokes: Seq<Seq<BrushEdit>>)
    requires
        strokes.len() > 0,
    ensures
        stroked_board(board, strokes) == stroked_board(
            edited_board(board, strokes.first()),
            strokes.drop_first(),
        ),
    decreases strokes.len(),
{
    let rest = strokes.drop_first();
    if strokes.len() == 1 {
        assert(stroked_board(board, strokes.drop_last()) == board);
    } else {
        lemma_stroked_from_the_front(board, strokes.drop_last());
        assert(strokes.drop_last().drop_first() =~= rest.drop_last());
    }
}

/// Taking a unit back restores the board: the strokes that undo it, the last one
/// first, lead from the painted board to the board before the first stroke.
pub proof fn undo_restores_the_board(board: Seq<u32>, strokes: Seq<Seq<BrushEdit>>)
    requires
        forall|i: int| #![trigger strokes[i]]
            0 <= i < strokes.len() ==> fits_board(strokes[i], board.len()) && has_own_places(
                strokes[i],
            ),
    ensures
        stroked_board(stroked_board(board, strokes), inverse_strokes(board, strokes).reverse())
            == board,
    decreases strokes.len(),
{
    let inverse = inverse_strokes(board, strokes);
    if strokes.len() > 0 {
        let earlier = strokes.drop_last();
        undo_restores_the_board(board, earlier);
        let before = stroked_board(board, earlier);
        lemma_stroked_len(board, earlier);
        inverse_edits_restore_the_board(before, strokes.last());
        lemma_stroked_from_the_front(stroked_board(board, strokes), inverse.reverse());
        assert(inverse.reverse().drop_first() =~= inverse_strokes(board, earlier).reverse());
    }
}

proof fn lemma_edited_in_parts(board: Seq<u32>, first: Seq<BrushEdit>, second: Seq<BrushEdit>)
    ensures
        edited_board(board, first + second) == edited_board(edited_board(board, first), second),
    decreases second.len(),
{
    if second.len() > 0 {
        lemma_edited_in_parts(board, first, second.drop_last());
        assert((first + second).drop_last() =~= first + second.drop_last());
    }
}

/// It makes no difference whether edits with places of their own reach the board
/// at once or in two batches: the board is the same, and so is the inverse that
/// the two batches make up.
pub proof fn batches_act_as_one(board: Seq<u32>, first: Seq<BrushEdit>, second: Seq<BrushEdit>)
    requires
        fits_board(first + second, board.len()),
        has_own_places(first + second),
    ensures
        edited_board(edited_board(board, first), second) == edited_board(board, first + second),
        inverse_edits(board, first) + inverse_edits(edited_board(board, first), second)
            == inverse_edits(board, first + second),
{
    let all = first + second;
    lemma_edited_in_parts(board, first, second);
    assert forall|i: int| 0 <= i < first.len() implies (#[trigger] first[i]).idx < board.len() by {
        assert(first[i] == all[i]);
    }
    assert forall|j: int| 0 <= j < second.len() implies edited_board(
        board,
        first,
    )[(#[trigger] second[j]).idx as int] == board[second[j].idx as int] by {
        assert(second[j] == all[first.len() + j]);
        assert forall|i: int| 0 <= i < first.len() implies (#[trigger] first[i]).idx
            != second[j].idx by {
            assert(first[i] == all[i]);
        }
        edits_change_their_places_only(board, first, second[j].idx as int);
    }
}

/// The words that edits take in the device's memory.
pub open spec fn edit_words(edits: Seq<BrushEdit>) -> Seq<u32> {
    Seq::new(
        2 * edits.len(),
        |i: int|
            if i % 2 == 0 {
                edits[i / 2].idx
            } else {
                edits[i / 2].value
            },
    )
}

/// The number of batches in which edits go to the device.
pub open spec fn batch_count(edits: Seq<BrushEdit>) -> int {
    (edits.len() + MAX_BRUSH_EDITS - 1) / (MAX_BRUSH_EDITS as int)
}

/// The end of a batch.
pub open spec fn batch_end(edits: Seq<BrushEdit>, i: int) -> int {
    if (i + 1) * MAX_BRUSH_EDITS <= edits.len() {
        (i + 1) * MAX_BRUSH_EDITS
    } else {
        edits.len() as int
    }
}

/// The edits of a batch.
pub open spec fn batch(edits: Seq<BrushEdit>, i: int) -> Seq<BrushEdit> {
    edits.subrange(i * MAX_BRUSH_EDITS, batch_end(edits, i))
}

/// The batches make up the edits: each goes on where the one before it ended, the
/// last one ends where the edits end, none is empty, and each fits the device's
/// buffer.
pub proof fn batches_make_up_the_edits(edits: Seq<BrushEdit>, i: int)
    requires
        0 <= i < batch_count(edits),
    ensures
        edits.take(i * MAX_BRUSH_EDITS) + batch(edits, i) == edits.take(batch_end(edits, i)),
        i + 1 < batch_count(edits) ==> batch_end(edits, i) == (i + 1) * MAX_BRUSH_EDITS,
        i + 1 == batch_count(edits) ==> batch_end(edits, i) == edits.len(),
        0 < batch(edits, i).len() <= MAX_BRUSH_EDITS,
{
}

/// A board after the first `n` batches of edits.
pub open spec fn board_after_batches(board: Seq<u32>, edits: Seq<BrushEdit>, n: int) -> Seq<u32>
    decreases n,
{
    if n <= 0 {
        board
    } else {
        edited_board(board_after_batches(board, edits, n - 1), batch(edits, n - 1))
    }
}

/// What the device leaves in the first `n` batches of edits, one behind the other.
pub open spec fn inverse_of_batches(
    board: Seq<u32>,
    edits: Seq<BrushEdit>,
    n: int,
) -> Seq<BrushEdit>
    decreases n,
{
    if n <= 0 {
        Seq::empty()
    } else {
        inverse_of_batches(board, edits, n - 1) + inverse_edits(
            board_after_batches(board, edits, n - 1),
            batch(edits, n - 1),
        )
    }
}

proof fn lemma_first_batches(board: Seq<u32>, edits: Seq<BrushEdit>, n: int)
    requires
        fits_board(edits, board.len()),
        has_own_places(edits),
        0 < n <= batch_count(edits),
    ensures
        board_after_batches(board, edits, n) == edited_board(
            board,
            edits.take(batch_end(edits, n - 1)),
        ),
        inverse_of_batches(board, edits, n) == inverse_edits(
            board,
            edits.take(batch_end(edits, n - 1)),
        ),
    decreases n,
{
    let earlier = edits.take((n - 1) * MAX_BRUSH_EDITS);
    let part = batch(edits, n - 1);
    batches_make_up_the_edits(edits, n - 1);
    if n > 1 {
        batches_make_up_the_edits(edits, n - 2);
        lemma_first_batches(board, edits, n - 1);
    } else {
        assert(earlier =~= Seq::empty());
    }
    assert(board_after_batches(board, edits, n - 1) == edited_board(board, earlier));
    assert(inverse_of_batches(board, edits, n - 1) =~= inverse_edits(board, earlier));
    batches_act_as_one(board, earlier, part);
}

/// Edits reach the board in batches as if they came at once, and what the device
/// leaves in the batches makes up their inverse.
pub proof fn all_batches_act_as_one(board: Seq<u32>, edits: Seq<BrushEdit>)
    requires
        fits_board(edits, board.len()),
        has_own_places(edits),
    ensures
        board_after_batches(board, edits, batch_count(edits)) == edited_board(board, edits),
        inverse_of_batches(board, edits, batch_count(edits)) == inverse_edits(board, edits),
{
    let n = batch_count(edits);
    if edits.len() > 0 {
        lemma_first_batches(board, edits, n);
        batches_make_up_the_edits(edits, n - 1);
        assert(edits.take(edits.len() as int) =~= edits);
    }
}

/// What was put on a board in batches is taken back in batches: putting there what
/// the device left in the first ones gives the board as it was.
pub proof fn batches_can_be_taken_back(board: Seq<u32>, edits: Seq<BrushEdit>)
    requires
        fits_board(edits, board.len()),
        has_own_places(edits),
    ensures
        ({
            let painted = board_after_batches(board, edits, batch_count(edits));
            let inverse = inverse_of_batches(board, edits, batch_count(edits));
            board_after_batches(painted, inverse, batch_count(inverse)) == board
        }),
{
    let inverse = inverse_edits(board, edits);
    all_batches_act_as_one(board, edits);
    lemma_edited_len(board, edits);
    all_batches_act_as_one(edited_board(board, edits), inverse);
    inverse_edits_restore_the_board(board, edits);
}

/// A batch on its way to the device: which board it changes, what the two buffers
/// get, how many workgroups run, and whether the edits are read back after.
#[derive(Debug)]
pub struct BrushDispatch {
    pub board: usize,
    pub params: Vec<u8>,
    pub edits: Vec<u8>,
    pub byte_len: u64,
    pub workgroups: u32,
    pub readback: bool,
}

impl BrushDispatch {
    /// Whether this dispatch carries `edits` to a board, in a byte order.
    pub open spec fn carries(
        self,
        order: ByteOrder,
        board: usize,
        edits: Seq<BrushEdit>,
        readback: bool,
    ) -> bool {
        &&& self.board == board
        &&& packed_as(order, seq![edits.len() as u32], self.params@)
        &&& packed_as(order, edit_words(edits), self.edits@)
        &&& self.byte_len == BRUSH_EDIT_BYTES * edits.len()
        &&& self.workgroups == workgroups_for(edits.len() as int)
        &&& self.readback == readback
    }
}

/// Whether dispatches carry all batches of `edits` to a board, one after the other
/// and all in one byte order.
pub open spec fn carry_batches(
    order: ByteOrder,
    dispatches: Seq<BrushDispatch>,
    board: usize,
    edits: Seq<BrushEdit>,
    readback: bool,
) -> bool {
    &&& dispatches.len() == batch_count(edits)
    &&& forall|i: int| 0 <= i < dispatches.len() ==> (#[trigger] dispatches[i]).carries(
        order,
        board,
        batch(edits, i),
        readback,
    )
}

/// What was read back from one dispatch after the other, one behind the other.
pub open spec fn joined_bytes(readbacks: Seq<Vec<u8>>) -> Seq<u8>
    decreases readbacks.len(),
{
    if readbacks.len() == 0 {
        Seq::empty()
    } else {
        joined_bytes(readbacks.drop_last()) + readbacks.last()@
    }
}

impl BrushParams {
    /// The bytes that the device gets, in a byte order.
    pub fn bytes(&self, order: ByteOrder) -> (bytes: Vec<u8>)
        ensures
            packed_as(order, seq![self.count], bytes@),
    {
        let words: Vec<u32> = vec![self.count];
        pack_in(order, words.as_slice())
    }
}

/// The words that edits take in the device's memory.
pub fn words_of_edits(edits: &[BrushEdit]) -> (words: Vec<u32>)
    ensures
        words@ == edit_words(edits@),
{
    let mut words: Vec<u32> = Vec::new();
    for i in 0..edits.len()
        invariant
            words@ == edit_words(edits@.take(i as int)),
    {
        words.push(edits[i].idx);
        words.push(edits[i].value);
    }
    assert(edits@.take(edits.len() as int) =~= edits@);
    words
}

/// The edits that words of the device's memory stand for.
pub fn edits_from_words(words: &[u32]) -> (edits: Vec<BrushEdit>)
    requires
        words@.len() % 2 == 0,
    ensures
        edit_words(edits@) == words@,
{
    let mut edits: Vec<BrushEdit> = Vec::new();
    let mut i: usize = 0;
    while i < words.len()
        invariant
            words@.len() % 2 == 0,
            i % 2 == 0,
            i <= words@.len(),
            edit_words(edits@) == words@.take(i as int),
        decreases words@.len() - i,
    {
        assert(edit_words(edits@).len() == i);
        edits.push(BrushEdit::new(words[i], words[i + 1]));
        i = i + 2;
    }
    assert(words@.take(i as int) =~= words@);
    edits
}

/// The bytes that edits take in the device's memory, in a byte order.
pub fn edit_bytes(order: ByteOrder, edits: &[BrushEdit]) -> (bytes: Vec<u8>)
    ensures
        packed_as(order, edit_words(edits@), bytes@),
{
    pack_in(order, words_of_edits(edits).as_slice())
}

/// The edits that bytes of the device's memory stand for, in a byte order.
pub fn edits_from_bytes(order: ByteOrder, bytes: &[u8]) -> (edits: Vec<BrushEdit>)
    requires
        bytes@.len() % 8 == 0,
    ensures
        packed_as(order, edit_words(edits@), bytes@),
        edits.len() == bytes@.len() / 8,
{
    let edits = edits_from_words(unpack_in(order, bytes).as_slice());
    assert(edit_words(edits@).len() == 2 * edits.len());
    edits
}

/// The brush's dealings with the device: all bytes that go to it or come from it are
/// in one byte order.
#[derive(Clone, Copy, Debug, PartialEq, Eq, Structural)]
pub struct BrushGpu {
    pub order: ByteOrder,
}

impl BrushGpu {
    /// Dealings with a device whose words are in a byte order.
    pub fn new(order: ByteOrder) -> (gpu: Self)
        ensures
            gpu.order == order,
    {
        BrushGpu { order }
    }

    /// The size of the buffer that holds a batch.
    pub fn edit_buffer_size() -> (size: u64)
        ensures
            size == MAX_BRUSH_EDITS * BRUSH_EDIT_BYTES,
    {
        (MAX_BRUSH_EDITS * BRUSH_EDIT_BYTES) as u64
    }

    /// The dispatch of one batch to the current board.
    pub fn dispatch_batch(
        &self,
        current_board: usize,
        edits: &[BrushEdit],
        readback: bool,
    ) -> (dispatch: BrushDispatch)
        requires
            current_board < 2,
            edits@.len() <= MAX_BRUSH_EDITS,
        ensures
            dispatch.carries(self.order, current_board, edits@, readback),
    {
        let count: u32 = edits.len() as u32;
        BrushDispatch {
            board: current_board,
            params: BrushParams { count }.bytes(self.order),
            edits: edit_bytes(self.order, edits),
            byte_len: (edits.len() * BRUSH_EDIT_BYTES) as u64,
            workgroups: workgroup_count(count),
            readback,
        }
    }

    /// The dispatches of all batches of `edits` to the current board.
    fn dispatch_batches(
        &self,
        current_board: usize,
        edits: &[BrushEdit],
        readback: bool,
    ) -> (dispatches: Vec<BrushDispatch>)
        requires
            edits@.len() > 0 ==> current_board < 2,
        ensures
            carry_batches(self.order, dispatches@, current_board, edits@, readback),
    {
        let mut dispatches: Vec<BrushDispatch> = Vec::new();
        let mut start: usize = 0;
        while start < edits.len()
            invariant
                edits@.len() > 0 ==> current_board < 2,
                start <= edits@.len(),
                start < edits@.len() ==> start == dispatches.len() * MAX_BRUSH_EDITS,
                start == edits@.len() ==> dispatches.len() == batch_count(edits@),
                forall|i: int| 0 <= i < dispatches.len() ==> (#[trigger] dispatches[i]).carries(
                    self.order,
                    current_board,
                    batch(edits@, i),
                    readback,
                ),
            decreases edits@.len() - start,
        {
            let end: usize = if edits.len() - start > MAX_BRUSH_EDITS {
                start + MAX_BRUSH_EDITS
            } else {
                edits.len()
            };
            let part = slice_subrange(edits, start, end);
            dispatches.push(self.dispatch_batch(current_board, part, readback));
            start = end;
        }
        dispatches
    }

    /// The dispatches that put `edits` on the current board and read back what was
    /// there, or none where there is nothing to put.
    pub fn apply(&self, current_board: usize, edits: &[BrushEdit]) -> (dispatches: Option<
        Vec<BrushDispatch>,
    >)
        requires
            edits@.len() > 0 ==> current_board < 2,
        ensures
            match dispatches {
                Some(dispatches) => edits@.len() > 0 && carry_batches(
                    self.order,
                    dispatches@,
                    current_board,
                    edits@,
                    true,
                ),
                None => edits@.len() == 0,
            },
    {
        if edits.len() == 0 {
            return None;
        }
        Some(self.dispatch_batches(current_board, edits, true))
    }

    /// The stroke that takes back what was applied, from what was read back of each
    /// dispatch.
    pub fn applied_stroke(&self, readbacks: &Vec<Vec<u8>>) -> (stroke: BrushStroke)
        requires
            forall|i: int| #![trigger readbacks[i]]
                0 <= i < readbacks.len() ==> readbacks[i]@.len() % 8 == 0,
        ensures
            packed_as(self.order, edit_words(stroke@), joined_bytes(readbacks@)),
    {
        let mut joined: Vec<u8> = Vec::new();
        for i in 0..readbacks.len()
            invariant
                forall|i: int| #![trigger readbacks[i]]
                    0 <= i < readbacks.len() ==> readbacks[i]@.len() % 8 == 0,
                joined@ == joined_bytes(readbacks@.take(i as int)),
                joined.len() % 8 == 0,
        {
            let ghost so_far = readbacks@.take(i + 1);
            assert(so_far.drop_last() =~= readbacks@.take(i as int));
            joined.extend_from_slice(readbacks[i].as_slice());
            assert(joined@ =~= joined_bytes(so_far));
        }
        assert(readbacks@.take(readbacks.len() as int) =~= readbacks@);
        BrushStroke { edits: edits_from_bytes(self.order, joined.as_slice()) }
    }

    /// The dispatches that put the edits of a stroke on the current board.
    pub fn undo(&self, current_board: usize, stroke: BrushStroke) -> (dispatches: Vec<
        BrushDispatch,
    >)
        requires
            stroke@.len() > 0 ==> current_board < 2,
        ensures
            carry_batches(self.order, dispatches@, current_board, stroke@, false),
    {
        self.dispatch_batches(current_board, stroke.edits.as_slice(), false)
    }
}

/// The edits of strokes are those of each stroke, in the order of the strokes, and so
/// for units.
pub proof fn strokes_keep_their_edits(strokes: Seq<BrushStroke>, units: Seq<BrushUndoUnit>, i: int)
    ensures
        stroke_edits(strokes).len() == strokes.len(),
        0 <= i < strokes.len() ==> stroke_edits(strokes)[i] == strokes[i]@,
        unit_edits(units).len() == units.len(),
        0 <= i < units.len() ==> unit_edits(units)[i] == stroke_edits(units[i].strokes@),
{
}

/// A stroke that is recorded comes behind those in progress, which keep their order;
/// the finished units stay as they are.
pub proof fn recorded_stroke_joins_the_unit(history: BrushHistory, stroke: Seq<BrushEdit>)
    ensures
        history.recorded(stroke).in_progress.len() == history.in_progress.len() + 1,
        history.recorded(stroke).in_progress.last() == stroke,
        history.recorded(stroke).in_progress.drop_last() == history.in_progress,
        history.recorded(stroke).units == history.units,
{
}

/// A unit without strokes is not kept; taking a unit back takes the newest one alone;
/// starting or cancelling a unit drops the strokes in progress alone.
pub proof fn history_changes_at_its_end_only(history: BrushHistory)
    ensures
        history.in_progress.len() == 0 ==> history.finished() == history,
        history.units.len() > 0 ==> history.popped().units == history.units.take(
            history.units.len() - 1,
        ),
        history.units.len() == 0 ==> history.popped().units.len() == 0,
        history.popped().in_progress == history.in_progress,
        history.without_progress().in_progress.len() == 0,
        history.without_progress().units == history.units,
        BrushHistory::empty().in_progress.len() == 0,
        BrushHistory::empty().units.len() == 0,
{
}

/// In the device's memory an edit is its place and then its value, one edit behind the
/// other.
pub proof fn edits_are_places_and_values(edits: Seq<BrushEdit>, i: int)
    requires
        0 <= i < edits.len(),
    ensures
        edit_words(edits).len() == 2 * edits.len(),
        edit_words(edits)[2 * i] == edits[i].idx,
        edit_words(edits)[2 * i + 1] == edits[i].value,
{
}

/// The inverse of edits has their places, and the values that the board holds there.
pub proof fn inverse_keeps_the_places(board: Seq<u32>, edits: Seq<BrushEdit>, i: int)
    requires
        0 <= i < edits.len(),
    ensures
        inverse_edits(board, edits).len() == edits.len(),
        inverse_edits(board, edits)[i].idx == edits[i].idx,
        inverse_edits(board, edits)[i].value == board[edits[i].idx as int],
{
}

/// Edits that come later win: after edits of one place, the board holds there the value
/// of the last of them.
pub proof fn last_edit_of_a_place_wins(board: Seq<u32>, edits: Seq<BrushEdit>, i: int)
    requires
        fits_board(edits, board.len()),
        0 <= i < edits.len(),
        forall|j: int| i < j < edits.len() ==> (#[trigger] edits[j]).idx != edits[i].idx,
    ensures
        edited_board(board, edits)[edits[i].idx as int] == edits[i].value,
    decreases edits.len(),
{
    let rest = edits.drop_last();
    lemma_edited_len(board, rest);
    if i < rest.len() {
        assert(edits[edits.len() - 1] == edits.last());
        last_edit_of_a_place_wins(board, rest, i);
    }
}

/// All batches but the last hold 524288 edits, and one edit is at one place of one
/// batch.
pub proof fn batches_hold_the_edits_in_order(edits: Seq<BrushEdit>, i: int)
    requires
        0 <= i < edits.len(),
    ensures
        ({
            let n = i / 524_288;
            &&& 0 <= n < batch_count(edits)
            &&& i % 524_288 < batch(edits, n).len()
            &&& batch(edits, n)[i % 524_288] == edits[i]
            &&& 524_288 * (batch_count(edits) - 1) < edits.len() <= 524_288 * batch_count(edits)
        }),
{
}

/// What was read back is joined in its order, with nothing between and nothing left
/// out.
pub proof fn joining_keeps_all_bytes(first: Seq<Vec<u8>>, second: Vec<u8>)
    ensures
        joined_bytes(Seq::<Vec<u8>>::empty()).len() == 0,
        joined_bytes(first.push(second)) == joined_bytes(first) + second@,
{
    assert(first.push(second).drop_last() =~= first);
}

/// A dispatch tells the device which board it changes, how many edits there are, the
/// edits themselves, eight bytes each, and one workgroup for every 256 of them.
pub proof fn dispatch_tells_all_of_its_batch(
    dispatch: BrushDispatch,
    order: ByteOrder,
    board: usize,
    edits: Seq<BrushEdit>,
    readback: bool,
)
    requires
        dispatch.carries(order, board, edits, readback),
    ensures
        dispatch.board == board,
        dispatch.readback == readback,
        dispatch.byte_len == 8 * edits.len(),
        256 * dispatch.workgroups >= edits.len(),
        256 * dispatch.workgroups < edits.len() + 256,
        packed_as(order, seq![edits.len() as u32], dispatch.params@),
        packed_as(order, edit_words(edits), dispatch.edits@),
{
}

} // verus!
