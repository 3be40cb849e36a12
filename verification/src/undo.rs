//! Why painting can be taken back: what is read back from the device makes up the
//! strokes that lead to the board as it was.

use vstd::prelude::*;

use crate::brush::{
    all_batches_act_as_one, batch, batch_count, batches_can_be_taken_back, board_after_batches,
    carry_batches, edit_words, edited_board, fits_board, has_own_places, inverse_edits,
    inverse_of_batches, inverse_strokes, joined_bytes, lemma_stroked_len, stroked_board,
    undo_restores_the_board, BrushDispatch, BrushEdit, BrushHistory,
};
use crate::packing::{packed_as, packed_words_come_back, ByteOrder};
use crate::simulation::SimulationState;

verus! {

/// A board after all batches of edits.
pub open spec fn painted_board(board: Seq<u32>, edits: Seq<BrushEdit>) -> Seq<u32> {
    board_after_batches(board, edits, batch_count(edits))
}

/// A board after strokes, one after the other, each in its batches.
pub open spec fn painted_strokes(board: Seq<u32>, strokes: Seq<Seq<BrushEdit>>) -> Seq<u32>
    decreases strokes.len(),
{
    if strokes.len() == 0 {
        board
    } else {
        painted_board(painted_strokes(board, strokes.drop_last()), strokes.last())
    }
}

/// Whether `readbacks` are, on a machine of a byte order, what the device leaves in
/// the batches of `edits`: for each batch, the cells that the board held before it.
pub open spec fn holds_old_cells(
    order: ByteOrder,
    board: Seq<u32>,
    edits: Seq<BrushEdit>,
    readbacks: Seq<Vec<u8>>,
) -> bool {
    &&& readbacks.len() == batch_count(edits)
    &&& forall|i: int|
        0 <= i < readbacks.len() ==> packed_as(
            order,
            edit_words(inverse_edits(board_after_batches(board, edits, i), batch(edits, i))),
            (#[trigger] readbacks[i])@,
        )
}

/// Whether `stroke` is, on a machine of a byte order, the stroke of what was read
/// back.
pub open spec fn reads_back(
    order: ByteOrder,
    stroke: Seq<BrushEdit>,
    readbacks: Seq<Vec<u8>>,
) -> bool {
    packed_as(order, edit_words(stroke), joined_bytes(readbacks))
}

/// Whether one of `strokes` was read back, on a machine of a byte order, while the
/// edits of the same place in a unit were put on the board after those before them.
pub open spec fn reads_stroke_back(
    order: ByteOrder,
    board: Seq<u32>,
    unit: Seq<Seq<BrushEdit>>,
    readbacks: Seq<Seq<Vec<u8>>>,
    strokes: Seq<Seq<BrushEdit>>,
    i: int,
) -> bool {
    &&& holds_old_cells(order, painted_strokes(board, unit.take(i)), unit[i], readbacks[i])
    &&& reads_back(order, strokes[i], readbacks[i])
}

/// Whether `strokes` were read back, on a machine of a byte order, while the edits
/// of a unit were put on a board, one stroke after the other.
pub open spec fn reads_unit_back(
    order: ByteOrder,
    board: Seq<u32>,
    unit: Seq<Seq<BrushEdit>>,
    readbacks: Seq<Seq<Vec<u8>>>,
    strokes: Seq<Seq<BrushEdit>>,
) -> bool {
    &&& strokes.len() == unit.len()
    &&& readbacks.len() == unit.len()
    &&& forall|i: int|
        0 <= i < unit.len() ==> #[trigger] reads_stroke_back(
            order,
            board,
            unit,
            readbacks,
            strokes,
            i,
        )
}

/// Whether each stroke of a unit has its places on a board, and no two edits of one
/// stroke share a place. Strokes may share places with one another.
pub open spec fn suits_board(unit: Seq<Seq<BrushEdit>>, cells: nat) -> bool {
    forall|i: int| #![trigger unit[i]]
        0 <= i < unit.len() ==> fits_board(unit[i], cells) && has_own_places(unit[i])
}

/// Edits can be told from their bytes, on a machine of a given byte order.
pub proof fn packed_edits_come_back(
    order: ByteOrder,
    edits: Seq<BrushEdit>,
    unpacked: Seq<BrushEdit>,
    bytes: Seq<u8>,
)
    requires
        packed_as(order, edit_words(edits), bytes),
        packed_as(order, edit_words(unpacked), bytes),
    ensures
        edits == unpacked,
{
    let words = edit_words(edits);
    packed_words_come_back(order, words, edit_words(unpacked), bytes);
    assert(words.len() == 2 * edits.len());
    assert forall|i: int| 0 <= i < edits.len() implies edits[i] == unpacked[i] by {
        assert(words[2 * i] == edits[i].idx && words[2 * i + 1] == edits[i].value);
        assert(words[2 * i] == unpacked[i].idx && words[2 * i + 1] == unpacked[i].value);
    }
}

proof fn lemma_packed_in_parts(
    order: ByteOrder,
    first: Seq<BrushEdit>,
    second: Seq<BrushEdit>,
    first_bytes: Seq<u8>,
    second_bytes: Seq<u8>,
)
    requires
        packed_as(order, edit_words(first), first_bytes),
        packed_as(order, edit_words(second), second_bytes),
    ensures
        packed_as(order, edit_words(first + second), first_bytes + second_bytes),
{
    let bytes = first_bytes + second_bytes;
    let words = edit_words(first + second);
    assert(words =~= edit_words(first) + edit_words(second));
    assert forall|i: int| first_bytes.len() <= i < bytes.len() implies #[trigger] bytes[i]
        == second_bytes[i - first_bytes.len()] && words[i / 4] == edit_words(second)[(i
        - first_bytes.len()) / 4] by {}
}

proof fn lemma_joined_inverse(
    order: ByteOrder,
    board: Seq<u32>,
    edits: Seq<BrushEdit>,
    readbacks: Seq<Vec<u8>>,
    n: int,
)
    requires
        holds_old_cells(order, board, edits, readbacks),
        0 <= n <= readbacks.len(),
    ensures
        packed_as(
            order,
            edit_words(inverse_of_batches(board, edits, n)),
            joined_bytes(readbacks.take(n)),
        ),
    decreases n,
{
    if n > 0 {
        lemma_joined_inverse(order, board, edits, readbacks, n - 1);
        assert(readbacks.take(n).drop_last() =~= readbacks.take(n - 1));
        lemma_packed_in_parts(
            order,
            inverse_of_batches(board, edits, n - 1),
            inverse_edits(board_after_batches(board, edits, n - 1), batch(edits, n - 1)),
            joined_bytes(readbacks.take(n - 1)),
            readbacks[n - 1]@,
        );
    }
}

/// The stroke that is made from what was read back is the inverse of the edits: it
/// holds at each of their places what the board held there before.
pub proof fn read_back_stroke_is_the_inverse(
    order: ByteOrder,
    board: Seq<u32>,
    edits: Seq<BrushEdit>,
    readbacks: Seq<Vec<u8>>,
    stroke: Seq<BrushEdit>,
)
    requires
        holds_old_cells(order, board, edits, readbacks),
        reads_back(order, stroke, readbacks),
    ensures
        stroke == inverse_of_batches(board, edits, batch_count(edits)),
        fits_board(edits, board.len()) && has_own_places(edits) ==> stroke == inverse_edits(
            board,
            edits,
        ),
{
    let n = batch_count(edits);
    lemma_joined_inverse(order, board, edits, readbacks, n);
    assert(readbacks.take(n) =~= readbacks);
    packed_edits_come_back(
        order,
        stroke,
        inverse_of_batches(board, edits, n),
        joined_bytes(readbacks),
    );
    if fits_board(edits, board.len()) && has_own_places(edits) {
        all_batches_act_as_one(board, edits);
    }
}

/// The stroke that is made from what was read back takes the edits back, however
/// many batches they take.
pub proof fn read_back_stroke_restores_the_board(
    order: ByteOrder,
    board: Seq<u32>,
    edits: Seq<BrushEdit>,
    readbacks: Seq<Vec<u8>>,
    stroke: Seq<BrushEdit>,
)
    requires
        fits_board(edits, board.len()),
        has_own_places(edits),
        holds_old_cells(order, board, edits, readbacks),
        reads_back(order, stroke, readbacks),
    ensures
        painted_board(painted_board(board, edits), stroke) == board,
{
    read_back_stroke_is_the_inverse(order, board, edits, readbacks, stroke);
    batches_can_be_taken_back(board, edits);
}

proof fn lemma_painted_is_stroked(board: Seq<u32>, unit: Seq<Seq<BrushEdit>>)
    requires
        suits_board(unit, board.len()),
    ensures
        painted_strokes(board, unit) == stroked_board(board, unit),
    decreases unit.len(),
{
    if unit.len() > 0 {
        let earlier = unit.drop_last();
        lemma_painted_is_stroked(board, earlier);
        lemma_stroked_len(board, earlier);
        all_batches_act_as_one(stroked_board(board, earlier), unit.last());
    }
}

proof fn lemma_unit_is_the_inverse(
    order: ByteOrder,
    board: Seq<u32>,
    unit: Seq<Seq<BrushEdit>>,
    readbacks: Seq<Seq<Vec<u8>>>,
    strokes: Seq<Seq<BrushEdit>>,
)
    requires
        suits_board(unit, board.len()),
        reads_unit_back(order, board, unit, readbacks, strokes),
    ensures
        strokes == inverse_strokes(board, unit),
        suits_board(strokes, board.len()),
    decreases unit.len(),
{
    if unit.len() > 0 {
        let last = unit.len() - 1;
        let earlier = unit.drop_last();
        let earlier_readbacks = readbacks.drop_last();
        let earlier_strokes = strokes.drop_last();
        assert forall|i: int| 0 <= i < last implies #[trigger] reads_stroke_back(
            order,
            board,
            earlier,
            earlier_readbacks,
            earlier_strokes,
            i,
        ) by {
            assert(reads_stroke_back(order, board, unit, readbacks, strokes, i));
            assert(earlier.take(i) =~= unit.take(i));
        }
        lemma_unit_is_the_inverse(order, board, earlier, earlier_readbacks, earlier_strokes);
        assert(unit.take(last) =~= earlier);
        lemma_painted_is_stroked(board, earlier);
        lemma_stroked_len(board, earlier);
        let before = stroked_board(board, earlier);
        assert(reads_stroke_back(order, board, unit, readbacks, strokes, last));
        read_back_stroke_is_the_inverse(order, before, unit[last], readbacks[last], strokes[last]);
        assert(strokes[last] == inverse_edits(before, unit[last]));
        assert forall|i: int| #![trigger strokes[i]]
            0 <= i < strokes.len() implies fits_board(strokes[i], board.len()) && has_own_places(
            strokes[i],
        ) by {
            if i < last {
                assert(strokes[i] == earlier_strokes[i]);
            }
        }
    }
}

/// The strokes of a unit, the last one first, take the whole unit back, also where
/// several of its strokes painted the same cells.
pub proof fn read_back_unit_restores_the_board(
    order: ByteOrder,
    board: Seq<u32>,
    unit: Seq<Seq<BrushEdit>>,
    readbacks: Seq<Seq<Vec<u8>>>,
    strokes: Seq<Seq<BrushEdit>>,
)
    requires
        suits_board(unit, board.len()),
        reads_unit_back(order, board, unit, readbacks, strokes),
    ensures
        painted_strokes(painted_strokes(board, unit), strokes.reverse()) == board,
{
    lemma_unit_is_the_inverse(order, board, unit, readbacks, strokes);
    lemma_painted_is_stroked(board, unit);
    lemma_stroked_len(board, unit);
    lemma_painted_is_stroked(stroked_board(board, unit), strokes.reverse());
    undo_restores_the_board(board, unit);
}

proof fn lemma_recorded_all(history: BrushHistory, strokes: Seq<Seq<BrushEdit>>)
    ensures
        history.recorded_all(strokes).in_progress == history.in_progress + strokes,
        history.recorded_all(strokes).units == history.units,
    decreases strokes.len(),
{
    if strokes.len() > 0 {
        lemma_recorded_all(history, strokes.drop_last());
    }
}

/// A unit that was started, recorded stroke by stroke and finished is the next to be
/// taken back, and its strokes, in the order in which they are handed out, lead to
/// the board on which it was started.
pub proof fn finished_unit_restores_the_board(
    history: BrushHistory,
    order: ByteOrder,
    board: Seq<u32>,
    unit: Seq<Seq<BrushEdit>>,
    readbacks: Seq<Seq<Vec<u8>>>,
    strokes: Seq<Seq<BrushEdit>>,
)
    requires
        unit.len() > 0,
        suits_board(unit, board.len()),
        reads_unit_back(order, board, unit, readbacks, strokes),
    ensures
        ({
            let finished = history.without_progress().recorded_all(strokes).finished();
            &&& finished.units.len() > 0
            &&& finished.units.last() == strokes
            &&& painted_strokes(painted_strokes(board, unit), finished.units.last().reverse())
                == board
        }),
{
    lemma_recorded_all(history.without_progress(), strokes);
    assert(history.without_progress().recorded_all(strokes).in_progress =~= strokes);
    read_back_unit_restores_the_board(order, board, unit, readbacks, strokes);
}

/// Lifting the brush makes the strokes since it was put down a unit whose strokes, in
/// the order in which they are handed out, lead to the board as it was then.
pub proof fn lifted_brush_can_be_taken_back(
    state: SimulationState,
    lifted_at: Option<(u32, u32)>,
    order: ByteOrder,
    board: Seq<u32>,
    unit: Seq<Seq<BrushEdit>>,
    readbacks: Seq<Seq<Vec<u8>>>,
)
    requires
        !state.running,
        unit.len() > 0,
        suits_board(unit, board.len()),
        reads_unit_back(order, board, unit, readbacks, state.in_progress),
    ensures
        ({
            let lifted = state.with_brush(false, lifted_at);
            &&& lifted.undo_stack.len() > 0
            &&& painted_strokes(painted_strokes(board, unit), lifted.undo_stack.last().reverse())
                == board
        }),
{
    read_back_unit_restores_the_board(order, board, unit, readbacks, state.in_progress);
}

/// The edits that the device finds in the bytes of a batch, on a machine of a byte
/// order.
pub open spec fn device_edits(order: ByteOrder, bytes: Seq<u8>) -> Seq<BrushEdit> {
    choose|edits: Seq<BrushEdit>| packed_as(order, #[trigger] edit_words(edits), bytes)
}

/// A board after the device ran dispatches, one after the other.
pub open spec fn board_after_dispatches(
    order: ByteOrder,
    board: Seq<u32>,
    dispatches: Seq<BrushDispatch>,
) -> Seq<u32>
    decreases dispatches.len(),
{
    if dispatches.len() == 0 {
        board
    } else {
        edited_board(
            board_after_dispatches(order, board, dispatches.drop_last()),
            device_edits(order, dispatches.last().edits@),
        )
    }
}

proof fn lemma_first_dispatches(
    order: ByteOrder,
    board: Seq<u32>,
    edits: Seq<BrushEdit>,
    dispatches: Seq<BrushDispatch>,
    target: usize,
    readback: bool,
    n: int,
)
    requires
        carry_batches(order, dispatches, target, edits, readback),
        0 <= n <= dispatches.len(),
    ensures
        board_after_dispatches(order, board, dispatches.take(n)) == board_after_batches(
            board,
            edits,
            n,
        ),
    decreases n,
{
    if n > 0 {
        lemma_first_dispatches(order, board, edits, dispatches, target, readback, n - 1);
        assert(dispatches.take(n).drop_last() =~= dispatches.take(n - 1));
        let bytes = dispatches[n - 1].edits@;
        packed_edits_come_back(order, batch(edits, n - 1), device_edits(order, bytes), bytes);
    }
}

/// The device finds in the dispatches the batches that they carry.
pub proof fn dispatches_act_as_batches(
    order: ByteOrder,
    board: Seq<u32>,
    edits: Seq<BrushEdit>,
    dispatches: Seq<BrushDispatch>,
    target: usize,
    readback: bool,
)
    requires
        carry_batches(order, dispatches, target, edits, readback),
    ensures
        board_after_dispatches(order, board, dispatches) == painted_board(board, edits),
{
    let n = dispatches.len() as int;
    lemma_first_dispatches(order, board, edits, dispatches, target, readback, n);
    assert(dispatches.take(n) =~= dispatches);
}

/// The dispatches that undo a stroke give the board back on which the device ran the
/// dispatches that applied it.
pub proof fn undo_dispatches_restore_the_board(
    order: ByteOrder,
    board: Seq<u32>,
    edits: Seq<BrushEdit>,
    target: usize,
    applied: Seq<BrushDispatch>,
    readbacks: Seq<Vec<u8>>,
    stroke: Seq<BrushEdit>,
    undone: Seq<BrushDispatch>,
)
    requires
        fits_board(edits, board.len()),
        has_own_places(edits),
        carry_batches(order, applied, target, edits, true),
        holds_old_cells(order, board, edits, readbacks),
        reads_back(order, stroke, readbacks),
        carry_batches(order, undone, target, stroke, false),
    ensures
        board_after_dispatches(order, board, applied) == edited_board(board, edits),
        board_after_dispatches(order, board_after_dispatches(order, board, applied), undone)
            == board,
{
    dispatches_act_as_batches(order, board, edits, applied, target, true);
    all_batches_act_as_one(board, edits);
    dispatches_act_as_batches(
        order,
        painted_board(board, edits),
        stroke,
        undone,
        target,
        false,
    );
    read_back_stroke_restores_the_board(order, board, edits, readbacks, stroke);
}

/// A board after the device ran the dispatches of strokes, one stroke after the
/// other.
pub open spec fn board_after_strokes(
    order: ByteOrder,
    board: Seq<u32>,
    strokes: Seq<Seq<BrushDispatch>>,
) -> Seq<u32>
    decreases strokes.len(),
{
    if strokes.len() == 0 {
        board
    } else {
        board_after_dispatches(
            order,
            board_after_strokes(order, board, strokes.drop_last()),
            strokes.last(),
        )
    }
}

/// Whether lists of dispatches carry strokes to a board, a list for each stroke.
pub open spec fn carry_strokes(
    order: ByteOrder,
    dispatches: Seq<Seq<BrushDispatch>>,
    target: usize,
    strokes: Seq<Seq<BrushEdit>>,
    readback: bool,
) -> bool {
    &&& dispatches.len() == strokes.len()
    &&& forall|i: int| #![trigger dispatches[i]]
        0 <= i < strokes.len() ==> carry_batches(
            order,
            dispatches[i],
            target,
            strokes[i],
            readback,
        )
}

proof fn lemma_dispatched_strokes(
    order: ByteOrder,
    board: Seq<u32>,
    dispatches: Seq<Seq<BrushDispatch>>,
    target: usize,
    strokes: Seq<Seq<BrushEdit>>,
    readback: bool,
)
    requires
        carry_strokes(order, dispatches, target, strokes, readback),
    ensures
        board_after_strokes(order, board, dispatches) == painted_strokes(board, strokes),
    decreases strokes.len(),
{
    if strokes.len() > 0 {
        let earlier = strokes.drop_last();
        let earlier_dispatches = dispatches.drop_last();
        assert forall|i: int| 0 <= i < earlier.len() implies #[trigger] earlier_dispatches[i]
            == dispatches[i] by {}
        lemma_dispatched_strokes(order, board, earlier_dispatches, target, earlier, readback);
        assert(dispatches.last() == dispatches[strokes.len() - 1]);
        dispatches_act_as_batches(
            order,
            painted_strokes(board, earlier),
            strokes.last(),
            dispatches.last(),
            target,
            readback,
        );
    }
}

/// Undoing the strokes of a finished unit, in the order in which they are handed out,
/// gives the board back on which the device ran the dispatches that applied them, also
/// where several strokes painted the same cells.
pub proof fn undo_dispatches_restore_the_unit(
    history: BrushHistory,
    order: ByteOrder,
    board: Seq<u32>,
    unit: Seq<Seq<BrushEdit>>,
    target: usize,
    applied: Seq<Seq<BrushDispatch>>,
    readbacks: Seq<Seq<Vec<u8>>>,
    strokes: Seq<Seq<BrushEdit>>,
    undone: Seq<Seq<BrushDispatch>>,
)
    requires
        unit.len() > 0,
        suits_board(unit, board.len()),
        carry_strokes(order, applied, target, unit, true),
        reads_unit_back(order, board, unit, readbacks, strokes),
        carry_strokes(
            order,
            undone,
            target,
            history.without_progress().recorded_all(strokes).finished().units.last().reverse(),
            false,
        ),
    ensures
        board_after_strokes(order, board_after_strokes(order, board, applied), undone) == board,
{
    finished_unit_restores_the_board(history, order, board, unit, readbacks, strokes);
    lemma_dispatched_strokes(order, board, applied, target, unit, true);
    lemma_dispatched_strokes(
        order,
        painted_strokes(board, unit),
        undone,
        target,
        strokes.reverse(),
        false,
    );
}

/// Starting a unit, recording strokes and finishing it makes one unit of exactly these
/// strokes, in their order, however many they are. The units before stay, but for the
/// oldest of 50000.
pub proof fn recorded_strokes_make_one_unit(history: BrushHistory, strokes: Seq<Seq<BrushEdit>>)
    requires
        strokes.len() > 0,
        history.units.len() <= 50_000,
    ensures
        ({
            let after = history.without_progress().recorded_all(strokes).finished();
            let kept = if history.units.len() < 50_000 {
                history.units
            } else {
                history.units.skip(1)
            };
            &&& after.in_progress.len() == 0
            &&& after.units.len() == kept.len() + 1
            &&& after.units.take(kept.len() as int) == kept
            &&& after.units.last() == strokes
        }),
{
    lemma_recorded_all(history.without_progress(), strokes);
    let recorded = history.without_progress().recorded_all(strokes);
    assert(recorded.in_progress =~= strokes);
    let kept = if history.units.len() < 50_000 {
        history.units
    } else {
        history.units.skip(1)
    };
    assert(recorded.finished().units.take(kept.len() as int) =~= kept);
}

} // verus!
