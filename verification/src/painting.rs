//! Painting on the board of a game that stands still, and taking it back.

use vstd::prelude::*;

use crate::board::{GRID_HEIGHT, GRID_WIDTH};
use crate::brush::{
    edited_board, inverse_edits, inverse_edits_restore_the_board, reversed_strokes, stroke_edits,
    BrushEdit, BrushStroke, BrushUndoUnit,
};
use crate::panel::HudEvent;
use crate::simulation::{Simulation, SimulationState};
use crate::startup::StartupConfig;
use crate::stroke::{
    brush_edits_between, brush_stays_on_the_board, brushed_cells, edited_cells, paints,
    stroke_paints_near_its_line, strokes_on_the_grid_fit_a_batch, within_reach, MAX_BRUSH_RADIUS,
};

verus! {

impl SimulationState {
    /// The game without anything to take back.
    pub open spec fn without_history(self) -> SimulationState {
        SimulationState { in_progress: Seq::empty(), undo_stack: Seq::empty(), ..self }
    }

    /// The game after the brush was lifted: the strokes since it was put down become
    /// a unit, unless there are none.
    pub open spec fn with_finished_unit(self) -> SimulationState {
        if self.in_progress.len() == 0 {
            self
        } else {
            SimulationState {
                in_progress: Seq::empty(),
                undo_stack: self.undo_stack.push(self.in_progress),
                ..self
            }
        }
    }

    /// The game after the brush was taken away: the strokes since it was put down
    /// cannot be taken back.
    pub open spec fn with_cancelled_unit(self) -> SimulationState {
        SimulationState {
            brush_down: false,
            last_brush_cell: None,
            in_progress: Seq::empty(),
            ..self
        }
    }

    /// Whether the brush paints with the cursor on `cell`: the game stands still,
    /// the brush is down, and the cell is not the one that it painted last.
    pub open spec fn paints_at(self, cell: Option<(u32, u32)>) -> bool {
        !self.running && self.brush_down && cell is Some && self.last_brush_cell != cell
    }

    /// The game after the cursor came to `cell`.
    pub open spec fn with_cursor_at(self, cell: Option<(u32, u32)>) -> SimulationState {
        if self.paints_at(cell) {
            SimulationState { last_brush_cell: cell, ..self }
        } else {
            self
        }
    }

    /// Whether `edits` are what the brush paints with the cursor on `cell`.
    pub open spec fn edits_at(
        self,
        cell: Option<(u32, u32)>,
        edits: Option<Seq<BrushEdit>>,
    ) -> bool {
        match edits {
            Some(edits) => self.paints_at(cell) && paints(
                edits,
                brushed_cells(self.size, self.brush_radius, self.last_brush_cell, cell->0),
                self.brush_value,
            ),
            None => !self.paints_at(cell),
        }
    }

    /// The game in which the brush was just put down.
    pub open spec fn with_brush_down(self) -> SimulationState {
        SimulationState { brush_down: true, in_progress: Seq::empty(), ..self }
    }

    /// The game after the brush was put down or lifted with the cursor on `cell`. A
    /// running game takes the brush away.
    pub open spec fn with_brush(self, down: bool, cell: Option<(u32, u32)>) -> SimulationState {
        if self.running {
            self.with_cancelled_unit()
        } else if down {
            self.with_brush_down().with_cursor_at(cell)
        } else {
            SimulationState {
                brush_down: false,
                last_brush_cell: None,
                ..self
            }.with_finished_unit()
        }
    }

    /// The game after the strokes of a unit grew by one.
    pub open spec fn with_stroke(self, stroke: Seq<BrushEdit>) -> SimulationState {
        SimulationState { in_progress: self.in_progress.push(stroke), ..self }
    }

    /// The game after its newest unit was taken back.
    pub open spec fn without_newest_unit(self) -> SimulationState {
        if self.undo_stack.len() == 0 {
            self
        } else {
            SimulationState { undo_stack: self.undo_stack.drop_last(), ..self }
        }
    }

    /// The game after it was set running or halted. Setting it running forgets what
    /// could be taken back.
    pub open spec fn toggled(self) -> SimulationState {
        if self.running {
            SimulationState { running: false, ..self }
        } else {
            SimulationState { running: true, ..self.without_history().with_cancelled_unit() }
        }
    }

    /// Whether a running game has nothing to take back and no brush on its board.
    pub open spec fn history_rests(self) -> bool {
        self.running ==> !self.brush_down && self.last_brush_cell is None && self.in_progress.len()
            == 0 && self.undo_stack.len() == 0
    }
}

/// A running game has nothing to take back and no brush on its board, from its start
/// on and whatever is done to it. A stroke comes only where the brush painted.
pub proof fn running_game_has_no_history(
    state: SimulationState,
    config: StartupConfig,
    now: u64,
    interval: u64,
    steps: usize,
    event: HudEvent,
    down: bool,
    cell: Option<(u32, u32)>,
    stroke: Seq<BrushEdit>,
)
    requires
        state.history_rests(),
    ensures
        SimulationState::started(config, now).history_rests(),
        state.stepped(steps as int, now, interval).history_rests(),
        state.settled(steps, now, interval).history_rests(),
        state.after_event(event).history_rests(),
        state.restarted(now).history_rests(),
        state.toggled().history_rests(),
        state.with_cursor_at(cell).history_rests(),
        state.with_brush(down, cell).history_rests(),
        state.without_newest_unit().history_rests(),
        state.paints_at(cell) ==> state.with_cursor_at(cell).with_stroke(stroke).history_rests(),
{
}

/// A unit that was painted between putting the brush down and lifting it is the next
/// to be taken back, and taking it back leaves the units before it.
pub proof fn lifted_brush_leaves_one_unit(
    state: SimulationState,
    cell: Option<(u32, u32)>,
    lifted_at: Option<(u32, u32)>,
    stroke: Seq<BrushEdit>,
)
    requires
        !state.running,
    ensures
        ({
            let after = state.with_brush(true, cell).with_stroke(stroke).with_brush(
                false,
                lifted_at,
            );
            &&& after.undo_stack == state.undo_stack.push(seq![stroke])
            &&& after.without_newest_unit().undo_stack == state.undo_stack
            &&& after.in_progress.len() == 0
            &&& !after.brush_down
        }),
{
}

/// What a brush painted on a board can be taken back: the values that were there
/// before, put back in their places, give the board as it was.
pub proof fn painting_can_be_taken_back(
    state: SimulationState,
    cell: Option<(u32, u32)>,
    edits: Seq<BrushEdit>,
    board: Seq<u32>,
)
    requires
        state.paints_at(cell),
        state.edits_at(cell, Some(edits)),
        board.len() == state.size.cells(),
    ensures
        edited_board(edited_board(board, edits), inverse_edits(board, edits)) == board,
{
    brush_stays_on_the_board(
        state.size,
        state.brush_radius,
        state.brush_value,
        state.last_brush_cell,
        cell->0,
        edits,
    );
    inverse_edits_restore_the_board(board, edits);
}

/// On the board that the program runs on, a game whose brush the panel offers edits
/// all cells that the brush covers.
pub proof fn game_paints_whole_strokes(
    state: SimulationState,
    cell: Option<(u32, u32)>,
    edits: Seq<BrushEdit>,
)
    requires
        state.size.width == GRID_WIDTH,
        state.size.height == GRID_HEIGHT,
        state.brush_radius <= MAX_BRUSH_RADIUS,
        state.edits_at(cell, Some(edits)),
    ensures
        edited_cells(edits) == brushed_cells(
            state.size,
            state.brush_radius,
            state.last_brush_cell,
            cell->0,
        ),
{
    strokes_on_the_grid_fit_a_batch(
        state.size,
        state.brush_radius,
        state.last_brush_cell,
        cell->0,
    );
}

/// Starting over forgets what could be taken back.
pub proof fn starting_over_forgets_the_history(state: SimulationState, now: u64)
    ensures
        state.restarted(now).undo_stack.len() == 0,
        state.restarted(now).without_newest_unit() == state.restarted(now),
{
}

impl Simulation {
    /// The edits that the brush makes when it is put down at `to`, or dragged there
    /// from `from`.
    pub fn brush_edits_between(&self, from: Option<(u32, u32)>, to: (u32, u32)) -> (edits: Vec<
        BrushEdit,
    >)
        requires
            self@.wf(),
        ensures
            paints(
                edits@,
                brushed_cells(self@.size, self@.brush_radius, from, to),
                self@.brush_value,
            ),
    {
        brush_edits_between(self.size, self.brush_radius, self.brush_value, from, to)
    }

    /// Forgets what could be taken back.
    pub fn clear_undo(&mut self)
        ensures
            final(self)@ == old(self)@.without_history(),
    {
        self.in_progress_brush_strokes.clear();
        self.undo_stack.clear();
    }

    /// Makes the strokes since the brush was put down a unit.
    pub fn finish_brush_unit(&mut self)
        ensures
            final(self)@ == old(self)@.with_finished_unit(),
    {
        if !self.in_progress_brush_strokes.is_empty() {
            let mut strokes: Vec<BrushStroke> = Vec::new();
            std::mem::swap(&mut strokes, &mut self.in_progress_brush_strokes);
            self.undo_stack.push(BrushUndoUnit { strokes });
        }
    }

    /// Takes the brush away.
    pub fn cancel_brush_unit(&mut self)
        ensures
            final(self)@ == old(self)@.with_cancelled_unit(),
    {
        self.brush_down = false;
        self.last_brush_cell = None;
        self.in_progress_brush_strokes.clear();
    }

    /// Paints with the cursor on `cell`: gives the edits for the device, if the brush
    /// paints at all.
    pub fn paint_at_cursor(&mut self, cell: Option<(u32, u32)>) -> (edits: Option<Vec<BrushEdit>>)
        requires
            old(self)@.wf(),
        ensures
            final(self)@ == old(self)@.with_cursor_at(cell),
            old(self)@.edits_at(
                cell,
                match edits {
                    Some(edits) => Some(edits@),
                    None => None,
                },
            ),
    {
        if self.running || !self.brush_down {
            return None;
        }
        match cell {
            None => None,
            Some(at) => {
                let same = match self.last_brush_cell {
                    Some(last) => last.0 == at.0 && last.1 == at.1,
                    None => false,
                };
                if same {
                    return None;
                }
                let edits = self.brush_edits_between(self.last_brush_cell, at);
                self.last_brush_cell = Some(at);
                Some(edits)
            },
        }
    }

    /// Puts the brush down or lifts it with the cursor on `cell`, and gives the edits
    /// for the device, if the brush paints at once.
    pub fn set_brush_down(&mut self, down: bool, cell: Option<(u32, u32)>) -> (edits: Option<
        Vec<BrushEdit>,
    >)
        requires
            old(self)@.wf(),
        ensures
            final(self)@ == old(self)@.with_brush(down, cell),
            match edits {
                Some(edits) => !old(self)@.running && down
                    && old(self)@.with_brush_down().edits_at(cell, Some(edits@)),
                None => old(self)@.running || !down || old(self)@.with_brush_down().edits_at(
                    cell,
                    None,
                ),
            },
    {
        if self.running {
            self.cancel_brush_unit();
            return None;
        }
        self.brush_down = down;
        if down {
            self.in_progress_brush_strokes.clear();
            self.paint_at_cursor(cell)
        } else {
            self.last_brush_cell = None;
            self.finish_brush_unit();
            None
        }
    }

    /// Adds what takes the latest edits back to the strokes since the brush was put
    /// down.
    pub fn record_stroke(&mut self, stroke: BrushStroke)
        ensures
            final(self)@ == old(self)@.with_stroke(stroke@),
    {
        self.in_progress_brush_strokes.push(stroke);
    }

    /// Takes the newest unit back: gives its strokes for the device, the last one
    /// first.
    pub fn undo_brush(&mut self) -> (strokes: Option<Vec<BrushStroke>>)
        ensures
            final(self)@ == old(self)@.without_newest_unit(),
            match strokes {
                Some(strokes) => old(self)@.undo_stack.len() > 0 && stroke_edits(strokes@) == old(
                    self,
                )@.undo_stack.last().reverse(),
                None => old(self)@.undo_stack.len() == 0,
            },
    {
        match self.undo_stack.pop() {
            Some(unit) => {
                let strokes = reversed_strokes(unit.strokes);
                Some(strokes)
            },
            None => None,
        }
    }

    /// Sets the game running, or halts it.
    pub fn toggle_running(&mut self)
        ensures
            final(self)@ == old(self)@.toggled(),
    {
        if !self.running {
            self.clear_undo();
            self.cancel_brush_unit();
        }
        self.running = !self.running;
    }
}

/// A game that stands still after a drag: for each cell that the cursor came to, the
/// stroke that was painted there was recorded.
pub open spec fn dragged(
    state: SimulationState,
    drag: Seq<(Option<(u32, u32)>, Seq<BrushEdit>)>,
) -> SimulationState
    decreases drag.len(),
{
    if drag.len() == 0 {
        state
    } else {
        dragged(state, drag.drop_last()).with_cursor_at(drag.last().0).with_stroke(drag.last().1)
    }
}

proof fn lemma_drag(
    state: SimulationState,
    drag: Seq<(Option<(u32, u32)>, Seq<BrushEdit>)>,
)
    requires
        !state.running,
        state.brush_down,
    ensures
        ({
            let after = dragged(state, drag);
            &&& after.in_progress == state.in_progress + drag.map_values(
                |moved: (Option<(u32, u32)>, Seq<BrushEdit>)| moved.1,
            )
            &&& after == (SimulationState {
                in_progress: after.in_progress,
                last_brush_cell: after.last_brush_cell,
                ..state
            })
        }),
    decreases drag.len(),
{
    if drag.len() > 0 {
        lemma_drag(state, drag.drop_last());
        let strokes = drag.map_values(
            |moved: (Option<(u32, u32)>, Seq<BrushEdit>)| moved.1,
        );
        assert(strokes =~= drag.drop_last().map_values(
            |moved: (Option<(u32, u32)>, Seq<BrushEdit>)| moved.1,
        ).push(drag.last().1));
    }
}

/// A stroke that is recorded comes behind all strokes since the brush was put down,
/// which keep their order, and changes nothing else.
pub proof fn recorded_stroke_comes_last(state: SimulationState, stroke: Seq<BrushEdit>)
    ensures
        ({
            let after = state.with_stroke(stroke);
            &&& after.in_progress.len() == state.in_progress.len() + 1
            &&& after.in_progress.last() == stroke
            &&& after.in_progress.drop_last() == state.in_progress
            &&& after == (SimulationState { in_progress: after.in_progress, ..state })
        }),
{
}

/// Putting the brush down, dragging it and lifting it makes one unit of exactly the
/// strokes that were recorded on the way, in their order, however many they are, on
/// top of the units before.
pub proof fn drag_makes_one_unit(
    state: SimulationState,
    cell: Option<(u32, u32)>,
    drag: Seq<(Option<(u32, u32)>, Seq<BrushEdit>)>,
    lifted_at: Option<(u32, u32)>,
)
    requires
        !state.running,
        drag.len() > 0,
    ensures
        ({
            let lifted = dragged(state.with_brush(true, cell), drag).with_brush(false, lifted_at);
            &&& lifted.undo_stack.len() == state.undo_stack.len() + 1
            &&& lifted.undo_stack.drop_last() == state.undo_stack
            &&& lifted.undo_stack.last().len() == drag.len()
            &&& forall|i: int| #![trigger drag[i]]
                0 <= i < drag.len() ==> lifted.undo_stack.last()[i] == drag[i].1
            &&& lifted == (SimulationState {
                undo_stack: lifted.undo_stack,
                in_progress: Seq::empty(),
                brush_down: false,
                last_brush_cell: None,
                ..state
            })
        }),
{
    lemma_drag(state.with_brush(true, cell), drag);
}

/// Without strokes, putting the brush down and lifting it makes no unit.
pub proof fn empty_drag_makes_no_unit(
    state: SimulationState,
    cell: Option<(u32, u32)>,
    lifted_at: Option<(u32, u32)>,
)
    requires
        !state.running,
    ensures
        state.with_brush(true, cell).with_brush(false, lifted_at) == (SimulationState {
            in_progress: Seq::empty(),
            brush_down: false,
            last_brush_cell: None,
            ..state
        }),
{
}

/// A brush that is put down on a game that stands still starts with no strokes, and
/// with the cursor's cell as the one painted last.
pub proof fn brush_goes_down_on_a_still_game(state: SimulationState, at: (u32, u32))
    requires
        !state.running,
    ensures
        state.with_brush(true, Some(at)) == (SimulationState {
            brush_down: true,
            in_progress: Seq::empty(),
            last_brush_cell: Some(at),
            ..state
        }),
        state.with_brush(true, None) == (SimulationState {
            brush_down: true,
            in_progress: Seq::empty(),
            ..state
        }),
{
}

/// A running game takes the brush away, whether it is put down or lifted, and keeps
/// what could be taken back before.
pub proof fn running_game_takes_the_brush_away(
    state: SimulationState,
    down: bool,
    cell: Option<(u32, u32)>,
)
    requires
        state.running,
    ensures
        state.with_brush(down, cell) == (SimulationState {
            brush_down: false,
            last_brush_cell: None,
            in_progress: Seq::empty(),
            ..state
        }),
{
}

/// In a game that stands still with the brush down, the cursor on a cell that differs
/// from the one painted last, in its column or in its row, gives edits, and the cell
/// becomes the one painted last. The edits put the brush's value within its radius of
/// the line from the one cell to the other.
pub proof fn cursor_paints_every_new_cell(
    state: SimulationState,
    at: (u32, u32),
    edits: Option<Seq<BrushEdit>>,
)
    requires
        !state.running,
        state.brush_down,
        state.edits_at(Some(at), edits),
    ensures
        edits is None <==> (state.last_brush_cell matches Some(last) && last.0 == at.0 && last.1
            == at.1),
        state.with_cursor_at(Some(at)) == (SimulationState { last_brush_cell: Some(at), ..state }),
        edits matches Some(edits) ==> {
            &&& forall|i: int| #![trigger edits[i]]
                0 <= i < edits.len() ==> edits[i].value == state.brush_value && within_reach(
                    state.size,
                    state.brush_radius,
                    state.last_brush_cell,
                    at,
                    edits[i].idx,
                )
            &&& edits.len() < 524_288 ==> forall|idx: u32| #[trigger]
                within_reach(
                    state.size,
                    state.brush_radius,
                    state.last_brush_cell,
                    at,
                    idx,
                ) ==> exists|i: int| 0 <= i < edits.len() && (#[trigger] edits[i]).idx == idx
        },
{
    if let Some(edits) = edits {
        stroke_paints_near_its_line(
            state.size,
            state.brush_radius,
            state.brush_value,
            state.last_brush_cell,
            at,
            edits,
        );
    }
}

/// A cursor off the board, a lifted brush or a running game paints nothing and changes
/// nothing.
pub proof fn idle_brush_paints_nothing(
    state: SimulationState,
    cell: Option<(u32, u32)>,
    edits: Option<Seq<BrushEdit>>,
)
    requires
        state.running || !state.brush_down || cell is None,
        state.edits_at(cell, edits),
    ensures
        edits is None,
        state.with_cursor_at(cell) == state,
{
}

/// Taking a unit back takes the newest one and nothing else.
pub proof fn newest_unit_goes_alone(state: SimulationState)
    ensures
        ({
            let after = state.without_newest_unit();
            &&& state.undo_stack.len() > 0 ==> after.undo_stack == state.undo_stack.take(
                state.undo_stack.len() - 1,
            )
            &&& state.undo_stack.len() == 0 ==> after.undo_stack.len() == 0
            &&& after == (SimulationState { undo_stack: after.undo_stack, ..state })
        }),
{
}

/// Setting a game running forgets what could be taken back and takes the brush away;
/// halting it changes nothing else.
pub proof fn running_and_halting_take_turns(state: SimulationState)
    ensures
        state.running ==> state.toggled() == (SimulationState { running: false, ..state }),
        !state.running ==> state.toggled() == (SimulationState {
            running: true,
            brush_down: false,
            last_brush_cell: None,
            in_progress: Seq::empty(),
            undo_stack: Seq::empty(),
            ..state
        }),
{
}

/// Finishing a unit moves all strokes in progress to the history in their order;
/// cancelling drops them and lifts the brush; clearing drops the history too.
pub proof fn strokes_are_kept_or_dropped_whole(state: SimulationState)
    ensures
        state.in_progress.len() == 0 ==> state.with_finished_unit() == state,
        state.in_progress.len() > 0 ==> state.with_finished_unit() == (SimulationState {
            in_progress: Seq::empty(),
            undo_stack: state.undo_stack + seq![state.in_progress],
            ..state
        }),
        state.with_cancelled_unit() == (SimulationState {
            brush_down: false,
            last_brush_cell: None,
            in_progress: Seq::empty(),
            ..state
        }),
        state.without_history() == (SimulationState {
            in_progress: Seq::empty(),
            undo_stack: Seq::empty(),
            ..state
        }),
{
}

} // verus!
