//! What the buttons and menus of the panel do, and the words on them.

use vstd::prelude::*;

use crate::board::GameMode;
use crate::simulation::{Simulation, SimulationState};
use crate::text::{
    decimal, decimal_is_trimmed, decimal_reads_back, format_u64, parse_trimmed_u64, parse_unsigned,
    trimmed,
};

verus! {

/// What the panel asks for beyond the game's own state.
#[derive(Clone, Copy, Debug, PartialEq, Eq, Structural)]
pub struct HudAction {
    pub reset_requested: bool,
    pub undo_requested: bool,
}

impl Default for HudAction {
    fn default() -> (action: Self)
        ensures
            action == (HudAction { reset_requested: false, undo_requested: false }),
    {
        HudAction { reset_requested: false, undo_requested: false }
    }
}

/// Something that was clicked or chosen in the panel.
#[derive(Clone, Copy, Debug, PartialEq, Eq, Structural)]
pub enum HudEvent {
    ModeSelected { mode: GameMode },
    RunClicked,
    StepClicked,
    ResetClicked,
    /// The button for a random seed, with the seed that was drawn.
    RandomSeedClicked { seed: u64 },
    BrushValueSelected { value: u32 },
    UndoClicked,
}

impl HudAction {
    /// Both of what two actions ask for.
    pub fn merged(self, other: HudAction) -> (both: HudAction)
        ensures
            both.reset_requested == (self.reset_requested || other.reset_requested),
            both.undo_requested == (self.undo_requested || other.undo_requested),
    {
        HudAction {
            reset_requested: self.reset_requested || other.reset_requested,
            undo_requested: self.undo_requested || other.undo_requested,
        }
    }
}

impl SimulationState {
    /// Whether the seed that was typed in is one.
    pub open spec fn names_seed(self) -> bool {
        parse_unsigned(trimmed(self.pending_seed), u64::MAX as nat) is Some
    }

    /// The game after something was clicked or chosen. Single steps and the brush are
    /// for a game that stands still.
    pub open spec fn after_event(self, event: HudEvent) -> SimulationState {
        match event {
            HudEvent::ModeSelected { mode } => SimulationState { game_mode: mode, ..self },
            HudEvent::RunClicked => self.toggled(),
            HudEvent::StepClicked => SimulationState {
                step_once: self.step_once || !self.running,
                ..self
            },
            HudEvent::ResetClicked => self,
            HudEvent::RandomSeedClicked { seed } => SimulationState {
                pending_seed: decimal(seed as nat),
                ..self
            },
            HudEvent::BrushValueSelected { value } => SimulationState {
                brush_value: if self.running {
                    self.brush_value
                } else {
                    value
                },
                ..self
            },
            HudEvent::UndoClicked => self,
        }
    }

    /// Whether what was clicked or chosen asks to start over: another mode, a random
    /// seed, or the button for it where the seed that was typed in is one.
    pub open spec fn asks_for_reset(self, event: HudEvent) -> bool {
        match event {
            HudEvent::ModeSelected { mode } => mode != self.game_mode,
            HudEvent::ResetClicked => self.names_seed(),
            HudEvent::RandomSeedClicked { .. } => true,
            _ => false,
        }
    }

    /// The game with its brush kept to the cells that it knows.
    pub open spec fn with_settled_brush(self) -> SimulationState {
        match self.game_mode {
            GameMode::Rps => self,
            GameMode::Life => if self.brush_value == 1 || self.brush_value == 2 {
                self
            } else {
                SimulationState { brush_value: 1, ..self }
            },
        }
    }

    /// Whether what was clicked or chosen asks to take a unit back.
    pub open spec fn asks_for_undo(self, event: HudEvent) -> bool {
        event is UndoClicked && !self.running && self.undo_stack.len() > 0
    }
}

/// The button for a random seed starts the game over with the seed that was drawn.
pub proof fn drawn_seed_is_played(state: SimulationState, seed: u64, now: u64)
    ensures
        ({
            let event = HudEvent::RandomSeedClicked { seed };
            &&& state.asks_for_reset(event)
            &&& state.after_event(event).names_seed()
            &&& state.after_event(event).restarted(now).seed == seed
        }),
{
    decimal_is_trimmed(seed as nat);
    decimal_reads_back(seed as nat, u64::MAX as nat);
}

impl Simulation {
    /// Whether the seed that was typed in is one.
    pub fn seed_is_valid(&self) -> (valid: bool)
        ensures
            valid == self@.names_seed(),
    {
        parse_trimmed_u64(self.pending_seed.as_str()).is_some()
    }

    /// Whether there is a unit to take back.
    pub fn has_undo(&self) -> (has: bool)
        ensures
            has == (self@.undo_stack.len() > 0),
    {
        !self.undo_stack.is_empty()
    }

    /// Takes in what was clicked or chosen.
    pub fn handle_hud_event(&mut self, event: HudEvent) -> (action: HudAction)
        ensures
            final(self)@ == old(self)@.after_event(event),
            action.reset_requested == old(self)@.asks_for_reset(event),
            action.undo_requested == old(self)@.asks_for_undo(event),
    {
        let mut action = HudAction::default();
        match event {
            HudEvent::ModeSelected { mode } => {
                action.reset_requested = mode != self.game_mode;
                self.game_mode = mode;
            },
            HudEvent::RunClicked => self.toggle_running(),
            HudEvent::StepClicked => {
                if !self.running {
                    self.step_once = true;
                }
            },
            HudEvent::ResetClicked => {
                action.reset_requested = self.seed_is_valid();
            },
            HudEvent::RandomSeedClicked { seed } => {
                self.pending_seed = format_u64(seed);
                action.reset_requested = true;
            },
            HudEvent::BrushValueSelected { value } => {
                if !self.running {
                    self.brush_value = value;
                }
            },
            HudEvent::UndoClicked => {
                action.undo_requested = !self.running && self.has_undo();
            },
        }
        action
    }

    /// Keeps the brush to the cells that the game knows: where life knows only live
    /// and dead cells, any other value becomes a live one.
    pub fn settle_brush_value(&mut self)
        ensures
            final(self)@ == old(self)@.with_settled_brush(),
            final(self)@ == (SimulationState {
                brush_value: if old(self)@.game_mode == GameMode::Life && old(self)@.brush_value
                    != 1 && old(self)@.brush_value != 2 {
                    1
                } else {
                    old(self)@.brush_value
                },
                ..old(self)@
            }),
    {
        match self.game_mode {
            GameMode::Rps => {},
            GameMode::Life => {
                if self.brush_value != 1 && self.brush_value != 2 {
                    self.brush_value = 1;
                }
            },
        }
    }

    /// The word on the button that sets the game running or halts it.
    pub fn run_label(&self) -> (label: &'static str)
        ensures
            label@ == if self@.running {
                "Pause"@
            } else {
                "Run"@
            },
    {
        if self.running {
            "Pause"
        } else {
            "Run"
        }
    }

    /// The word for what the brush paints.
    pub fn brush_label(&self) -> (label: &'static str)
        ensures
            label@ == brush_word(self@.game_mode, self@.brush_value),
    {
        match self.game_mode {
            GameMode::Rps => match self.brush_value {
                0 => "Empty",
                1 => "Rock",
                2 => "Paper",
                3 => "Scissors",
                _ => "Invalid",
            },
            GameMode::Life => {
                if self.brush_value == 1 {
                    "Live"
                } else {
                    "Dead"
                }
            },
        }
    }

    /// What the panel says about the brush.
    pub fn brush_hint(&self) -> (hint: &'static str)
        ensures
            hint@ == if self@.running {
                "Pause to paint; running clears brush undo history"@
            } else {
                "Left-drag paints into the simulation grid"@
            },
    {
        if self.running {
            "Pause to paint; running clears brush undo history"
        } else {
            "Left-drag paints into the simulation grid"
        }
    }

    /// What the panel says about the colours of the cells.
    pub fn legend(&self) -> (legend: &'static str)
        ensures
            legend@ == match self@.game_mode {
                GameMode::Rps => "Red = rock, green = paper, blue = scissors"@,
                GameMode::Life => "White = live, black = dead"@,
            },
    {
        match self.game_mode {
            GameMode::Rps => "Red = rock, green = paper, blue = scissors",
            GameMode::Life => "White = live, black = dead",
        }
    }
}

/// The word for a kind of cell.
pub open spec fn brush_word(mode: GameMode, value: u32) -> Seq<char> {
    match mode {
        GameMode::Rps => if value == 0 {
            "Empty"@
        } else if value == 1 {
            "Rock"@
        } else if value == 2 {
            "Paper"@
        } else if value == 3 {
            "Scissors"@
        } else {
            "Invalid"@
        },
        GameMode::Life => if value == 1 {
            "Live"@
        } else {
            "Dead"@
        },
    }
}

/// Choosing a mode sets it, and asks to start over exactly where it is another one.
pub proof fn another_mode_starts_over(state: SimulationState, mode: GameMode)
    ensures
        ({
            let event = HudEvent::ModeSelected { mode };
            &&& state.after_event(event) == (SimulationState { game_mode: mode, ..state })
            &&& state.asks_for_reset(event) <==> !(mode is Rps <==> state.game_mode is Rps)
            &&& !state.asks_for_undo(event)
        }),
{
}

/// A single step, another brush value and taking a unit back are for a game that stands
/// still; a running one is left as it is.
pub proof fn still_games_are_worked_on(state: SimulationState, value: u32)
    ensures
        state.running ==> {
            &&& state.after_event(HudEvent::StepClicked) == state
            &&& state.after_event(HudEvent::BrushValueSelected { value }) == state
            &&& !state.asks_for_undo(HudEvent::UndoClicked)
        },
        !state.running ==> {
            &&& state.after_event(HudEvent::StepClicked) == (SimulationState {
                step_once: true,
                ..state
            })
            &&& state.after_event(HudEvent::BrushValueSelected { value }) == (SimulationState {
                brush_value: value,
                ..state
            })
            &&& state.asks_for_undo(HudEvent::UndoClicked) <==> state.undo_stack.len() > 0
        },
        state.after_event(HudEvent::UndoClicked) == state,
        !state.asks_for_reset(HudEvent::StepClicked),
        !state.asks_for_undo(HudEvent::StepClicked),
        !state.asks_for_reset(HudEvent::BrushValueSelected { value }),
        !state.asks_for_undo(HudEvent::BrushValueSelected { value }),
        !state.asks_for_reset(HudEvent::UndoClicked),
{
}

/// The button that runs or halts the game turns one into the other and asks for nothing
/// more. A game that it sets running has nothing to take back.
pub proof fn run_button_turns_the_game_round(state: SimulationState)
    ensures
        ({
            let after = state.after_event(HudEvent::RunClicked);
            &&& after.running == !state.running
            &&& after.running ==> after.undo_stack.len() == 0 && after.in_progress.len() == 0
                && !after.brush_down && after.last_brush_cell is None
            &&& !after.running ==> after.undo_stack == state.undo_stack && after.in_progress
                == state.in_progress && after.brush_down == state.brush_down
                && after.last_brush_cell == state.last_brush_cell
            &&& after == (SimulationState {
                running: after.running,
                undo_stack: after.undo_stack,
                in_progress: after.in_progress,
                brush_down: after.brush_down,
                last_brush_cell: after.last_brush_cell,
                ..state
            })
            &&& !state.asks_for_reset(HudEvent::RunClicked)
            &&& !state.asks_for_undo(HudEvent::RunClicked)
        }),
{
}

/// The button that starts over does so where the typed text names a seed, which the
/// game then plays; the button for a random seed writes the seed as that text.
pub proof fn reset_buttons_need_a_seed(state: SimulationState, seed: u64, now: u64)
    ensures
        state.names_seed() <==> parse_unsigned(
            trimmed(state.pending_seed),
            0xffff_ffff_ffff_ffff,
        ) is Some,
        state.after_event(HudEvent::ResetClicked) == state,
        state.asks_for_reset(HudEvent::ResetClicked) <==> parse_unsigned(
            trimmed(state.pending_seed),
            0xffff_ffff_ffff_ffff,
        ) is Some,
        state.asks_for_reset(HudEvent::ResetClicked) ==> parse_unsigned(
            trimmed(state.pending_seed),
            0xffff_ffff_ffff_ffff,
        ) == Some(state.restarted(now).seed as nat),
        !state.asks_for_undo(HudEvent::ResetClicked),
        state.asks_for_reset(HudEvent::RandomSeedClicked { seed }),
        !state.asks_for_undo(HudEvent::RandomSeedClicked { seed }),
        ({
            let drawn = state.after_event(HudEvent::RandomSeedClicked { seed });
            &&& parse_unsigned(drawn.pending_seed, 0xffff_ffff_ffff_ffff) == Some(seed as nat)
            &&& drawn == (SimulationState { pending_seed: drawn.pending_seed, ..state })
        }),
{
    decimal_reads_back(seed as nat, u64::MAX as nat);
}

/// Each kind of cell has its word.
pub proof fn brush_words_name_the_cells(value: u32)
    ensures
        brush_word(GameMode::Rps, 0) == "Empty"@,
        brush_word(GameMode::Rps, 1) == "Rock"@,
        brush_word(GameMode::Rps, 2) == "Paper"@,
        brush_word(GameMode::Rps, 3) == "Scissors"@,
        value > 3 ==> brush_word(GameMode::Rps, value) == "Invalid"@,
        brush_word(GameMode::Life, 1) == "Live"@,
        value != 1 ==> brush_word(GameMode::Life, value) == "Dead"@,
{
}

/// In life the brush paints live or dead cells: a value that is one of them stays, and
/// any other becomes a live one. In rock, paper, scissors every value stays. Nothing
/// else changes.
pub proof fn settled_brush_suits_the_mode(state: SimulationState)
    ensures
        ({
            let after = state.with_settled_brush();
            &&& state.game_mode is Rps ==> after.brush_value == state.brush_value
            &&& state.game_mode is Life ==> after.brush_value == 1 || after.brush_value == 2
            &&& state.game_mode is Life && 1 <= state.brush_value <= 2 ==> after.brush_value
                == state.brush_value
            &&& state.game_mode is Life && after.brush_value == 2 ==> state.brush_value == 2
            &&& after == (SimulationState { brush_value: after.brush_value, ..state })
            &&& after.with_settled_brush() == after
        }),
{
}

} // verus!
