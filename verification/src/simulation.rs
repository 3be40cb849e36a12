//! A running game: what is on the map, when its next step is due, and what the
//! brush has painted. Times are nanoseconds since the program started.

use vstd::prelude::*;

use crate::board::{
    initial_board, starting_board, GameMode, ScreenSize, GRID_HEIGHT, GRID_WIDTH,
};
use crate::brush::{stroke_edits, unit_edits, BrushEdit, BrushStroke, BrushUndoUnit};
use crate::navigation::NavigationInput;
use crate::startup::StartupConfig;
use crate::text::{
    decimal, decimal_is_trimmed, decimal_reads_back, format_u64, parse_trimmed_u64, parse_unsigned,
    trimmed,
};

verus! {

/// A game.
#[derive(Debug)]
pub struct Simulation {
    pub size: ScreenSize,
    pub navigation: NavigationInput,
    pub seed: u64,
    pub pending_seed: String,
    pub cluster_size: u32,
    pub game_mode: GameMode,
    pub running: bool,
    pub step_once: bool,
    pub max_simulation_steps_per_tick: usize,
    pub steps_in_sample: u32,
    pub generation: u64,
    pub show_steps_counter: bool,
    pub next_step_at: u64,
    pub step_sample_started_at: u64,
    pub brush_value: u32,
    pub brush_radius: u32,
    pub brush_down: bool,
    pub last_brush_cell: Option<(u32, u32)>,
    pub in_progress_brush_strokes: Vec<BrushStroke>,
    pub undo_stack: Vec<BrushUndoUnit>,
}

/// What a game is made of.
#[verifier::ext_equal]
pub struct SimulationState {
    pub size: ScreenSize,
    pub navigation: NavigationInput,
    pub seed: u64,
    pub pending_seed: Seq<char>,
    pub cluster_size: u32,
    pub game_mode: GameMode,
    pub running: bool,
    pub step_once: bool,
    pub max_simulation_steps_per_tick: usize,
    pub steps_in_sample: u32,
    pub generation: u64,
    pub show_steps_counter: bool,
    pub next_step_at: u64,
    pub step_sample_started_at: u64,
    pub brush_value: u32,
    pub brush_radius: u32,
    pub brush_down: bool,
    pub last_brush_cell: Option<(u32, u32)>,
    pub in_progress: Seq<Seq<BrushEdit>>,
    pub undo_stack: Seq<Seq<Seq<BrushEdit>>>,
}

impl View for Simulation {
    type V = SimulationState;

    open spec fn view(&self) -> SimulationState {
        SimulationState {
            size: self.size,
            navigation: self.navigation,
            seed: self.seed,
            pending_seed: self.pending_seed@,
            cluster_size: self.cluster_size,
            game_mode: self.game_mode,
            running: self.running,
            step_once: self.step_once,
            max_simulation_steps_per_tick: self.max_simulation_steps_per_tick,
            steps_in_sample: self.steps_in_sample,
            generation: self.generation,
            show_steps_counter: self.show_steps_counter,
            next_step_at: self.next_step_at,
            step_sample_started_at: self.step_sample_started_at,
            brush_value: self.brush_value,
            brush_radius: self.brush_radius,
            brush_down: self.brush_down,
            last_brush_cell: self.last_brush_cell,
            in_progress: stroke_edits(self.in_progress_brush_strokes@),
            undo_stack: unit_edits(self.undo_stack@),
        }
    }
}

/// The seed that a text names, or `otherwise` where it names none.
pub open spec fn seed_or(text: Seq<char>, otherwise: u64) -> u64 {
    match parse_unsigned(trimmed(text), u64::MAX as nat) {
        Some(seed) => seed as u64,
        None => otherwise,
    }
}

impl SimulationState {
    /// Whether the board fits the memory of this machine and of the device.
    pub open spec fn wf(self) -> bool {
        &&& 4 * self.size.cells() <= isize::MAX
        &&& self.size.cells() <= 0x1_0000_0000
    }

    /// The game that a configuration starts.
    pub open spec fn started(config: StartupConfig, now: u64) -> SimulationState {
        SimulationState {
            size: ScreenSize { width: GRID_WIDTH, height: GRID_HEIGHT },
            navigation: NavigationInput::at_rest(),
            seed: config.seed,
            pending_seed: decimal(config.seed as nat),
            cluster_size: config.cluster_size,
            game_mode: GameMode::Rps,
            running: true,
            step_once: false,
            max_simulation_steps_per_tick: 8,
            steps_in_sample: 0,
            generation: 0,
            show_steps_counter: false,
            next_step_at: now,
            step_sample_started_at: now,
            brush_value: 1,
            brush_radius: 4,
            brush_down: false,
            last_brush_cell: None,
            in_progress: Seq::empty(),
            undo_stack: Seq::empty(),
        }
    }

    /// The game after it started over.
    pub open spec fn restarted(self, now: u64) -> SimulationState {
        let seed = seed_or(self.pending_seed, self.seed);
        SimulationState {
            seed,
            pending_seed: decimal(seed as nat),
            cluster_size: if self.cluster_size == 0 {
                1
            } else {
                self.cluster_size
            },
            step_once: false,
            steps_in_sample: 0,
            generation: 0,
            brush_down: false,
            last_brush_cell: None,
            in_progress: Seq::empty(),
            undo_stack: Seq::empty(),
            next_step_at: now,
            step_sample_started_at: now,
            ..self
        }
    }

    /// The board that the game starts with.
    pub open spec fn start_board(self) -> Seq<u32> {
        starting_board(self.size, self.seed, self.cluster_size, self.game_mode)
    }
}

impl Simulation {
    /// Starts a game, and gives the board that it starts with.
    pub fn new(config: StartupConfig, now: u64) -> (start: (Simulation, Vec<u32>))
        ensures
            start.0@ == SimulationState::started(config, now),
            start.0@.wf(),
            start.1@ == start.0@.start_board(),
    {
        let size = ScreenSize { width: GRID_WIDTH, height: GRID_HEIGHT };
        assert(size.cells() == 0x10_0000) by (nonlinear_arith)
            requires
                size.width == 1024,
                size.height == 1024,
                size.cells() == size.width as nat * size.height as nat,
        ;
        let contents = initial_board(size, config.seed, config.cluster_size, GameMode::Rps);
        let simulation = Simulation {
            size,
            navigation: NavigationInput::default(),
            seed: config.seed,
            pending_seed: format_u64(config.seed),
            cluster_size: config.cluster_size,
            game_mode: GameMode::Rps,
            running: true,
            step_once: false,
            max_simulation_steps_per_tick: 8,
            steps_in_sample: 0,
            generation: 0,
            show_steps_counter: false,
            next_step_at: now,
            step_sample_started_at: now,
            brush_value: 1,
            brush_radius: 4,
            brush_down: false,
            last_brush_cell: None,
            in_progress_brush_strokes: Vec::new(),
            undo_stack: Vec::new(),
        };
        (simulation, contents)
    }

    /// Starts the game over, with the seed that was typed in where it is one, and
    /// gives the board that it starts with.
    pub fn reset(&mut self, now: u64) -> (contents: Vec<u32>)
        requires
            4 * old(self)@.size.cells() <= isize::MAX,
        ensures
            final(self)@ == old(self)@.restarted(now),
            contents@ == final(self)@.start_board(),
    {
        let seed: u64 = match parse_trimmed_u64(self.pending_seed.as_str()) {
            Some(seed) => seed,
            None => self.seed,
        };
        let cluster_size: u32 = self.cluster_size.max(1);
        let contents = initial_board(self.size, seed, cluster_size, self.game_mode);
        self.seed = seed;
        self.pending_seed = format_u64(seed);
        self.cluster_size = cluster_size;
        self.step_once = false;
        self.steps_in_sample = 0;
        self.generation = 0;
        self.brush_down = false;
        self.last_brush_cell = None;
        self.in_progress_brush_strokes.clear();
        self.undo_stack.clear();
        self.next_step_at = now;
        self.step_sample_started_at = now;
        contents
    }
}

/// A game that starts over writes its seed as text that names the seed: starting
/// over once more starts the same game.
pub proof fn starting_over_keeps_the_seed(state: SimulationState, now: u64, later: u64)
    ensures
        seed_or(state.restarted(now).pending_seed, 0) == state.restarted(now).seed,
        parse_unsigned(trimmed(state.restarted(now).pending_seed), u64::MAX as nat) is Some,
        state.restarted(now).restarted(later).start_board() == state.restarted(now).start_board(),
        state.restarted(now).restarted(later) == state.restarted(later),
{
    let seed = state.restarted(now).seed;
    decimal_is_trimmed(seed as nat);
    decimal_reads_back(seed as nat, u64::MAX as nat);
}

/// A game that just started names its seed: starting over starts the same game.
pub proof fn first_start_can_be_repeated(config: StartupConfig, now: u64, later: u64)
    requires
        config.cluster_size >= 1,
    ensures
        SimulationState::started(config, now).restarted(later) == SimulationState::started(
            config,
            later,
        ),
{
    decimal_is_trimmed(config.seed as nat);
    decimal_reads_back(config.seed as nat, u64::MAX as nat);
}

/// A game starts on a board of 1024 times 1024 cells, with rock, paper, scissors, the
/// seed and the clusters that were asked for, running, and with nothing counted,
/// painted or asked for yet.
pub proof fn game_starts_as_asked_for(config: StartupConfig, now: u64)
    ensures
        ({
            let state = SimulationState::started(config, now);
            &&& state.size == (ScreenSize { width: 1024, height: 1024 })
            &&& state.seed == config.seed
            &&& parse_unsigned(state.pending_seed, u64::MAX as nat) == Some(config.seed as nat)
            &&& state.cluster_size == config.cluster_size
            &&& state.game_mode is Rps
            &&& state.running && !state.step_once && !state.show_steps_counter
            &&& state.max_simulation_steps_per_tick == 8
            &&& state.generation == 0 && state.steps_in_sample == 0
            &&& state.next_step_at == now && state.step_sample_started_at == now
            &&& state.brush_value == 1 && state.brush_radius == 4
            &&& !state.brush_down && state.last_brush_cell is None
            &&& state.in_progress.len() == 0 && state.undo_stack.len() == 0
            &&& !state.navigation.left && !state.navigation.right
            &&& !state.navigation.up && !state.navigation.down
            &&& state.start_board() == starting_board(
                ScreenSize { width: 1024, height: 1024 },
                config.seed,
                config.cluster_size,
                GameMode::Rps,
            )
        }),
{
    decimal_reads_back(config.seed as nat, u64::MAX as nat);
}

/// Starting over keeps the size, the mode and the cluster size, if it is at least one,
/// and plays the board that these and the seed make up.
pub proof fn starting_over_keeps_the_map(state: SimulationState, now: u64)
    ensures
        ({
            let again = state.restarted(now);
            &&& again.size == state.size
            &&& again.game_mode == state.game_mode
            &&& state.cluster_size >= 1 ==> again.cluster_size == state.cluster_size
            &&& state.cluster_size == 0 ==> again.cluster_size == 1
            &&& again.start_board() == starting_board(
                state.size,
                again.seed,
                state.cluster_size,
                state.game_mode,
            )
        }),
{
}

/// Starting over counts from nothing, takes the brush away and forgets what it
/// painted, and leaves everything else as it was chosen.
pub proof fn starting_over_clears_the_counts_only(state: SimulationState, now: u64)
    ensures
        ({
            let again = state.restarted(now);
            &&& again.generation == 0 && again.steps_in_sample == 0 && !again.step_once
            &&& again.next_step_at == now && again.step_sample_started_at == now
            &&& !again.brush_down && again.last_brush_cell is None
            &&& again.in_progress.len() == 0 && again.undo_stack.len() == 0
            &&& again.running == state.running
            &&& again.navigation == state.navigation
            &&& again.max_simulation_steps_per_tick == state.max_simulation_steps_per_tick
            &&& again.show_steps_counter == state.show_steps_counter
            &&& again.brush_value == state.brush_value
            &&& again.brush_radius == state.brush_radius
        }),
{
}

/// Starting over plays the seed that the typed text names, whatever white space stands
/// around it, and the old one where it names none.
pub proof fn starting_over_plays_the_typed_seed(state: SimulationState, now: u64)
    ensures
        match parse_unsigned(trimmed(state.pending_seed), 0xffff_ffff_ffff_ffff) {
            Some(seed) => state.restarted(now).seed == seed,
            None => state.restarted(now).seed == state.seed,
        },
        parse_unsigned(state.restarted(now).pending_seed, 0xffff_ffff_ffff_ffff) == Some(
            state.restarted(now).seed as nat,
        ),
{
    decimal_reads_back(state.restarted(now).seed as nat, u64::MAX as nat);
}

/// The state of a game is what its fields hold: the strokes and units by their edits,
/// and everything else as it stands.
pub proof fn state_is_what_the_fields_hold(game: Simulation)
    ensures
        game@.size == game.size,
        game@.navigation == game.navigation,
        game@.seed == game.seed,
        game@.pending_seed == game.pending_seed@,
        game@.cluster_size == game.cluster_size,
        game@.game_mode == game.game_mode,
        game@.running == game.running,
        game@.step_once == game.step_once,
        game@.max_simulation_steps_per_tick == game.max_simulation_steps_per_tick,
        game@.steps_in_sample == game.steps_in_sample,
        game@.generation == game.generation,
        game@.show_steps_counter == game.show_steps_counter,
        game@.next_step_at == game.next_step_at,
        game@.step_sample_started_at == game.step_sample_started_at,
        game@.brush_value == game.brush_value,
        game@.brush_radius == game.brush_radius,
        game@.brush_down == game.brush_down,
        game@.last_brush_cell == game.last_brush_cell,
        game@.in_progress.len() == game.in_progress_brush_strokes@.len(),
        forall|i: int|
            0 <= i < game.in_progress_brush_strokes@.len() ==> #[trigger] game@.in_progress[i]
                == game.in_progress_brush_strokes@[i]@,
        game@.undo_stack.len() == game.undo_stack@.len(),
        forall|i: int, j: int|
            0 <= i < game.undo_stack@.len() && 0 <= j < game.undo_stack@[i].strokes@.len()
                ==> game@.undo_stack[i].len() == game.undo_stack@[i].strokes@.len()
                && #[trigger] game@.undo_stack[i][j] == game.undo_stack@[i].strokes@[j]@,
{
}

} // verus!
