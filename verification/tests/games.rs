use cellular_automata::board::{initial_board, GameMode, ScreenSize};
use cellular_automata::brush::{
    edit_bytes, edits_from_bytes, BrushDispatch, BrushEdit, BrushGpu, BrushStroke, MAX_BRUSH_EDITS,
};
use cellular_automata::navigation::{KeyCode, KeyPress};
use cellular_automata::pacing::{DueSteps, StepSample};
use cellular_automata::packing::order_of_one;
use cellular_automata::panel::{HudAction, HudEvent};
use cellular_automata::simulation::Simulation;
use cellular_automata::startup::StartupConfig;

const GRID: ScreenSize = ScreenSize { width: 1024, height: 1024 };

fn game() -> Simulation {
    let config = StartupConfig { seed: 42, cluster_size: 24, perfect_vsync: false };
    Simulation::new(config, 1_000).0
}

fn paused() -> Simulation {
    let mut game = game();
    game.toggle_running();
    game
}

/// The brush's dealings with a device of this machine's byte order.
fn gpu() -> BrushGpu {
    BrushGpu::new(order_of_one(&1u32.to_ne_bytes()).unwrap())
}

fn stroke(idx: u32) -> BrushStroke {
    BrushStroke::new(vec![BrushEdit::new(idx, 1)])
}

fn nothing() -> HudAction {
    HudAction::default()
}

#[test]
fn game_starts_running() {
    let config = StartupConfig { seed: 42, cluster_size: 24, perfect_vsync: false };
    let (game, contents) = Simulation::new(config, 1_000);
    assert_eq!(contents, initial_board(GRID, 42, 24, GameMode::Rps));
    assert_eq!(game.size, GRID);
    assert!(game.running && !game.step_once && !game.brush_down);
    assert_eq!(game.pending_seed, "42");
    assert_eq!((game.next_step_at, game.step_sample_started_at), (1_000, 1_000));
    assert_eq!((game.brush_value, game.brush_radius), (1, 4));
    assert_eq!(game.max_simulation_steps_per_tick, 8);
    assert_eq!((game.generation, game.steps_in_sample), (0, 0));
    assert!(game.undo_stack.is_empty() && game.in_progress_brush_strokes.is_empty());
}

#[test]
fn reset_takes_the_typed_seed() {
    let mut game = paused();
    game.pending_seed = "  77 ".to_string();
    game.cluster_size = 0;
    game.game_mode = GameMode::Life;
    game.generation = 9;
    game.record_stroke(stroke(1));
    game.finish_brush_unit();
    let contents = game.reset(5_000);
    assert_eq!(contents, initial_board(GRID, 77, 1, GameMode::Life));
    assert_eq!((game.seed, game.cluster_size, game.generation), (77, 1, 0));
    assert_eq!(game.pending_seed, "77");
    assert!(!game.has_undo());
    assert!(game.undo_brush().is_none());
    assert_eq!(game.next_step_at, 5_000);
    assert_eq!(game.reset(6_000), contents);
}

#[test]
fn reset_keeps_the_seed_where_none_is_typed() {
    let mut game = game();
    game.pending_seed = "many".to_string();
    assert!(!game.seed_is_valid());
    game.reset(2_000);
    assert_eq!(game.seed, 42);
    assert_eq!(game.pending_seed, "42");
    assert!(game.seed_is_valid());
}

#[test]
fn steps_follow_the_clock() {
    let mut game = game();
    assert!(!game.wants_step(999));
    assert_eq!(game.run_due_simulation_steps(999, 100), DueSteps { steps: 0, sample: None });
    assert!(game.wants_step(1_000));
    assert_eq!(game.run_due_simulation_steps(1_250, 100), DueSteps { steps: 3, sample: None });
    assert_eq!(game.next_step_at, 1_300);
    assert_eq!((game.generation, game.steps_in_sample), (3, 3));
    assert!(!game.wants_step(1_250));
}

#[test]
fn tick_has_a_limit() {
    let mut game = game();
    let due = game.run_due_simulation_steps(3_050, 100);
    assert_eq!(due.steps, 8);
    assert_eq!(game.next_step_at, 1_800);
    game.settle_tick(due.steps, 3_050, 100);
    assert_eq!(game.next_step_at, 3_100);
    game.settle_tick(3, 9_000, 100);
    assert_eq!(game.next_step_at, 3_100);
    game.settle_tick(8, 3_000, 100);
    assert_eq!(game.next_step_at, 3_100);
}

#[test]
fn debt_is_given_up_in_rhythm() {
    let mut game = game();
    game.discard_step_debt(1_000, 100);
    assert_eq!(game.next_step_at, 1_100);
    game.discard_step_debt(1_000, 100);
    assert_eq!(game.next_step_at, 1_100);
    game.discard_step_debt(1_955, 100);
    assert_eq!(game.next_step_at, 2_000);
}

#[test]
fn paused_game_makes_single_steps() {
    let mut game = paused();
    assert_eq!(game.run_due_simulation_steps(9_000, 100).steps, 0);
    assert_eq!(game.handle_hud_event(HudEvent::StepClicked), nothing());
    assert!(game.step_once);
    assert_eq!(game.run_due_simulation_steps(9_000, 100).steps, 1);
    assert!(!game.step_once);
    assert_eq!(game.next_step_at, 9_000);
    assert_eq!(game.run_due_simulation_steps(9_000, 100).steps, 0);
}

#[test]
fn requested_step_of_a_running_game_comes_first() {
    let mut game = game();
    game.step_once = true;
    assert_eq!(game.run_due_simulation_steps(500, 100).steps, 1);
    assert_eq!(game.next_step_at, 1_100);
    game.step_once = true;
    assert_eq!(game.run_due_simulation_steps(1_300, 100).steps, 3);
}

#[test]
fn samples_last_a_second() {
    let mut game = game();
    game.steps_in_sample = 4;
    assert_eq!(game.record_step(1_000_000_999, 100), None);
    assert_eq!(
        game.record_step(1_000_001_000, 100),
        Some(StepSample { steps: 6, elapsed: 1_000_000_000 })
    );
    assert_eq!((game.steps_in_sample, game.step_sample_started_at), (0, 1_000_001_000));
    game.next_step_at = 2_000_001_000;
    assert_eq!(
        game.run_due_simulation_steps(2_000_001_150, 100),
        DueSteps { steps: 2, sample: Some(StepSample { steps: 1, elapsed: 1_000_000_150 }) }
    );
    assert_eq!(game.steps_in_sample, 1);
}

#[test]
fn running_game_takes_the_brush_away() {
    let mut game = game();
    assert!(game.set_brush_down(true, Some((5, 5))).is_none());
    assert!(!game.brush_down);
    assert!(game.paint_at_cursor(Some((5, 5))).is_none());
    game.toggle_running();
    assert!(game.paint_at_cursor(Some((5, 5))).is_none());
}

#[test]
fn brush_paints_where_it_is_dragged() {
    let mut game = paused();
    game.brush_radius = 0;
    game.brush_value = 3;
    let edits = game.set_brush_down(true, Some((5, 7))).unwrap();
    assert_eq!(edits, vec![BrushEdit::new(7 * 1024 + 5, 3)]);
    game.record_stroke(stroke(1));
    assert_eq!(game.last_brush_cell, Some((5, 7)));
    assert!(game.paint_at_cursor(Some((5, 7))).is_none());
    assert!(game.paint_at_cursor(None).is_none());
    let mut edits: Vec<u32> =
        game.paint_at_cursor(Some((7, 7))).unwrap().iter().map(|e| e.idx).collect();
    edits.sort();
    assert_eq!(edits, vec![7 * 1024 + 5, 7 * 1024 + 6, 7 * 1024 + 7]);
    game.record_stroke(stroke(2));
    assert!(!game.has_undo());
    assert!(game.set_brush_down(false, None).is_none());
    assert!(game.has_undo() && !game.brush_down);
    assert_eq!(game.last_brush_cell, None);
    let strokes = game.undo_brush().unwrap();
    let order: Vec<u32> = strokes.iter().map(|s| s.edits()[0].idx).collect();
    assert_eq!(order, vec![2, 1]);
    assert!(game.undo_brush().is_none());
}

#[test]
fn brush_off_the_board_paints_nothing_yet() {
    let mut game = paused();
    assert!(game.set_brush_down(true, None).is_none());
    assert!(game.brush_down);
    assert!(game.paint_at_cursor(Some((0, 0))).is_some());
}

#[test]
fn edits_between_cells_use_the_brush() {
    let mut game = paused();
    game.brush_radius = 1;
    game.brush_value = 2;
    let mut edits = game.brush_edits_between(None, (0, 0));
    edits.sort_by_key(|e| e.idx);
    assert_eq!(
        edits,
        vec![BrushEdit::new(0, 2), BrushEdit::new(1, 2), BrushEdit::new(1024, 2)]
    );
}

#[test]
fn running_clears_the_history() {
    let mut game = paused();
    game.set_brush_down(true, Some((1, 1)));
    game.record_stroke(stroke(1));
    game.set_brush_down(false, None);
    assert!(game.has_undo());
    assert_eq!(game.handle_hud_event(HudEvent::RunClicked), nothing());
    assert!(game.running && !game.has_undo());
    game.handle_hud_event(HudEvent::RunClicked);
    assert!(!game.running && !game.has_undo());
}

#[test]
fn cancelled_strokes_make_no_unit() {
    let mut game = paused();
    game.set_brush_down(true, Some((1, 1)));
    game.record_stroke(stroke(1));
    game.cancel_brush_unit();
    game.finish_brush_unit();
    assert!(!game.has_undo() && !game.brush_down);
    game.record_stroke(stroke(2));
    game.clear_undo();
    game.finish_brush_unit();
    assert!(!game.has_undo());
}

#[test]
fn panel_asks_for_resets() {
    let mut game = game();
    let reset = HudAction { reset_requested: true, undo_requested: false };
    let rps = HudEvent::ModeSelected { mode: GameMode::Rps };
    let life = HudEvent::ModeSelected { mode: GameMode::Life };
    assert_eq!(game.handle_hud_event(rps), nothing());
    assert_eq!(game.handle_hud_event(life), reset);
    assert_eq!(game.game_mode, GameMode::Life);
    assert_eq!(game.handle_hud_event(HudEvent::ResetClicked), reset);
    game.pending_seed = "x".to_string();
    assert_eq!(game.handle_hud_event(HudEvent::ResetClicked), nothing());
    assert_eq!(game.handle_hud_event(HudEvent::RandomSeedClicked { seed: 31 }), reset);
    assert_eq!(game.pending_seed, "31");
    assert_eq!(
        reset.merged(HudAction { reset_requested: false, undo_requested: true }),
        HudAction { reset_requested: true, undo_requested: true }
    );
}

#[test]
fn panel_serves_the_paused_game_only() {
    let mut game = game();
    game.handle_hud_event(HudEvent::StepClicked);
    game.handle_hud_event(HudEvent::BrushValueSelected { value: 3 });
    assert!(!game.step_once);
    assert_eq!(game.brush_value, 1);
    game.toggle_running();
    game.handle_hud_event(HudEvent::BrushValueSelected { value: 3 });
    assert_eq!(game.brush_value, 3);
    assert_eq!(game.handle_hud_event(HudEvent::UndoClicked), nothing());
    game.record_stroke(stroke(1));
    game.finish_brush_unit();
    assert_eq!(
        game.handle_hud_event(HudEvent::UndoClicked),
        HudAction { reset_requested: false, undo_requested: true }
    );
}

#[test]
fn brush_value_suits_the_mode() {
    let mut game = game();
    let words = [(0, "Empty"), (1, "Rock"), (2, "Paper"), (3, "Scissors"), (4, "Invalid")];
    for (value, word) in words {
        game.brush_value = value;
        game.settle_brush_value();
        assert_eq!(game.brush_value, value);
        assert_eq!(game.brush_label(), word);
    }
    game.game_mode = GameMode::Life;
    for (value, settled, word) in [(0, 1, "Live"), (1, 1, "Live"), (2, 2, "Dead"), (3, 1, "Live")] {
        game.brush_value = value;
        game.settle_brush_value();
        assert_eq!(game.brush_value, settled);
        assert_eq!(game.brush_label(), word);
    }
}

#[test]
fn panel_has_its_words() {
    let mut game = game();
    assert_eq!(game.run_label(), "Pause");
    assert_eq!(game.brush_hint(), "Pause to paint; running clears brush undo history");
    assert_eq!(game.legend(), "Red = rock, green = paper, blue = scissors");
    game.toggle_running();
    game.game_mode = GameMode::Life;
    assert_eq!(game.run_label(), "Run");
    assert_eq!(game.brush_hint(), "Left-drag paints into the simulation grid");
    assert_eq!(game.legend(), "White = live, black = dead");
}

#[test]
fn game_holds_the_keys() {
    let mut game = game();
    let key = KeyPress { code: KeyCode::ArrowUp, pressed: true, repeat: false };
    assert!(game.navigation.handle_navigation_key(key));
    assert!(game.navigation.up);
}

#[test]
fn counters_do_not_overflow() {
    let mut game = game();
    game.generation = u64::MAX - 2;
    assert_eq!(game.due_step_count(1_250, 100), 3);
    assert_eq!(game.try_run_due_simulation_steps(1_250, 100), None);
    assert_eq!((game.generation, game.next_step_at), (u64::MAX - 2, 1_000));
    assert_eq!(
        game.try_run_due_simulation_steps(1_150, 100),
        Some(DueSteps { steps: 2, sample: None })
    );
    assert_eq!(game.generation, u64::MAX);
    assert_eq!(game.due_step_count(u64::MAX, 1), 8);
}

/// Does to a board what the device does for a dispatch, and gives what it leaves in
/// the edits.
fn device(board: &mut [u32], dispatch: &BrushDispatch) -> Vec<u8> {
    let mut edits = edits_from_bytes(gpu().order, &dispatch.edits);
    for edit in &mut edits {
        std::mem::swap(&mut edit.value, &mut board[edit.idx as usize]);
    }
    edit_bytes(gpu().order, &edits)
}

fn paint(game: &mut Simulation, board: &mut [u32], edits: &[BrushEdit]) {
    let dispatches = gpu().apply(0, edits).unwrap();
    let readbacks: Vec<Vec<u8>> = dispatches.iter().map(|d| device(board, d)).collect();
    game.record_stroke(gpu().applied_stroke(&readbacks));
}

#[test]
fn unit_can_be_taken_back() {
    let mut game = paused();
    let start = initial_board(GRID, 42, 24, GameMode::Rps);
    let mut board = start.clone();
    game.brush_value = 0;
    let edits = game.set_brush_down(true, Some((100, 100))).unwrap();
    paint(&mut game, &mut board, &edits);
    for cell in [(110, 104), (90, 120), (100, 100)] {
        let edits = game.paint_at_cursor(Some(cell)).unwrap();
        paint(&mut game, &mut board, &edits);
    }
    game.set_brush_down(false, None);
    assert_ne!(board, start);
    for stroke in game.undo_brush().unwrap() {
        for dispatch in gpu().undo(0, stroke) {
            device(&mut board, &dispatch);
        }
    }
    assert_eq!(board, start);
}

#[test]
fn batches_act_as_one_stroke() {
    let count = MAX_BRUSH_EDITS as u32 + 10;
    let start: Vec<u32> = (0..count).map(|i| i % 5).collect();
    let mut board = start.clone();
    let edits: Vec<BrushEdit> = (0..count).map(|i| BrushEdit::new(count - 1 - i, 9)).collect();
    let readbacks: Vec<Vec<u8>> =
        gpu().apply(1, &edits).unwrap().iter().map(|d| device(&mut board, d)).collect();
    assert!(board.iter().all(|cell| *cell == 9));
    let stroke = gpu().applied_stroke(&readbacks);
    assert_eq!(stroke.edits()[3], BrushEdit::new(count - 4, (count - 4) % 5));
    for dispatch in gpu().undo(1, stroke) {
        device(&mut board, &dispatch);
    }
    assert_eq!(board, start);
}

#[test]
fn first_start_is_repeated_by_a_reset() {
    let config = StartupConfig { seed: u64::MAX, cluster_size: 5, perfect_vsync: true };
    let (mut game, contents) = Simulation::new(config, 10);
    assert_eq!(game.reset(10), contents);
    let (fresh, _) = Simulation::new(config, 10);
    assert_eq!(format!("{game:?}"), format!("{fresh:?}"));
}

#[test]
fn steps_add_up_over_ticks() {
    let mut one = game();
    let mut two = game();
    one.max_simulation_steps_per_tick = 5;
    two.max_simulation_steps_per_tick = 2;
    one.run_due_simulation_steps(9_000, 100);
    two.run_due_simulation_steps(9_000, 100);
    two.max_simulation_steps_per_tick = 3;
    two.run_due_simulation_steps(9_000, 100);
    assert_eq!(one.next_step_at, 1_500);
    assert_eq!((one.generation, one.next_step_at), (two.generation, two.next_step_at));
}

#[test]
fn whole_tick_leaves_no_step_due() {
    let mut late = game();
    let due = late.run_due_simulation_steps(2_500, 100);
    assert_eq!(due.steps, 8);
    assert!(late.wants_step(2_500));
    late.settle_tick(due.steps, 2_720, 100);
    assert!(!late.wants_step(2_720));
    assert_eq!(late.next_step_at, 2_800);

    let mut punctual = game();
    let due = punctual.run_due_simulation_steps(1_150, 100);
    assert_eq!(due.steps, 2);
    punctual.settle_tick(due.steps, 1_190, 100);
    assert!(!punctual.wants_step(1_150));
    assert_eq!(punctual.next_step_at, 1_200);
}

#[test]
fn drawn_seed_starts_the_next_game() {
    let mut game = game();
    let action = game.handle_hud_event(HudEvent::RandomSeedClicked { seed: u64::MAX });
    assert!(action.reset_requested && !action.undo_requested);
    assert!(game.seed_is_valid());
    let contents = game.reset(4_000);
    assert_eq!(game.seed, u64::MAX);
    assert_eq!(contents, initial_board(GRID, u64::MAX, 24, GameMode::Rps));
}
