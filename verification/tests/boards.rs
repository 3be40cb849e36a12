use cellular_automata::bindings::{
    brush_bindings, display_bindings, step_bindings, Binding, BindingKind, BufferName,
};
use cellular_automata::board::{initial_board, mix64, GameMode, ScreenSize};
use cellular_automata::packing::order_of_one;
use cellular_automata::rps::{workgroup_count, RpsParams, RpsShaders, StepDispatch};

#[test]
fn mixer_matches_known_values() {
    assert_eq!(mix64(0), 0xe220_a839_7b1d_cdaf);
    assert_eq!(mix64(1), 0x910a_2dec_8902_5cc1);
    assert_eq!(mix64(u64::MAX), 0xe4d9_7177_1b65_2c20);
}

#[test]
fn rps_board_has_clusters() {
    let size = ScreenSize { width: 6, height: 4 };
    let board = initial_board(size, 42, 2, GameMode::Rps);
    assert_eq!(
        board,
        vec![2, 2, 1, 1, 3, 3, 2, 2, 1, 1, 3, 3, 2, 2, 3, 3, 1, 1, 2, 2, 3, 3, 1, 1]
    );
}

#[test]
fn life_board_has_live_and_dead_cells() {
    let size = ScreenSize { width: 6, height: 4 };
    let board = initial_board(size, 42, 1, GameMode::Life);
    assert_eq!(
        board,
        vec![2, 2, 1, 2, 1, 2, 2, 1, 2, 2, 2, 2, 2, 1, 2, 2, 2, 2, 2, 1, 2, 1, 2, 2]
    );
}

#[test]
fn cluster_of_no_cells_is_one_cell() {
    let size = ScreenSize { width: 3, height: 2 };
    let board = initial_board(size, 7, 0, GameMode::Rps);
    assert_eq!(board, vec![1, 1, 3, 3, 3, 3]);
    assert_eq!(board, initial_board(size, 7, 1, GameMode::Rps));
}

#[test]
fn empty_board_has_no_cells() {
    assert!(initial_board(ScreenSize { width: 0, height: 9 }, 1, 2, GameMode::Rps).is_empty());
    assert!(initial_board(ScreenSize { width: 9, height: 0 }, 1, 2, GameMode::Life).is_empty());
}

#[test]
fn starting_cells_stay_in_range() {
    let size = ScreenSize { width: 64, height: 64 };
    for seed in 0..8 {
        assert!(initial_board(size, seed, 3, GameMode::Rps).iter().all(|c| (1..=3).contains(c)));
        assert!(initial_board(size, seed, 3, GameMode::Life).iter().all(|c| (1..=2).contains(c)));
    }
}

#[test]
fn workgroups_round_up() {
    assert_eq!(workgroup_count(0), 0);
    assert_eq!(workgroup_count(1), 1);
    assert_eq!(workgroup_count(256), 1);
    assert_eq!(workgroup_count(257), 2);
    assert_eq!(workgroup_count(u32::MAX), 16_777_216);
}

#[test]
fn boards_take_turns() {
    let size = RpsParams { width: 32, height: 17 };
    let contents: Vec<u32> = (0..32 * 17).collect();
    let order = order_of_one(&1u32.to_ne_bytes()).unwrap();
    let (mut shaders, upload) = RpsShaders::new(order, size, &contents);
    assert_eq!(size.cell_count(), 544);
    assert_eq!(shaders.board_bytes(), 2176);
    let mut expected = Vec::new();
    for word in &contents {
        expected.extend_from_slice(&word.to_ne_bytes());
    }
    assert_eq!(upload.board, expected);
    assert_eq!(upload.size, [32u32.to_ne_bytes(), 17u32.to_ne_bytes()].concat());

    assert_eq!(shaders.render(), 0);
    assert_eq!(shaders.compute_step(), StepDispatch { group: 0, workgroups: 3 });
    assert_eq!(shaders.render(), 1);
    assert_eq!(shaders.compute_step(), StepDispatch { group: 1, workgroups: 3 });
    assert_eq!(shaders.render(), 0);
    shaders.compute_step();
    assert_eq!(shaders.reset(&contents), expected);
    assert_eq!(shaders.render(), 0);
}

#[test]
fn step_reads_one_board_and_writes_the_other() {
    for group in 0..2 {
        let bindings = step_bindings(group);
        assert_eq!(bindings.len(), 3);
        assert_eq!(
            bindings[0],
            Binding { slot: 0, buffer: BufferName::GridSize, kind: BindingKind::Uniform }
        );
        assert_eq!(bindings[1].buffer, BufferName::Board { index: group });
        assert_eq!(bindings[1].kind, BindingKind::ReadStorage);
        assert_eq!(bindings[2].buffer, BufferName::Board { index: 1 - group });
        assert_eq!(bindings[2].kind, BindingKind::WriteStorage);
        assert_eq!(bindings[2].slot, 2);
    }
}

#[test]
fn display_and_brush_work_on_one_board() {
    for board in 0..2 {
        let buffers: Vec<BufferName> = display_bindings(board).iter().map(|b| b.buffer).collect();
        assert_eq!(
            buffers,
            vec![
                BufferName::GridSize,
                BufferName::DisplayInfo,
                BufferName::DisplayColors,
                BufferName::Board { index: board }
            ]
        );
        let kinds: Vec<BindingKind> = brush_bindings(board).iter().map(|b| b.kind).collect();
        assert_eq!(
            kinds,
            vec![BindingKind::Uniform, BindingKind::WriteStorage, BindingKind::WriteStorage]
        );
        assert_eq!(brush_bindings(board)[2].buffer, BufferName::Board { index: board });
    }
}
