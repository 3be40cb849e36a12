use cellular_automata::board::ScreenSize;
use cellular_automata::brush::{
    edit_bytes, edits_from_bytes, edits_from_words, reversed_strokes, words_of_edits, BrushEdit,
    BrushGpu, BrushParams, BrushStroke, BrushUndoStack, MAX_BRUSH_EDITS, MAX_BRUSH_UNDO_UNITS,
};
use cellular_automata::packing::{order_of_one, pack_in, unpack_in, ByteOrder};
use cellular_automata::stroke::{brush_edits_between, MAX_BRUSH_RADIUS};

/// The brush's dealings with a device of this machine's byte order.
fn gpu() -> BrushGpu {
    BrushGpu::new(order_of_one(&1u32.to_ne_bytes()).unwrap())
}

fn stroke(idx: u32) -> BrushStroke {
    BrushStroke::new(vec![BrushEdit::new(idx, 1)])
}

fn first_indices(strokes: &[BrushStroke]) -> Vec<u32> {
    strokes.iter().map(|s| s.edits()[0].idx).collect()
}

fn places(size: ScreenSize, radius: u32, from: Option<(u32, u32)>, to: (u32, u32)) -> Vec<u32> {
    let edits = brush_edits_between(size, radius, 9, from, to);
    assert!(edits.iter().all(|e| e.value == 9));
    let mut places: Vec<u32> = edits.iter().map(|e| e.idx).collect();
    places.sort();
    places
}

const SMALL: ScreenSize = ScreenSize { width: 8, height: 8 };

#[test]
fn single_cells_make_a_line() {
    assert_eq!(places(SMALL, 0, Some((0, 0)), (4, 2)), vec![0, 9, 10, 19, 20]);
    assert_eq!(places(SMALL, 0, Some((6, 1)), (5, 7)), vec![14, 22, 30, 37, 45, 53, 61]);
    assert_eq!(places(SMALL, 0, Some((3, 3)), (3, 3)), vec![27]);
}

#[test]
fn brush_is_a_disc() {
    assert_eq!(
        places(SMALL, 2, None, (4, 4)),
        vec![20, 27, 28, 29, 34, 35, 36, 37, 38, 43, 44, 45, 52]
    );
}

#[test]
fn brush_is_cut_at_the_edge() {
    assert_eq!(places(SMALL, 1, None, (0, 0)), vec![0, 1, 8]);
    assert_eq!(places(SMALL, 1, None, (100, 100)), Vec::<u32>::new());
    assert_eq!(places(SMALL, 1, None, (u32::MAX, 0)), vec![0]);
}

#[test]
fn dragged_brush_covers_a_band() {
    assert_eq!(
        places(SMALL, 1, Some((1, 6)), (6, 3)),
        vec![22, 28, 29, 30, 31, 34, 35, 36, 37, 38, 41, 42, 43, 44, 45, 48, 49, 50, 51, 57]
    );
}

#[test]
fn negative_radius_covers_nothing() {
    assert_eq!(places(SMALL, u32::MAX, None, (4, 4)), Vec::<u32>::new());
}

#[test]
fn stroke_never_outgrows_a_batch() {
    let size = ScreenSize { width: 1024, height: 1024 };
    let edits = brush_edits_between(size, 600, 2, None, (512, 512));
    assert_eq!(edits.len(), MAX_BRUSH_EDITS);
    let mut places: Vec<u32> = edits.iter().map(|e| e.idx).collect();
    places.sort();
    places.dedup();
    assert_eq!(places.len(), MAX_BRUSH_EDITS);
}

#[test]
fn painting_and_its_inverse_restore_the_board() {
    let board: Vec<u32> = (0..64).map(|i| i * 3).collect();
    let edits = brush_edits_between(SMALL, 2, 77, Some((1, 1)), (6, 5));
    let mut painted = board.clone();
    let mut inverse = Vec::new();
    for edit in &edits {
        inverse.push(BrushEdit::new(edit.idx, painted[edit.idx as usize]));
        painted[edit.idx as usize] = edit.value;
    }
    assert_ne!(painted, board);
    for edit in &inverse {
        painted[edit.idx as usize] = edit.value;
    }
    assert_eq!(painted, board);
}

#[test]
fn finished_unit_is_popped_in_reverse() {
    let mut stack = BrushUndoStack::new();
    assert!(!stack.has_undo());
    stack.begin_unit();
    stack.record_stroke(stroke(1));
    stack.record_stroke(stroke(2));
    stack.record_stroke(stroke(3));
    assert!(!stack.has_undo());
    stack.finish_unit();
    assert!(stack.has_undo());
    let strokes = stack.pop_undo_strokes().unwrap();
    assert_eq!(first_indices(&strokes), vec![3, 2, 1]);
    assert!(!stack.has_undo());
    assert!(stack.pop_undo_strokes().is_none());
}

#[test]
fn empty_unit_is_not_kept() {
    let mut stack = BrushUndoStack::default();
    stack.begin_unit();
    stack.finish_unit();
    assert!(!stack.has_undo());
}

#[test]
fn cancelled_unit_leaves_no_trace() {
    let mut stack = BrushUndoStack::new();
    stack.record_stroke(stroke(1));
    stack.finish_unit();
    stack.record_stroke(stroke(2));
    stack.cancel_unit();
    stack.finish_unit();
    stack.record_stroke(stroke(3));
    stack.begin_unit();
    stack.finish_unit();
    assert_eq!(first_indices(&stack.pop_undo_strokes().unwrap()), vec![1]);
    assert!(!stack.has_undo());
}

#[test]
fn cleared_stack_is_empty() {
    let mut stack = BrushUndoStack::new();
    stack.record_stroke(stroke(1));
    stack.finish_unit();
    stack.record_stroke(stroke(2));
    stack.clear();
    assert!(!stack.has_undo());
    stack.finish_unit();
    assert!(!stack.has_undo());
}

#[test]
fn full_stack_drops_its_oldest_unit() {
    let mut stack = BrushUndoStack::new();
    for i in 0..MAX_BRUSH_UNDO_UNITS as u32 + 1 {
        stack.record_stroke(stroke(i));
        stack.finish_unit();
    }
    let mut popped = 0;
    let mut last = 0;
    while let Some(strokes) = stack.pop_undo_strokes() {
        last = strokes[0].edits()[0].idx;
        popped += 1;
    }
    assert_eq!(popped, MAX_BRUSH_UNDO_UNITS);
    assert_eq!(last, 1);
}

#[test]
fn strokes_reverse() {
    let strokes = reversed_strokes(vec![stroke(1), stroke(2), stroke(3), stroke(4)]);
    assert_eq!(first_indices(&strokes), vec![4, 3, 2, 1]);
    assert!(reversed_strokes(Vec::new()).is_empty());
}

#[test]
fn edits_are_packed_in_memory_order() {
    let edits = vec![BrushEdit::new(0x0102_0304, 5), BrushEdit::new(6, 0xfffe_fdfc)];
    let bytes = edit_bytes(gpu().order, &edits);
    let expected: Vec<u8> = [0x0102_0304u32, 5, 6, 0xfffe_fdfc]
        .iter()
        .flat_map(|w| w.to_ne_bytes())
        .collect();
    assert_eq!(bytes, expected);
    assert_eq!(edits_from_bytes(gpu().order, &bytes), edits);
    assert_eq!(edits_from_bytes(gpu().order, &[]), Vec::new());
    assert_eq!(BrushParams { count: 258 }.bytes(gpu().order), 258u32.to_ne_bytes().to_vec());
}

#[test]
fn nothing_to_apply_makes_no_dispatch() {
    assert!(gpu().apply(0, &[]).is_none());
    assert!(gpu().apply(7, &[]).is_none());
    assert!(gpu().undo(7, BrushStroke::new(Vec::new())).is_empty());
    assert!(gpu().undo(1, BrushStroke::new(Vec::new())).is_empty());
}

#[test]
fn edits_go_out_in_batches() {
    let edits: Vec<BrushEdit> =
        (0..MAX_BRUSH_EDITS as u32 + 300).map(|i| BrushEdit::new(i, i + 1)).collect();
    let dispatches = gpu().apply(1, &edits).unwrap();
    assert_eq!(dispatches.len(), 2);
    assert_eq!(dispatches[0].byte_len, BrushGpu::edit_buffer_size());
    assert_eq!(dispatches[0].workgroups, 2048);
    assert_eq!(dispatches[1].byte_len, 2400);
    assert_eq!(dispatches[1].workgroups, 2);
    assert_eq!(dispatches[1].params, 300u32.to_ne_bytes().to_vec());
    assert!(dispatches.iter().all(|d| d.board == 1 && d.readback));
    let readbacks: Vec<Vec<u8>> = dispatches.iter().map(|d| d.edits.clone()).collect();
    let stroke = gpu().applied_stroke(&readbacks);
    assert_eq!(stroke.edits(), &edits);

    let undo = gpu().undo(0, stroke);
    assert_eq!(undo.len(), 2);
    assert!(undo.iter().all(|d| d.board == 0 && !d.readback));
    assert_eq!(undo[0].edits, dispatches[0].edits);
    assert_eq!(undo[1].edits, dispatches[1].edits);
}

#[test]
fn dispatch_carries_one_batch() {
    let dispatch = gpu().dispatch_batch(0, &[BrushEdit::new(3, 4)], false);
    assert_eq!(dispatch.params, 1u32.to_ne_bytes().to_vec());
    assert_eq!(dispatch.edits, [3u32.to_ne_bytes(), 4u32.to_ne_bytes()].concat());
    assert_eq!((dispatch.byte_len, dispatch.workgroups), (8, 1));
    assert_eq!(BrushGpu::edit_buffer_size(), 4_194_304);
}

#[test]
fn edits_are_pairs_of_words() {
    let edits = vec![BrushEdit::new(7, 1), BrushEdit::new(0x0102_0304, 2)];
    let words = words_of_edits(&edits);
    assert_eq!(words, vec![7, 1, 0x0102_0304, 2]);
    assert_eq!(edits_from_words(&words), edits);
    assert_eq!(words_of_edits(&[]), Vec::<u32>::new());
    assert_eq!(edits_from_words(&[]), Vec::new());
}

#[test]
fn readbacks_make_up_one_stroke() {
    let edits: Vec<BrushEdit> = (0..5).map(|i| BrushEdit::new(10 * i, i + 1)).collect();
    let readbacks = vec![
        edit_bytes(gpu().order, &edits[..2]),
        edit_bytes(gpu().order, &[]),
        edit_bytes(gpu().order, &edits[2..]),
    ];
    assert_eq!(gpu().applied_stroke(&readbacks).edits(), &edits);
    assert!(gpu().applied_stroke(&Vec::new()).edits().is_empty());
}

/// The places of the grid within `radius` of one of the places `line`.
fn thickened(line: &[u32], radius: i64) -> Vec<u32> {
    let mut covered = vec![false; 1024 * 1024];
    for at in line {
        let (cx, cy) = ((at % 1024) as i64, (at / 1024) as i64);
        for y in (cy - radius).max(0)..=(cy + radius).min(1023) {
            for x in (cx - radius).max(0)..=(cx + radius).min(1023) {
                if (x - cx) * (x - cx) + (y - cy) * (y - cy) <= radius * radius {
                    covered[(y * 1024 + x) as usize] = true;
                }
            }
        }
    }
    (0..1024 * 1024).filter(|place| covered[*place as usize]).collect()
}

#[test]
fn largest_brush_edits_whole_strokes() {
    let grid = ScreenSize { width: 1024, height: 1024 };
    for (from, to) in [
        (None, (0, 1023)),
        (Some((300, 310)), (360, 345)),
        (Some((1000, 40)), (980, 90)),
    ] {
        let line = places(grid, 0, from, to);
        let stroke = places(grid, MAX_BRUSH_RADIUS, from, to);
        assert_eq!(stroke, thickened(&line, 128));
    }
}

#[test]
fn longest_stroke_fits_a_batch() {
    let grid = ScreenSize { width: 1024, height: 1024 };
    let stroke = places(grid, MAX_BRUSH_RADIUS, Some((0, 0)), (1023, 1023));
    assert!(stroke.len() > 300_000 && stroke.len() <= 363 * 1024);
}

/// Does to a board what the device does for the dispatches of a stroke, and gives the
/// stroke that takes it back.
fn painted(board: &mut [u32], edits: &[BrushEdit]) -> BrushStroke {
    let mut readbacks = Vec::new();
    for dispatch in gpu().apply(0, edits).unwrap() {
        let mut left = edits_from_bytes(gpu().order, &dispatch.edits);
        for edit in &mut left {
            std::mem::swap(&mut edit.value, &mut board[edit.idx as usize]);
        }
        readbacks.push(edit_bytes(gpu().order, &left));
    }
    gpu().applied_stroke(&readbacks)
}

#[test]
fn popped_unit_restores_the_board() {
    let start: Vec<u32> = (0..64).collect();
    let mut board = start.clone();
    let mut stack = BrushUndoStack::new();
    stack.begin_unit();
    for (value, to) in [(70, (3, 3)), (71, (4, 3)), (72, (3, 4))] {
        let edits = brush_edits_between(SMALL, 2, value, None, to);
        stack.record_stroke(painted(&mut board, &edits));
    }
    stack.finish_unit();
    assert_eq!(board[3 * 8 + 3], 72);
    for stroke in stack.pop_undo_strokes().unwrap() {
        for dispatch in gpu().undo(0, stroke) {
            for edit in edits_from_bytes(gpu().order, &dispatch.edits) {
                board[edit.idx as usize] = edit.value;
            }
        }
    }
    assert_eq!(board, start);
}

#[test]
fn words_are_packed_in_either_order() {
    let words = vec![0x0102_0304u32, 0xfffe_fdfc, 5];
    let little: Vec<u8> = words.iter().flat_map(|w| w.to_le_bytes()).collect();
    let big: Vec<u8> = words.iter().flat_map(|w| w.to_be_bytes()).collect();
    assert_eq!(pack_in(ByteOrder::Little, &words), little);
    assert_eq!(pack_in(ByteOrder::Big, &words), big);
    assert_eq!(unpack_in(ByteOrder::Little, &little), words);
    assert_eq!(unpack_in(ByteOrder::Big, &big), words);
    assert_eq!(unpack_in(ByteOrder::Big, &little), vec![0x0403_0201, 0xfcfd_feff, 0x0500_0000]);
    assert!(pack_in(ByteOrder::Big, &[]).is_empty());
    assert!(unpack_in(ByteOrder::Big, &[]).is_empty());
}

#[test]
fn word_one_shows_the_order() {
    assert_eq!(order_of_one(&[1, 0, 0, 0]), Some(ByteOrder::Little));
    assert_eq!(order_of_one(&[0, 0, 0, 1]), Some(ByteOrder::Big));
    assert_eq!(order_of_one(&[0, 1, 0, 0]), None);
    assert_eq!(order_of_one(&[1, 0, 0]), None);
}

#[test]
fn dispatch_keeps_to_one_order() {
    let edits = [BrushEdit::new(3, 4), BrushEdit::new(5, 6)];
    let dispatch = BrushGpu::new(ByteOrder::Big).dispatch_batch(1, &edits, true);
    assert_eq!(dispatch.params, vec![0, 0, 0, 2]);
    assert_eq!(dispatch.edits, vec![0, 0, 0, 3, 0, 0, 0, 4, 0, 0, 0, 5, 0, 0, 0, 6]);
    let stroke = BrushGpu::new(ByteOrder::Big).applied_stroke(&vec![dispatch.edits]);
    assert_eq!(stroke.edits(), &edits.to_vec());
}
