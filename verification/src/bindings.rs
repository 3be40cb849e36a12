//! The buffers that the device's programs work on, and the slots at which each
//! program finds them.

use vstd::prelude::*;

verus! {

/// A buffer of the device.
#[derive(Clone, Copy, Debug, PartialEq, Eq, Structural)]
pub enum BufferName {
    GridSize,
    /// One of the two boards.
    Board { index: usize },
    DisplayInfo,
    DisplayColors,
    BrushParams,
    BrushEdits,
}

/// What a program does with a buffer.
#[derive(Clone, Copy, Debug, PartialEq, Eq, Structural)]
pub enum BindingKind {
    Uniform,
    ReadStorage,
    WriteStorage,
}

/// A buffer at a slot of a program.
#[derive(Clone, Copy, Debug, PartialEq, Eq, Structural)]
pub struct Binding {
    pub slot: u32,
    pub buffer: BufferName,
    pub kind: BindingKind,
}

/// A buffer that a program finds at a slot.
pub open spec fn bound(slot: u32, buffer: BufferName, kind: BindingKind) -> Binding {
    Binding { slot, buffer, kind }
}

/// The buffers of the program that makes a step: it reads a board and writes the
/// other.
pub open spec fn step_buffers(group: usize) -> Seq<Binding> {
    seq![
        bound(0, BufferName::GridSize, BindingKind::Uniform),
        bound(1, BufferName::Board { index: group }, BindingKind::ReadStorage),
        bound(2, BufferName::Board { index: (1 - group) as usize }, BindingKind::WriteStorage),
    ]
}

/// The buffers of the program that shows a board.
pub open spec fn display_buffers(board: usize) -> Seq<Binding> {
    seq![
        bound(0, BufferName::GridSize, BindingKind::Uniform),
        bound(1, BufferName::DisplayInfo, BindingKind::Uniform),
        bound(2, BufferName::DisplayColors, BindingKind::Uniform),
        bound(3, BufferName::Board { index: board }, BindingKind::ReadStorage),
    ]
}

/// The buffers of the program that puts a batch of edits on a board. It leaves in
/// the edits what was there before.
pub open spec fn brush_buffers(board: usize) -> Seq<Binding> {
    seq![
        bound(0, BufferName::BrushParams, BindingKind::Uniform),
        bound(1, BufferName::BrushEdits, BindingKind::WriteStorage),
        bound(2, BufferName::Board { index: board }, BindingKind::WriteStorage),
    ]
}

/// Whether two lists of bindings fit the same layout: the same slots, and the same
/// kind of use at each.
pub open spec fn same_layout(left: Seq<Binding>, right: Seq<Binding>) -> bool {
    &&& left.len() == right.len()
    &&& forall|i: int| #![trigger left[i], right[i]]
        0 <= i < left.len() ==> left[i].slot == right[i].slot && left[i].kind == right[i].kind
}

/// Each program finds the same kinds of buffers at the same slots, whichever board
/// it works on.
pub proof fn layouts_do_not_depend_on_the_board(one: usize, other: usize)
    ensures
        same_layout(step_buffers(one), step_buffers(other)),
        same_layout(display_buffers(one), display_buffers(other)),
        same_layout(brush_buffers(one), brush_buffers(other)),
{
}

/// No program has a buffer at two slots, so that nothing is read while it is
/// written.
pub proof fn buffers_have_one_slot_each(board: usize, i: int, j: int)
    requires
        board < 2,
    ensures
        0 <= i < j < 3 ==> step_buffers(board)[i].buffer != step_buffers(board)[j].buffer,
        0 <= i < j < 4 ==> display_buffers(board)[i].buffer != display_buffers(board)[j].buffer,
        0 <= i < j < 3 ==> brush_buffers(board)[i].buffer != brush_buffers(board)[j].buffer,
{
}

/// The buffers of the program that makes a step.
pub fn step_bindings(group: usize) -> (bindings: Vec<Binding>)
    requires
        group < 2,
    ensures
        bindings@ == step_buffers(group),
{
    let other: usize = 1 - group;
    vec![
        Binding { slot: 0, buffer: BufferName::GridSize, kind: BindingKind::Uniform },
        Binding {
            slot: 1,
            buffer: BufferName::Board { index: group },
            kind: BindingKind::ReadStorage,
        },
        Binding {
            slot: 2,
            buffer: BufferName::Board { index: other },
            kind: BindingKind::WriteStorage,
        },
    ]
}

/// The buffers of the program that shows a board.
pub fn display_bindings(board: usize) -> (bindings: Vec<Binding>)
    requires
        board < 2,
    ensures
        bindings@ == display_buffers(board),
{
    vec![
        Binding { slot: 0, buffer: BufferName::GridSize, kind: BindingKind::Uniform },
        Binding { slot: 1, buffer: BufferName::DisplayInfo, kind: BindingKind::Uniform },
        Binding { slot: 2, buffer: BufferName::DisplayColors, kind: BindingKind::Uniform },
        Binding {
            slot: 3,
            buffer: BufferName::Board { index: board },
            kind: BindingKind::ReadStorage,
        },
    ]
}

/// The buffers of the program that puts a batch of edits on a board.
pub fn brush_bindings(board: usize) -> (bindings: Vec<Binding>)
    requires
        board < 2,
    ensures
        bindings@ == brush_buffers(board),
{
    vec![
        Binding { slot: 0, buffer: BufferName::BrushParams, kind: BindingKind::Uniform },
        Binding { slot: 1, buffer: BufferName::BrushEdits, kind: BindingKind::WriteStorage },
        Binding {
            slot: 2,
            buffer: BufferName::Board { index: board },
            kind: BindingKind::WriteStorage,
        },
    ]
}

/// The program that makes a step finds the size, the board that it reads and the other
/// board, which it writes.
pub proof fn steps_read_one_board_and_write_the_other(group: usize)
    requires
        group < 2,
    ensures
        ({
            let buffers = step_buffers(group);
            let other: usize = if group == 0 {
                1
            } else {
                0
            };
            &&& buffers.len() == 3
            &&& forall|i: int| 0 <= i < 3 ==> (#[trigger] buffers[i]).slot == i
            &&& buffers[0].buffer is GridSize && buffers[0].kind is Uniform
            &&& buffers[1].buffer == (BufferName::Board { index: group })
            &&& buffers[1].kind is ReadStorage
            &&& buffers[2].buffer == (BufferName::Board { index: other })
            &&& buffers[2].kind is WriteStorage
        }),
{
}

/// The program that shows a board reads it, the size, the view and the colours.
pub proof fn display_reads_its_board(board: usize)
    ensures
        ({
            let buffers = display_buffers(board);
            &&& buffers.len() == 4
            &&& forall|i: int| 0 <= i < 4 ==> (#[trigger] buffers[i]).slot == i
            &&& buffers[0].buffer is GridSize && buffers[0].kind is Uniform
            &&& buffers[1].buffer is DisplayInfo && buffers[1].kind is Uniform
            &&& buffers[2].buffer is DisplayColors && buffers[2].kind is Uniform
            &&& buffers[3].buffer == (BufferName::Board { index: board })
            &&& buffers[3].kind is ReadStorage
        }),
{
}

/// The program that puts edits on a board writes both, and reads how many there are.
pub proof fn brush_writes_its_board_and_edits(board: usize)
    ensures
        ({
            let buffers = brush_buffers(board);
            &&& buffers.len() == 3
            &&& forall|i: int| 0 <= i < 3 ==> (#[trigger] buffers[i]).slot == i
            &&& buffers[0].buffer is BrushParams && buffers[0].kind is Uniform
            &&& buffers[1].buffer is BrushEdits && buffers[1].kind is WriteStorage
            &&& buffers[2].buffer == (BufferName::Board { index: board })
            &&& buffers[2].kind is WriteStorage
        }),
{
}

} // verus!
