//! The two boards of a running game: one is read and shown while a step writes
//! the other.

use vstd::prelude::*;

use crate::bindings::{display_buffers, step_buffers, BufferName};
use crate::packing::{pack_in, packed_as, ByteOrder};

verus! {

/// The number of cells that one workgroup of the device handles.
pub const WORKGROUP_SIZE: u32 = 256;

/// The number of workgroups that handle `count` items.
pub open spec fn workgroups_for(count: int) -> int {
    (count + WORKGROUP_SIZE - 1) / (WORKGROUP_SIZE as int)
}

/// Every item has a workgroup, and none would be left without one less.
pub proof fn workgroups_cover_all_items(count: int, item: int)
    requires
        0 <= item < count,
    ensures
        item / (WORKGROUP_SIZE as int) < workgroups_for(count),
        (workgroups_for(count) - 1) * WORKGROUP_SIZE < count,
{
}

/// The number of workgroups that handle `count` items.
pub fn workgroup_count(count: u32) -> (groups: u32)
    ensures
        groups == workgroups_for(count as int),
{
    if count % WORKGROUP_SIZE == 0 {
        count / WORKGROUP_SIZE
    } else {
        count / WORKGROUP_SIZE + 1
    }
}

/// The size of a board, as the device gets it.
#[derive(Clone, Copy, Debug, PartialEq, Eq, Structural)]
pub struct RpsParams {
    pub width: u32,
    pub height: u32,
}

impl RpsParams {
    /// The number of cells of the board.
    pub fn cell_count(&self) -> (count: u64)
        ensures
            count == self.width * self.height,
    {
        assert(self.width * self.height <= 0xffff_ffff * 0xffff_ffff) by (nonlinear_arith)
            requires
                self.width <= 0xffff_ffff,
                self.height <= 0xffff_ffff,
        ;
        self.width as u64 * self.height as u64
    }

    /// The bytes that the device gets, in a byte order.
    pub fn bytes(&self, order: ByteOrder) -> (bytes: Vec<u8>)
        ensures
            packed_as(order, seq![self.width, self.height], bytes@),
    {
        let words: Vec<u32> = vec![self.width, self.height];
        pack_in(order, words.as_slice())
    }
}

/// What the device's buffers hold when a game starts: its size, and the board
/// that both board buffers get.
#[derive(Debug)]
pub struct RpsUpload {
    pub size: Vec<u8>,
    pub board: Vec<u8>,
}

/// One step of a game on the device: the bind group that it uses, and how many
/// workgroups run.
#[derive(Clone, Copy, Debug, PartialEq, Eq, Structural)]
pub struct StepDispatch {
    pub group: usize,
    pub workgroups: u32,
}

/// The two boards of a game on the device.
#[derive(Debug)]
pub struct RpsShaders {
    order: ByteOrder,
    board_bytes: u64,
    idx: usize,
}

impl RpsShaders {
    /// The byte order of all that goes to the device.
    pub closed spec fn byte_order(self) -> ByteOrder {
        self.order
    }

    /// The number of bytes of each board.
    pub closed spec fn board_len(self) -> u64 {
        self.board_bytes
    }

    /// The board that is read and shown.
    pub closed spec fn current(self) -> usize {
        self.idx
    }

    /// Whether the current board is one of the two.
    pub open spec fn wf(self) -> bool {
        self.current() < 2
    }

    /// The boards of a game that starts with `contents`, and what the device's
    /// buffers get, in a byte order.
    pub fn new(order: ByteOrder, size: RpsParams, contents: &[u32]) -> (start: (Self, RpsUpload))
        requires
            size.width * size.height == contents@.len(),
            4 * contents@.len() <= u64::MAX,
        ensures
            start.0.wf(),
            start.0.byte_order() == order,
            start.0.current() == 0,
            start.0.board_len() == 4 * contents@.len(),
            packed_as(order, seq![size.width, size.height], start.1.size@),
            packed_as(order, contents@, start.1.board@),
    {
        let upload = RpsUpload { size: size.bytes(order), board: pack_in(order, contents) };
        (RpsShaders { order, board_bytes: contents.len() as u64 * 4, idx: 0 }, upload)
    }

    /// The number of bytes of each board.
    pub fn board_bytes(&self) -> (bytes: u64)
        ensures
            bytes == self.board_len(),
    {
        self.board_bytes
    }

    /// Makes the next step: it reads the current board and writes the other one,
    /// which is the current board from then on.
    pub fn compute_step(&mut self) -> (step: StepDispatch)
        requires
            old(self).wf(),
        ensures
            final(self).wf(),
            final(self).byte_order() == old(self).byte_order(),
            step.group == old(self).current(),
            step.workgroups == workgroups_for(old(self).board_len() as int % 0x1_0000_0000 / 4),
            final(self).current() == 1 - old(self).current(),
            step_buffers(step.group)[1].buffer == (BufferName::Board {
                index: old(self).current(),
            }),
            step_buffers(step.group)[2].buffer == display_buffers(final(self).current())[3].buffer,
            final(self).board_len() == old(self).board_len(),
    {
        let cell_count: u32 = (self.board_bytes % 0x1_0000_0000) as u32 / 4;
        let group = self.idx;
        self.idx = 1 - self.idx;
        StepDispatch { group, workgroups: workgroup_count(cell_count) }
    }

    /// Starts over: both boards get the bytes that are returned, and the first is
    /// the current one.
    pub fn reset(&mut self, contents: &[u32]) -> (bytes: Vec<u8>)
        requires
            4 * contents@.len() <= old(self).board_len(),
        ensures
            final(self).wf(),
            final(self).current() == 0,
            final(self).byte_order() == old(self).byte_order(),
            final(self).board_len() == old(self).board_len(),
            packed_as(old(self).byte_order(), contents@, bytes@),
    {
        self.idx = 0;
        pack_in(self.order, contents)
    }

    /// The bind group that shows the current board.
    pub fn render(&self) -> (group: usize)
        ensures
            group == self.current(),
    {
        self.idx
    }
}

/// Each workgroup handles 256 items: one less would leave items over, and one more
/// would have none.
pub proof fn workgroups_are_as_few_as_can_be(count: int)
    requires
        count >= 0,
    ensures
        256 * workgroups_for(count) >= count,
        256 * workgroups_for(count) < count + 256,
{
}

} // verus!
