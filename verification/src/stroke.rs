//! The cells that a brush covers when it is dragged from one cell to another.

use std::collections::HashSet;

use vstd::arithmetic::div_mod::{lemma_fundamental_div_mod, lemma_fundamental_div_mod_converse};
use vstd::prelude::*;
use vstd::set_lib::{lemma_int_range, lemma_len_subset, lemma_map_size_bound, set_int_range};
use vstd::std_specs::hash::spec_hash_keys_iter;
use vstd::std_specs::iter::IteratorSpec;

use crate::board::{cells_have_their_own_places, ScreenSize, GRID_HEIGHT, GRID_WIDTH};
use crate::brush::{fits_board, has_own_places, BrushEdit, MAX_BRUSH_EDITS};

verus! {

/// The largest radius that the panel offers.
pub const MAX_BRUSH_RADIUS: u32 = 128;

/// The value of the bits of `v` in two's complement.
pub open spec fn signed(v: u32) -> int {
    if v < 0x8000_0000 {
        v as int
    } else {
        v - 0x1_0000_0000
    }
}

/// The coordinates of a cell, as the brush takes them.
pub open spec fn signed_cell(cell: (u32, u32)) -> (int, int) {
    (signed(cell.0), signed(cell.1))
}

/// How far apart two coordinates are.
pub open spec fn gap(from: int, to: int) -> int {
    if from < to {
        to - from
    } else {
        from - to
    }
}

/// The coordinate that lies `steps` steps from `from` on the way to `to`.
pub open spec fn toward(from: int, to: int, steps: int) -> int {
    if from < to {
        from + steps
    } else {
        from - steps
    }
}

/// `k * short / long`, rounded to the nearest integer, and up where two are as
/// near.
pub open spec fn rounded_share(k: int, short: int, long: int) -> int {
    if long == 0 {
        0
    } else {
        (2 * (short * k) + long) / (2 * long)
    }
}

/// The number of steps of the line between two cells.
pub open spec fn line_steps(from: (int, int), to: (int, int)) -> int {
    if gap(from.0, to.0) >= gap(from.1, to.1) {
        gap(from.0, to.0)
    } else {
        gap(from.1, to.1)
    }
}

/// The cell of the line between two cells after `k` steps: along the axis on
/// which they are farther apart the line moves by one cell a step, and along the
/// other it keeps to the cell nearest to the straight line.
pub open spec fn line_point(from: (int, int), to: (int, int), k: int) -> (int, int) {
    let dx = gap(from.0, to.0);
    let dy = gap(from.1, to.1);
    if dx >= dy {
        (toward(from.0, to.0, k), toward(from.1, to.1, rounded_share(k, dy, dx)))
    } else {
        (toward(from.0, to.0, rounded_share(k, dx, dy)), toward(from.1, to.1, k))
    }
}

/// Whether a brush at `center` covers a cell. A negative radius covers none.
pub open spec fn in_disc(center: (int, int), radius: int, x: int, y: int) -> bool {
    radius >= 0 && (x - center.0) * (x - center.0) + (y - center.1) * (y - center.1) <= radius
        * radius
}

/// Whether the brush can reach a cell: it is on the board.
pub open spec fn reachable(size: ScreenSize, x: int, y: int) -> bool {
    0 <= x < signed(size.width) && 0 <= y < signed(size.height)
}

/// Whether `idx` is the place of a cell that a brush at `center` covers.
pub open spec fn disc_cell(size: ScreenSize, radius: u32, center: (int, int), idx: u32) -> bool {
    let x = size.column_of(idx as int);
    let y = size.row_of(idx as int);
    reachable(size, x, y) && in_disc(center, signed(radius), x, y)
}

/// Whether `idx` is the place of a cell that a brush covers somewhere on the
/// first `n` cells of a line.
pub open spec fn swept_cell(
    size: ScreenSize,
    radius: u32,
    from: (int, int),
    to: (int, int),
    n: int,
    idx: u32,
) -> bool {
    exists|k: int| 0 <= k < n && #[trigger] disc_cell(size, radius, line_point(from, to, k), idx)
}

/// Whether `idx` is the place of a cell that a brush covers when it is put down
/// at `to`, or dragged there from `from`.
pub open spec fn brushed_cell(
    size: ScreenSize,
    radius: u32,
    from: Option<(u32, u32)>,
    to: (u32, u32),
    idx: u32,
) -> bool {
    match from {
        None => disc_cell(size, radius, signed_cell(to), idx),
        Some(from) => swept_cell(
            size,
            radius,
            signed_cell(from),
            signed_cell(to),
            line_steps(signed_cell(from), signed_cell(to)) + 1,
            idx,
        ),
    }
}

/// The places of the cells that a brush covers.
pub open spec fn brushed_cells(
    size: ScreenSize,
    radius: u32,
    from: Option<(u32, u32)>,
    to: (u32, u32),
) -> Set<u32> {
    Set::new(|idx: u32| brushed_cell(size, radius, from, to, idx))
}

/// The places that edits change.
pub open spec fn edited_cells(edits: Seq<BrushEdit>) -> Set<u32> {
    edits.map_values(|edit: BrushEdit| edit.idx).to_set()
}

proof fn lemma_place_of_cell(size: ScreenSize, idx: u32, x: int, y: int)
    requires
        size.holds(x, y),
    ensures
        size.index_of(x, y) == idx <==> (size.column_of(idx as int) == x && size.row_of(idx as int)
            == y),
{
    cells_have_their_own_places(size, x, y);
    lemma_fundamental_div_mod(idx as int, size.width as int);
    assert(size.width * y == y * size.width) by (nonlinear_arith);
}

/// The value of the bits of `v` in two's complement.
fn to_signed(v: u32) -> (value: i64)
    ensures
        value == signed(v),
{
    if v < 0x8000_0000 {
        v as i64
    } else {
        v as i64 - 0x1_0000_0000
    }
}

/// Adds the places of the cells that a brush at `center` covers.
pub fn insert_brush_cells(
    size: ScreenSize,
    radius: u32,
    center: (i32, i32),
    cells: &mut HashSet<u32>,
)
    requires
        size.cells() <= 0x1_0000_0000,
    ensures
        forall|idx: u32| #[trigger]
            final(cells)@.contains(idx) <==> old(cells)@.contains(idx) || disc_cell(
                size,
                radius,
                (center.0 as int, center.1 as int),
                idx,
            ),
{
    broadcast use vstd::std_specs::hash::group_hash_axioms;

    let center_x = center.0 as i64;
    let center_y = center.1 as i64;
    let reach = to_signed(radius);
    let width = to_signed(size.width);
    let height = to_signed(size.height);
    let ghost middle = (center.0 as int, center.1 as int);
    let ghost before = cells@;
    if reach < 0 {
        return;
    }
    assert(reach * reach <= 0x7fff_ffff * 0x7fff_ffff) by (nonlinear_arith)
        requires
            0 <= reach <= 0x7fff_ffff,
    ;
    let reach_squared: i64 = reach * reach;
    let mut y: i64 = center_y - reach;
    assert forall|idx: u32| #[trigger] disc_cell(size, radius, middle, idx) implies middle.0 - reach
        <= size.column_of(idx as int) <= middle.0 + reach && middle.1 - reach <= size.row_of(
        idx as int,
    ) <= middle.1 + reach by {
        lemma_in_disc_is_near(
            middle,
            reach as int,
            size.column_of(idx as int),
            size.row_of(idx as int),
        );
    }
    while y <= center_y + reach
        invariant
            size.cells() <= 0x1_0000_0000,
            i32::MIN <= center_x <= i32::MAX,
            i32::MIN <= center_y <= i32::MAX,
            0 <= reach <= 0x7fff_ffff,
            reach == signed(radius),
            reach_squared == reach * reach,
            width == signed(size.width),
            height == signed(size.height),
            middle == (center_x as int, center_y as int),
            center_y - reach <= y <= center_y + reach + 1,
            forall|idx: u32| #[trigger]
                disc_cell(size, radius, middle, idx) ==> {
                    &&& middle.0 - reach <= size.column_of(idx as int) <= middle.0 + reach
                    &&& middle.1 - reach <= size.row_of(idx as int) <= middle.1 + reach
                },
            forall|idx: u32| #[trigger]
                cells@.contains(idx) <==> before.contains(idx) || (disc_cell(
                    size,
                    radius,
                    middle,
                    idx,
                ) && size.row_of(idx as int) < y),
        decreases center_y + reach + 1 - y,
    {
        let mut x: i64 = center_x - reach;
        while x <= center_x + reach
            invariant
                size.cells() <= 0x1_0000_0000,
                i32::MIN <= center_x <= i32::MAX,
                i32::MIN <= center_y <= i32::MAX,
                0 <= reach <= 0x7fff_ffff,
                reach == signed(radius),
                reach_squared == reach * reach,
                width == signed(size.width),
                height == signed(size.height),
                middle == (center_x as int, center_y as int),
                center_y - reach <= y <= center_y + reach,
                center_x - reach <= x <= center_x + reach + 1,
                forall|idx: u32| #[trigger]
                    disc_cell(size, radius, middle, idx) ==> {
                        &&& middle.0 - reach <= size.column_of(idx as int) <= middle.0 + reach
                        &&& middle.1 - reach <= size.row_of(idx as int) <= middle.1 + reach
                    },
                forall|idx: u32| #[trigger]
                    cells@.contains(idx) <==> before.contains(idx) || (disc_cell(
                        size,
                        radius,
                        middle,
                        idx,
                    ) && (size.row_of(idx as int) < y || (size.row_of(idx as int)
                        == y && size.column_of(idx as int) < x))),
            decreases center_x + reach + 1 - x,
        {
            let dx: i64 = x - center_x;
            let dy: i64 = y - center_y;
            assert(0 <= dx * dx <= 0x7fff_ffff * 0x7fff_ffff) by (nonlinear_arith)
                requires
                    -0x7fff_ffff <= dx <= 0x7fff_ffff,
            ;
            assert(0 <= dy * dy <= 0x7fff_ffff * 0x7fff_ffff) by (nonlinear_arith)
                requires
                    -0x7fff_ffff <= dy <= 0x7fff_ffff,
            ;
            if dx * dx + dy * dy <= reach_squared && x >= 0 && y >= 0 && x < width && y < height {
                proof {
                    cells_have_their_own_places(size, x as int, y as int);
                }
                let idx: u32 = (y * width + x) as u32;
                cells.insert(idx);
            }
            proof {
                if size.holds(x as int, y as int) {
                    assert forall|idx: u32|
                        #[trigger] size.column_of(idx as int) == x && size.row_of(idx as int)
                            == y implies idx == size.index_of(x as int, y as int) by {
                        lemma_place_of_cell(size, idx, x as int, y as int);
                    }
                }
            }
            x = x + 1;
        }
        y = y + 1;
    }
}

proof fn lemma_in_disc_is_near(center: (int, int), radius: int, x: int, y: int)
    requires
        in_disc(center, radius, x, y),
    ensures
        -radius <= x - center.0 <= radius,
        -radius <= y - center.1 <= radius,
{
    let dx = x - center.0;
    let dy = y - center.1;
    assert(-radius <= dx <= radius && -radius <= dy <= radius) by (nonlinear_arith)
        requires
            radius >= 0,
            dx * dx + dy * dy <= radius * radius,
    ;
}

/// A rounded share is within one half of the exact one: the line keeps to the cells
/// nearest to the straight line.
pub proof fn share_is_nearest(k: int, short: int, long: int)
    requires
        0 <= k,
        0 <= short,
        0 < long,
    ensures
        2 * (long * rounded_share(k, short, long)) <= 2 * (short * k) + long,
        2 * (short * k) + long < 2 * (long * rounded_share(k, short, long)) + 2 * long,
        0 <= rounded_share(k, short, long),
{
    let q = rounded_share(k, short, long);
    let n = 2 * (short * k) + long;
    assert(0 <= short * k) by (nonlinear_arith)
        requires
            0 <= short,
            0 <= k,
    ;
    lemma_fundamental_div_mod(n, 2 * long);
    assert((2 * long) * q == 2 * (long * q)) by (nonlinear_arith);
    assert(0 <= q) by (nonlinear_arith)
        requires
            n < (2 * long) * q + 2 * long,
            0 <= n,
            0 < long,
    ;
}

/// What is within one half of the exact share is the rounded one.
pub proof fn nearest_is_share(k: int, short: int, long: int, q: int)
    requires
        0 < long,
        2 * (long * q) <= 2 * (short * k) + long,
        2 * (short * k) + long < 2 * (long * q) + 2 * long,
    ensures
        rounded_share(k, short, long) == q,
{
    let n = 2 * (short * k) + long;
    assert((2 * long) * q == 2 * (long * q)) by (nonlinear_arith);
    assert(q * (2 * long) == (2 * long) * q) by (nonlinear_arith);
    lemma_fundamental_div_mod_converse(n, 2 * long, q, n - 2 * (long * q));
}

/// The share of the short axis after one more step of the long one.
proof fn lemma_share_step(k: int, short: int, long: int)
    requires
        0 <= k,
        0 <= short <= long,
        0 < long,
    ensures
        rounded_share(k + 1, short, long) == rounded_share(k, short, long) + if 2 * (long * (
        rounded_share(k, short, long) + 1) - short * (k + 1)) <= long {
            1int
        } else {
            0int
        },
{
    let q = rounded_share(k, short, long);
    share_is_nearest(k, short, long);
    assert(short * (k + 1) == short * k + short) by (nonlinear_arith);
    assert(long * (q + 1) == long * q + long) by (nonlinear_arith);
    if 2 * (long * (q + 1) - short * (k + 1)) <= long {
        nearest_is_share(k + 1, short, long, q + 1);
    } else {
        nearest_is_share(k + 1, short, long, q);
    }
}

/// The short axis starts at its start and arrives with the long one.
proof fn lemma_share_ends(short: int, long: int)
    requires
        0 <= short <= long,
    ensures
        rounded_share(0, short, long) == 0,
        rounded_share(long, short, long) == short,
{
    if long > 0 {
        assert(short * 0 == 0 && long * 0 == 0 && short * long == long * short)
            by (nonlinear_arith);
        nearest_is_share(0, short, long, 0);
        nearest_is_share(long, short, long, short);
    }
}

proof fn lemma_share_within(k: int, short: int, long: int)
    requires
        0 <= k <= long,
        0 <= short,
    ensures
        0 <= rounded_share(k, short, long) <= short,
{
    if long > 0 {
        let q = rounded_share(k, short, long);
        share_is_nearest(k, short, long);
        assert(q <= short) by (nonlinear_arith)
            requires
                2 * (long * q) <= 2 * (short * k) + long,
                0 <= k <= long,
                0 <= short,
                0 < long,
        ;
    }
}

/// Every cell of a line lies in the rectangle that its ends span.
pub proof fn line_stays_between_its_ends(from: (int, int), to: (int, int), k: int)
    requires
        0 <= k <= line_steps(from, to),
    ensures
        gap(from.0, line_point(from, to, k).0) + gap(line_point(from, to, k).0, to.0) == gap(
            from.0,
            to.0,
        ),
        gap(from.1, line_point(from, to, k).1) + gap(line_point(from, to, k).1, to.1) == gap(
            from.1,
            to.1,
        ),
{
    let dx = gap(from.0, to.0);
    let dy = gap(from.1, to.1);
    if dx >= dy {
        lemma_share_within(k, dy, dx);
    } else {
        lemma_share_within(k, dx, dy);
    }
}

/// A line starts and ends at its ends.
pub proof fn line_joins_its_ends(from: (int, int), to: (int, int))
    ensures
        line_point(from, to, 0) == from,
        line_point(from, to, line_steps(from, to)) == to,
{
    let dx = gap(from.0, to.0);
    let dy = gap(from.1, to.1);
    if dx >= dy {
        lemma_share_ends(dy, dx);
    } else {
        lemma_share_ends(dx, dy);
    }
}

/// A line has no gaps: each cell is a neighbour of the one before it.
pub proof fn line_has_no_gaps(from: (int, int), to: (int, int), k: int)
    requires
        0 <= k < line_steps(from, to),
    ensures
        gap(line_point(from, to, k).0, line_point(from, to, k + 1).0) <= 1,
        gap(line_point(from, to, k).1, line_point(from, to, k + 1).1) <= 1,
        line_point(from, to, k) != line_point(from, to, k + 1),
{
    let dx = gap(from.0, to.0);
    let dy = gap(from.1, to.1);
    if dx >= dy {
        lemma_share_step(k, dy, dx);
    } else {
        lemma_share_step(k, dx, dy);
    }
}

/// How many steps along each axis the line has made after `k` steps.
spec fn axis_steps(dx: int, dy: int, k: int) -> (int, int) {
    if dx >= dy {
        (k, rounded_share(k, dy, dx))
    } else {
        (rounded_share(k, dx, dy), k)
    }
}

/// The running error of the line after `k` steps.
spec fn line_error(dx: int, dy: int, k: int) -> int {
    let (ix, iy) = axis_steps(dx, dy, k);
    dx * (iy + 1) - dy * (ix + 1)
}

/// The error tells along which axes the next step moves.
proof fn lemma_line_step(dx: int, dy: int, k: int)
    requires
        0 <= dx,
        0 <= dy,
        0 <= k,
        k < dx || k < dy,
    ensures
        ({
            let err = line_error(dx, dy, k);
            let (ix, iy) = axis_steps(dx, dy, k);
            let (jx, jy) = axis_steps(dx, dy, k + 1);
            let move_x = 2 * err >= -dy;
            let move_y = 2 * err <= dx;
            &&& jx == ix + if move_x {
                1int
            } else {
                0int
            }
            &&& jy == iy + if move_y {
                1int
            } else {
                0int
            }
            &&& line_error(dx, dy, k + 1) == err - (if move_x {
                dy
            } else {
                0
            }) + (if move_y {
                dx
            } else {
                0
            })
            &&& -3 * (dx + dy) <= 2 * err <= 3 * (dx + dy)
        }),
{
    let (ix, iy) = axis_steps(dx, dy, k);
    let (jx, jy) = axis_steps(dx, dy, k + 1);
    assert(dx * (iy + 1) == dx * iy + dx) by (nonlinear_arith);
    assert(dy * (ix + 1) == dy * ix + dy) by (nonlinear_arith);
    if dx >= dy {
        share_is_nearest(k, dy, dx);
        lemma_share_step(k, dy, dx);
    } else {
        share_is_nearest(k, dx, dy);
        lemma_share_step(k, dx, dy);
    }
    assert(dx * (iy + 1 + 1) == dx * (iy + 1) + dx) by (nonlinear_arith);
    assert(dy * (ix + 1 + 1) == dy * (ix + 1) + dy) by (nonlinear_arith);
}

/// Adds the places of the cells that a brush covers on the line between two
/// cells.
fn sweep_line(
    size: ScreenSize,
    radius: u32,
    from: (u32, u32),
    to: (u32, u32),
    cells: &mut HashSet<u32>,
)
    requires
        size.cells() <= 0x1_0000_0000,
    ensures
        forall|idx: u32| #[trigger]
            final(cells)@.contains(idx) <==> old(cells)@.contains(idx) || brushed_cell(
                size,
                radius,
                Some(from),
                to,
                idx,
            ),
{
    let mut x0 = to_signed(from.0);
    let mut y0 = to_signed(from.1);
    let x1 = to_signed(to.0);
    let y1 = to_signed(to.1);
    let dx: i64 = if x0 < x1 { x1 - x0 } else { x0 - x1 };
    let dy: i64 = if y0 < y1 { y1 - y0 } else { y0 - y1 };
    let sx: i64 = if x0 < x1 { 1 } else { -1 };
    let sy: i64 = if y0 < y1 { 1 } else { -1 };
    let mut err: i64 = dx - dy;
    let ghost start = signed_cell(from);
    let ghost end = signed_cell(to);
    let ghost steps = line_steps(start, end);
    let ghost before = cells@;
    let ghost mut k: int = 0;
    proof {
        line_joins_its_ends(start, end);
        if dx >= dy {
            lemma_share_ends(dy as int, dx as int);
        } else {
            lemma_share_ends(dx as int, dy as int);
        }
        assert(dx * 1 == dx && dy * 1 == dy) by (nonlinear_arith);
    }
    insert_brush_cells(size, radius, (x0 as i32, y0 as i32), cells);
    while x0 != x1 || y0 != y1
        invariant
            size.cells() <= 0x1_0000_0000,
            start == signed_cell(from),
            end == signed_cell(to),
            i32::MIN <= start.0 <= i32::MAX,
            i32::MIN <= start.1 <= i32::MAX,
            end == (x1 as int, y1 as int),
            i32::MIN <= x1 <= i32::MAX,
            i32::MIN <= y1 <= i32::MAX,
            dx == gap(start.0, end.0),
            dy == gap(start.1, end.1),
            sx == toward(start.0, end.0, 1) - start.0,
            sy == toward(start.1, end.1, 1) - start.1,
            steps == line_steps(start, end),
            0 <= k <= steps,
            (x0 as int, y0 as int) == line_point(start, end, k),
            err == line_error(dx as int, dy as int, k),
            line_point(start, end, steps) == end,
            forall|idx: u32| #[trigger]
                cells@.contains(idx) <==> before.contains(idx) || swept_cell(
                    size,
                    radius,
                    start,
                    end,
                    k + 1,
                    idx,
                ),
        decreases steps - k,
    {
        proof {
            lemma_line_step(dx as int, dy as int, k);
            line_stays_between_its_ends(start, end, k);
            line_stays_between_its_ends(start, end, k + 1);
        }
        let e2: i64 = 2 * err;
        if e2 >= -dy {
            err = err - dy;
            x0 = x0 + sx;
        }
        if e2 <= dx {
            err = err + dx;
            y0 = y0 + sy;
        }
        proof {
            k = k + 1;
        }
        insert_brush_cells(size, radius, (x0 as i32, y0 as i32), cells);
    }
}

/// Whether `edits` paint `painted` with `value`: every edit has a place of its
/// own there, and none is missing unless there are more than one batch can hold.
pub open spec fn paints(edits: Seq<BrushEdit>, painted: Set<u32>, value: u32) -> bool {
    &&& painted.finite()
    &&& edits.len() == if painted.len() <= MAX_BRUSH_EDITS {
        painted.len()
    } else {
        MAX_BRUSH_EDITS as nat
    }
    &&& forall|i: int| #![trigger edits[i]]
        0 <= i < edits.len() ==> painted.contains(edits[i].idx) && edits[i].value == value
    &&& has_own_places(edits)
    &&& painted.len() <= MAX_BRUSH_EDITS ==> edited_cells(edits) == painted
}

/// The brush covers the cells between which it is dragged, where they are on the
/// board.
pub proof fn brush_covers_its_ends(
    size: ScreenSize,
    radius: u32,
    from: Option<(u32, u32)>,
    to: (u32, u32),
    end: (u32, u32),
)
    requires
        size.cells() <= 0x1_0000_0000,
        signed(radius) >= 0,
        end == to || from == Some(end),
        reachable(size, signed(end.0), signed(end.1)),
    ensures
        brushed_cells(size, radius, from, to).contains(
            size.index_of(signed(end.0), signed(end.1)) as u32,
        ),
{
    let place = size.index_of(signed(end.0), signed(end.1)) as u32;
    let reach = signed(radius);
    cells_have_their_own_places(size, signed(end.0), signed(end.1));
    assert(0 * 0 + 0 * 0 <= reach * reach) by (nonlinear_arith)
        requires
            reach >= 0,
    ;
    if let Some(start) = from {
        let steps = line_steps(signed_cell(start), signed_cell(to));
        line_joins_its_ends(signed_cell(start), signed_cell(to));
        let k = if end == start {
            0
        } else {
            steps
        };
        assert(disc_cell(size, radius, line_point(signed_cell(start), signed_cell(to), k), place));
    }
}

/// Whether a cell is on the board.
pub open spec fn on_board(size: ScreenSize, cell: (u32, u32)) -> bool {
    reachable(size, signed(cell.0), signed(cell.1))
}

/// Whether `idx` is the place of a cell of the board within a brush's radius of the
/// cell at one of the places `line`.
pub open spec fn near_line(size: ScreenSize, radius: u32, line: Set<u32>, idx: u32) -> bool {
    exists|at: u32| #[trigger]
        line.contains(at) && disc_cell(
            size,
            radius,
            (size.column_of(at as int), size.row_of(at as int)),
            idx,
        )
}

proof fn lemma_smallest_disc(size: ScreenSize, center: (int, int), idx: u32)
    ensures
        disc_cell(size, 0, center, idx) <==> reachable(
            size,
            size.column_of(idx as int),
            size.row_of(idx as int),
        ) && center == (size.column_of(idx as int), size.row_of(idx as int)),
{
    let dx = size.column_of(idx as int) - center.0;
    let dy = size.row_of(idx as int) - center.1;
    assert(dx * dx + dy * dy <= 0 <==> dx == 0 && dy == 0) by (nonlinear_arith);
}

/// A brush covers the cells within its radius of those that a brush of a single cell
/// covers on the same way.
pub proof fn brush_thickens_its_line(
    size: ScreenSize,
    radius: u32,
    from: Option<(u32, u32)>,
    to: (u32, u32),
    idx: u32,
)
    requires
        size.cells() <= 0x1_0000_0000,
        on_board(size, to),
        from matches Some(start) ==> on_board(size, start),
    ensures
        brushed_cells(size, radius, from, to).contains(idx) <==> near_line(
            size,
            radius,
            brushed_cells(size, 0, from, to),
            idx,
        ),
{
    let line = brushed_cells(size, 0, from, to);
    let end = signed_cell(to);
    let start = match from {
        Some(start) => signed_cell(start),
        None => end,
    };
    let n = line_steps(start, end) + 1;
    line_joins_its_ends(start, end);
    assert forall|at: u32| #[trigger] line.contains(at) implies exists|k: int|
        0 <= k < n && #[trigger] line_point(start, end, k) == (
            size.column_of(at as int),
            size.row_of(at as int),
        ) by {
        if from is Some {
            let k = choose|k: int|
                0 <= k < n && #[trigger] disc_cell(size, 0, line_point(start, end, k), at);
            lemma_smallest_disc(size, line_point(start, end, k), at);
        } else {
            lemma_smallest_disc(size, line_point(start, end, 0), at);
        }
    }
    if near_line(size, radius, line, idx) {
        let at = choose|at: u32| #[trigger]
            line.contains(at) && disc_cell(
                size,
                radius,
                (size.column_of(at as int), size.row_of(at as int)),
                idx,
            );
        let k = choose|k: int|
            0 <= k < n && #[trigger] line_point(start, end, k) == (
                size.column_of(at as int),
                size.row_of(at as int),
            );
        assert(disc_cell(size, radius, line_point(start, end, k), idx));
    }
    if brushed_cells(size, radius, from, to).contains(idx) {
        let k = if from is Some {
            choose|k: int|
                0 <= k < n && #[trigger] disc_cell(size, radius, line_point(start, end, k), idx)
        } else {
            0
        };
        line_stays_between_its_ends(start, end, k);
        let middle = line_point(start, end, k);
        cells_have_their_own_places(size, middle.0, middle.1);
        let at = size.index_of(middle.0, middle.1) as u32;
        lemma_smallest_disc(size, middle, at);
        assert(disc_cell(size, 0, line_point(start, end, k), at));
        assert(line.contains(at));
    }
}

proof fn lemma_share_moves_slowly(j: int, k: int, short: int, long: int)
    requires
        0 <= j <= k,
        0 <= short <= long,
    ensures
        rounded_share(j, short, long) <= rounded_share(k, short, long) <= rounded_share(
            j,
            short,
            long,
        ) + (k - j),
    decreases k - j,
{
    if j < k && long > 0 {
        lemma_share_moves_slowly(j, k - 1, short, long);
        lemma_share_step(k - 1, short, long);
    }
}

/// The step at which the line is nearest to a coordinate of its long axis.
spec fn step_beside(from: int, to: int, at: int) -> int {
    let along = if from < to {
        at - from
    } else {
        from - at
    };
    if along < 0 {
        0
    } else if along > gap(from, to) {
        gap(from, to)
    } else {
        along
    }
}

/// The middle of the cells that the brush covers across a coordinate of the line's
/// long axis.
spec fn middle_beside(from: (int, int), to: (int, int), at: int) -> int {
    if gap(from.0, to.0) >= gap(from.1, to.1) {
        line_point(from, to, step_beside(from.0, to.0, at)).1
    } else {
        line_point(from, to, step_beside(from.1, to.1, at)).0
    }
}

/// Across a line, what the largest brush of the panel covers keeps within 181 cells
/// of the line.
proof fn lemma_brush_is_narrow(
    from: (int, int),
    to: (int, int),
    radius: int,
    k: int,
    x: int,
    y: int,
)
    requires
        0 <= k <= line_steps(from, to),
        0 <= radius <= MAX_BRUSH_RADIUS,
        in_disc(line_point(from, to, k), radius, x, y),
    ensures
        gap(from.0, to.0) >= gap(from.1, to.1) ==> gap(middle_beside(from, to, x), y) <= 181,
        gap(from.0, to.0) < gap(from.1, to.1) ==> gap(middle_beside(from, to, y), x) <= 181,
{
    let dx = gap(from.0, to.0);
    let dy = gap(from.1, to.1);
    let middle = line_point(from, to, k);
    let u = gap(middle.0, x);
    let w = gap(middle.1, y);
    assert(u + w <= 181) by (nonlinear_arith)
        requires
            0 <= u,
            0 <= w,
            0 <= radius <= 128,
            (x - middle.0) * (x - middle.0) + (y - middle.1) * (y - middle.1) <= radius * radius,
            u == x - middle.0 || u == middle.0 - x,
            w == y - middle.1 || w == middle.1 - y,
    {
        assert(u * u == (x - middle.0) * (x - middle.0));
        assert(w * w == (y - middle.1) * (y - middle.1));
        assert(radius * radius <= 128 * 128);
        assert((u + w) * (u + w) + (u - w) * (u - w) == 2 * (u * u + w * w));
        assert((u - w) * (u - w) >= 0);
        assert((u + w) * (u + w) <= 32768);
        assert(u + w >= 182 ==> (u + w) * (u + w) >= 182 * 182);
    }
    let (j, short, long) = if dx >= dy {
        (step_beside(from.0, to.0, x), dy, dx)
    } else {
        (step_beside(from.1, to.1, y), dx, dy)
    };
    if j <= k {
        lemma_share_moves_slowly(j, k, short, long);
    } else {
        lemma_share_moves_slowly(k, j, short, long);
    }
}

/// The place of the cell that comes `n`th when the cells beside a line are counted
/// across it, 363 to each coordinate of its long axis.
spec fn counted_place(size: ScreenSize, from: (int, int), to: (int, int), n: int) -> u32 {
    let at = n / 363;
    let across = middle_beside(from, to, at) - 181 + n % 363;
    if gap(from.0, to.0) >= gap(from.1, to.1) {
        size.index_of(at, across) as u32
    } else {
        size.index_of(across, at) as u32
    }
}

/// The count of a cell beside a line.
spec fn count_beside(from: (int, int), to: (int, int), x: int, y: int) -> int {
    if gap(from.0, to.0) >= gap(from.1, to.1) {
        363 * x + (y - middle_beside(from, to, x) + 181)
    } else {
        363 * y + (x - middle_beside(from, to, y) + 181)
    }
}

proof fn lemma_covered_cell_is_counted(
    size: ScreenSize,
    radius: u32,
    from: (int, int),
    to: (int, int),
    k: int,
    idx: u32,
)
    requires
        size.width == GRID_WIDTH,
        size.height == GRID_HEIGHT,
        radius <= MAX_BRUSH_RADIUS,
        0 <= k <= line_steps(from, to),
        disc_cell(size, radius, line_point(from, to, k), idx),
    ensures
        ({
            let n = count_beside(
                from,
                to,
                size.column_of(idx as int),
                size.row_of(idx as int),
            );
            0 <= n < 363 * 1024 && counted_place(size, from, to, n) == idx
        }),
{
    let x = size.column_of(idx as int);
    let y = size.row_of(idx as int);
    lemma_brush_is_narrow(from, to, radius as int, k, x, y);
    lemma_place_of_cell(size, idx, x, y);
    let n = count_beside(from, to, x, y);
    if gap(from.0, to.0) >= gap(from.1, to.1) {
        assert(n / 363 == x && n % 363 == y - middle_beside(from, to, x) + 181);
    } else {
        assert(n / 363 == y && n % 363 == x - middle_beside(from, to, y) + 181);
    }
}

/// On the board that the program runs on, no brush that the panel offers covers more
/// cells than one batch holds, wherever it is dragged.
pub proof fn strokes_on_the_grid_fit_a_batch(
    size: ScreenSize,
    radius: u32,
    from: Option<(u32, u32)>,
    to: (u32, u32),
)
    requires
        size.width == GRID_WIDTH,
        size.height == GRID_HEIGHT,
        radius <= 128,
    ensures
        brushed_cells(size, radius, from, to).finite(),
        brushed_cells(size, radius, from, to).len() <= MAX_BRUSH_EDITS,
{
    let painted = brushed_cells(size, radius, from, to);
    let end = signed_cell(to);
    let start = match from {
        Some(start) => signed_cell(start),
        None => end,
    };
    let steps = line_steps(start, end);
    let count = 363 * 1024int;
    let places = |n: int| counted_place(size, start, end, n);
    let beside = set_int_range(0, count).map(places);
    line_joins_its_ends(start, end);
    assert forall|idx: u32| #[trigger] painted.contains(idx) implies beside.contains(idx) by {
        let k = if from is Some {
            choose|k: int|
                0 <= k < steps + 1 && #[trigger] disc_cell(
                    size,
                    radius,
                    line_point(start, end, k),
                    idx,
                )
        } else {
            0
        };
        lemma_covered_cell_is_counted(size, radius, start, end, k, idx);
        let n = count_beside(start, end, size.column_of(idx as int), size.row_of(idx as int));
        assert(set_int_range(0, count).contains(n) && places(n) == idx);
    }
    lemma_int_range(0, count);
    lemma_map_size_bound(set_int_range(0, count), beside, places);
    lemma_len_subset(painted, beside);
}

/// On the board that the program runs on, a brush that the panel offers edits every
/// cell within its radius of those that a brush of a single cell edits on the same
/// way: nothing is cut off.
pub proof fn strokes_on_the_grid_are_complete(
    size: ScreenSize,
    radius: u32,
    value: u32,
    from: Option<(u32, u32)>,
    to: (u32, u32),
    line: Seq<BrushEdit>,
    edits: Seq<BrushEdit>,
    idx: u32,
)
    requires
        size.width == GRID_WIDTH,
        size.height == GRID_HEIGHT,
        radius <= 128,
        on_board(size, to),
        from matches Some(start) ==> on_board(size, start),
        paints(line, brushed_cells(size, 0, from, to), value),
        paints(edits, brushed_cells(size, radius, from, to), value),
    ensures
        edited_cells(edits).contains(idx) <==> near_line(size, radius, edited_cells(line), idx),
{
    assert(size.cells() == 1024 * 1024) by (nonlinear_arith)
        requires
            size.width == 1024,
            size.height == 1024,
            size.cells() == size.width as nat * size.height as nat,
    ;
    strokes_on_the_grid_fit_a_batch(size, 0, from, to);
    strokes_on_the_grid_fit_a_batch(size, radius, from, to);
    brush_thickens_its_line(size, radius, from, to, idx);
}

/// The edits of a brush have their places on the board, and no two share one.
pub proof fn brush_stays_on_the_board(
    size: ScreenSize,
    radius: u32,
    value: u32,
    from: Option<(u32, u32)>,
    to: (u32, u32),
    edits: Seq<BrushEdit>,
)
    requires
        paints(edits, brushed_cells(size, radius, from, to), value),
    ensures
        fits_board(edits, size.cells()),
        has_own_places(edits),
{
    assert forall|i: int| 0 <= i < edits.len() implies (#[trigger] edits[i]).idx < size.cells() by {
        let idx = edits[i].idx;
        let x = size.column_of(idx as int);
        let y = size.row_of(idx as int);
        cells_have_their_own_places(size, x, y);
        lemma_place_of_cell(size, idx, x, y);
    }
}

/// The edits that a brush makes when it is put down at `to`, or dragged there
/// from `from`. They come in no particular order.
pub fn brush_edits_between(
    size: ScreenSize,
    radius: u32,
    value: u32,
    from: Option<(u32, u32)>,
    to: (u32, u32),
) -> (edits: Vec<BrushEdit>)
    requires
        size.cells() <= 0x1_0000_0000,
    ensures
        paints(edits@, brushed_cells(size, radius, from, to), value),
{
    broadcast use vstd::std_specs::hash::group_hash_axioms;

    let mut cells: HashSet<u32> = HashSet::new();
    match from {
        Some(from) => {
            sweep_line(size, radius, from, to, &mut cells);
        },
        None => {
            insert_brush_cells(
                size,
                radius,
                (to_signed(to.0) as i32, to_signed(to.1) as i32),
                &mut cells,
            );
        },
    }
    let ghost painted = brushed_cells(size, radius, from, to);
    assert(cells@ =~= painted);
    let mut edits: Vec<BrushEdit> = Vec::new();
    let ghost keys: Seq<u32> = spec_hash_keys_iter(&cells).remaining().unref();
    for idx in it: cells.iter()
        invariant
            it.seq().unref() == keys,
            edits.len() <= MAX_BRUSH_EDITS,
            edits.len() == it.index() || (edits.len() == MAX_BRUSH_EDITS && it.index()
                > MAX_BRUSH_EDITS),
            forall|i: int| #![trigger edits[i]]
                0 <= i < edits.len() ==> edits[i].idx == keys[i] && edits[i].value == value,
    {
        if edits.len() < MAX_BRUSH_EDITS {
            edits.push(BrushEdit::new(*idx, value));
        }
    }
    proof {
        assert(edits@.map_values(|edit: BrushEdit| edit.idx) =~= keys.take(edits.len() as int));
        if painted.len() <= MAX_BRUSH_EDITS {
            assert(keys.take(edits.len() as int) =~= keys);
        }
    }
    edits
}

/// The value that the brush takes a `u32` for has the range of an `i32`, and differs
/// from the `u32` by a multiple of two to the power of 32.
pub proof fn signed_values_keep_their_bits(v: u32)
    ensures
        -0x8000_0000 <= signed(v) < 0x8000_0000,
        signed(v) == v || signed(v) + 0x1_0000_0000 == v,
{
}

/// How large a difference is.
pub open spec fn magnitude(v: int) -> int {
    if v < 0 {
        -v
    } else {
        v
    }
}

/// Whether `part` is on the way from 0 to `whole`.
pub open spec fn on_the_way(part: int, whole: int) -> bool {
    0 <= part <= whole || whole <= part <= 0
}

/// Whether `short` of `long` steps are as near to `product / long` as can be, and the
/// larger number where two are as near.
pub open spec fn rounds(long: int, short: int, product: int) -> bool {
    &&& 2 * (long * short - product) <= long
    &&& long > 0 ==> -long < 2 * (long * short - product)
}

/// Whether a cell is on the way between two cells, and as near to the straight line
/// between them as any cell across the axis on which they are farther apart.
pub open spec fn lies_on_line(from: (int, int), to: (int, int), cell: (int, int)) -> bool {
    let dx = magnitude(to.0 - from.0);
    let dy = magnitude(to.1 - from.1);
    let mx = magnitude(cell.0 - from.0);
    let my = magnitude(cell.1 - from.1);
    &&& on_the_way(cell.0 - from.0, to.0 - from.0)
    &&& on_the_way(cell.1 - from.1, to.1 - from.1)
    &&& dx >= dy ==> rounds(dx, my, mx * dy)
    &&& dx < dy ==> rounds(dy, mx, my * dx)
}

/// The line between two cells is straight: after `k` steps it is `k` cells along the
/// axis on which they are farther apart, and within half a cell of the straight line
/// across it, whichever way it runs.
pub proof fn line_is_straight(from: (int, int), to: (int, int), k: int)
    requires
        0 <= k <= line_steps(from, to),
    ensures
        ({
            let (ax, ay) = (to.0 - from.0, to.1 - from.1);
            let (mx, my) = (
                line_point(from, to, k).0 - from.0,
                line_point(from, to, k).1 - from.1,
            );
            let long = if magnitude(ax) >= magnitude(ay) {
                magnitude(ax)
            } else {
                magnitude(ay)
            };
            &&& line_steps(from, to) == long
            &&& magnitude(ax) >= magnitude(ay) ==> magnitude(mx) == k
            &&& magnitude(ax) < magnitude(ay) ==> magnitude(my) == k
            &&& on_the_way(mx, ax)
            &&& on_the_way(my, ay)
            &&& 2 * magnitude(my * ax - mx * ay) <= long
            &&& lies_on_line(from, to, line_point(from, to, k))
        }),
{
    let (ax, ay) = (to.0 - from.0, to.1 - from.1);
    let (dx, dy) = (magnitude(ax), magnitude(ay));
    let (mx, my) = (line_point(from, to, k).0 - from.0, line_point(from, to, k).1 - from.1);
    let (nx, ny) = (magnitude(mx), magnitude(my));
    line_stays_between_its_ends(from, to, k);
    if dx >= dy {
        if dx > 0 {
            share_is_nearest(k, dy, dx);
        }
        assert(dy * k == nx * dy) by (nonlinear_arith)
            requires
                nx == k,
        ;
    } else {
        share_is_nearest(k, dx, dy);
        assert(dx * k == ny * dx) by (nonlinear_arith)
            requires
                ny == k,
        ;
    }
    assert(dx * 0 == 0 && 0 * dy == 0) by (nonlinear_arith);
    assert(magnitude(my * ax - mx * ay) == magnitude(dx * ny - nx * dy)) by (nonlinear_arith)
        requires
            on_the_way(mx, ax),
            on_the_way(my, ay),
            dx == magnitude(ax),
            dy == magnitude(ay),
            nx == magnitude(mx),
            ny == magnitude(my),
    ;
    assert(dx * ny - nx * dy == -(dy * nx - ny * dx)) by (nonlinear_arith);
}

/// The line between two cells is made up of exactly the cells on the way that are
/// nearest to the straight line.
pub proof fn line_has_the_nearest_cells(from: (int, int), to: (int, int), cell: (int, int))
    ensures
        lies_on_line(from, to, cell) <==> exists|k: int|
            0 <= k <= line_steps(from, to) && #[trigger] line_point(from, to, k) == cell,
{
    let dx = magnitude(to.0 - from.0);
    let dy = magnitude(to.1 - from.1);
    let mx = magnitude(cell.0 - from.0);
    let my = magnitude(cell.1 - from.1);
    if lies_on_line(from, to, cell) {
        let k = if dx >= dy {
            mx
        } else {
            my
        };
        if dx >= dy {
            assert(mx * dy == dy * k) by (nonlinear_arith)
                requires
                    mx == k,
            ;
            if dx > 0 {
                nearest_is_share(k, dy, dx, my);
            }
        } else {
            assert(my * dx == dx * k) by (nonlinear_arith)
                requires
                    my == k,
            ;
            nearest_is_share(k, dx, dy, mx);
        }
        assert(line_point(from, to, k) == cell);
    }
    if exists|k: int| 0 <= k <= line_steps(from, to) && #[trigger] line_point(from, to, k) == cell {
        let k = choose|k: int|
            0 <= k <= line_steps(from, to) && #[trigger] line_point(from, to, k) == cell;
        line_is_straight(from, to, k);
    }
}

/// Whether a cell is no farther than `radius` from a cell of the line between two
/// cells.
pub open spec fn near_a_line(
    from: (int, int),
    to: (int, int),
    radius: int,
    x: int,
    y: int,
) -> bool {
    exists|cell: (int, int)| #[trigger]
        lies_on_line(from, to, cell) && (x - cell.0) * (x - cell.0) + (y - cell.1) * (y - cell.1)
            <= radius * radius
}

/// Whether `idx` is the place of a cell of the board that is no farther than the
/// brush's radius from the line along which it is dragged, or from the one cell where
/// it is put down.
pub open spec fn within_reach(
    size: ScreenSize,
    radius: u32,
    from: Option<(u32, u32)>,
    to: (u32, u32),
    idx: u32,
) -> bool {
    let x = idx as int % (size.width as int);
    let y = idx as int / (size.width as int);
    let end = (signed(to.0), signed(to.1));
    &&& 0 <= x < signed(size.width)
    &&& 0 <= y < signed(size.height)
    &&& signed(radius) >= 0
    &&& match from {
        Some(from) => near_a_line(
            (signed(from.0), signed(from.1)),
            end,
            signed(radius),
            x,
            y,
        ),
        None => near_a_line(end, end, signed(radius), x, y),
    }
}

/// A brush covers the cells of the board that are no farther than its radius from
/// the line along which it is dragged, or from the cell where it is put down.
pub proof fn brush_covers_what_is_near(
    size: ScreenSize,
    radius: u32,
    from: Option<(u32, u32)>,
    to: (u32, u32),
    idx: u32,
)
    ensures
        brushed_cells(size, radius, from, to).contains(idx) <==> within_reach(
            size,
            radius,
            from,
            to,
            idx,
        ),
{
    let first = match from {
        Some(from) => from,
        None => to,
    };
    let start = (signed(first.0), signed(first.1));
    let end = (signed(to.0), signed(to.1));
    let x = idx as int % (size.width as int);
    let y = idx as int / (size.width as int);
    line_joins_its_ends(start, end);
    if brushed_cells(size, radius, from, to).contains(idx) {
        let k = if from is Some {
            choose|k: int|
                0 <= k < line_steps(start, end) + 1 && #[trigger] disc_cell(
                    size,
                    radius,
                    line_point(start, end, k),
                    idx,
                )
        } else {
            0
        };
        line_has_the_nearest_cells(start, end, line_point(start, end, k));
        assert(lies_on_line(start, end, line_point(start, end, k)));
    }
    if within_reach(size, radius, from, to, idx) {
        let cell = choose|cell: (int, int)| #[trigger]
            lies_on_line(start, end, cell) && (x - cell.0) * (x - cell.0) + (y - cell.1) * (y
                - cell.1) <= signed(radius) * signed(radius);
        line_has_the_nearest_cells(start, end, cell);
        let k = choose|k: int|
            0 <= k <= line_steps(start, end) && #[trigger] line_point(start, end, k) == cell;
        assert(disc_cell(size, radius, line_point(start, end, k), idx));
    }
}

/// The edits of a stroke put one value at places of their own near the line along
/// which the brush is dragged, and at all such places unless a batch is full.
pub proof fn stroke_paints_near_its_line(
    size: ScreenSize,
    radius: u32,
    value: u32,
    from: Option<(u32, u32)>,
    to: (u32, u32),
    edits: Seq<BrushEdit>,
)
    requires
        paints(edits, brushed_cells(size, radius, from, to), value),
    ensures
        ({
            &&& edits.len() <= 524_288
            &&& forall|i: int| #![trigger edits[i]]
                0 <= i < edits.len() ==> edits[i].value == value && within_reach(
                    size,
                    radius,
                    from,
                    to,
                    edits[i].idx,
                )
            &&& forall|i: int, j: int|
                #![trigger edits[i], edits[j]]
                0 <= i < edits.len() && 0 <= j < edits.len() && edits[i].idx == edits[j].idx ==> i
                    == j
            &&& edits.len() < 524_288 ==> forall|idx: u32| #[trigger]
                within_reach(size, radius, from, to, idx) ==> exists|i: int|
                    0 <= i < edits.len() && (#[trigger] edits[i]).idx == idx
        }),
{
    assert forall|i: int| #![trigger edits[i]] 0 <= i < edits.len() implies edits[i].value == value
        && within_reach(size, radius, from, to, edits[i].idx) by {
        brush_covers_what_is_near(size, radius, from, to, edits[i].idx);
    }
    if edits.len() < 524_288 {
        let places = edits.map_values(|edit: BrushEdit| edit.idx);
        assert forall|idx: u32| #[trigger]
            within_reach(size, radius, from, to, idx) implies exists|i: int|
            0 <= i < edits.len() && (#[trigger] edits[i]).idx == idx by {
            brush_covers_what_is_near(size, radius, from, to, idx);
            assert(edited_cells(edits).contains(idx));
            let i = choose|i: int| 0 <= i < places.len() && places[i] == idx;
            assert(edits[i].idx == idx);
        }
    }
}

} // verus!
