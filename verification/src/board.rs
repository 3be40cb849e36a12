//! Boards: their cells, how cells are numbered, and the boards that games start
//! from.

use vstd::arithmetic::div_mod::lemma_fundamental_div_mod_converse;
use vstd::arithmetic::mul::lemma_mul_inequality;
use vstd::prelude::*;

verus! {

/// The number of columns and rows of a board.
#[derive(Clone, Copy, Debug, PartialEq, Eq, Structural)]
pub struct ScreenSize {
    pub width: u32,
    pub height: u32,
}

/// The number of columns of the board that the program runs on.
pub const GRID_WIDTH: u32 = 1024;

/// The number of rows of the board that the program runs on.
pub const GRID_HEIGHT: u32 = 1024;

/// The rules that a board follows.
#[derive(Clone, Copy, Debug, PartialEq, Eq, Structural)]
pub enum GameMode {
    /// Rock, paper, scissors: cells are 1, 2 and 3, and 0 where a cell is empty.
    Rps,
    /// The game of life: 1 is a live cell and 2 a dead one.
    Life,
}

impl ScreenSize {
    /// The number of cells.
    pub open spec fn cells(self) -> nat {
        self.width as nat * self.height as nat
    }

    /// Whether a cell of these coordinates is on the board.
    pub open spec fn holds(self, x: int, y: int) -> bool {
        0 <= x < self.width && 0 <= y < self.height
    }

    /// The place of a cell in the board's memory, which holds row after row.
    pub open spec fn index_of(self, x: int, y: int) -> int {
        y * self.width + x
    }

    /// The column of the cell at a place.
    pub open spec fn column_of(self, idx: int) -> int {
        idx % (self.width as int)
    }

    /// The row of the cell at a place.
    pub open spec fn row_of(self, idx: int) -> int {
        idx / (self.width as int)
    }
}

/// The SplitMix64 finaliser.
pub open spec fn mixed(value: u64) -> u64 {
    let a = value.wrapping_add(0x9E37_79B9_7F4A_7C15);
    let b = (a ^ (a >> 30)).wrapping_mul(0xBF58_476D_1CE4_E5B9);
    let c = (b ^ (b >> 27)).wrapping_mul(0x94D0_49BB_1331_11EB);
    c ^ (c >> 31)
}

/// The noise of a cluster of cells.
pub open spec fn cluster_noise(seed: u64, cluster_x: u64, cluster_y: u64) -> u64 {
    mixed(
        seed ^ cluster_x.wrapping_mul(0xD1B5_4A32_D192_ED03) ^ cluster_y.wrapping_mul(
            0xABC9_83AD_8EBC_8A63,
        ),
    )
}

/// The cell that noise stands for.
pub open spec fn noise_cell(noise: u64, game_mode: GameMode) -> u32 {
    match game_mode {
        GameMode::Rps => (1 + noise % 3) as u32,
        GameMode::Life => if noise % 4 == 0 {
            1
        } else {
            2
        },
    }
}

/// The side of a cluster: none is smaller than a cell.
pub open spec fn cluster_side(cluster_size: u32) -> int {
    if cluster_size == 0 {
        1
    } else {
        cluster_size as int
    }
}

/// The cell that a game starts with at a place.
pub open spec fn starting_cell(
    x: int,
    y: int,
    seed: u64,
    cluster_size: u32,
    game_mode: GameMode,
) -> u32 {
    let side = cluster_side(cluster_size);
    noise_cell(cluster_noise(seed, (x / side) as u64, (y / side) as u64), game_mode)
}

/// The board that a game starts with.
pub open spec fn starting_board(
    size: ScreenSize,
    seed: u64,
    cluster_size: u32,
    game_mode: GameMode,
) -> Seq<u32> {
    Seq::new(
        size.cells(),
        |i: int|
            starting_cell(
                size.column_of(i),
                size.row_of(i),
                seed,
                cluster_size,
                game_mode,
            ),
    )
}

/// A cell on the board has its place in the board's memory, no two cells share
/// one, and the coordinates can be read off it.
pub proof fn cells_have_their_own_places(size: ScreenSize, x: int, y: int)
    requires
        size.holds(x, y),
    ensures
        0 <= size.index_of(x, y) < size.cells(),
        size.column_of(size.index_of(x, y)) == x,
        size.row_of(size.index_of(x, y)) == y,
{
    let width = size.width as int;
    lemma_fundamental_div_mod_converse(size.index_of(x, y), width, y, x);
    lemma_mul_inequality(y + 1, size.height as int, width);
    assert((y + 1) * width == y * width + width) by (nonlinear_arith);
    assert(0 <= y * width) by (nonlinear_arith)
        requires
            0 <= y,
            0 <= width,
    ;
    assert((size.height as int) * width == size.cells()) by (nonlinear_arith)
        requires
            width == size.width as int,
            size.cells() == size.width as nat * size.height as nat,
    ;
}

/// A starting board holds at the place of each cell what the game starts with
/// there.
pub proof fn starting_board_is_row_major(
    size: ScreenSize,
    seed: u64,
    cluster_size: u32,
    game_mode: GameMode,
    x: int,
    y: int,
)
    requires
        size.holds(x, y),
    ensures
        starting_board(size, seed, cluster_size, game_mode)[size.index_of(x, y)] == starting_cell(
            x,
            y,
            seed,
            cluster_size,
            game_mode,
        ),
{
    cells_have_their_own_places(size, x, y);
}

/// A starting board holds only cells that its game knows: rocks, papers and
/// scissors, or live and dead cells.
pub proof fn starting_cells_are_playable(
    size: ScreenSize,
    seed: u64,
    cluster_size: u32,
    game_mode: GameMode,
    i: int,
)
    requires
        0 <= i < size.cells(),
    ensures
        1 <= starting_board(size, seed, cluster_size, game_mode)[i] <= match game_mode {
            GameMode::Rps => 3int,
            GameMode::Life => 2int,
        },
{
}

/// All cells of a cluster start alike.
pub proof fn clusters_start_uniform(
    x1: int,
    y1: int,
    x2: int,
    y2: int,
    seed: u64,
    cluster_size: u32,
    game_mode: GameMode,
)
    requires
        x1 / cluster_side(cluster_size) == x2 / cluster_side(cluster_size),
        y1 / cluster_side(cluster_size) == y2 / cluster_side(cluster_size),
    ensures
        starting_cell(x1, y1, seed, cluster_size, game_mode) == starting_cell(
            x2,
            y2,
            seed,
            cluster_size,
            game_mode,
        ),
{
}

/// No cluster is smaller than a cell.
pub proof fn empty_clusters_are_single_cells(size: ScreenSize, seed: u64, game_mode: GameMode)
    ensures
        starting_board(size, seed, 0, game_mode) == starting_board(size, seed, 1, game_mode),
{
}

/// Scrambles the bits of `value`.
pub fn mix64(value: u64) -> (mix: u64)
    ensures
        mix == mixed(value),
{
    let a: u64 = value.wrapping_add(0x9E37_79B9_7F4A_7C15);
    let b: u64 = (a ^ (a >> 30)).wrapping_mul(0xBF58_476D_1CE4_E5B9);
    let c: u64 = (b ^ (b >> 27)).wrapping_mul(0x94D0_49BB_1331_11EB);
    c ^ (c >> 31)
}

/// The board that a game starts with: every cluster of cells gets a kind that
/// follows from the seed and the cluster's place.
pub fn initial_board(size: ScreenSize, seed: u64, cluster_size: u32, game_mode: GameMode) -> (board:
    Vec<u32>)
    requires
        4 * size.cells() <= isize::MAX,
    ensures
        board@ == starting_board(size, seed, cluster_size, game_mode),
{
    let cluster_size: u32 = cluster_size.max(1);
    let ghost start = starting_board(size, seed, cluster_size, game_mode);
    let ghost width = size.width as int;
    assert(size.width as usize * size.height as usize == size.cells());
    let mut board: Vec<u32> = Vec::with_capacity(size.width as usize * size.height as usize);
    assert(0 * width == 0) by (nonlinear_arith);
    for y in 0..size.height
        invariant
            cluster_size >= 1,
            width == size.width,
            start == starting_board(size, seed, cluster_size, game_mode),
            board.len() == y * width,
            y * width <= start.len(),
            board@ == start.take(y * width),
    {
        for x in 0..size.width
            invariant
                cluster_size >= 1,
                width == size.width,
                y < size.height,
                start == starting_board(size, seed, cluster_size, game_mode),
                board.len() == y * width + x,
                y * width + x <= start.len(),
                board@ == start.take(y * width + x),
        {
            let cluster_x: u32 = x / cluster_size;
            let cluster_y: u32 = y / cluster_size;
            let noise: u64 = mix64(
                seed ^ (cluster_x as u64).wrapping_mul(0xD1B5_4A32_D192_ED03) ^ (
                cluster_y as u64).wrapping_mul(0xABC9_83AD_8EBC_8A63),
            );
            let cell: u32 = match game_mode {
                GameMode::Rps => match noise % 3 {
                    0 => 1,
                    1 => 2,
                    _ => 3,
                },
                GameMode::Life => {
                    if noise % 4 == 0 {
                        1
                    } else {
                        2
                    }
                },
            };
            proof {
                cells_have_their_own_places(size, x as int, y as int);
                starting_board_is_row_major(
                    size,
                    seed,
                    cluster_size,
                    game_mode,
                    x as int,
                    y as int,
                );
            }
            board.push(cell);
        }
        assert((y + 1) * width == y * width + width) by (nonlinear_arith);
    }
    assert(size.height * width == start.len());
    board
}

/// Mixing adds, multiplies and folds the bits of its argument, all modulo two to the
/// power of 64.
pub proof fn mixing_follows_its_three_rounds(value: u64, a: u64, b: u64, c: u64)
    requires
        a == (value + 0x9E37_79B9_7F4A_7C15) % 0x1_0000_0000_0000_0000,
        b == ((a ^ (a >> 30)) * 0xBF58_476D_1CE4_E5B9) % 0x1_0000_0000_0000_0000,
        c == ((b ^ (b >> 27)) * 0x94D0_49BB_1331_11EB) % 0x1_0000_0000_0000_0000,
    ensures
        mixed(value) == c ^ (c >> 31),
{
}

/// The cell at column `x` and row `y` of a starting board follows from the seed and
/// from the quotients of `x` and `y` by the cluster size itself: its cluster's noise
/// is rock, paper or scissors by the remainder by three, and alive where four divides
/// it.
pub proof fn starting_cell_follows_its_cluster(
    size: ScreenSize,
    seed: u64,
    cluster_size: u32,
    x: u32,
    y: u32,
    column: u64,
    row: u64,
)
    requires
        cluster_size >= 1,
        x < size.width,
        y < size.height,
        column == (x / cluster_size) * 0xD1B5_4A32_D192_ED03 % 0x1_0000_0000_0000_0000,
        row == (y / cluster_size) * 0xABC9_83AD_8EBC_8A63 % 0x1_0000_0000_0000_0000,
    ensures
        ({
            let noise = mixed(seed ^ column ^ row);
            let place = y * size.width + x;
            let rps = starting_board(size, seed, cluster_size, GameMode::Rps);
            let life = starting_board(size, seed, cluster_size, GameMode::Life);
            &&& rps.len() == size.width * size.height
            &&& life.len() == size.width * size.height
            &&& 0 <= place < rps.len()
            &&& rps[place] == noise % 3 + 1
            &&& life[place] == if noise % 4 == 0 {
                1int
            } else {
                2int
            }
        }),
{
    cells_have_their_own_places(size, x as int, y as int);
    starting_board_is_row_major(size, seed, cluster_size, GameMode::Rps, x as int, y as int);
    starting_board_is_row_major(size, seed, cluster_size, GameMode::Life, x as int, y as int);
}

/// The clusters of a starting board are as wide and high as the cluster size says: two
/// cells whose columns and rows have the same quotients by it start alike.
pub proof fn cells_of_a_cluster_start_alike(
    size: ScreenSize,
    seed: u64,
    cluster_size: u32,
    game_mode: GameMode,
    x1: u32,
    y1: u32,
    x2: u32,
    y2: u32,
)
    requires
        cluster_size >= 1,
        x1 < size.width,
        x2 < size.width,
        y1 < size.height,
        y2 < size.height,
        x1 / cluster_size == x2 / cluster_size,
        y1 / cluster_size == y2 / cluster_size,
    ensures
        ({
            let board = starting_board(size, seed, cluster_size, game_mode);
            board[y1 * size.width + x1] == board[y2 * size.width + x2]
        }),
{
    starting_board_is_row_major(size, seed, cluster_size, game_mode, x1 as int, y1 as int);
    starting_board_is_row_major(size, seed, cluster_size, game_mode, x2 as int, y2 as int);
}

/// A cluster counts as one cell: the board of one cluster size holds at each cell what
/// the board of single cells holds at the cell's cluster.
pub proof fn clusters_enlarge_single_cells(
    size: ScreenSize,
    seed: u64,
    cluster_size: u32,
    game_mode: GameMode,
    x: u32,
    y: u32,
    column: u32,
    row: u32,
)
    requires
        cluster_size >= 1,
        x < size.width,
        y < size.height,
        column == x / cluster_size,
        row == y / cluster_size,
    ensures
        starting_board(size, seed, cluster_size, game_mode)[y * size.width + x] == starting_board(
            size,
            seed,
            1,
            game_mode,
        )[row * size.width + column],
{
    assert(column <= x && row <= y) by (nonlinear_arith)
        requires
            cluster_size >= 1,
            column == x / cluster_size,
            row == y / cluster_size,
    ;
    starting_board_is_row_major(size, seed, cluster_size, game_mode, x as int, y as int);
    starting_board_is_row_major(size, seed, 1, game_mode, column as int, row as int);
    let cell = noise_cell(cluster_noise(seed, column as u64, row as u64), game_mode);
    assert(starting_cell(x as int, y as int, seed, cluster_size, game_mode) == cell);
    assert(column as int / 1 == column && row as int / 1 == row);
    assert(starting_cell(column as int, row as int, seed, 1, game_mode) == cell);
}

} // verus!
