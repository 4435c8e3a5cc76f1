//! The tiles of the endless map: which cells of the grid around the player
//! need a tile and which tiles have fallen behind.

use crate::geometry::{clamp_coordinate, Position};
use vstd::prelude::*;

verus! {

/// Width of a map tile.
pub const MAP_WIDTH: u32 = 10_688_000;

/// Height of a map tile.
pub const MAP_HEIGHT: u32 = 5_248_000;

/// The cells of the grid that hold a map tile.
#[verifier::external_body]
pub struct MapGrid {
    positions: bevy::utils::HashSet<(i32, i32)>,
}

/// The cells that a grid holds.
pub uninterp spec fn grid_cells(grid: MapGrid) -> Set<(i32, i32)>;

/// Makes a grid without cells.
///
/// Trusted: `Default::default` of the hash set of `bevy::utils`, which
/// holds nothing.
#[verifier::external_body]
fn empty_grid() -> (grid: MapGrid)
    ensures
        grid_cells(grid) == Set::<(i32, i32)>::empty(),
{
    MapGrid { positions: Default::default() }
}

/// Tells whether the grid holds `cell`.
///
/// Trusted: `contains` of the hash set, which is true exactly for the
/// values that the set holds.
#[verifier::external_body]
fn grid_contains(grid: &MapGrid, cell: (i32, i32)) -> (held: bool)
    ensures
        held == grid_cells(*grid).contains(cell),
{
    grid.positions.contains(&cell)
}

/// Puts `cell` into the grid.
///
/// Trusted: `insert` of the hash set, after which the set holds the value
/// besides what it held; it returns whether the value was new.
#[verifier::external_body]
fn grid_insert(grid: &mut MapGrid, cell: (i32, i32)) -> (fresh: bool)
    ensures
        grid_cells(*final(grid)) == grid_cells(*old(grid)).insert(cell),
        fresh == !grid_cells(*old(grid)).contains(cell),
{
    grid.positions.insert(cell)
}

/// Takes `cell` out of the grid.
///
/// Trusted: `remove` of the hash set, after which the set holds what it
/// held but the value; it returns whether the value was there.
#[verifier::external_body]
fn grid_remove(grid: &mut MapGrid, cell: (i32, i32)) -> (held: bool)
    ensures
        grid_cells(*final(grid)) == grid_cells(*old(grid)).remove(cell),
        held == grid_cells(*old(grid)).contains(cell),
{
    grid.positions.remove(&cell)
}

/// Empties the grid.
///
/// Trusted: `clear` of the hash set, after which the set holds nothing.
#[verifier::external_body]
fn grid_clear(grid: &mut MapGrid)
    ensures
        grid_cells(*final(grid)) == Set::<(i32, i32)>::empty(),
{
    grid.positions.clear()
}

impl MapGrid {
    /// A grid without cells.
    pub fn new() -> (grid: MapGrid)
        ensures
            grid_cells(grid) == Set::<(i32, i32)>::empty(),
    {
        empty_grid()
    }

    /// Whether the grid holds `cell`.
    pub fn holds(&self, cell: (i32, i32)) -> (held: bool)
        ensures
            held == grid_cells(*self).contains(cell),
    {
        grid_contains(self, cell)
    }

    /// Forgets every cell.
    pub fn clear(&mut self)
        ensures
            grid_cells(*final(self)) == Set::<(i32, i32)>::empty(),
    {
        grid_clear(self)
    }
}

/// A map tile in the world: its handle and where it lies.
#[derive(Clone, Copy, Debug, PartialEq, Eq, Structural)]
pub struct MapTile {
    pub entity: u64,
    pub position: Position,
}

/// What is to be done about the map: the cells that need a new tile and the
/// handles of the tiles to despawn.
#[derive(Debug)]
pub struct MapChanges {
    pub spawned: Vec<(i32, i32)>,
    pub despawned: Vec<u64>,
}

/// The number of the grid line nearest to `coordinate` on a grid whose
/// lines lie `span` apart; half way between two lines the one further from
/// zero is taken.
pub open spec fn nearest_line(coordinate: int, span: int) -> int {
    if coordinate >= 0 {
        (2 * coordinate + span) / (2 * span)
    } else {
        -((span - 2 * coordinate) / (2 * span))
    }
}

/// The cell of the grid in which `position` lies.
pub open spec fn cell_of(position: Position) -> (i32, i32) {
    (
        nearest_line(position.x as int, MAP_WIDTH as int) as i32,
        nearest_line(position.y as int, MAP_HEIGHT as int) as i32,
    )
}

/// Computes the number of the grid line nearest to `coordinate`.
fn line_of(coordinate: i32, span: u32) -> (line: i32)
    requires
        span >= 1_000_000,
    ensures
        line == nearest_line(coordinate as int, span as int),
        -2200 <= line <= 2200,
{
    let c: i64 = coordinate as i64;
    let s: i64 = span as i64;
    if c >= 0 {
        let line = (2 * c + s) / (2 * s);
        assert(0 <= line <= 2200) by (nonlinear_arith)
            requires
                line == (2 * c + s) / (2 * s),
                0 <= c <= 0x8000_0000,
                s >= 1_000_000,
        ;
        line as i32
    } else {
        let line = (s - 2 * c) / (2 * s);
        assert(0 <= line <= 2200) by (nonlinear_arith)
            requires
                line == (s - 2 * c) / (2 * s),
                -0x8000_0000 <= c < 0,
                s >= 1_000_000,
        ;
        (-line) as i32
    }
}

/// Computes the cell of the grid in which `position` lies.
pub fn grid_cell(position: Position) -> (cell: (i32, i32))
    ensures
        cell == cell_of(position),
        -2200 <= cell.0 <= 2200,
        -2200 <= cell.1 <= 2200,
{
    (line_of(position.x, MAP_WIDTH), line_of(position.y, MAP_HEIGHT))
}

/// The position of the tile of `cell`; coordinates stop at the bounds of
/// `i32`.
pub open spec fn tile_position(cell: (i32, i32)) -> Position {
    Position {
        x: clamp_coordinate(cell.0 * MAP_WIDTH),
        y: clamp_coordinate(cell.1 * MAP_HEIGHT),
    }
}

/// Computes the position of the tile of `cell`.
pub fn tile_center(cell: (i32, i32)) -> (position: Position)
    ensures
        position == tile_position(cell),
{
    let x: i64 = (cell.0 as i64) * (MAP_WIDTH as i64);
    let y: i64 = (cell.1 as i64) * (MAP_HEIGHT as i64);
    Position {
        x: if x < i32::MIN as i64 {
            i32::MIN
        } else if x > i32::MAX as i64 {
            i32::MAX
        } else {
            x as i32
        },
        y: if y < i32::MIN as i64 {
            i32::MIN
        } else if y > i32::MAX as i64 {
            i32::MAX
        } else {
            y as i32
        },
    }
}

/// The neighbour with the number `k` of `center`: the nine cells of the
/// square around it, the centre included, column by column.
pub open spec fn neighbour(center: (i32, i32), k: int) -> (i32, i32) {
    ((center.0 + k / 3 - 1) as i32, (center.1 + k % 3 - 1) as i32)
}

/// Whether `cell` lies outside the square of nine cells around `center`.
pub open spec fn is_far(cell: (i32, i32), center: (i32, i32)) -> bool {
    cell.0 - center.0 > 1 || center.0 - cell.0 > 1 || cell.1 - center.1 > 1 || center.1 - cell.1
        > 1
}

/// The cells held after the first `count` neighbours of `center` were put
/// into `cells`.
pub open spec fn with_neighbours(cells: Set<(i32, i32)>, center: (i32, i32), count: nat) -> Set<
    (i32, i32),
>
    decreases count,
{
    if count == 0 {
        cells
    } else {
        with_neighbours(cells, center, (count - 1) as nat).insert(neighbour(center, count - 1))
    }
}

/// Those among the first `count` neighbours of `center` that `cells` does
/// not hold, in order.
pub open spec fn missing_neighbours(cells: Set<(i32, i32)>, center: (i32, i32), count: nat)
    -> Seq<(i32, i32)>
    decreases count,
{
    if count == 0 {
        Seq::empty()
    } else {
        let before = missing_neighbours(cells, center, (count - 1) as nat);
        if with_neighbours(cells, center, (count - 1) as nat).contains(
            neighbour(center, count - 1),
        ) {
            before
        } else {
            before.push(neighbour(center, count - 1))
        }
    }
}

/// The cells held after the cells of those among the first `count` tiles
/// that lie far from `center` were taken out of `cells`.
pub open spec fn without_far(
    cells: Set<(i32, i32)>,
    tiles: Seq<MapTile>,
    center: (i32, i32),
    count: nat,
) -> Set<(i32, i32)>
    decreases count,
{
    if count == 0 {
        cells
    } else {
        let before = without_far(cells, tiles, center, (count - 1) as nat);
        if is_far(cell_of(tiles[count - 1].position), center) {
            before.remove(cell_of(tiles[count - 1].position))
        } else {
            before
        }
    }
}

/// The handles of those among the first `count` tiles that lie far from
/// `center`, in order.
pub open spec fn far_tiles(tiles: Seq<MapTile>, center: (i32, i32), count: nat) -> Seq<u64>
    decreases count,
{
    if count == 0 {
        Seq::empty()
    } else {
        let before = far_tiles(tiles, center, (count - 1) as nat);
        if is_far(cell_of(tiles[count - 1].position), center) {
            before.push(tiles[count - 1].entity)
        } else {
            before
        }
    }
}

/// After the square was filled the grid holds each of its nine cells, and
/// whatever it held before.
pub proof fn lemma_square_is_filled(cells: Set<(i32, i32)>, center: (i32, i32), count: nat)
    ensures
        forall|k: int|
            0 <= k < count ==> with_neighbours(cells, center, count).contains(
                #[trigger] neighbour(center, k),
            ),
        forall|cell: (i32, i32)|
            cells.contains(cell) ==> with_neighbours(cells, center, count).contains(cell),
        forall|cell: (i32, i32)|
            with_neighbours(cells, center, count).contains(cell) ==> cells.contains(cell) || exists|
                k: int,
            |
                0 <= k < count && cell == neighbour(center, k),
    decreases count,
{
    if count > 0 {
        lemma_square_is_filled(cells, center, (count - 1) as nat);
    }
}

/// Taking out the tiles that fell behind takes no cell out of the square
/// around the player, and puts no cell in.
pub proof fn lemma_near_cells_stay(
    cells: Set<(i32, i32)>,
    tiles: Seq<MapTile>,
    center: (i32, i32),
    count: nat,
)
    ensures
        forall|cell: (i32, i32)|
            cells.contains(cell) && !is_far(cell, center) ==> without_far(
                cells,
                tiles,
                center,
                count,
            ).contains(cell),
        forall|cell: (i32, i32)|
            without_far(cells, tiles, center, count).contains(cell) ==> cells.contains(cell),
    decreases count,
{
    if count > 0 {
        lemma_near_cells_stay(cells, tiles, center, (count - 1) as nat);
    }
}

/// Keeps the map around the player.
///
/// Every cell of the square of nine cells around the player's cell that the
/// grid does not hold is put into it and reported, so that a tile can be
/// spawned there. Every tile that lies outside that square is reported for
/// despawning, and its cell is taken out of the grid.
pub fn check_and_spawn_map(grid: &mut MapGrid, player: Position, tiles: &Vec<MapTile>) -> (changes:
    MapChanges)
    ensures
        changes.spawned@ == missing_neighbours(grid_cells(*old(grid)), cell_of(player), 9),
        changes.despawned@ == far_tiles(tiles@, cell_of(player), tiles@.len()),
        grid_cells(*final(grid)) == without_far(
            with_neighbours(grid_cells(*old(grid)), cell_of(player), 9),
            tiles@,
            cell_of(player),
            tiles@.len(),
        ),
        forall|k: int|
            0 <= k < 9 ==> grid_cells(*final(grid)).contains(
                #[trigger] neighbour(cell_of(player), k),
            ),
{
    proof {
        let filled = with_neighbours(grid_cells(*grid), cell_of(player), 9);
        lemma_square_is_filled(grid_cells(*grid), cell_of(player), 9);
        lemma_near_cells_stay(filled, tiles@, cell_of(player), tiles@.len());
    }
    let center = grid_cell(player);
    let ghost start = grid_cells(*grid);
    let mut spawned: Vec<(i32, i32)> = Vec::new();
    let mut k: i32 = 0;
    while k < 9
        invariant
            0 <= k <= 9,
            center == cell_of(player),
            -2200 <= center.0 <= 2200,
            -2200 <= center.1 <= 2200,
            grid_cells(*grid) == with_neighbours(start, center, k as nat),
            spawned@ == missing_neighbours(start, center, k as nat),
        decreases 9 - k,
    {
        let cell = (center.0 + k / 3 - 1, center.1 + k % 3 - 1);
        if !grid_contains(grid, cell) {
            spawned.push(cell);
        }
        let _ = grid_insert(grid, cell);
        k += 1;
    }
    let ghost grown = grid_cells(*grid);
    let mut despawned: Vec<u64> = Vec::new();
    let mut index: usize = 0;
    while index < tiles.len()
        invariant
            index <= tiles.len(),
            center == cell_of(player),
            -2200 <= center.0 <= 2200,
            -2200 <= center.1 <= 2200,
            grid_cells(*grid) == without_far(grown, tiles@, center, index as nat),
            despawned@ == far_tiles(tiles@, center, index as nat),
        decreases tiles.len() - index,
    {
        let tile = tiles[index];
        let cell = grid_cell(tile.position);
        if cell.0 - center.0 > 1 || center.0 - cell.0 > 1 || cell.1 - center.1 > 1 || center.1
            - cell.1 > 1 {
            despawned.push(tile.entity);
            let _ = grid_remove(grid, cell);
        }
        index += 1;
    }
    MapChanges { spawned, despawned }
}

/// Makes sure that the map has its first tile: if there is no tile at all,
/// the cell at the origin is put into the grid. Returns whether the tile at
/// the origin is to be spawned.
pub fn ensure_base_map(grid: &mut MapGrid, tiles: usize) -> (spawn: bool)
    ensures
        spawn == (tiles == 0),
        grid_cells(*final(grid)) == (if tiles == 0 {
            grid_cells(*old(grid)).insert((0i32, 0i32))
        } else {
            grid_cells(*old(grid))
        }),
{
    if tiles != 0 {
        return false;
    }
    let _ = grid_insert(grid, (0, 0));
    true
}

} // verus!
