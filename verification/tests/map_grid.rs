use combat_core::geometry::Position;
use combat_core::map_grid::{
    check_and_spawn_map, ensure_base_map, grid_cell, tile_center, MapGrid, MapTile,
};

const WIDTH: i32 = 10_688_000;
const HEIGHT: i32 = 5_248_000;

fn at(x: i32, y: i32) -> Position {
    Position { x, y }
}

#[test]
fn positions_fall_into_the_nearest_cell() {
    assert_eq!(grid_cell(at(0, 0)), (0, 0));
    assert_eq!(grid_cell(at(WIDTH / 2 - 1, HEIGHT / 2 - 1)), (0, 0));
    // Half way between two cells the one further from zero is taken.
    assert_eq!(grid_cell(at(WIDTH / 2, HEIGHT / 2)), (1, 1));
    assert_eq!(grid_cell(at(-WIDTH / 2, -HEIGHT / 2)), (-1, -1));
    assert_eq!(grid_cell(at(-WIDTH / 2 + 1, -HEIGHT / 2 + 1)), (0, 0));
    assert_eq!(grid_cell(at(3 * WIDTH, -2 * HEIGHT)), (3, -2));
    assert_eq!(grid_cell(at(i32::MAX, i32::MIN)), (201, -409));
}

#[test]
fn tiles_lie_on_the_grid() {
    assert_eq!(tile_center((0, 0)), at(0, 0));
    assert_eq!(tile_center((2, -3)), at(2 * WIDTH, -3 * HEIGHT));
    assert_eq!(tile_center((300, -500)), at(i32::MAX, i32::MIN));
}

#[test]
fn a_new_grid_is_empty() {
    let grid = MapGrid::new();
    assert!(!grid.holds((0, 0)));
    assert!(!grid.holds((1, -1)));
}

#[test]
fn the_first_tile_is_spawned_once() {
    let mut grid = MapGrid::new();
    assert!(ensure_base_map(&mut grid, 0));
    assert!(grid.holds((0, 0)));
    assert!(!grid.holds((0, 1)));
    assert!(!ensure_base_map(&mut grid, 1));
    let mut other = MapGrid::new();
    assert!(!ensure_base_map(&mut other, 3));
    assert!(!other.holds((0, 0)));
}

#[test]
fn the_square_around_the_player_is_filled() {
    let mut grid = MapGrid::new();
    assert!(ensure_base_map(&mut grid, 0));
    let changes = check_and_spawn_map(&mut grid, at(WIDTH, 0), &Vec::new());
    // The cell at the origin is held already; the other eight are new, column by column.
    assert_eq!(
        changes.spawned,
        vec![(0, -1), (0, 1), (1, -1), (1, 0), (1, 1), (2, -1), (2, 0), (2, 1)]
    );
    assert!(changes.despawned.is_empty());
    for x in 0..=2 {
        for y in -1..=1 {
            assert!(grid.holds((x, y)));
        }
    }
    assert!(!grid.holds((-1, 0)));
    assert!(!grid.holds((3, 0)));
    let again = check_and_spawn_map(&mut grid, at(WIDTH, 0), &Vec::new());
    assert!(again.spawned.is_empty());
}

#[test]
fn tiles_that_fall_behind_are_despawned() {
    let mut grid = MapGrid::new();
    check_and_spawn_map(&mut grid, at(0, 0), &Vec::new());
    let tiles: Vec<MapTile> = vec![
        MapTile { entity: 10, position: tile_center((-1, 0)) },
        MapTile { entity: 11, position: tile_center((0, 0)) },
        MapTile { entity: 12, position: tile_center((1, 1)) },
        MapTile { entity: 13, position: tile_center((0, -1)) },
    ];
    // The player walks two cells to the right and one up.
    let changes = check_and_spawn_map(&mut grid, at(2 * WIDTH, HEIGHT), &tiles);
    assert_eq!(changes.despawned, vec![10, 11, 13]);
    assert_eq!(
        changes.spawned,
        vec![(1, 2), (2, 0), (2, 1), (2, 2), (3, 0), (3, 1), (3, 2)]
    );
    assert!(!grid.holds((-1, 0)));
    assert!(!grid.holds((0, 0)));
    assert!(!grid.holds((0, -1)));
    assert!(grid.holds((1, 1)));
    assert!(grid.holds((1, 0)));
    assert!(grid.holds((3, 2)));
    // A cell whose tile was not listed stays in the grid.
    assert!(grid.holds((-1, -1)));
}

#[test]
fn clearing_the_grid_forgets_every_cell() {
    let mut grid = MapGrid::new();
    check_and_spawn_map(&mut grid, at(0, 0), &Vec::new());
    assert!(grid.holds((1, 1)));
    grid.clear();
    for x in -1..=1 {
        for y in -1..=1 {
            assert!(!grid.holds((x, y)));
        }
    }
    let changes = check_and_spawn_map(&mut grid, at(0, 0), &Vec::new());
    assert_eq!(changes.spawned.len(), 9);
}
