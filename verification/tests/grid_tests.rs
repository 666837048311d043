use gridworld::{player_spawn_cell, tile_for_noise_sign, MapError, MapTiles, Tile, UVec2};

fn sample_map() -> MapTiles {
    MapTiles::new().with_tiles(vec![
        vec![Tile::Wall, Tile::Floor, Tile::Void],
        vec![Tile::Floor, Tile::Wall, Tile::Floor],
    ])
}

#[test]
fn new_map_has_one_empty_row() {
    let m = MapTiles::new();
    assert_eq!(m.dimension(), UVec2 { x: 0, y: 1 });
    assert_eq!(m.tile(0, 0), Err(MapError::OutOfBounds));
    assert!(m.tiles_iter().is_empty());
}

#[test]
fn empty_grid_is_reported() {
    let mut m = MapTiles::new().with_tiles(vec![]);
    assert_eq!(m.dimension(), UVec2 { x: 0, y: 0 });
    assert_eq!(m.tile(0, 0), Err(MapError::GridEmpty));
    assert_eq!(m.set_tile(0, 0, Tile::Wall), Err(MapError::GridEmpty));
    assert_eq!(MapError::GridEmpty.message(), "Grid is empty");
}

#[test]
fn reads_cells_and_reports_out_of_bounds() {
    let m = sample_map();
    assert_eq!(m.dimension(), UVec2 { x: 3, y: 2 });
    assert_eq!(m.tile(0, 0), Ok(Tile::Wall));
    assert_eq!(m.tile(2, 0), Ok(Tile::Void));
    assert_eq!(m.tile(0, 1), Ok(Tile::Floor));
    assert_eq!(m.tile(3, 0), Err(MapError::OutOfBounds));
    assert_eq!(m.tile(0, 2), Err(MapError::OutOfBounds));
    assert_eq!(MapError::OutOfBounds.message(), "Tile coordinate out of boundary");
}

#[test]
fn write_then_read_back() {
    let mut m = sample_map();
    assert_eq!(m.set_tile(2, 1, Tile::Void), Ok(()));
    assert_eq!(m.tile(2, 1), Ok(Tile::Void));
    // the other cells keep their tiles
    assert_eq!(m.tile(1, 1), Ok(Tile::Wall));
    assert_eq!(m.tile(2, 0), Ok(Tile::Void));
    // writing the tile a cell already holds changes nothing
    assert_eq!(m.set_tile(0, 0, Tile::Wall), Ok(()));
    assert_eq!(m.tile(0, 0), Ok(Tile::Wall));
    assert_eq!(m.dimension(), UVec2 { x: 3, y: 2 });
}

#[test]
fn failed_write_changes_nothing() {
    let mut m = sample_map();
    assert_eq!(m.set_tile(5, 0, Tile::Floor), Err(MapError::OutOfBounds));
    assert_eq!(m.set_tile(0, 7, Tile::Floor), Err(MapError::OutOfBounds));
    assert_eq!(m.tiles_iter(), sample_map().tiles_iter());
}

#[test]
fn ragged_rows_are_bounded_by_the_first_row() {
    let m = MapTiles::new().with_tiles(vec![vec![Tile::Floor], vec![Tile::Wall, Tile::Void]]);
    assert_eq!(m.dimension(), UVec2 { x: 1, y: 2 });
    assert_eq!(m.tile(1, 1), Err(MapError::OutOfBounds));
    // the listing follows each row's own length
    let cells = m.tiles_iter();
    assert_eq!(cells.len(), 3);
    assert_eq!(cells[2], (UVec2 { x: 1, y: 1 }, Tile::Void));
    // only the cells within the dimension are searched
    assert_eq!(m.tiles_of_type(Tile::Void), vec![]);
}

#[test]
fn tiles_iter_lists_cells_row_by_row() {
    let cells = sample_map().tiles_iter();
    assert_eq!(cells.len(), 6);
    assert_eq!(cells[0], (UVec2 { x: 0, y: 0 }, Tile::Wall));
    assert_eq!(cells[1], (UVec2 { x: 1, y: 0 }, Tile::Floor));
    assert_eq!(cells[2], (UVec2 { x: 2, y: 0 }, Tile::Void));
    assert_eq!(cells[3], (UVec2 { x: 0, y: 1 }, Tile::Floor));
    // entry y * width + x is cell (x, y)
    assert_eq!(cells[1 * 3 + 1], (UVec2 { x: 1, y: 1 }, Tile::Wall));
    assert_eq!(cells[5], (UVec2 { x: 2, y: 1 }, Tile::Floor));
}

#[test]
fn tiles_of_type_finds_each_matching_cell_once() {
    let m = sample_map();
    let floors = m.tiles_of_type(Tile::Floor);
    assert_eq!(floors, vec![UVec2 { x: 1, y: 0 }, UVec2 { x: 0, y: 1 }, UVec2 { x: 2, y: 1 }]);
    for c in &floors {
        assert_eq!(m.tile(c.x as usize, c.y as usize), Ok(Tile::Floor));
    }
    assert_eq!(m.tiles_of_type(Tile::Wall), vec![UVec2 { x: 0, y: 0 }, UVec2 { x: 1, y: 1 }]);
    assert_eq!(m.tiles_of_type(Tile::Void), vec![UVec2 { x: 2, y: 0 }]);
}

#[test]
fn tile_kinds_split_the_map() {
    let m = sample_map();
    let total = m.tiles_of_type(Tile::Wall).len()
        + m.tiles_of_type(Tile::Floor).len()
        + m.tiles_of_type(Tile::Void).len();
    assert_eq!(total, 6);
}

#[test]
fn spawn_on_first_floor_cell() {
    assert_eq!(player_spawn_cell(&sample_map()), UVec2 { x: 1, y: 0 });
}

#[test]
fn spawn_at_origin_without_floor() {
    let m = MapTiles::new().with_tiles(vec![vec![Tile::Wall, Tile::Void]]);
    assert_eq!(player_spawn_cell(&m), UVec2 { x: 0, y: 0 });
    assert_eq!(player_spawn_cell(&MapTiles::new()), UVec2 { x: 0, y: 0 });
}

#[test]
fn noise_signs_become_walls_and_floors() {
    let signs = vec![vec![true, false, false], vec![false, true, true]];
    let m = MapTiles::from_noise_signs(&signs);
    assert_eq!(m.dimension(), UVec2 { x: 3, y: 2 });
    assert_eq!(m.tile(0, 0), Ok(Tile::Wall));
    assert_eq!(m.tile(1, 0), Ok(Tile::Floor));
    assert_eq!(m.tile(2, 1), Ok(Tile::Wall));
    assert!(m.tiles_of_type(Tile::Void).is_empty());
    assert_eq!(tile_for_noise_sign(true), Tile::Wall);
    assert_eq!(tile_for_noise_sign(false), Tile::Floor);
}

#[test]
fn empty_noise_gives_empty_map() {
    let m = MapTiles::from_noise_signs(&vec![]);
    assert_eq!(m.dimension(), UVec2 { x: 0, y: 0 });
    assert_eq!(m.tile(0, 0), Err(MapError::GridEmpty));
}

#[test]
fn readability_checks() {
    let m = MapTiles::new().with_tiles(vec![vec![Tile::Floor, Tile::Floor], vec![Tile::Wall]]);
    assert!(m.can_read(1, 0));
    assert!(!m.can_read(1, 1));
    assert!(m.can_read(0, 1));
    // cells out of bounds are reported, not read
    assert!(m.can_read(9, 9));
    assert!(!m.covers_dimension());
    assert!(sample_map().covers_dimension());
    assert!(MapTiles::new().covers_dimension());
}
