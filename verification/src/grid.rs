use vstd::prelude::*;

use crate::tile::{tile_for_noise, tile_for_noise_sign, Tile};

verus! {

/// A pair of unsigned grid coordinates, or a pair of extents.
#[derive(Clone, Copy, Debug, PartialEq, Eq, Structural, Hash)]
pub struct UVec2 {
    pub x: u32,
    pub y: u32,
}

/// Why a cell of the map could not be read or written.
#[derive(Clone, Copy, Debug, PartialEq, Eq, Structural)]
pub enum MapError {
    /// The map has no rows at all.
    GridEmpty,
    /// The cell lies outside the first row's width or the number of rows.
    OutOfBounds,
}

/// The text that describes an error.
pub open spec fn error_message(e: MapError) -> Seq<char> {
    match e {
        MapError::GridEmpty => "Grid is empty"@,
        MapError::OutOfBounds => "Tile coordinate out of boundary"@,
    }
}

impl MapError {
    /// The text that describes this error.
    pub fn message(&self) -> (s: String)
        ensures
            s@ == error_message(*self),
    {
        match self {
            MapError::GridEmpty => "Grid is empty".to_owned(),
            MapError::OutOfBounds => "Tile coordinate out of boundary".to_owned(),
        }
    }
}

/// The rows of a map as sequences of tiles, row `y` at index `y`.
pub open spec fn rows_view(v: Seq<Vec<Tile>>) -> Seq<Seq<Tile>> {
    v.map_values(|r: Vec<Tile>| r@)
}

/// A cell lies in the map: there is a row, `y` is a row index and `x` is
/// below the width of the first row.
pub open spec fn in_bounds(rows: Seq<Seq<Tile>>, x: int, y: int) -> bool {
    &&& rows.len() > 0
    &&& 0 <= y < rows.len()
    &&& 0 <= x < rows[0].len()
}

/// Reading cell `(x, y)` stays inside row `y`: a cell in bounds by the first
/// row's width also lies within its own row.
pub open spec fn cell_readable(rows: Seq<Seq<Tile>>, x: int, y: int) -> bool {
    in_bounds(rows, x, y) ==> x < rows[y].len()
}

/// What reading cell `(x, y)` gives.
pub open spec fn spec_tile(rows: Seq<Seq<Tile>>, x: int, y: int) -> Result<Tile, MapError> {
    if rows.len() == 0 {
        Err(MapError::GridEmpty)
    } else if in_bounds(rows, x, y) {
        Ok(rows[y][x])
    } else {
        Err(MapError::OutOfBounds)
    }
}

/// The rows after cell `(x, y)` is set to `t`.
pub open spec fn spec_set_tile(rows: Seq<Seq<Tile>>, x: int, y: int, t: Tile) -> Seq<Seq<Tile>> {
    rows.update(y, rows[y].update(x, t))
}

/// The size of a map: the first row's width and the number of rows, each
/// cut to 32 bits; zero by zero where there is no row.
pub open spec fn spec_dimension(rows: Seq<Seq<Tile>>) -> UVec2 {
    if rows.len() == 0 {
        UVec2 { x: 0, y: 0 }
    } else {
        UVec2 { x: rows[0].len() as u32, y: rows.len() as u32 }
    }
}

/// The cells of one row, left to right, each with its coordinates.
pub open spec fn row_cells(row: Seq<Tile>, y: int) -> Seq<(UVec2, Tile)> {
    Seq::new(row.len(), |x: int| (UVec2 { x: x as u32, y: y as u32 }, row[x]))
}

/// All cells of a map, row by row from row 0, each row left to right.
pub open spec fn spec_cells(rows: Seq<Seq<Tile>>) -> Seq<(UVec2, Tile)>
    decreases rows.len(),
{
    if rows.len() == 0 {
        Seq::empty()
    } else {
        spec_cells(rows.drop_last()) + row_cells(rows.last(), rows.len() - 1)
    }
}

/// Every row below the map's height is at least as wide as the map's width,
/// so that each cell within the dimension can be read.
pub open spec fn rows_cover_dimension(rows: Seq<Seq<Tile>>) -> bool {
    let d = spec_dimension(rows);
    forall|y: int| 0 <= y < d.y ==> d.x <= #[trigger] rows[y].len()
}

/// Cell `c` lies within the dimension of the map and holds `t`.
pub open spec fn cell_of_type(rows: Seq<Seq<Tile>>, t: Tile, c: UVec2) -> bool {
    let d = spec_dimension(rows);
    &&& c.x < d.x
    &&& c.y < d.y
    &&& rows[c.y as int][c.x as int] == t
}

/// `a` comes before `b` when the cells are read row by row.
pub open spec fn row_major_before(a: UVec2, b: UVec2) -> bool {
    a.y < b.y || (a.y == b.y && a.x < b.x)
}

/// The cells come in strictly increasing row-major order.
pub open spec fn row_major_sorted(s: Seq<UVec2>) -> bool {
    forall|i: int, j: int| 0 <= i < j < s.len() ==> row_major_before(#[trigger] s[i], #[trigger] s[j])
}

/// A rectangular-or-ragged grid of tiles, stored row by row.
pub struct MapTiles {
    tiles: Vec<Vec<Tile>>,
}

impl View for MapTiles {
    type V = Seq<Seq<Tile>>;

    closed spec fn view(&self) -> Seq<Seq<Tile>> {
        rows_view(self.tiles@)
    }
}

impl MapTiles {
    /// A map of one empty row.
    pub fn new() -> (m: MapTiles)
        ensures
            m@ == seq![Seq::<Tile>::empty()],
    {
        let m = MapTiles { tiles: vec![Vec::new()] };
        assert(m@ =~= seq![Seq::<Tile>::empty()]);
        m
    }

    /// This map with its rows replaced by `tiles`.
    pub fn with_tiles(self, tiles: Vec<Vec<Tile>>) -> (m: MapTiles)
        ensures
            m@ == rows_view(tiles@),
    {
        let mut m = self;
        m.tiles = tiles;
        m
    }

    /// Whether reading column `x` of row `y` stays inside that row, which
    /// `tile` and `set_tile` need.
    pub fn can_read(&self, x: usize, y: usize) -> (b: bool)
        ensures
            b == cell_readable(self@, x as int, y as int),
    {
        if self.tiles.len() > 0 && y < self.tiles.len() && x < self.tiles[0].len() {
            assert(self.tiles@[y as int]@ == self@[y as int]);
            x < self.tiles[y].len()
        } else {
            true
        }
    }

    /// Whether every row below the height is as wide as the width, which
    /// `tiles_of_type` needs.
    pub fn covers_dimension(&self) -> (b: bool)
        ensures
            b == rows_cover_dimension(self@),
    {
        let dim = self.dimension();
        let ghost rows = self@;
        let mut y: u32 = 0;
        while y < dim.y
            invariant
                rows == self@,
                dim == spec_dimension(rows),
                dim.y <= rows.len(),
                y <= dim.y,
                forall|j: int| 0 <= j < y ==> dim.x <= #[trigger] rows[j].len(),
            decreases dim.y - y,
        {
            assert(self.tiles@[y as int]@ == rows[y as int]);
            if self.tiles[y as usize].len() < dim.x as usize {
                return false;
            }
            y = y + 1;
        }
        true
    }

    /// The tile at column `x` of row `y`.
    pub fn tile(&self, x: usize, y: usize) -> (r: Result<Tile, MapError>)
        requires
            cell_readable(self@, x as int, y as int),
        ensures
            r == spec_tile(self@, x as int, y as int),
    {
        if self.tiles.len() == 0 {
            return Err(MapError::GridEmpty);
        }
        if y < self.tiles.len() && x < self.tiles[0].len() {
            assert(self.tiles@[y as int]@ == self@[y as int]);
            Ok(self.tiles[y][x])
        } else {
            Err(MapError::OutOfBounds)
        }
    }

    /// Sets the tile at column `x` of row `y`; fails, changing nothing,
    /// where `tile` would fail.
    pub fn set_tile(&mut self, x: usize, y: usize, tile: Tile) -> (r: Result<(), MapError>)
        requires
            cell_readable(old(self)@, x as int, y as int),
        ensures
            r is Ok <==> spec_tile(old(self)@, x as int, y as int) is Ok,
            r matches Err(e) ==> spec_tile(old(self)@, x as int, y as int) == Err::<Tile, MapError>(e),
            r is Ok ==> final(self)@ == spec_set_tile(old(self)@, x as int, y as int, tile),
            r is Err ==> final(self)@ == old(self)@,
    {
        let curr_tile = match self.tile(x, y) {
            Ok(t) => t,
            Err(e) => return Err(e),
        };
        let ghost rows = self@;
        assert(rows[y as int] == self.tiles@[y as int]@);
        if curr_tile != tile {
            self.tiles[y][x] = tile;
            assert(self@[y as int] =~= rows[y as int].update(x as int, tile));
        } else {
            assert(rows[y as int].update(x as int, tile) =~= rows[y as int]);
        }
        assert(self@ =~= spec_set_tile(rows, x as int, y as int, tile));
        Ok(())
    }

    /// The width of the first row and the number of rows.
    pub fn dimension(&self) -> (d: UVec2)
        ensures
            d == spec_dimension(self@),
    {
        if self.tiles.len() == 0 {
            UVec2 { x: 0, y: 0 }
        } else {
            UVec2 { x: self.tiles[0].len() as u32, y: self.tiles.len() as u32 }
        }
    }

    /// Every cell with its coordinates, row by row from row 0, each row
    /// left to right over that row's own length; coordinates are cut to
    /// 32 bits.
    pub fn tiles_iter(&self) -> (cells: Vec<(UVec2, Tile)>)
        ensures
            cells@ == spec_cells(self@),
    {
        let ghost rows = self@;
        let mut cells: Vec<(UVec2, Tile)> = Vec::new();
        let mut y: usize = 0;
        while y < self.tiles.len()
            invariant
                rows == self@,
                y <= rows.len(),
                cells@ == spec_cells(rows.take(y as int)),
            decreases self.tiles.len() - y,
        {
            let row = &self.tiles[y];
            assert(row@ == rows[y as int]);
            let ghost before = cells@;
            let mut x: usize = 0;
            while x < row.len()
                invariant
                    row@ == rows[y as int],
                    x <= row.len(),
                    y < rows.len(),
                    cells@ == before + row_cells(row@, y as int).take(x as int),
                decreases row.len() - x,
            {
                cells.push((UVec2 { x: x as u32, y: y as u32 }, row[x]));
                x = x + 1;
                assert(cells@ =~= before + row_cells(row@, y as int).take(x as int));
            }
            assert(row_cells(row@, y as int).take(x as int) =~= row_cells(row@, y as int));
            assert(rows.take(y + 1).drop_last() =~= rows.take(y as int));
            assert(rows.take(y + 1).last() == rows[y as int]);
            y = y + 1;
        }
        assert(rows.take(y as int) =~= rows);
        cells
    }

    /// The cells within the dimension that hold `tile_type`, in row-major
    /// order, each once.
    pub fn tiles_of_type(&self, tile_type: Tile) -> (found: Vec<UVec2>)
        requires
            rows_cover_dimension(self@),
        ensures
            forall|c: UVec2| found@.contains(c) <==> cell_of_type(self@, tile_type, c),
            row_major_sorted(found@),
    {
        let ghost rows = self@;
        let dim: UVec2 = self.dimension();
        let mut found: Vec<UVec2> = Vec::new();
        let mut y: u32 = 0;
        while y < dim.y
            invariant
                rows == self@,
                rows_cover_dimension(rows),
                dim == spec_dimension(rows),
                dim.y <= rows.len(),
                y <= dim.y,
                forall|i: int| 0 <= i < found@.len() ==> cell_of_type(rows, tile_type, #[trigger] found@[i])
                    && row_major_before(found@[i], UVec2 { x: 0, y: y }),
                forall|c: UVec2| cell_of_type(rows, tile_type, c) && c.y < y ==> found@.contains(c),
                row_major_sorted(found@),
            decreases dim.y - y,
        {
            let mut x: u32 = 0;
            while x < dim.x
                invariant
                    rows == self@,
                    rows_cover_dimension(rows),
                    dim == spec_dimension(rows),
                    dim.y <= rows.len(),
                    y < dim.y,
                    x <= dim.x,
                    forall|i: int| 0 <= i < found@.len() ==> cell_of_type(rows, tile_type, #[trigger] found@[i])
                        && row_major_before(found@[i], UVec2 { x: x, y: y }),
                    forall|c: UVec2| cell_of_type(rows, tile_type, c) && row_major_before(c, UVec2 { x: x, y: y })
                        ==> found@.contains(c),
                    row_major_sorted(found@),
                decreases dim.x - x,
            {
                assert(dim.x <= rows[y as int].len());
                assert(self.tiles@[y as int]@ == rows[y as int]);
                if self.tiles[y as usize][x as usize] == tile_type {
                    let c = UVec2 { x: x, y: y };
                    let ghost prev = found@;
                    found.push(c);
                    assert forall|d: UVec2| cell_of_type(rows, tile_type, d) && row_major_before(d, UVec2 { x: (x + 1) as u32, y: y })
                        implies found@.contains(d) by {
                        if d == c {
                            assert(found@[prev.len() as int] == d);
                        } else {
                            assert(prev.contains(d));
                            let i = choose|i: int| 0 <= i < prev.len() && prev[i] == d;
                            assert(found@[i] == d);
                        }
                    }
                } else {
                    assert forall|d: UVec2| cell_of_type(rows, tile_type, d) && row_major_before(d, UVec2 { x: (x + 1) as u32, y: y })
                        implies found@.contains(d) by {
                        if d.x == x && d.y == y {
                            assert(false);
                        }
                    }
                }
                x = x + 1;
            }
            assert forall|c: UVec2| cell_of_type(rows, tile_type, c) && c.y < y + 1 implies found@.contains(c) by {
                if c.y == y {
                    assert(row_major_before(c, UVec2 { x: x, y: y }));
                }
            }
            y = y + 1;
        }
        assert forall|c: UVec2| found@.contains(c) implies cell_of_type(rows, tile_type, c) by {
            let i = choose|i: int| 0 <= i < found@.len() && found@[i] == c;
        }
        found
    }

    /// A map whose cell `(x, y)` is a wall where the terrain noise sampled
    /// there lies above zero and a floor elsewhere; `above_zero[y][x]`
    /// says which, and the map has the same shape.
    pub fn from_noise_signs(above_zero: &Vec<Vec<bool>>) -> (m: MapTiles)
        ensures
            m@.len() == above_zero@.len(),
            forall|y: int| 0 <= y < m@.len() ==> (#[trigger] m@[y]).len() == above_zero@[y]@.len(),
            forall|y: int, x: int| 0 <= y < m@.len() && 0 <= x < m@[y].len()
                ==> m@[y][x] == tile_for_noise(above_zero@[y]@[x]),
    {
        let mut tiles: Vec<Vec<Tile>> = Vec::new();
        let mut y: usize = 0;
        while y < above_zero.len()
            invariant
                y <= above_zero@.len(),
                tiles@.len() == y,
                forall|j: int| 0 <= j < y ==> (#[trigger] tiles@[j])@.len() == above_zero@[j]@.len(),
                forall|j: int, i: int| 0 <= j < y && 0 <= i < tiles@[j]@.len()
                    ==> tiles@[j]@[i] == tile_for_noise(above_zero@[j]@[i]),
            decreases above_zero.len() - y,
        {
            let signs = &above_zero[y];
            let mut row: Vec<Tile> = Vec::new();
            let mut x: usize = 0;
            while x < signs.len()
                invariant
                    x <= signs@.len(),
                    row@.len() == x,
                    forall|i: int| 0 <= i < x ==> row@[i] == tile_for_noise(signs@[i]),
                decreases signs.len() - x,
            {
                row.push(tile_for_noise_sign(signs[x]));
                x = x + 1;
            }
            tiles.push(row);
            y = y + 1;
        }
        MapTiles::new().with_tiles(tiles)
    }
}

/// The cell `c` holds `t` and no cell holding `t` comes before it row by row.
pub open spec fn first_cell_of_type(rows: Seq<Seq<Tile>>, t: Tile, c: UVec2) -> bool {
    &&& cell_of_type(rows, t, c)
    &&& forall|d: UVec2| #[trigger] cell_of_type(rows, t, d) ==> !row_major_before(d, c)
}

/// Where the player appears on a map: the first floor cell row by row, or
/// the corner `(0, 0)` where the map has no floor.
pub fn player_spawn_cell(map: &MapTiles) -> (c: UVec2)
    requires
        rows_cover_dimension(map@),
    ensures
        (exists|d: UVec2| cell_of_type(map@, Tile::Floor, d)) ==> first_cell_of_type(map@, Tile::Floor, c),
        !(exists|d: UVec2| cell_of_type(map@, Tile::Floor, d)) ==> c == (UVec2 { x: 0, y: 0 }),
{
    let floors = map.tiles_of_type(Tile::Floor);
    if floors.len() > 0 {
        let c = floors[0];
        assert(floors@.contains(c));
        assert forall|d: UVec2| cell_of_type(map@, Tile::Floor, d) implies !row_major_before(d, c) by {
            assert(floors@.contains(d));
            let i = choose|i: int| 0 <= i < floors@.len() && floors@[i] == d;
            if i > 0 {
                assert(row_major_before(floors@[0], floors@[i]));
            }
        }
        c
    } else {
        assert forall|d: UVec2| !cell_of_type(map@, Tile::Floor, d) by {
            if cell_of_type(map@, Tile::Floor, d) {
                assert(floors@.contains(d));
            }
        }
        UVec2 { x: 0, y: 0 }
    }
}

} // verus!
