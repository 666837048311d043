use vstd::prelude::*;

use crate::camera::{camera_extent, in_window, spec_terminal_position, ViewWindow};
use crate::grid::{
    cell_of_type, cell_readable, error_message, first_cell_of_type, row_cells, rows_cover_dimension, spec_cells, spec_dimension,
    spec_set_tile, spec_tile, MapError, UVec2,
};
use crate::input::{any_key, IVec2, spec_grid_step, spec_movement_direction, spec_terminal_step, MovementKeys, TerminalKey};
use crate::tile::{tile_for_noise, tile_text, Tile};
use crate::grid::UVec2 as Extent;

verus! {

/// After a successful write of `t` at `(x, y)`, reading `(x, y)` gives `t`,
/// every other cell reads as before, the dimension is unchanged, and every
/// cell that could be read safely before still can.
pub proof fn lemma_write_then_read(rows: Seq<Seq<Tile>>, x: int, y: int, t: Tile)
    requires
        cell_readable(rows, x, y),
        spec_tile(rows, x, y) is Ok,
    ensures
        spec_tile(spec_set_tile(rows, x, y, t), x, y) == Ok::<Tile, MapError>(t),
        forall|x2: int, y2: int| (x2 != x || y2 != y) && cell_readable(rows, x2, y2)
            ==> #[trigger] spec_tile(spec_set_tile(rows, x, y, t), x2, y2) == spec_tile(rows, x2, y2),
        forall|x2: int, y2: int| cell_readable(rows, x2, y2)
            ==> #[trigger] cell_readable(spec_set_tile(rows, x, y, t), x2, y2),
        spec_dimension(spec_set_tile(rows, x, y, t)) == spec_dimension(rows),
        rows_cover_dimension(rows) ==> rows_cover_dimension(spec_set_tile(rows, x, y, t)),
{
    let after = spec_set_tile(rows, x, y, t);
    assert(after[y][x] == t);
    assert(after[0].len() == rows[0].len());
    assert forall|x2: int, y2: int| (x2 != x || y2 != y) && cell_readable(rows, x2, y2)
        implies #[trigger] spec_tile(after, x2, y2) == spec_tile(rows, x2, y2) by {
        if rows.len() > 0 && 0 <= y2 < rows.len() && 0 <= x2 < rows[0].len() {
            assert(after[y2][x2] == rows[y2][x2]);
        }
    }
    assert forall|x2: int, y2: int| cell_readable(rows, x2, y2)
        implies #[trigger] cell_readable(after, x2, y2) by {
        if 0 <= y2 < rows.len() {
            assert(after[y2].len() == rows[y2].len());
        }
    }
    if rows_cover_dimension(rows) {
        assert forall|y2: int| 0 <= y2 < spec_dimension(after).y
            implies spec_dimension(after).x <= #[trigger] after[y2].len() by {
            assert(after[y2].len() == rows[y2].len());
        }
    }
}

/// On a map whose width and height fit in 32 bits, a cell is among the
/// cells of type `t` exactly when reading it gives `t`.
pub proof fn lemma_cells_of_type_are_reads(rows: Seq<Seq<Tile>>, t: Tile, c: UVec2)
    requires
        rows.len() <= u32::MAX,
        rows.len() > 0 ==> rows[0].len() <= u32::MAX,
    ensures
        cell_of_type(rows, t, c) <==> spec_tile(rows, c.x as int, c.y as int) == Ok::<Tile, MapError>(t),
{
}

/// Every cell within the dimension holds exactly one kind of tile, so the
/// cells of type wall, floor and void split the map between them.
pub proof fn lemma_tile_kinds_partition(rows: Seq<Seq<Tile>>, c: UVec2)
    requires
        c.x < spec_dimension(rows).x,
        c.y < spec_dimension(rows).y,
    ensures
        cell_of_type(rows, Tile::Wall, c) || cell_of_type(rows, Tile::Floor, c) || cell_of_type(rows, Tile::Void, c),
        !(cell_of_type(rows, Tile::Wall, c) && cell_of_type(rows, Tile::Floor, c)),
        !(cell_of_type(rows, Tile::Wall, c) && cell_of_type(rows, Tile::Void, c)),
        !(cell_of_type(rows, Tile::Floor, c) && cell_of_type(rows, Tile::Void, c)),
{
}

/// All rows have length `w`.
pub open spec fn all_rows_of_width(rows: Seq<Seq<Tile>>, w: int) -> bool {
    forall|y: int| 0 <= y < rows.len() ==> (#[trigger] rows[y]).len() == w
}

/// On a rectangular map of width `w`, the cell listing holds every cell
/// once: it has `w` entries per row, and entry `y * w + x` is cell `(x, y)`
/// with its tile.
pub proof fn lemma_cells_list_each_cell(rows: Seq<Seq<Tile>>, w: int)
    requires
        w >= 0,
        all_rows_of_width(rows, w),
    ensures
        spec_cells(rows).len() == rows.len() * w,
        forall|x: int, y: int| 0 <= x < w && 0 <= y < rows.len()
            ==> #[trigger] spec_cells(rows)[y * w + x] == (UVec2 { x: x as u32, y: y as u32 }, rows[y][x]),
    decreases rows.len(),
{
    if rows.len() > 0 {
        let prefix = rows.drop_last();
        let n = rows.len() - 1;
        assert(all_rows_of_width(prefix, w)) by {
            assert forall|y: int| 0 <= y < prefix.len() implies (#[trigger] prefix[y]).len() == w by {
                assert(prefix[y] == rows[y]);
            }
        }
        lemma_cells_list_each_cell(prefix, w);
        assert(rows.last().len() == w);
        assert(n * w + w == rows.len() * w) by (nonlinear_arith)
            requires n == rows.len() - 1;
        assert forall|x: int, y: int| 0 <= x < w && 0 <= y < rows.len()
            implies #[trigger] spec_cells(rows)[y * w + x] == (UVec2 { x: x as u32, y: y as u32 }, rows[y][x]) by {
            if y < n {
                assert(y * w + x < n * w) by (nonlinear_arith)
                    requires 0 <= x < w, 0 <= y < n;
                assert(y * w + x >= 0) by (nonlinear_arith)
                    requires 0 <= x, 0 <= y, w >= 0;
                assert(prefix[y] == rows[y]);
                assert(spec_cells(rows)[y * w + x] == spec_cells(prefix)[y * w + x]);
            } else {
                assert(y == n);
                assert(spec_cells(rows)[y * w + x] == row_cells(rows.last(), n)[x]);
            }
        }
    }
}

/// Terrain generation never leaves a void cell: every noise sign gives a
/// wall or a floor, and the two signs give different tiles.
pub proof fn lemma_noise_tiles(above_zero: bool)
    ensures
        tile_for_noise(above_zero) != Tile::Void,
        tile_for_noise(true) != tile_for_noise(false),
{
}

/// The direction of the held keys moves at most one cell along each axis,
/// and stays still on an axis exactly where neither of its keys is held.
pub proof fn lemma_movement_direction_bounded(keys: MovementKeys)
    ensures
        -1 <= spec_movement_direction(keys).x <= 1,
        -1 <= spec_movement_direction(keys).y <= 1,
        spec_movement_direction(keys).x == 0 <==> !keys.a && !keys.d,
        spec_movement_direction(keys).y == 0 <==> !keys.w && !keys.s,
{
}

/// A step on the grid moves exactly one cell along exactly one axis, and
/// the keyboard asks for one exactly when a movement key is pressed.
pub proof fn lemma_grid_step_is_unit(pressed: MovementKeys)
    ensures
        spec_grid_step(pressed) is Some <==> (pressed.w || pressed.s || pressed.a || pressed.d),
        spec_grid_step(pressed) matches Some(d) ==> (d.x == 0 && (d.y == 1 || d.y == -1)) || (d.y == 0 && (d.x
            == 1 || d.x == -1)),
{
}

/// A terminal key asks for a step of exactly one cell along exactly one
/// axis, or for none.
pub proof fn lemma_terminal_step_is_unit(key: Option<TerminalKey>)
    ensures
        spec_terminal_step(key) matches Some(d) ==> (d.x == 0 && (d.y == 1 || d.y == -1)) || (d.y == 0 && (d.x
            == 1 || d.x == -1)),
        spec_terminal_step(None) is None,
{
}

/// The window's lower-left corner is drawn in the terminal's first column
/// and bottom row, its upper-right corner in the last column and top row;
/// in a window under 65536 cells wide and high, different cells are drawn
/// at different places.
pub proof fn lemma_terminal_positions(window: ViewWindow, a: (IVec2, IVec2))
    requires
        window.lower_left.x <= window.upper_right.x,
        window.lower_left.y <= window.upper_right.y,
    ensures
        spec_terminal_position(window.lower_left, window) == (0u16, (window.upper_right.y - window.lower_left.y) as u16),
        spec_terminal_position(window.upper_right, window) == ((window.upper_right.x - window.lower_left.x) as u16, 0u16),
        window.upper_right.x - window.lower_left.x < 65536 && window.upper_right.y - window.lower_left.y < 65536
            && in_window(a.0, window) && in_window(a.1, window) && a.0 != a.1
            ==> spec_terminal_position(a.0, window) != spec_terminal_position(a.1, window),
{
}


/// Casting a non-negative number below `2^33` to 16 bits keeps its
/// remainder modulo `65536`.
proof fn lemma_u16_cast_is_remainder(v: int)
    requires
        0 <= v < 0x2_0000_0000,
    ensures
        (v as u16) as int == v % 65536,
{
    let b: u64 = v as u64;
    assert((b as u16) as u64 == b % 65536) by (bit_vector);
    assert(b as int == v);
}

/// Every cell of the window is drawn in the column that counts its distance
/// from the window's left edge and in the row that counts its distance from
/// the window's top edge, both modulo `65536`; in a window under `65536`
/// cells wide and high these are the distances themselves.
pub proof fn lemma_terminal_position_of_cell(cell: IVec2, window: ViewWindow)
    requires
        in_window(cell, window),
    ensures
        spec_terminal_position(cell, window).0 as int == (cell.x - window.lower_left.x) % 65536,
        spec_terminal_position(cell, window).1 as int == (window.upper_right.y - cell.y) % 65536,
        window.upper_right.x - window.lower_left.x < 65536
            ==> spec_terminal_position(cell, window).0 as int == cell.x - window.lower_left.x,
        window.upper_right.y - window.lower_left.y < 65536
            ==> spec_terminal_position(cell, window).1 as int == window.upper_right.y - cell.y,
{
    lemma_u16_cast_is_remainder(cell.x - window.lower_left.x);
    lemma_u16_cast_is_remainder(window.upper_right.y - cell.y);
}

/// Moving one cell up in the world moves one terminal row up (rows are
/// flipped), moving one cell right moves one terminal column right, and
/// the window's top-left cell is drawn at the terminal's origin; all modulo
/// `65536`.
pub proof fn lemma_terminal_neighbours(below: IVec2, above: IVec2, left: IVec2, right: IVec2, window: ViewWindow)
    requires
        in_window(below, window),
        in_window(above, window),
        in_window(left, window),
        in_window(right, window),
        above.x == below.x,
        above.y == below.y + 1,
        right.y == left.y,
        right.x == left.x + 1,
    ensures
        spec_terminal_position(below, window).1 as int == (spec_terminal_position(above, window).1 + 1) % 65536,
        spec_terminal_position(above, window).0 == spec_terminal_position(below, window).0,
        spec_terminal_position(right, window).0 as int == (spec_terminal_position(left, window).0 + 1) % 65536,
        spec_terminal_position(right, window).1 == spec_terminal_position(left, window).1,
        spec_terminal_position(IVec2 { x: window.lower_left.x, y: window.upper_right.y }, window) == (0u16, 0u16),
{
    lemma_terminal_position_of_cell(below, window);
    lemma_terminal_position_of_cell(above, window);
    lemma_terminal_position_of_cell(left, window);
    lemma_terminal_position_of_cell(right, window);
    let corner = IVec2 { x: window.lower_left.x, y: window.upper_right.y };
    lemma_terminal_position_of_cell(corner, window);
    let a = window.upper_right.y - above.y;
    assert((a + 1) % 65536 == ((a % 65536) + 1) % 65536) by (nonlinear_arith)
        requires a >= 0;
    let l = left.x - window.lower_left.x;
    assert((l + 1) % 65536 == ((l % 65536) + 1) % 65536) by (nonlinear_arith)
        requires l >= 0;
}

/// Holding D moves right whatever else is held; holding A without D moves
/// left; holding W without S moves up; holding S moves down; an axis with
/// none of its keys held stays still.
pub proof fn lemma_movement_direction_signs(keys: MovementKeys)
    ensures
        keys.d ==> spec_movement_direction(keys).x == 1,
        keys.a && !keys.d ==> spec_movement_direction(keys).x == -1,
        !keys.a && !keys.d ==> spec_movement_direction(keys).x == 0,
        keys.s ==> spec_movement_direction(keys).y == -1,
        keys.w && !keys.s ==> spec_movement_direction(keys).y == 1,
        !keys.w && !keys.s ==> spec_movement_direction(keys).y == 0,
{
}

/// The grid step depends on the first pressed key of W, S, A, D alone: W
/// steps up, S (without W) down, A (without W or S) left, D (alone of the
/// four) right; with none pressed there is no step.
pub proof fn lemma_grid_step_directions(pressed: MovementKeys)
    ensures
        pressed.w ==> spec_grid_step(pressed) == Some(IVec2 { x: 0, y: 1 }),
        !pressed.w && pressed.s ==> spec_grid_step(pressed) == Some(IVec2 { x: 0, y: -1i32 }),
        !pressed.w && !pressed.s && pressed.a ==> spec_grid_step(pressed) == Some(IVec2 { x: -1i32, y: 0 }),
        !pressed.w && !pressed.s && !pressed.a && pressed.d ==> spec_grid_step(pressed) == Some(
            IVec2 { x: 1, y: 0 },
        ),
        !pressed.w && !pressed.s && !pressed.a && !pressed.d ==> spec_grid_step(pressed) is None,
{
}

/// A terminal key makes a step exactly when it is `w`, `s`, `a`, `d` or an
/// arrow key: `w` and up step up, `s` and down step down, `a` and left step
/// left, `d` and right step right; every other key, and no key, makes none.
pub proof fn lemma_terminal_step_keys(key: Option<TerminalKey>)
    ensures
        (key == Some(TerminalKey::Char('w')) || key == Some(TerminalKey::Up))
            ==> spec_terminal_step(key) == Some(IVec2 { x: 0, y: 1 }),
        (key == Some(TerminalKey::Char('s')) || key == Some(TerminalKey::Down))
            ==> spec_terminal_step(key) == Some(IVec2 { x: 0, y: -1i32 }),
        (key == Some(TerminalKey::Char('a')) || key == Some(TerminalKey::Left))
            ==> spec_terminal_step(key) == Some(IVec2 { x: -1i32, y: 0 }),
        (key == Some(TerminalKey::Char('d')) || key == Some(TerminalKey::Right))
            ==> spec_terminal_step(key) == Some(IVec2 { x: 1, y: 0 }),
        spec_terminal_step(key) is Some <==> (key == Some(TerminalKey::Char('w')) || key == Some(TerminalKey::Up)
            || key == Some(TerminalKey::Char('s')) || key == Some(TerminalKey::Down)
            || key == Some(TerminalKey::Char('a')) || key == Some(TerminalKey::Left)
            || key == Some(TerminalKey::Char('d')) || key == Some(TerminalKey::Right)),
{
}


/// Writing a cell changes that cell and nothing else: every row keeps its
/// length, every other cell of every row keeps its tile, and the written
/// cell holds the new tile.
pub proof fn lemma_write_changes_one_cell(rows: Seq<Seq<Tile>>, x: int, y: int, t: Tile, x2: int, y2: int)
    requires
        0 <= y < rows.len(),
        0 <= x < rows[y].len(),
        0 <= y2 < rows.len(),
        0 <= x2 < rows[y2].len(),
    ensures
        spec_set_tile(rows, x, y, t).len() == rows.len(),
        spec_set_tile(rows, x, y, t)[y2].len() == rows[y2].len(),
        (x2 != x || y2 != y) ==> spec_set_tile(rows, x, y, t)[y2][x2] == rows[y2][x2],
        spec_set_tile(rows, x, y, t)[y][x] == t,
{
}

/// Reading a cell: an empty map reports `GridEmpty`; a cell whose row exists
/// and whose column is below the first row's width reads the tile stored at
/// that row and column; any other cell reports `OutOfBounds`. A cell can be
/// read safely unless it lies within the first row's width but past the end
/// of its own row.
pub proof fn lemma_tile_reads(rows: Seq<Seq<Tile>>, x: int, y: int)
    ensures
        spec_tile(rows, x, y) == Err::<Tile, MapError>(MapError::GridEmpty) <==> rows.len() == 0,
        spec_tile(rows, x, y) is Ok <==> (rows.len() > 0 && 0 <= y < rows.len() && 0 <= x < rows[0].len()),
        spec_tile(rows, x, y) matches Ok(t) ==> t == rows[y][x],
        spec_tile(rows, x, y) == Err::<Tile, MapError>(MapError::OutOfBounds) <==> (rows.len() > 0 && !(0 <= y
            < rows.len() && 0 <= x < rows[0].len())),
        cell_readable(rows, x, y) <==> !(rows.len() > 0 && 0 <= y < rows.len() && 0 <= x < rows[0].len() && x
            >= rows[y].len()),
{
}

/// The dimension of a map without rows is zero by zero; otherwise, where
/// the sizes fit in 32 bits, it is the first row's width by the number of
/// rows.
pub proof fn lemma_dimension_sizes(rows: Seq<Seq<Tile>>)
    ensures
        rows.len() == 0 ==> spec_dimension(rows) == (UVec2 { x: 0, y: 0 }),
        0 < rows.len() <= u32::MAX && rows[0].len() <= u32::MAX ==> spec_dimension(rows).x == rows[0].len()
            && spec_dimension(rows).y == rows.len(),
{
}

/// The number of cells in all rows together.
pub open spec fn cell_count(rows: Seq<Seq<Tile>>) -> nat
    decreases rows.len(),
{
    if rows.len() == 0 {
        0
    } else {
        cell_count(rows.drop_last()) + rows.last().len()
    }
}

/// The place of cell `(x, y)` in a row-by-row listing: the cells of all
/// earlier rows, then `x`.
pub open spec fn listing_index(rows: Seq<Seq<Tile>>, x: int, y: int) -> int {
    cell_count(rows.take(y)) + x
}

proof fn lemma_cell_count_prefix(rows: Seq<Seq<Tile>>, y: int)
    requires
        0 <= y <= rows.len(),
    ensures
        cell_count(rows.take(y)) <= cell_count(rows),
    decreases rows.len(),
{
    if y < rows.len() {
        lemma_cell_count_prefix(rows.drop_last(), y);
        assert(rows.drop_last().take(y) =~= rows.take(y));
    } else {
        assert(rows.take(y) =~= rows);
    }
}

/// On any map, rectangular or not, the cell listing holds every cell of
/// every row once: it has as many entries as the rows have cells, and cell
/// `(x, y)` with its tile stands after all cells of the rows above it, at
/// position `x` among its own row's cells.
pub proof fn lemma_cells_list_every_row(rows: Seq<Seq<Tile>>)
    ensures
        spec_cells(rows).len() == cell_count(rows),
        forall|x: int, y: int| 0 <= y < rows.len() && 0 <= x < rows[y].len()
            ==> #[trigger] spec_cells(rows)[listing_index(rows, x, y)] == (UVec2 { x: x as u32, y: y as u32 }, rows[y][x]),
    decreases rows.len(),
{
    if rows.len() > 0 {
        let p = rows.drop_last();
        let n = rows.len() - 1;
        lemma_cells_list_every_row(p);
        assert forall|x: int, y: int| 0 <= y < rows.len() && 0 <= x < rows[y].len()
            implies #[trigger] spec_cells(rows)[listing_index(rows, x, y)] == (UVec2 { x: x as u32, y: y as u32 }, rows[y][x]) by {
            if y < n {
                assert(p.take(y) =~= rows.take(y));
                assert(p[y] == rows[y]);
                lemma_cell_count_prefix(p, y + 1);
                assert(p.take(y + 1).drop_last() =~= p.take(y));
                assert(listing_index(rows, x, y) == listing_index(p, x, y));
                assert(spec_cells(p)[listing_index(p, x, y)] == (UVec2 { x: x as u32, y: y as u32 }, p[y][x]));
            } else {
                assert(rows.take(n) =~= p);
                assert(listing_index(rows, x, y) == cell_count(p) + x);
            }
        }
    }
}

/// Terrain generation puts a wall where the noise lies above zero and a
/// floor elsewhere.
pub proof fn lemma_noise_walls_and_floors()
    ensures
        tile_for_noise(true) == Tile::Wall,
        tile_for_noise(false) == Tile::Floor,
{
}

/// Each tile shows as one letter: W for a wall, F for a floor, V for void.
pub proof fn lemma_tile_letters()
    ensures
        tile_text(Tile::Wall) == seq!['W'],
        tile_text(Tile::Floor) == seq!['F'],
        tile_text(Tile::Void) == seq!['V'],
{
    reveal_strlit("W");
    reveal_strlit("F");
    reveal_strlit("V");
}

/// The errors read "Grid is empty" and "Tile coordinate out of boundary".
pub proof fn lemma_error_messages()
    ensures
        error_message(MapError::GridEmpty) == "Grid is empty"@,
        error_message(MapError::OutOfBounds) == "Tile coordinate out of boundary"@,
        error_message(MapError::GridEmpty) != error_message(MapError::OutOfBounds),
{
    reveal_strlit("Grid is empty");
    reveal_strlit("Tile coordinate out of boundary");
}

/// The view window reaches as far to each side as the camera is wide
/// halved, rounded down, and as far up and down as it is high halved: its
/// width is the camera's width, or one less where that is odd.
pub proof fn lemma_camera_extent_halves(camera_size: u32, aspect_ratio: Extent)
    ensures
        0 <= camera_extent(camera_size, aspect_ratio).0,
        0 <= camera_extent(camera_size, aspect_ratio).1,
        2 * camera_extent(camera_size, aspect_ratio).0 <= camera_size * aspect_ratio.x <= 2 * camera_extent(
            camera_size,
            aspect_ratio,
        ).0 + 1,
        2 * camera_extent(camera_size, aspect_ratio).1 <= camera_size * aspect_ratio.y <= 2 * camera_extent(
            camera_size,
            aspect_ratio,
        ).1 + 1,
{
    let w = camera_size * aspect_ratio.x;
    let h = camera_size * aspect_ratio.y;
    assert(w >= 0 && h >= 0) by (nonlinear_arith)
        requires w == camera_size * aspect_ratio.x, h == camera_size * aspect_ratio.y, camera_size >= 0,
            aspect_ratio.x >= 0, aspect_ratio.y >= 0;
}

/// The grid movement clears the step timer exactly when one of W, S, A, D
/// was just released.
pub proof fn lemma_step_timer_reset(just_released: MovementKeys)
    ensures
        any_key(just_released) <==> (just_released.w || just_released.s || just_released.a || just_released.d),
{
}

/// The spawn cell, where the map has a floor, is a floor cell within the
/// dimension, and no floor cell comes before it row by row.
pub proof fn lemma_spawn_cell_is_first_floor(rows: Seq<Seq<Tile>>, c: UVec2, d: UVec2)
    requires
        first_cell_of_type(rows, Tile::Floor, c),
        cell_of_type(rows, Tile::Floor, d),
    ensures
        rows[c.y as int][c.x as int] == Tile::Floor,
        c.x < spec_dimension(rows).x && c.y < spec_dimension(rows).y,
        c.y < d.y || (c.y == d.y && c.x <= d.x),
{
}

} // verus!
