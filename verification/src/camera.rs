use vstd::prelude::*;

use crate::grid::UVec2;
use crate::input::IVec2;

verus! {

/// The world cells that the terminal view shows: every cell from
/// `lower_left` to `upper_right`, both corners included.
#[derive(Clone, Copy, Debug, PartialEq, Eq, Structural)]
pub struct ViewWindow {
    pub lower_left: IVec2,
    pub upper_right: IVec2,
}

/// Half the camera's width and height in cells: the camera measures
/// `camera_size` times the aspect ratio on each axis.
pub open spec fn camera_extent(camera_size: u32, aspect_ratio: UVec2) -> (int, int) {
    ((camera_size * aspect_ratio.x) / 2, (camera_size * aspect_ratio.y) / 2)
}

/// The camera's size fits in 32 bits and the window around `center` stays
/// within the range of `i32`.
pub open spec fn view_window_fits(center: IVec2, camera_size: u32, aspect_ratio: UVec2) -> bool {
    let (ex, ey) = camera_extent(camera_size, aspect_ratio);
    &&& camera_size * aspect_ratio.x <= u32::MAX
    &&& camera_size * aspect_ratio.y <= u32::MAX
    &&& i32::MIN <= center.x - ex
    &&& center.x + ex <= i32::MAX
    &&& i32::MIN <= center.y - ey
    &&& center.y + ey <= i32::MAX
}

/// The window of the ASCII camera centred on `center`: it reaches half the
/// camera's width (rounded down) to each side and half its height up and
/// down.
pub fn ascii_view_window(center: IVec2, camera_size: u32, aspect_ratio: UVec2) -> (w: ViewWindow)
    requires
        view_window_fits(center, camera_size, aspect_ratio),
    ensures
        w.lower_left.x == center.x - camera_extent(camera_size, aspect_ratio).0,
        w.lower_left.y == center.y - camera_extent(camera_size, aspect_ratio).1,
        w.upper_right.x == center.x + camera_extent(camera_size, aspect_ratio).0,
        w.upper_right.y == center.y + camera_extent(camera_size, aspect_ratio).1,
{
    let camera_width: u32 = camera_size * aspect_ratio.x;
    let camera_height: u32 = camera_size * aspect_ratio.y;
    let extent = UVec2 { x: camera_width / 2, y: camera_height / 2 };
    let ex: i32 = extent.x as i32;
    let ey: i32 = extent.y as i32;
    ViewWindow {
        lower_left: IVec2 { x: center.x - ex, y: center.y - ey },
        upper_right: IVec2 { x: center.x + ex, y: center.y + ey },
    }
}

/// The cell lies in the window.
pub open spec fn in_window(cell: IVec2, window: ViewWindow) -> bool {
    &&& window.lower_left.x <= cell.x <= window.upper_right.x
    &&& window.lower_left.y <= cell.y <= window.upper_right.y
}

/// The terminal column and row at which a world cell of the window is
/// drawn: columns count from the window's left edge, rows from its top
/// edge downwards; both are cut to 16 bits.
pub open spec fn spec_terminal_position(cell: IVec2, window: ViewWindow) -> (u16, u16) {
    ((cell.x - window.lower_left.x) as u16, (window.upper_right.y - cell.y) as u16)
}

/// The terminal column and row at which a world cell of the window is drawn.
pub fn terminal_position(cell: IVec2, window: ViewWindow) -> (p: (u16, u16))
    requires
        in_window(cell, window),
    ensures
        p == spec_terminal_position(cell, window),
{
    let dx: i64 = cell.x as i64 - window.lower_left.x as i64;
    let dy: i64 = window.upper_right.y as i64 - cell.y as i64;
    (dx as u16, dy as u16)
}

} // verus!
