//! Integer geometry: grid cells, screen points and rectangles.

use crate::grid::TILE_SIZE;
use vstd::prelude::*;

verus! {

/// A cell of the tactical map: column `x`, row `y`.
#[derive(Clone, Copy, Debug, PartialEq, Eq, Structural)]
pub struct Position {
    pub x: i32,
    pub y: i32,
}

/// A point of the window, in whole pixels. It also serves as a displacement
/// between two such points, such as the camera's scroll offset.
#[derive(Clone, Copy, Debug, PartialEq, Eq, Structural)]
pub struct ScreenPoint {
    pub x: i32,
    pub y: i32,
}

/// An axis-aligned rectangle of the window, in whole pixels.
#[derive(Clone, Copy, Debug, PartialEq, Eq, Structural)]
pub struct Rectangle {
    pub x: i32,
    pub y: i32,
    pub width: i32,
    pub height: i32,
}

impl Rectangle {
    /// The points of the rectangle: its left and top edges belong to it, its
    /// right and bottom edges do not.
    pub open spec fn spec_contains(self, p: ScreenPoint) -> bool {
        &&& self.x <= p.x < self.x + self.width
        &&& self.y <= p.y < self.y + self.height
    }

    /// Whether `p` lies in the rectangle.
    pub fn contains(&self, p: ScreenPoint) -> (inside: bool)
        ensures
            inside == self.spec_contains(p),
    {
        p.x >= self.x && p.y >= self.y && (p.x as i64) < self.x as i64 + self.width as i64 && (
        p.y as i64) < self.y as i64 + self.height as i64
    }
}

/// The floor of `a / TILE_SIZE`.
pub open spec fn tile_of(a: int) -> int {
    a / (TILE_SIZE as int)
}

/// The cell under a screen point when the camera is scrolled by
/// `scroll_offset`: the scroll is undone, and each axis is divided by the
/// tile size and rounded down.
pub open spec fn spec_screen_to_grid(
    screen_pos: ScreenPoint,
    scroll_offset: ScreenPoint,
) -> Position {
    Position {
        x: tile_of(screen_pos.x - scroll_offset.x) as i32,
        y: tile_of(screen_pos.y - scroll_offset.y) as i32,
    }
}

/// Floor of `a / TILE_SIZE` for any difference of two `i32` values.
fn floor_tile(a: i64) -> (q: i32)
    requires
        i32::MIN - i32::MAX <= a <= i32::MAX - i32::MIN,
    ensures
        q == tile_of(a as int),
{
    if a >= 0 {
        (a / 64) as i32
    } else {
        let up: i64 = (-a + 63) / 64;
        (-up) as i32
    }
}

/// Converts a screen point to the grid cell under it.
pub fn screen_to_grid(screen_pos: ScreenPoint, scroll_offset: ScreenPoint) -> (cell: Position)
    ensures
        cell == spec_screen_to_grid(screen_pos, scroll_offset),
        cell.x * TILE_SIZE <= screen_pos.x - scroll_offset.x < (cell.x + 1) * TILE_SIZE,
        cell.y * TILE_SIZE <= screen_pos.y - scroll_offset.y < (cell.y + 1) * TILE_SIZE,
{
    Position {
        x: floor_tile(screen_pos.x as i64 - scroll_offset.x as i64),
        y: floor_tile(screen_pos.y as i64 - scroll_offset.y as i64),
    }
}

/// The pixels that a grid cell covers when the camera is not scrolled.
pub open spec fn spec_grid_pos_to_rectangle(pos: Position) -> Rectangle {
    Rectangle {
        x: (pos.x * TILE_SIZE) as i32,
        y: (pos.y * TILE_SIZE) as i32,
        width: TILE_SIZE,
        height: TILE_SIZE,
    }
}

/// Whether the pixel rectangle of `pos` can be written in `i32`.
pub open spec fn cell_on_screen(pos: Position) -> bool {
    &&& i32::MIN <= pos.x * TILE_SIZE <= i32::MAX
    &&& i32::MIN <= pos.y * TILE_SIZE <= i32::MAX
}

/// The pixels that a grid cell covers when the camera is not scrolled.
pub fn grid_pos_to_rectangle(pos: Position) -> (rect: Rectangle)
    requires
        cell_on_screen(pos),
    ensures
        rect == spec_grid_pos_to_rectangle(pos),
{
    Rectangle { x: pos.x * TILE_SIZE, y: pos.y * TILE_SIZE, width: TILE_SIZE, height: TILE_SIZE }
}

} // verus!
