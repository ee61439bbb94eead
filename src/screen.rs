use vstd::prelude::*;

use crate::board::{Pos, BOARD_SIZE};

verus! {

/// Width of the drawing area in pixels.
pub const WIDTH: i64 = 768;

/// Height of the drawing area in pixels.
pub const HEIGHT: i64 = 768;

/// Cells per side on screen.
pub const SIZE: i64 = 10;

/// Width of one cell in whole pixels: `WIDTH / SIZE`, rounded down.
pub const CELL_WIDTH: i64 = 76;

/// Height of one cell in whole pixels: `HEIGHT / SIZE`, rounded down.
pub const CELL_HEIGHT: i64 = 76;

/// Diameter of a drawn token in whole pixels: six tenths of the mean cell side.
pub const TOKEN_SIZE: i64 = 45;

/// The pixel where the box of the token drawn on cell `pos` starts: the
/// cell's corner, moved so that the token sits in the middle of the cell.
pub fn cell_pos_to_canvas_pos(pos: Pos) -> (r: Pos)
    requires
        0 <= pos.0 < BOARD_SIZE,
        0 <= pos.1 < BOARD_SIZE,
    ensures
        r.0 == (pos.0 as int) * (WIDTH as int) / (SIZE as int) + (CELL_WIDTH - TOKEN_SIZE) as int / 2,
        r.1 == (pos.1 as int) * (HEIGHT as int) / (SIZE as int) + (CELL_HEIGHT - TOKEN_SIZE) as int / 2,
{
    let mut x: i64 = pos.0 as i64 * WIDTH / SIZE;
    let mut y: i64 = pos.1 as i64 * HEIGHT / SIZE;
    x = x + (CELL_WIDTH - TOKEN_SIZE) / 2;
    y = y + (CELL_HEIGHT - TOKEN_SIZE) / 2;
    (x as i32, y as i32)
}

} // verus!
