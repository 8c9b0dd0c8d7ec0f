//! Addressing of the packed canvas buffer: two pixels per byte, row-major.

use vstd::prelude::*;

verus! {

/// Pixels per canvas row.
pub const CANVAS_WIDTH: u32 = 1000;

/// Number of canvas rows.
pub const CANVAS_HEIGHT: u32 = 1000;

/// Bytes per canvas row.
pub const ROW_STRIDE: usize = 500;

/// Bytes of a whole canvas.
pub const CANVAS_BYTES: usize = 500000;

/// Position in the buffer of the byte that holds pixel `(x, y)`.
pub open spec fn cell_offset(x: int, y: int) -> int {
    y * ROW_STRIDE + x / 2
}

/// The palette index stored for pixel `(x, y)`: the high nibble of its byte
/// where `x` is even, the low nibble where it is odd.
pub open spec fn board_value(board: Seq<u8>, x: int, y: int) -> u8 {
    let v = board[cell_offset(x, y)];
    if x % 2 == 0 {
        v >> 4
    } else {
        v & 0xF
    }
}

/// The index stored at `(x, y)` of an unpacked image of the given width.
pub open spec fn target_value(target: Seq<u8>, x: int, y: int, width: int) -> u8 {
    target[y * width + x]
}

/// Reads the palette index of canvas pixel `(x, y)`.
pub fn sample_board(board: &[u8], x: u32, y: u32) -> (v: u8)
    requires
        x < CANVAS_WIDTH,
        cell_offset(x as int, y as int) < board.len(),
    ensures
        v == board_value(board@, x as int, y as int),
        v < 16,
{
    let v = board[(y as usize) * ROW_STRIDE + (x as usize) / 2];
    assert(v >> 4 < 16 && v & 0xF < 16) by (bit_vector);
    if x % 2 == 0 {
        v >> 4
    } else {
        v & 0xF
    }
}

/// Reads the palette index at `(x, y)` of an unpacked image.
pub fn sample_target(target: &[u8], x: u32, y: u32, width: u32) -> (v: u8)
    requires
        y * width + x < target.len(),
    ensures
        v == target_value(target@, x as int, y as int, width as int),
{
    assert(0 <= y * width) by (nonlinear_arith);
    target[(y as usize) * (width as usize) + (x as usize)]
}

} // verus!
