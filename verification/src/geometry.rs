//! The fixed geometry of the panel and the place of a pixel in a plane.
//!
//! A plane packs eight pixels of a row into one byte, the leftmost pixel in
//! the most significant bit, row after row from the top.

use vstd::prelude::*;

use crate::error::EpdError;

verus! {

/// Pixels in a row.
pub const DISPLAY_WIDTH: usize = 152;

/// Rows on the panel.
pub const DISPLAY_HEIGHT: usize = 152;

/// Bytes in one plane. Width and height are multiples of eight, so no row is
/// padded.
pub const FRAME_BYTES: usize = DISPLAY_WIDTH * DISPLAY_HEIGHT / 8;

/// The extent of the drawable surface.
#[derive(Clone, Copy, Debug, PartialEq, Eq, Structural)]
pub struct Size {
    pub width: u32,
    pub height: u32,
}

/// Where a pixel lives in a plane: the byte, and the bit in it (7 is the most
/// significant).
#[derive(Clone, Copy, Debug, PartialEq, Eq, Structural)]
pub struct BitAddress {
    pub byte: usize,
    pub bit: u8,
}

/// Whether `(x, y)` names a pixel of the panel.
pub open spec fn in_bounds(x: int, y: int) -> bool {
    0 <= x < DISPLAY_WIDTH && 0 <= y < DISPLAY_HEIGHT
}

/// The position of pixel `(x, y)` when the rows are laid end to end.
pub open spec fn pixel_index(x: int, y: int) -> int {
    y * DISPLAY_WIDTH + x
}

/// The byte of a plane that holds pixel `(x, y)`.
pub open spec fn byte_index(x: int, y: int) -> int {
    pixel_index(x, y) / 8
}

/// The bit of that byte that holds pixel `(x, y)`.
pub open spec fn bit_offset(x: int, y: int) -> int {
    7 - pixel_index(x, y) % 8
}

/// Every pixel of the panel lies in a plane, and two pixels never share a bit.
pub proof fn lemma_address_is_injective(x1: int, y1: int, x2: int, y2: int)
    requires
        in_bounds(x1, y1),
        in_bounds(x2, y2),
    ensures
        0 <= byte_index(x1, y1) < FRAME_BYTES,
        0 <= bit_offset(x1, y1) < 8,
        (byte_index(x1, y1) == byte_index(x2, y2) && bit_offset(x1, y1) == bit_offset(x2, y2))
            ==> (x1 == x2 && y1 == y2),
{
}

/// Every bit of a plane belongs to a pixel of the panel: the one that is
/// returned.
pub proof fn lemma_address_is_onto(byte: int, bit: int) -> (at: (int, int))
    requires
        0 <= byte < FRAME_BYTES,
        0 <= bit < 8,
    ensures
        in_bounds(at.0, at.1),
        byte_index(at.0, at.1) == byte,
        bit_offset(at.0, at.1) == bit,
{
    let position = byte * 8 + (7 - bit);
    (position % (DISPLAY_WIDTH as int), position / (DISPLAY_WIDTH as int))
}

/// Finds the byte and bit of pixel `(x, y)`, or reports that the panel has no
/// such pixel.
pub fn locate(x: i32, y: i32) -> (r: Result<BitAddress, EpdError>)
    ensures
        in_bounds(x as int, y as int) ==> r == Ok::<BitAddress, EpdError>(
            BitAddress {
                byte: byte_index(x as int, y as int) as usize,
                bit: bit_offset(x as int, y as int) as u8,
            },
        ),
        !in_bounds(x as int, y as int) ==> r == Err::<BitAddress, EpdError>(EpdError::OutOfRange),
{
    if x < 0 || y < 0 || x as usize >= DISPLAY_WIDTH || y as usize >= DISPLAY_HEIGHT {
        return Err(EpdError::OutOfRange);
    }
    let position: usize = y as usize * DISPLAY_WIDTH + x as usize;
    Ok(BitAddress { byte: position / 8, bit: (7 - position % 8) as u8 })
}

} // verus!
