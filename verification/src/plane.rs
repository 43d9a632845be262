//! A plane as a sequence of bytes, and the pixels in it.
//!
//! The panel image is a pair of planes, one for black ink and one for red.
//! A zero bit marks the pixel as inked, so a blank plane is all ones.

use vstd::prelude::*;

use crate::bits::{
    get_bit, lemma_bits_determine_byte, lemma_cover_has_no_zero_pair, lemma_put_keeps_cover,
    lemma_put_keeps_other_bits, lemma_put_one_keeps_cover, lemma_put_then_get,
    lemma_uniform_byte, put_bit,
};
use crate::epd_draw_target::EpdColor;
use crate::error::EpdError;
use crate::geometry::{
    bit_offset, byte_index, in_bounds, lemma_address_is_injective, lemma_address_is_onto,
    FRAME_BYTES,
};

verus! {

/// The plane in which every pixel has the same bit.
pub open spec fn uniform_plane(bit: u8) -> Seq<u8> {
    Seq::new(FRAME_BYTES as nat, |i: int| if bit == 0 { 0x00u8 } else { 0xffu8 })
}

/// The plane in which no pixel is inked: all ones.
pub open spec fn blank_plane() -> Seq<u8> {
    uniform_plane(1)
}

/// The bit of pixel `(x, y)` in a plane.
pub open spec fn plane_bit(plane: Seq<u8>, x: int, y: int) -> u8 {
    get_bit(plane[byte_index(x, y)], bit_offset(x, y) as u8)
}

/// The plane with the bit of pixel `(x, y)` cleared and then set to `value`.
pub open spec fn plane_put(plane: Seq<u8>, x: int, y: int, value: u8) -> Seq<u8> {
    plane.update(
        byte_index(x, y),
        put_bit(plane[byte_index(x, y)], bit_offset(x, y) as u8, value),
    )
}

/// Whether the two sequences are planes of the panel in which no pixel is
/// inked in both colors at once.
pub open spec fn well_formed(black: Seq<u8>, red: Seq<u8>) -> bool {
    &&& black.len() == FRAME_BYTES
    &&& red.len() == FRAME_BYTES
    &&& forall|i: int| 0 <= i < FRAME_BYTES ==> (#[trigger] black[i]) | red[i] == 0xff
}

/// The color of pixel `(x, y)` in a pair of planes.
pub open spec fn color_at(black: Seq<u8>, red: Seq<u8>, x: int, y: int) -> Result<
    EpdColor,
    EpdError,
> {
    EpdColor::decode(plane_bit(black, x, y), plane_bit(red, x, y))
}

/// A pixel that was written reads back as written, every other pixel of the
/// plane reads as before, and no byte but the pixel's own has changed.
pub proof fn lemma_plane_put(plane: Seq<u8>, x: int, y: int, value: u8)
    requires
        plane.len() == FRAME_BYTES,
        in_bounds(x, y),
        value <= 1,
    ensures
        plane_put(plane, x, y, value).len() == FRAME_BYTES,
        plane_bit(plane_put(plane, x, y, value), x, y) == value,
        forall|x2: int, y2: int|
            in_bounds(x2, y2) && (x2 != x || y2 != y) ==> #[trigger] plane_bit(
                plane_put(plane, x, y, value),
                x2,
                y2,
            ) == plane_bit(plane, x2, y2),
        forall|i: int|
            0 <= i < FRAME_BYTES && i != byte_index(x, y) ==> #[trigger] plane_put(
                plane,
                x,
                y,
                value,
            )[i] == plane[i],
{
    lemma_address_is_injective(x, y, x, y);
    let byte = plane[byte_index(x, y)];
    let bit = bit_offset(x, y) as u8;
    lemma_put_then_get(byte, bit, value);
    assert forall|x2: int, y2: int| in_bounds(x2, y2) && (x2 != x || y2 != y) implies #[trigger]
        plane_bit(plane_put(plane, x, y, value), x2, y2) == plane_bit(plane, x2, y2) by {
        lemma_address_is_injective(x2, y2, x, y);
        if byte_index(x2, y2) == byte_index(x, y) {
            lemma_put_keeps_other_bits(byte, bit, value, bit_offset(x2, y2) as u8);
        }
    }
}

/// Writing a color into a well-formed pair of planes leaves the pair well
/// formed, and the pixel then decodes to that color.
pub proof fn lemma_write_keeps_well_formed(
    black: Seq<u8>,
    red: Seq<u8>,
    x: int,
    y: int,
    color: EpdColor,
)
    requires
        well_formed(black, red),
        in_bounds(x, y),
    ensures
        well_formed(
            plane_put(black, x, y, color.black_bit()),
            plane_put(red, x, y, color.red_bit()),
        ),
        color_at(
            plane_put(black, x, y, color.black_bit()),
            plane_put(red, x, y, color.red_bit()),
            x,
            y,
        ) == Ok::<EpdColor, EpdError>(color),
{
    lemma_address_is_injective(x, y, x, y);
    let at = byte_index(x, y);
    let bit = bit_offset(x, y) as u8;
    assert(black[at] | red[at] == 0xff);
    lemma_put_keeps_cover(black[at], red[at], bit, color.black_bit(), color.red_bit());
    lemma_plane_put(black, x, y, color.black_bit());
    lemma_plane_put(red, x, y, color.red_bit());
    let black2 = plane_put(black, x, y, color.black_bit());
    let red2 = plane_put(red, x, y, color.red_bit());
    assert forall|i: int| 0 <= i < FRAME_BYTES implies (#[trigger] black2[i]) | red2[i]
        == 0xff by {
        if i != at {
            assert(black[i] | red[i] == 0xff);
        }
    }
}

/// Taking the ink of one color off a pixel leaves a well-formed pair of
/// planes well formed, whichever plane it is.
pub proof fn lemma_ink_off_keeps_well_formed(black: Seq<u8>, red: Seq<u8>, x: int, y: int)
    requires
        well_formed(black, red),
        in_bounds(x, y),
    ensures
        well_formed(plane_put(black, x, y, 1), red),
        well_formed(black, plane_put(red, x, y, 1)),
{
    lemma_address_is_injective(x, y, x, y);
    let at = byte_index(x, y);
    let bit = bit_offset(x, y) as u8;
    assert(black[at] | red[at] == 0xff);
    lemma_put_one_keeps_cover(black[at], red[at], bit);
    let black2 = plane_put(black, x, y, 1);
    let red2 = plane_put(red, x, y, 1);
    assert forall|i: int| 0 <= i < FRAME_BYTES implies (#[trigger] black2[i]) | red[i]
        == 0xff by {
        if i != at {
            assert(black[i] | red[i] == 0xff);
        }
    }
    assert forall|i: int| 0 <= i < FRAME_BYTES implies (#[trigger] black[i]) | red2[i]
        == 0xff by {
        if i != at {
            assert(black[i] | red[i] == 0xff);
        }
    }
}

/// In a well-formed pair of planes every pixel of the panel has a color.
pub proof fn lemma_well_formed_has_colors(black: Seq<u8>, red: Seq<u8>, x: int, y: int)
    requires
        well_formed(black, red),
        in_bounds(x, y),
    ensures
        color_at(black, red, x, y) is Ok,
{
    lemma_address_is_injective(x, y, x, y);
    let at = byte_index(x, y);
    assert(black[at] | red[at] == 0xff);
    lemma_cover_has_no_zero_pair(black[at], red[at], bit_offset(x, y) as u8);
}

/// A plane is its pixels: two planes that agree in the bit of every pixel of
/// the panel are equal.
pub proof fn lemma_pixels_determine_plane(first: Seq<u8>, second: Seq<u8>)
    requires
        first.len() == FRAME_BYTES,
        second.len() == FRAME_BYTES,
        forall|x: int, y: int|
            in_bounds(x, y) ==> #[trigger] plane_bit(first, x, y) == plane_bit(second, x, y),
    ensures
        first == second,
{
    assert forall|i: int| 0 <= i < FRAME_BYTES implies first[i] == second[i] by {
        assert forall|bit: u8| bit < 8 implies get_bit(first[i], bit) == get_bit(
            second[i],
            bit,
        ) by {
            let (x, y) = lemma_address_is_onto(i, bit as int);
            assert(plane_bit(first, x, y) == plane_bit(second, x, y));
        }
        lemma_bits_determine_byte(first[i], second[i]);
    }
    assert(first =~= second);
}

/// In a uniform plane every pixel of the panel reads the plane's bit.
pub proof fn lemma_uniform_plane(bit: u8, x: int, y: int)
    requires
        bit <= 1,
        in_bounds(x, y),
    ensures
        uniform_plane(bit).len() == FRAME_BYTES,
        plane_bit(uniform_plane(bit), x, y) == bit,
{
    lemma_address_is_injective(x, y, x, y);
    lemma_uniform_byte(bit_offset(x, y) as u8);
}

} // verus!
