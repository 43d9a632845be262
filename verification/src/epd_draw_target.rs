//! The three colors of the panel, their encodings, and the pixel surface
//! that drawing code paints on.

use vstd::prelude::*;

use crate::bits::{read_bit, write_bit};
use crate::epd::Epd;
use crate::error::EpdError;
use crate::geometry::{
    byte_index, in_bounds, locate, Size, DISPLAY_HEIGHT, DISPLAY_WIDTH, FRAME_BYTES,
};
use crate::plane::{
    color_at, lemma_ink_off_keeps_well_formed, lemma_pixels_determine_plane, lemma_plane_put,
    lemma_uniform_plane, lemma_well_formed_has_colors, lemma_write_keeps_well_formed, plane_bit,
    plane_put, uniform_plane, well_formed,
};

verus! {

/// A color that a pixel of the panel can show.
///
/// In a plane a zero bit marks a pixel as inked with that plane's color, so
/// white is a one in both planes. A zero in both planes stands for no color.
#[derive(Copy, Clone, Eq, PartialEq, Ord, PartialOrd, Hash, Debug, Structural)]
pub enum EpdColor {
    White,
    Black,
    Red,
}

impl EpdColor {
    /// The pixel's bit in the black plane, as a mathematical value.
    pub open spec fn spec_black_bit(&self) -> u8 {
        match self {
            EpdColor::Black => 0,
            _ => 1,
        }
    }

    /// The pixel's bit in the red plane, as a mathematical value.
    pub open spec fn spec_red_bit(&self) -> u8 {
        match self {
            EpdColor::Red => 0,
            _ => 1,
        }
    }

    /// The color that a pair of plane bits stands for.
    pub open spec fn decode(black: u8, red: u8) -> Result<EpdColor, EpdError> {
        if black == 1 && red == 1 {
            Ok(EpdColor::White)
        } else if black == 0 && red == 1 {
            Ok(EpdColor::Black)
        } else if black == 1 && red == 0 {
            Ok(EpdColor::Red)
        } else {
            Err(EpdError::InvalidColorEncoding)
        }
    }

    /// The color that a raw two-bit value stands for: bit 0 set means black
    /// ink, bit 1 set means red ink.
    pub open spec fn decode_raw(raw: u8) -> Result<EpdColor, EpdError> {
        if raw == 0 {
            Ok(EpdColor::White)
        } else if raw == 1 {
            Ok(EpdColor::Black)
        } else if raw == 2 {
            Ok(EpdColor::Red)
        } else {
            Err(EpdError::InvalidColorEncoding)
        }
    }

    /// The pixel's bit in the black plane.
    #[verifier::when_used_as_spec(spec_black_bit)]
    pub fn black_bit(&self) -> (bit: u8)
        ensures
            bit == self.spec_black_bit(),
    {
        match self {
            EpdColor::Black => 0,
            _ => 1,
        }
    }

    /// The pixel's bit in the red plane.
    #[verifier::when_used_as_spec(spec_red_bit)]
    pub fn red_bit(&self) -> (bit: u8)
        ensures
            bit == self.spec_red_bit(),
    {
        match self {
            EpdColor::Red => 0,
            _ => 1,
        }
    }

    /// Decodes a pair of plane bits. Both bits zero, or a value that is no
    /// bit, is refused.
    pub fn from_bits(black: u8, red: u8) -> (r: Result<EpdColor, EpdError>)
        ensures
            r == Self::decode(black, red),
    {
        if black == 1 && red == 1 {
            Ok(EpdColor::White)
        } else if black == 0 && red == 1 {
            Ok(EpdColor::Black)
        } else if black == 1 && red == 0 {
            Ok(EpdColor::Red)
        } else {
            Err(EpdError::InvalidColorEncoding)
        }
    }

    /// Decodes a raw two-bit value. `0b11`, or a value wider than two bits,
    /// is refused.
    pub fn from_raw(raw: u8) -> (r: Result<EpdColor, EpdError>)
        ensures
            r == Self::decode_raw(raw),
    {
        match raw {
            0b00 => Ok(EpdColor::White),
            0b01 => Ok(EpdColor::Black),
            0b10 => Ok(EpdColor::Red),
            _ => Err(EpdError::InvalidColorEncoding),
        }
    }
}

/// Encoding a color as its pair of plane bits and decoding the pair gives the
/// color back; the pair is never zero in both planes, and no other pair
/// decodes to the color.
pub proof fn lemma_plane_bits_round_trip(color: EpdColor, black: u8, red: u8)
    ensures
        EpdColor::decode(color.black_bit(), color.red_bit()) == Ok::<EpdColor, EpdError>(color),
        color.black_bit() <= 1,
        color.red_bit() <= 1,
        color.black_bit() + color.red_bit() >= 1,
        EpdColor::decode(black, red) == Ok::<EpdColor, EpdError>(color) ==> black
            == color.black_bit() && red == color.red_bit(),
        EpdColor::decode(0, 0) == Err::<EpdColor, EpdError>(EpdError::InvalidColorEncoding),
{
}

/// A raw two-bit value holds the two plane bits inverted, the red one above
/// the black one. It decodes as the pair does, so the raw value `0b11`, which
/// is the pair of two zeros, stands for no color.
pub proof fn lemma_raw_is_inverted_pair(black: u8, red: u8)
    requires
        black <= 1,
        red <= 1,
    ensures
        EpdColor::decode_raw(((1 - red) * 2 + (1 - black)) as u8) == EpdColor::decode(black, red),
        EpdColor::decode_raw(0b11) == Err::<EpdColor, EpdError>(EpdError::InvalidColorEncoding),
{
}

/// A colored point, as drawing code hands it in.
#[derive(Copy, Clone, Eq, PartialEq, Debug, Structural)]
pub struct Pixel {
    pub x: i32,
    pub y: i32,
    pub color: EpdColor,
}

/// Whether every pixel of the sequence lies on the panel.
pub open spec fn all_in_bounds(pixels: Seq<Pixel>) -> bool {
    forall|i: int|
        0 <= i < pixels.len() ==> in_bounds(#[trigger] pixels[i].x as int, pixels[i].y as int)
}

/// The black plane after the pixels were written into it, first to last.
pub open spec fn paint_black(black: Seq<u8>, pixels: Seq<Pixel>) -> Seq<u8>
    decreases pixels.len(),
{
    if pixels.len() == 0 {
        black
    } else {
        let pixel = pixels.last();
        plane_put(
            paint_black(black, pixels.drop_last()),
            pixel.x as int,
            pixel.y as int,
            pixel.color.black_bit(),
        )
    }
}

/// The red plane after the pixels were written into it, first to last.
pub open spec fn paint_red(red: Seq<u8>, pixels: Seq<Pixel>) -> Seq<u8>
    decreases pixels.len(),
{
    if pixels.len() == 0 {
        red
    } else {
        let pixel = pixels.last();
        plane_put(
            paint_red(red, pixels.drop_last()),
            pixel.x as int,
            pixel.y as int,
            pixel.color.red_bit(),
        )
    }
}

/// The color of the last pixel of the sequence that lies at `(x, y)`, if there
/// is one.
pub open spec fn last_color(pixels: Seq<Pixel>, x: int, y: int) -> Option<EpdColor>
    decreases pixels.len(),
{
    if pixels.len() == 0 {
        None
    } else if pixels.last().x == x && pixels.last().y == y {
        Some(pixels.last().color)
    } else {
        last_color(pixels.drop_last(), x, y)
    }
}

/// After the pixels were written into a well-formed pair of planes, the pair
/// is well formed, a place that one of them names shows the color of the last
/// one that names it, and every other place shows its color from before.
pub proof fn lemma_last_write_wins(
    black: Seq<u8>,
    red: Seq<u8>,
    pixels: Seq<Pixel>,
    x: int,
    y: int,
)
    requires
        well_formed(black, red),
        all_in_bounds(pixels),
        in_bounds(x, y),
    ensures
        well_formed(paint_black(black, pixels), paint_red(red, pixels)),
        color_at(paint_black(black, pixels), paint_red(red, pixels), x, y) == match last_color(
            pixels,
            x,
            y,
        ) {
            Some(color) => Ok::<EpdColor, EpdError>(color),
            None => color_at(black, red, x, y),
        },
    decreases pixels.len(),
{
    if pixels.len() > 0 {
        let pixel = pixels.last();
        let rest = pixels.drop_last();
        assert(in_bounds(pixels[pixels.len() - 1].x as int, pixels[pixels.len() - 1].y as int));
        assert forall|i: int| 0 <= i < rest.len() implies in_bounds(
            #[trigger] rest[i].x as int,
            rest[i].y as int,
        ) by {
            assert(rest[i] == pixels[i]);
        }
        lemma_last_write_wins(black, red, rest, x, y);
        let black_before = paint_black(black, rest);
        let red_before = paint_red(red, rest);
        lemma_write_keeps_well_formed(
            black_before,
            red_before,
            pixel.x as int,
            pixel.y as int,
            pixel.color,
        );
        lemma_plane_put(black_before, pixel.x as int, pixel.y as int, pixel.color.black_bit());
        lemma_plane_put(red_before, pixel.x as int, pixel.y as int, pixel.color.red_bit());
    }
}

/// Whether every pixel of the panel is named by a pixel of the sequence.
pub open spec fn covers_panel(pixels: Seq<Pixel>) -> bool {
    forall|x: int, y: int|
        in_bounds(x, y) ==> exists|i: int|
            0 <= i < pixels.len() && (#[trigger] pixels[i]).x == x && pixels[i].y == y
}

/// Where a pixel of the sequence lies at `(x, y)` and all pixels of the
/// sequence have one color, the last that lies there has it too.
proof fn lemma_last_color_of_uniform(pixels: Seq<Pixel>, color: EpdColor, x: int, y: int, i: int)
    requires
        0 <= i < pixels.len(),
        pixels[i].x == x,
        pixels[i].y == y,
        forall|j: int| 0 <= j < pixels.len() ==> (#[trigger] pixels[j]).color == color,
    ensures
        last_color(pixels, x, y) == Some(color),
    decreases pixels.len(),
{
    if !(pixels.last().x == x && pixels.last().y == y) {
        let rest = pixels.drop_last();
        assert(rest[i] == pixels[i]);
        assert forall|j: int| 0 <= j < rest.len() implies (#[trigger] rest[j]).color == color by {
            assert(rest[j] == pixels[j]);
        }
        lemma_last_color_of_uniform(rest, color, x, y, i);
    }
}

/// Writing one color to every pixel of the panel, in whatever order and over
/// whatever image, leaves two uniform planes: written with black, the black
/// plane is all zeros and the red plane all ones.
pub proof fn lemma_painting_every_pixel(
    black: Seq<u8>,
    red: Seq<u8>,
    pixels: Seq<Pixel>,
    color: EpdColor,
)
    requires
        well_formed(black, red),
        all_in_bounds(pixels),
        covers_panel(pixels),
        forall|i: int| 0 <= i < pixels.len() ==> (#[trigger] pixels[i]).color == color,
    ensures
        paint_black(black, pixels) == uniform_plane(color.black_bit()),
        paint_red(red, pixels) == uniform_plane(color.red_bit()),
{
    let black_after = paint_black(black, pixels);
    let red_after = paint_red(red, pixels);
    lemma_last_write_wins(black, red, pixels, 0, 0);
    assert forall|x: int, y: int| in_bounds(x, y) implies #[trigger] plane_bit(black_after, x, y)
        == plane_bit(uniform_plane(color.black_bit()), x, y) by {
        let i = choose|i: int|
            0 <= i < pixels.len() && (#[trigger] pixels[i]).x == x && pixels[i].y == y;
        lemma_last_color_of_uniform(pixels, color, x, y, i);
        lemma_last_write_wins(black, red, pixels, x, y);
        lemma_uniform_plane(color.black_bit(), x, y);
    }
    assert forall|x: int, y: int| in_bounds(x, y) implies #[trigger] plane_bit(red_after, x, y)
        == plane_bit(uniform_plane(color.red_bit()), x, y) by {
        let i = choose|i: int|
            0 <= i < pixels.len() && (#[trigger] pixels[i]).x == x && pixels[i].y == y;
        lemma_last_color_of_uniform(pixels, color, x, y, i);
        lemma_last_write_wins(black, red, pixels, x, y);
        lemma_uniform_plane(color.red_bit(), x, y);
    }
    lemma_uniform_plane(color.black_bit(), 0, 0);
    lemma_uniform_plane(color.red_bit(), 0, 0);
    lemma_pixels_determine_plane(black_after, uniform_plane(color.black_bit()));
    lemma_pixels_determine_plane(red_after, uniform_plane(color.red_bit()));
}

impl Epd {
    /// The color of pixel `(x, y)` in the image.
    pub open spec fn color_of(&self, x: int, y: int) -> Result<EpdColor, EpdError> {
        color_at(self.black(), self.red(), x, y)
    }

    /// The extent of the drawable surface. It never changes.
    pub fn size(&self) -> (size: Size)
        ensures
            size == (Size { width: DISPLAY_WIDTH as u32, height: DISPLAY_HEIGHT as u32 }),
    {
        Size { width: DISPLAY_WIDTH as u32, height: DISPLAY_HEIGHT as u32 }
    }

    /// Gives pixel `(x, y)` the color, and changes no other pixel. A
    /// coordinate outside the panel is refused and nothing changes.
    pub fn write_pixel(&mut self, x: i32, y: i32, color: EpdColor) -> (r: Result<(), EpdError>)
        ensures
            in_bounds(x as int, y as int) ==> r is Ok && final(self).black() == plane_put(
                old(self).black(),
                x as int,
                y as int,
                color.black_bit(),
            ) && final(self).red() == plane_put(
                old(self).red(),
                x as int,
                y as int,
                color.red_bit(),
            ),
            !in_bounds(x as int, y as int) ==> r == Err::<(), EpdError>(EpdError::OutOfRange)
                && final(self).black() == old(self).black() && final(self).red() == old(self).red(),
            in_bounds(x as int, y as int) ==> final(self).color_of(x as int, y as int) == Ok::<
                EpdColor,
                EpdError,
            >(color),
            forall|x2: int, y2: int|
                in_bounds(x2, y2) && (x2 != x || y2 != y) ==> #[trigger] final(self).color_of(x2, y2)
                    == old(self).color_of(x2, y2),
            forall|i: int|
                0 <= i < FRAME_BYTES && i != byte_index(x as int, y as int) ==> (#[trigger] final(self).black()[i]) == old(self).black()[i] && (#[trigger] final(self).red()[i]) == old(self).red()[i],
            well_formed(final(self).black(), final(self).red()),
            final(self).pending() == old(self).pending(),
    {
        proof {
            use_type_invariant(&*self);
        }
        let at = match locate(x, y) {
            Ok(at) => at,
            Err(e) => {
                return Err(e);
            },
        };
        proof {
            lemma_write_keeps_well_formed(self.black(), self.red(), x as int, y as int, color);
            lemma_ink_off_keeps_well_formed(self.black(), self.red(), x as int, y as int);
            lemma_plane_put(self.black(), x as int, y as int, color.black_bit());
            lemma_plane_put(self.red(), x as int, y as int, color.red_bit());
        }
        let black: u8 = write_bit(self.framebuffer_black[at.byte], at.bit, color.black_bit());
        let red: u8 = write_bit(self.framebuffer_red[at.byte], at.bit, color.red_bit());
        // The plane that loses its ink goes first, so that the pixel is at no
        // moment inked in both colors.
        match color {
            EpdColor::Black => {
                self.framebuffer_red[at.byte] = red;
                self.framebuffer_black[at.byte] = black;
            },
            _ => {
                self.framebuffer_black[at.byte] = black;
                self.framebuffer_red[at.byte] = red;
            },
        }
        Ok(())
    }

    /// Reads the color of pixel `(x, y)`. A coordinate outside the panel is
    /// refused; a pixel of the panel always has a color.
    pub fn pixel(&self, x: i32, y: i32) -> (r: Result<EpdColor, EpdError>)
        ensures
            in_bounds(x as int, y as int) ==> r is Ok && r == self.color_of(x as int, y as int),
            !in_bounds(x as int, y as int) ==> r == Err::<EpdColor, EpdError>(
                EpdError::OutOfRange,
            ),
    {
        proof {
            use_type_invariant(self);
        }
        let at = match locate(x, y) {
            Ok(at) => at,
            Err(e) => {
                return Err(e);
            },
        };
        proof {
            lemma_well_formed_has_colors(self.black(), self.red(), x as int, y as int);
        }
        let black: u8 = read_bit(self.framebuffer_black[at.byte], at.bit);
        let red: u8 = read_bit(self.framebuffer_red[at.byte], at.bit);
        EpdColor::from_bits(black, red)
    }

    /// Writes the pixels into the image, first to last. Where one of them
    /// lies outside the panel, all are refused and nothing changes.
    pub fn draw_iter(&mut self, pixels: &[Pixel]) -> (r: Result<(), EpdError>)
        ensures
            all_in_bounds(pixels@) ==> r is Ok && final(self).black() == paint_black(
                old(self).black(),
                pixels@,
            ) && final(self).red() == paint_red(old(self).red(), pixels@),
            !all_in_bounds(pixels@) ==> r == Err::<(), EpdError>(EpdError::OutOfRange)
                && final(self).black() == old(self).black() && final(self).red() == old(self).red(),
            well_formed(final(self).black(), final(self).red()),
            final(self).pending() == old(self).pending(),
    {
        proof {
            use_type_invariant(&*self);
        }
        let mut checked: usize = 0;
        while checked < pixels.len()
            invariant
                checked <= pixels.len(),
                well_formed(self.black(), self.red()),
                self.black() == old(self).black(),
                self.red() == old(self).red(),
                self.pending() == old(self).pending(),
                forall|i: int|
                    0 <= i < checked ==> in_bounds(#[trigger] pixels[i].x as int, pixels[i].y as int),
            decreases pixels.len() - checked,
        {
            if locate(pixels[checked].x, pixels[checked].y).is_err() {
                return Err(EpdError::OutOfRange);
            }
            checked += 1;
        }
        let mut done: usize = 0;
        while done < pixels.len()
            invariant
                done <= pixels.len(),
                all_in_bounds(pixels@),
                self.black() == paint_black(old(self).black(), pixels@.take(done as int)),
                self.red() == paint_red(old(self).red(), pixels@.take(done as int)),
                self.pending() == old(self).pending(),
                well_formed(self.black(), self.red()),
            decreases pixels.len() - done,
        {
            let pixel = pixels[done];
            proof {
                assert(pixels@.take(done + 1).drop_last() =~= pixels@.take(done as int));
                assert(pixels@.take(done + 1).last() == pixel);
            }
            let _ = self.write_pixel(pixel.x, pixel.y, pixel.color);
            done += 1;
        }
        assert(pixels@.take(done as int) =~= pixels@);
        Ok(())
    }

    /// The black plane, for reading.
    pub fn framebuffer_black(&self) -> (plane: &[u8; FRAME_BYTES])
        ensures
            plane@ == self.black(),
    {
        &self.framebuffer_black
    }

    /// The red plane, for reading.
    pub fn framebuffer_red(&self) -> (plane: &[u8; FRAME_BYTES])
        ensures
            plane@ == self.red(),
    {
        &self.framebuffer_red
    }
}

} // verus!
