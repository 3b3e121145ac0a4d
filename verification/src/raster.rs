//! Shapes and glyphs as the `embedded-graphics` crate draws them.
//!
//! Which pixels a circle outline or a line of text covers is decided by that
//! crate. The functions here hand its answers to the canvas as plain values;
//! their contracts are taken on trust from the crate's source.

use crate::canvas::{AREA, HEIGHT, WIDTH};
use embedded_graphics::framebuffer::Framebuffer;
use embedded_graphics::geometry::{Dimensions, Point};
use embedded_graphics::image::GetPixel;
use embedded_graphics::mono_font::ascii::FONT_10X20;
use embedded_graphics::mono_font::MonoTextStyle;
use embedded_graphics::pixelcolor::raw::{LittleEndian, RawU1};
use embedded_graphics::pixelcolor::BinaryColor;
use embedded_graphics::primitives::{Circle, PointsIter, Primitive, PrimitiveStyle};
use embedded_graphics::text::Text;
use embedded_graphics::Drawable;
use vstd::prelude::*;

verus! {

/// Largest distance from the origin, on either axis, at which shapes and
/// text are placed. It keeps the 32-bit coordinate arithmetic of the
/// rasteriser far from overflow.
pub const COORD_LIMIT: i32 = 1_000_000;

/// Largest diameter of a circle.
pub const DIAMETER_LIMIT: u32 = 10_000;

/// Largest stroke width of a circle.
pub const STROKE_LIMIT: u32 = 100;

/// Largest number of bytes in one text.
pub const TEXT_LIMIT: usize = 10_000;

/// Bytes that a one-bit sheet of the canvas's size takes: eight cells to a byte.
pub const SHEET_BYTES: usize = 9600;

/// Width of one glyph cell of the font.
pub const GLYPH_WIDTH: u32 = 10;

/// Height of one glyph cell of the font.
pub const GLYPH_HEIGHT: u32 = 20;

/// Distance from the top of a glyph cell down to the baseline, where text is anchored.
pub const GLYPH_BASELINE: i32 = 15;

/// Whether a coordinate pair is within reach of the rasteriser.
pub open spec fn placeable(x: int, y: int) -> bool {
    -(COORD_LIMIT as int) <= x <= COORD_LIMIT as int && -(COORD_LIMIT as int) <= y
        <= COORD_LIMIT as int
}

/// Whether every byte of `text` is a printable ASCII character.
pub open spec fn printable(text: Seq<u8>) -> bool {
    forall|i: int| 0 <= i < text.len() ==> 0x20 <= #[trigger] text[i] <= 0x7e
}

/// The points of the outline of the circle whose bounding square has its
/// corner at `(left, top)` and the side `diameter`, drawn with a stroke of
/// the given width centred on the rim. The points come row by row.
pub uninterp spec fn circle_outline(left: int, top: int, diameter: int, stroke: int) -> Seq<
    (i32, i32),
>;

/// For each cell of the canvas, row by row, whether the text anchored at
/// `(x, y)` covers it when set in the 10x20 font.
pub uninterp spec fn text_coverage(text: Seq<u8>, x: int, y: int) -> Seq<bool>;

/// Asks `embedded_graphics` for the pixels of a stroked circle:
/// `Circle::new(..).into_styled(PrimitiveStyle::with_stroke(.., stroke)).pixels()`.
/// The result depends on the four arguments alone, so it is given the name
/// `circle_outline`; nothing else is claimed of it. The bounds keep the
/// squared distances that the crate computes inside 32 bits.
#[verifier::external_body]
pub(crate) fn circle_outline_points(left: i32, top: i32, diameter: u32, stroke: u32) -> (points:
    Vec<(i32, i32)>)
    requires
        placeable(left as int, top as int),
        diameter <= DIAMETER_LIMIT,
        stroke <= STROKE_LIMIT,
    ensures
        points@ == circle_outline(left as int, top as int, diameter as int, stroke as int),
{
    Circle::new(Point::new(left, top), diameter)
        .into_styled(PrimitiveStyle::with_stroke(BinaryColor::On, stroke))
        .pixels()
        .map(|pixel| (pixel.0.x, pixel.0.y))
        .collect()
}

/// Has `embedded_graphics` draw `text` with `Text::new(..).draw(..)` in
/// `FONT_10X20` on a one-bit `Framebuffer` of the canvas's size that starts
/// blank, and reads every cell back with `GetPixel::pixel`, row by row. Each
/// byte of the text stands for the character with that code. The result
/// depends on the arguments alone and is named `text_coverage`; the length is
/// the number of points of the sheet's bounding box.
#[verifier::external_body]
pub(crate) fn text_stencil(text: &Vec<u8>, x: i32, y: i32) -> (stencil: Vec<bool>)
    requires
        placeable(x as int, y as int),
        text@.len() <= TEXT_LIMIT,
    ensures
        stencil@ == text_coverage(text@, x as int, y as int),
        stencil@.len() == AREA,
{
    let mut sheet = Framebuffer::<BinaryColor, RawU1, LittleEndian, WIDTH, HEIGHT, SHEET_BYTES>::new();
    let line: String = text.iter().map(|byte| char::from(*byte)).collect();
    let style = MonoTextStyle::new(&FONT_10X20, BinaryColor::On);
    Text::new(&line, Point::new(x, y), style).draw(&mut sheet).ok();
    sheet.bounding_box().points().map(|p| sheet.pixel(p) == Some(BinaryColor::On)).collect()
}

/// Asks `embedded_graphics` for `Text::new(..).bounding_box()` in
/// `FONT_10X20`: corner first, then width and height. For one line of
/// printable characters the crate's source gives the box outright: it starts
/// at the anchor, raised by the font's baseline, is one glyph cell high and
/// one cell wide for each character.
#[verifier::external_body]
pub(crate) fn text_bounding_box(text: &Vec<u8>, x: i32, y: i32) -> (bounds: (i32, i32, u32, u32))
    requires
        placeable(x as int, y as int),
        0 < text@.len() <= TEXT_LIMIT,
        printable(text@),
    ensures
        bounds.0 == x,
        bounds.1 == y - GLYPH_BASELINE,
        bounds.2 == GLYPH_WIDTH * text@.len(),
        bounds.3 == GLYPH_HEIGHT,
{
    let line: String = text.iter().map(|byte| char::from(*byte)).collect();
    let style = MonoTextStyle::new(&FONT_10X20, BinaryColor::On);
    let area = Text::new(&line, Point::new(x, y), style).bounding_box();
    (area.top_left.x, area.top_left.y, area.size.width, area.size.height)
}

} // verus!
