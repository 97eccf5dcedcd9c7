//! Where text goes on the display: the arithmetic of the demo screens.
//!
//! The size of a rendered text comes from `embedded-graphics`; everything
//! that is computed from it, and from the random bytes that place the
//! wandering greeting, is decided here.

use embedded_graphics::geometry::{Dimensions, Point};
use embedded_graphics::mono_font::ascii::FONT_6X9;
use embedded_graphics::mono_font::MonoTextStyle;
use embedded_graphics::pixelcolor::BinaryColor;
use embedded_graphics::text::Text;
use vstd::prelude::*;

verus! {

/// A pixel position on the display.
#[derive(Clone, Copy, Debug, PartialEq, Eq, Structural)]
pub struct Position {
    pub x: i32,
    pub y: i32,
}

/// The rectangle that a rendered text covers.
#[derive(Clone, Copy, Debug, PartialEq, Eq, Structural)]
pub struct TextBounds {
    /// The column of the leftmost pixel.
    pub left: i32,
    /// The row of the topmost pixel.
    pub top: i32,
    /// The number of columns.
    pub width: u32,
    /// The number of rows.
    pub height: u32,
}

/// The longest text, in bytes, that is measured.
pub const MAX_TEXT_BYTES: usize = 0x0100_0000;

/// The largest distance from the origin, in pixels, at which a text is
/// measured.
pub const MAX_COORDINATE: i32 = 0x2000_0000;

/// Pixels between the top of the display and the top of the header.
pub const HEADER_MARGIN: i32 = 3;

/// Column at which the header starts.
pub const HEADER_LEFT: i32 = 3;

/// Columns kept free at the right of the display for the greeting.
pub const GREETING_WIDTH: u8 = 40;

/// Topmost row for the baseline of the greeting.
pub const GREETING_TOP: i32 = 10;

/// The quotient of `a` by `b` rounded towards zero.
pub open spec fn quotient_towards_zero(a: int, b: int) -> int {
    if a >= 0 && b > 0 {
        a / b
    } else if a >= 0 {
        -(a / (-b))
    } else if b > 0 {
        -((-a) / b)
    } else {
        (-a) / (-b)
    }
}

/// The value in `to_low..to_high` that lies where `val` lies in
/// `from_low..from_high`, rounded towards `to_low` as integer division
/// rounds towards zero.
pub open spec fn mapped(val: int, from_low: int, from_high: int, to_low: int, to_high: int) -> int {
    quotient_towards_zero((val - from_low) * (to_high - to_low), from_high - from_low) + to_low
}

/// Whether `v` is a value of `i32`.
pub open spec fn fits_i32(v: int) -> bool {
    i32::MIN <= v <= i32::MAX
}

/// Re-maps `val` from the range `from_low..from_high` to the range
/// `to_low..to_high`.
pub fn map(val: i32, from_low: i32, from_high: i32, to_low: i32, to_high: i32) -> (out: i32)
    requires
        from_high != from_low,
        fits_i32(val - from_low),
        fits_i32(to_high - to_low),
        fits_i32(from_high - from_low),
        fits_i32((val - from_low) * (to_high - to_low)),
        fits_i32(
            quotient_towards_zero((val - from_low) * (to_high - to_low), from_high - from_low),
        ),
        fits_i32(
            mapped(val as int, from_low as int, from_high as int, to_low as int, to_high as int),
        ),
    ensures
        out == mapped(val as int, from_low as int, from_high as int, to_low as int, to_high as int),
{
    let scaled: i32 = (val - from_low) * (to_high - to_low);
    let span: i32 = from_high - from_low;
    match scaled.checked_div(span) {
        Some(quotient) => quotient + to_low,
        None => {
            assert(false);
            to_low
        },
    }
}

/// The rectangle that `text` covers when it is drawn in the 6x9 font with
/// its position at column `x` and row `y`.
pub uninterp spec fn rendered_bounds(text: Seq<char>, x: int, y: int) -> TextBounds;

/// Measures `text` as `embedded_graphics::text::Text::bounding_box` does
/// for the 6x9 ASCII font, the default text style and the position
/// (`x`, `y`). Nothing is claimed of the rectangle but that it depends on
/// the text and the position alone. The bounds on the length and the
/// position keep the measurement within 32-bit pixel arithmetic.
#[verifier::external_body]
fn measure(text: &str, x: i32, y: i32) -> (bounds: TextBounds)
    requires
        text.len() <= MAX_TEXT_BYTES,
        -MAX_COORDINATE <= x <= MAX_COORDINATE,
        -MAX_COORDINATE <= y <= MAX_COORDINATE,
    ensures
        bounds == rendered_bounds(text@, x as int, y as int),
{
    let style = MonoTextStyle::new(&FONT_6X9, BinaryColor::On);
    let bb = Text::new(text, Point::new(x, y), style).bounding_box();
    TextBounds {
        left: bb.top_left.x,
        top: bb.top_left.y,
        width: bb.size.width,
        height: bb.size.height,
    }
}

/// The rectangle that `text` covers when it is drawn with its position at
/// (`x`, `y`), or `None` where the text is longer than `MAX_TEXT_BYTES` or
/// the position is farther than `MAX_COORDINATE` from the origin.
pub fn measure_text(text: &str, x: i32, y: i32) -> (bounds: Option<TextBounds>)
    ensures
        bounds == if measurable(text, x, y) {
            Some(rendered_bounds(text@, x as int, y as int))
        } else {
            None
        },
{
    if text.len() <= MAX_TEXT_BYTES && -MAX_COORDINATE <= x && x <= MAX_COORDINATE
        && -MAX_COORDINATE <= y && y <= MAX_COORDINATE {
        Some(measure(text, x, y))
    } else {
        None
    }
}

/// Whether `text` at (`x`, `y`) is within the limits of `measure_text`.
pub open spec fn measurable(text: &str, x: i32, y: i32) -> bool {
    &&& text.len() <= MAX_TEXT_BYTES
    &&& -MAX_COORDINATE <= x <= MAX_COORDINATE
    &&& -MAX_COORDINATE <= y <= MAX_COORDINATE
}

/// The row for the position of a header of the given height: the header
/// is moved down by its own height and the margin.
pub fn header_baseline(height: u32) -> (y: i32)
    requires
        height + HEADER_MARGIN <= i32::MAX,
    ensures
        y == height + HEADER_MARGIN,
{
    height as i32 + HEADER_MARGIN
}

/// The position at which the header `text` is drawn, or `None` where the
/// text cannot be measured or is too tall for the row to be a pixel
/// coordinate.
pub fn place_header(text: &str) -> (position: Option<Position>)
    ensures
        position == header_position(text),
{
    match measure_text(text, HEADER_LEFT, 0) {
        Some(bounds) => {
            if bounds.height <= 0x7fff_fff0 {
                Some(Position { x: HEADER_LEFT, y: header_baseline(bounds.height) })
            } else {
                None
            }
        },
        None => None,
    }
}

/// What `place_header` answers for `text`.
pub open spec fn header_position(text: &str) -> Option<Position> {
    if text.len() <= MAX_TEXT_BYTES && rendered_bounds(text@, HEADER_LEFT as int, 0).height
        <= 0x7fff_fff0 {
        Some(
            Position {
                x: HEADER_LEFT,
                y: (rendered_bounds(text@, HEADER_LEFT as int, 0).height + HEADER_MARGIN) as i32,
            },
        )
    } else {
        None
    }
}

/// The position of the greeting before it wanders: the bottom left of a
/// display with `height` rows.
pub fn greeting_start(height: u8) -> (position: Position)
    requires
        height >= 1,
    ensures
        position.x == 1,
        position.y == height - 1,
{
    Position { x: 1, y: (height - 1) as i32 }
}

/// The position of the wandering greeting for the random bytes `across`
/// and `down` on a display of `width` columns and `height` rows: `across`
/// is mapped to the columns that leave `GREETING_WIDTH` free at the right,
/// `down` to the rows from `GREETING_TOP` to the last.
pub fn wander(across: u8, down: u8, width: u8, height: u8) -> (position: Position)
    requires
        width >= GREETING_WIDTH,
        height >= 1,
    ensures
        position.x == mapped(across as int, 0, 255, 0, width - GREETING_WIDTH),
        position.y == mapped(down as int, 0, 255, GREETING_TOP as int, height - 1),
{
    let columns: i32 = (width - GREETING_WIDTH) as i32;
    let last_row: i32 = (height - 1) as i32;
    proof {
        lemma_mapped_byte_in_range(across as int, 0, columns as int);
        lemma_mapped_byte_in_range(down as int, GREETING_TOP as int, last_row as int);
    }
    let x = map(across as i32, 0, 255, 0, columns);
    let y = map(down as i32, 0, 255, GREETING_TOP, last_row);
    Position { x, y }
}

/// A byte mapped from `0..255` to a range within the display stays between
/// the ends of that range, and every step of the computation stays far
/// within 32 bits.
pub proof fn lemma_mapped_byte_in_range(byte: int, to_low: int, to_high: int)
    requires
        0 <= byte <= 255,
        -256 <= to_low <= 256,
        -256 <= to_high <= 256,
    ensures
        -255 * 512 <= byte * (to_high - to_low) <= 255 * 512,
        to_low <= to_high ==> to_low <= mapped(byte, 0, 255, to_low, to_high) <= to_high,
        to_high <= to_low ==> to_high <= mapped(byte, 0, 255, to_low, to_high) <= to_low,
        fits_i32(quotient_towards_zero(byte * (to_high - to_low), 255)),
        fits_i32(mapped(byte, 0, 255, to_low, to_high)),
{
    let span = to_high - to_low;
    let scaled = byte * span;
    if span >= 0 {
        assert(0 <= scaled <= 255 * span) by (nonlinear_arith)
            requires
                0 <= byte <= 255,
                0 <= span,
                scaled == byte * span,
        ;
        assert(0 <= scaled / 255 <= span) by (nonlinear_arith)
            requires
                0 <= scaled <= 255 * span,
        ;
    } else {
        assert(0 <= -scaled <= 255 * (-span)) by (nonlinear_arith)
            requires
                0 <= byte <= 255,
                span < 0,
                scaled == byte * span,
        ;
        assert(0 <= (-scaled) / 255 <= -span) by (nonlinear_arith)
            requires
                0 <= -scaled <= 255 * (-span),
        ;
    }
}

} // verus!
