//! Lane layout: the vertical pixel origin of a span's lane, and the palette.
//!
//! Each tag owns one horizontal lane. The palette is deterministic by tag;
//! spans whose rendered width rounds to zero pixels take the brighter
//! saturated palette so they stay visible as a thin line, wider spans take
//! the muted one.

use vstd::prelude::*;

use crate::error::ViewError;

verus! {

/// Lane height in vertical pixels.
pub const SPAN_HEIGHT: i32 = 10;

/// Vertical pixels between lanes.
pub const SPAN_SPACING: i32 = 1;

/// The number of colors in each palette.
pub const PALETTE_LEN: u64 = 6;

/// What `lane_origin` returns: the top pixel row of the tag's lane, or an
/// error for a tag too large for the whole lane to fit the pixel range.
pub open spec fn spec_lane_origin(tag: u64) -> Result<i32, ViewError> {
    let y = (SPAN_SPACING + SPAN_HEIGHT) as int * tag as int + SPAN_SPACING as int;
    if y + SPAN_HEIGHT as int > i32::MAX as int {
        Err(ViewError::TagTooLarge)
    } else {
        Ok(y as i32)
    }
}

/// The top pixel row of the lane of `tag`. Fails when the tag is too large
/// for its lane to fit the pixel range.
pub fn lane_origin(tag: u64) -> (r: Result<i32, ViewError>)
    ensures
        r == spec_lane_origin(tag),
{
    let step: u64 = (SPAN_SPACING + SPAN_HEIGHT) as u64;
    if tag > ((i32::MAX as u64) - (SPAN_HEIGHT as u64) - (SPAN_SPACING as u64)) / step {
        Err(ViewError::TagTooLarge)
    } else {
        Ok((step * tag + (SPAN_SPACING as u64)) as i32)
    }
}

/// An opaque color, one byte per channel.
#[derive(Clone, Copy, Debug, PartialEq, Eq, Structural)]
pub struct Rgb {
    pub r: u8,
    pub g: u8,
    pub b: u8,
}

/// The saturated palette entry `i`, used for sub-pixel spans.
pub open spec fn spec_saturated_color(i: int) -> Rgb
    recommends
        0 <= i < PALETTE_LEN,
{
    if i == 0 {
        Rgb { r: 255, g: 0, b: 0 }
    } else if i == 1 {
        Rgb { r: 0, g: 255, b: 0 }
    } else if i == 2 {
        Rgb { r: 0, g: 0, b: 255 }
    } else if i == 3 {
        Rgb { r: 255, g: 255, b: 0 }
    } else if i == 4 {
        Rgb { r: 0, g: 255, b: 255 }
    } else {
        Rgb { r: 255, g: 0, b: 255 }
    }
}

/// The muted palette entry `i`, used for spans at least one pixel wide.
pub open spec fn spec_muted_color(i: int) -> Rgb
    recommends
        0 <= i < PALETTE_LEN,
{
    if i == 0 {
        Rgb { r: 192, g: 0, b: 0 }
    } else if i == 1 {
        Rgb { r: 0, g: 192, b: 0 }
    } else if i == 2 {
        Rgb { r: 0, g: 0, b: 192 }
    } else if i == 3 {
        Rgb { r: 192, g: 192, b: 0 }
    } else if i == 4 {
        Rgb { r: 0, g: 192, b: 192 }
    } else {
        Rgb { r: 192, g: 0, b: 192 }
    }
}

/// The color of a span: palette entry `tag mod PALETTE_LEN`, saturated when
/// the rendered width rounds to zero pixels, muted otherwise.
pub open spec fn spec_span_color(tag: u64, width: u32) -> Rgb {
    if width < 1 {
        spec_saturated_color(tag as int % PALETTE_LEN as int)
    } else {
        spec_muted_color(tag as int % PALETTE_LEN as int)
    }
}

/// Picks the span's color from its tag and rendered pixel width.
pub fn span_color(tag: u64, width: u32) -> (c: Rgb)
    ensures
        c == spec_span_color(tag, width),
{
    let i = tag % PALETTE_LEN;
    if width < 1 {
        if i == 0 {
            Rgb { r: 255, g: 0, b: 0 }
        } else if i == 1 {
            Rgb { r: 0, g: 255, b: 0 }
        } else if i == 2 {
            Rgb { r: 0, g: 0, b: 255 }
        } else if i == 3 {
            Rgb { r: 255, g: 255, b: 0 }
        } else if i == 4 {
            Rgb { r: 0, g: 255, b: 255 }
        } else {
            Rgb { r: 255, g: 0, b: 255 }
        }
    } else {
        if i == 0 {
            Rgb { r: 192, g: 0, b: 0 }
        } else if i == 1 {
            Rgb { r: 0, g: 192, b: 0 }
        } else if i == 2 {
            Rgb { r: 0, g: 0, b: 192 }
        } else if i == 3 {
            Rgb { r: 192, g: 192, b: 0 }
        } else if i == 4 {
            Rgb { r: 0, g: 192, b: 192 }
        } else {
            Rgb { r: 192, g: 0, b: 192 }
        }
    }
}

/// The background fill of the window.
pub fn background_color() -> (c: Rgb)
    ensures
        c == (Rgb { r: 192, g: 192, b: 192 }),
{
    Rgb { r: 192, g: 192, b: 192 }
}

} // verus!
