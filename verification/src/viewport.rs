//! The viewport: zoom and scroll state, and timestamp-to-pixel conversion.
//!
//! `scale` is time units per horizontal pixel; every conversion divides by
//! `scale + 1` so that a scale of zero means the finest zoom rather than a
//! division by zero. `scroll` is a signed pixel offset. All zoom and scroll
//! arithmetic saturates: sustained key input clamps at the numeric boundary
//! instead of failing.

use vstd::arithmetic::div_mod::lemma_basic_div;
use vstd::prelude::*;

use crate::error::ViewError;

verus! {

/// `a + b` clamped to the `i32` range.
pub open spec fn sat_add_i32(a: int, b: int) -> int {
    if a + b > i32::MAX {
        i32::MAX as int
    } else if a + b < i32::MIN {
        i32::MIN as int
    } else {
        a + b
    }
}

/// `a - b` clamped to the `i32` range.
pub open spec fn sat_sub_i32(a: int, b: int) -> int {
    sat_add_i32(a, -b)
}

/// Adds two `i32` values, clamping at the numeric boundary.
pub fn i32_saturating_add(a: i32, b: i32) -> (r: i32)
    ensures
        r == sat_add_i32(a as int, b as int),
{
    match a.checked_add(b) {
        Some(v) => v,
        None => if b > 0 {
            i32::MAX
        } else {
            i32::MIN
        },
    }
}

/// Subtracts two `i32` values, clamping at the numeric boundary.
pub fn i32_saturating_sub(a: i32, b: i32) -> (r: i32)
    ensures
        r == sat_sub_i32(a as int, b as int),
{
    match a.checked_sub(b) {
        Some(v) => v,
        None => if b < 0 {
            i32::MAX
        } else {
            i32::MIN
        },
    }
}

/// Zoom and scroll state over a fixed timestamp domain and window width.
pub struct Viewport {
    /// Time units per horizontal pixel; the effective divisor is `scale + 1`.
    pub scale: u64,
    /// Horizontal pixel offset, saturating.
    pub scroll: i32,
    /// Window width in pixels.
    pub window_width: u32,
    /// Earliest start timestamp of the trace.
    pub min_start: u64,
    /// Largest stop timestamp of the trace.
    pub max_stop: u64,
}

impl Viewport {
    /// The viewport's domain is non-degenerate: a positive window width and
    /// an ordered timestamp range.
    pub open spec fn wf(self) -> bool {
        self.window_width > 0 && self.min_start <= self.max_stop
    }

    /// The scale that fits the whole timestamp range into the window.
    pub open spec fn fit_scale(self) -> int {
        (self.max_stop - self.min_start) / (self.window_width as int)
    }

    /// The unscrolled pixel column of `start`.
    pub open spec fn spec_x_raw(self, start: u64) -> int
        recommends
            self.min_start <= start,
    {
        (start - self.min_start) / (self.scale as int + 1)
    }

    /// What `to_screen_x` returns for `start`.
    pub open spec fn spec_to_screen_x(self, start: u64) -> Result<i32, ViewError> {
        if start < self.min_start {
            Err(ViewError::StartBeforeMin)
        } else if self.spec_x_raw(start) > i32::MAX {
            Err(ViewError::PixelRange)
        } else {
            Ok(sat_sub_i32(self.spec_x_raw(start), self.scroll as int) as i32)
        }
    }

    /// What `to_screen_width` returns for `start..stop`.
    pub open spec fn spec_to_screen_width(self, start: u64, stop: u64) -> Result<u32, ViewError>
        recommends
            start <= stop,
    {
        let w = (stop - start) / (self.scale as int + 1);
        if w > u32::MAX {
            Err(ViewError::PixelRange)
        } else {
            Ok(w as u32)
        }
    }

    /// A viewport over `[min_start, max_stop]` at the scale that fits the
    /// window, with no scroll.
    pub fn new(min_start: u64, max_stop: u64, window_width: u32) -> (vp: Viewport)
        requires
            window_width > 0,
            min_start <= max_stop,
        ensures
            vp.wf(),
            vp.min_start == min_start,
            vp.max_stop == max_stop,
            vp.window_width == window_width,
            vp.scale == vp.fit_scale(),
            vp.scroll == 0,
    {
        Viewport {
            scale: (max_stop - min_start) / (window_width as u64),
            scroll: 0,
            window_width,
            min_start,
            max_stop,
        }
    }

    /// The pixel column of timestamp `start` under the current zoom, shifted
    /// by the current scroll with saturation. Fails if `start` lies before
    /// the trace or the unscrolled column does not fit the pixel range.
    pub fn to_screen_x(&self, start: u64) -> (r: Result<i32, ViewError>)
        ensures
            r == self.spec_to_screen_x(start),
    {
        if start < self.min_start {
            return Err(ViewError::StartBeforeMin);
        }
        let diff = start - self.min_start;
        let q: u64 = if self.scale == u64::MAX {
            proof {
                lemma_basic_div(diff as int, self.scale as int + 1);
            }
            0
        } else {
            diff / (self.scale + 1)
        };
        if q > i32::MAX as u64 {
            return Err(ViewError::PixelRange);
        }
        Ok(i32_saturating_sub(q as i32, self.scroll))
    }

    /// The pixel width of the interval `start..stop` under the current zoom.
    /// Fails if the width does not fit the pixel range.
    pub fn to_screen_width(&self, start: u64, stop: u64) -> (r: Result<u32, ViewError>)
        requires
            start <= stop,
        ensures
            r == self.spec_to_screen_width(start, stop),
    {
        let diff = stop - start;
        let w: u64 = if self.scale == u64::MAX {
            proof {
                lemma_basic_div(diff as int, self.scale as int + 1);
            }
            0
        } else {
            diff / (self.scale + 1)
        };
        if w > u32::MAX as u64 {
            return Err(ViewError::PixelRange);
        }
        Ok(w as u32)
    }

    /// Coarsens the zoom by `amount` time units per pixel, saturating.
    pub fn zoom_in(&mut self, amount: u64)
        ensures
            final(self).scale == if old(self).scale + amount > u64::MAX {
                u64::MAX as int
            } else {
                old(self).scale + amount
            },
            final(self).scroll == old(self).scroll,
            final(self).window_width == old(self).window_width,
            final(self).min_start == old(self).min_start,
            final(self).max_stop == old(self).max_stop,
    {
        self.scale = self.scale.saturating_add(amount);
    }

    /// Refines the zoom by `amount` time units per pixel, stopping at zero.
    pub fn zoom_out(&mut self, amount: u64)
        ensures
            final(self).scale == if old(self).scale >= amount {
                old(self).scale - amount
            } else {
                0
            },
            final(self).scroll == old(self).scroll,
            final(self).window_width == old(self).window_width,
            final(self).min_start == old(self).min_start,
            final(self).max_stop == old(self).max_stop,
    {
        self.scale = self.scale.saturating_sub(amount);
    }

    /// Restores the scale that fits the whole timestamp range into the
    /// window, whatever the zoom history.
    pub fn reset_zoom(&mut self)
        requires
            old(self).wf(),
        ensures
            final(self).scale == old(self).fit_scale(),
            final(self).scroll == old(self).scroll,
            final(self).window_width == old(self).window_width,
            final(self).min_start == old(self).min_start,
            final(self).max_stop == old(self).max_stop,
    {
        self.scale = (self.max_stop - self.min_start) / (self.window_width as u64);
    }

    /// Shifts the scroll offset by `delta` pixels, saturating.
    pub fn pan(&mut self, delta: i32)
        ensures
            final(self).scroll == sat_add_i32(old(self).scroll as int, delta as int),
            final(self).scale == old(self).scale,
            final(self).window_width == old(self).window_width,
            final(self).min_start == old(self).min_start,
            final(self).max_stop == old(self).max_stop,
    {
        self.scroll = i32_saturating_add(self.scroll, delta);
    }

    /// Clears the scroll offset.
    pub fn reset_pan(&mut self)
        ensures
            final(self).scroll == 0,
            final(self).scale == old(self).scale,
            final(self).window_width == old(self).window_width,
            final(self).min_start == old(self).min_start,
            final(self).max_stop == old(self).max_stop,
    {
        self.scroll = 0;
    }
}

/// Saturating scroll arithmetic always lands inside the `i32` range: panning
/// cannot leave the representable offsets, whatever the magnitude or sign.
pub proof fn lemma_sat_add_in_range(a: int, b: int)
    requires
        i32::MIN <= a <= i32::MAX,
        i32::MIN <= b <= i32::MAX,
    ensures
        i32::MIN <= sat_add_i32(a, b) <= i32::MAX,
{
}

/// The fit scale depends only on the timestamp domain and the window width.
/// Every zoom and pan operation leaves those fields unchanged, so
/// `reset_zoom` restores the same scale whatever the zoom and scroll
/// history.
pub proof fn lemma_fit_scale_ignores_history(a: Viewport, b: Viewport)
    requires
        a.window_width == b.window_width,
        a.min_start == b.min_start,
        a.max_stop == b.max_stop,
    ensures
        a.fit_scale() == b.fit_scale(),
{
}

/// For a fixed viewport, the screen column is monotonically non-decreasing
/// in the start timestamp: sorting by start is preserved under projection to
/// pixels. A later start also never fits the pixel range worse than an
/// earlier one.
pub proof fn lemma_to_screen_x_monotonic(vp: Viewport, s1: u64, s2: u64)
    requires
        vp.min_start <= s1 <= s2,
    ensures
        vp.spec_x_raw(s1) <= vp.spec_x_raw(s2),
        vp.spec_to_screen_x(s2) is Ok ==> vp.spec_to_screen_x(s1) is Ok,
        (vp.spec_to_screen_x(s1) is Ok && vp.spec_to_screen_x(s2) is Ok)
            ==> vp.spec_to_screen_x(s1).unwrap() <= vp.spec_to_screen_x(s2).unwrap(),
{
    vstd::arithmetic::div_mod::lemma_div_is_ordered(
        s1 - vp.min_start,
        s2 - vp.min_start,
        vp.scale as int + 1,
    );
}

/// With no scroll, the trace's earliest start maps exactly to column zero.
pub proof fn lemma_min_start_at_origin(vp: Viewport)
    requires
        vp.scroll == 0,
    ensures
        vp.spec_to_screen_x(vp.min_start) == Ok::<i32, ViewError>(0i32),
{
    lemma_basic_div(0, vp.scale as int + 1);
}

} // verus!
