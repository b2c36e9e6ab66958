//! The input controller: turns repeated key-down events into accelerating
//! viewport adjustments.
//!
//! The controller is a two-state machine. Each key-down of a recognized
//! command moves it to `Repeating` with the count one higher (starting at 1
//! from `Idle`); a tick that ends with no recognized key-down drops it back
//! to `Idle`. A zoom key applies the square of the count in time units, a pan
//! key applies the count in pixels: zoom needs a larger dynamic range than
//! pan, so it accelerates faster under a held key.

use vstd::prelude::*;

use crate::viewport::sat_add_i32;
use crate::viewport::Viewport;

verus! {

/// A recognized command key.
#[derive(Clone, Copy, Debug, PartialEq, Eq, Structural)]
pub enum Command {
    /// Coarsen the zoom: more time units per pixel.
    ZoomIn,
    /// Refine the zoom: fewer time units per pixel.
    ZoomOut,
    /// Restore the scale that fits the whole trace in the window.
    ResetZoom,
    /// Scroll toward earlier timestamps.
    PanLeft,
    /// Scroll toward later timestamps.
    PanRight,
    /// Clear the scroll offset.
    ResetPan,
}

/// Whether a key is being held across consecutive ticks, and for how many
/// key-downs.
#[derive(Clone, Copy, Debug, PartialEq, Eq, Structural)]
pub enum RepeatState {
    /// No recognized key-down since the last tick ended.
    Idle,
    /// Key-downs have arrived on every tick since the count started.
    Repeating(i32),
}

/// `a + b` clamped to the `u64` range.
pub open spec fn sat_add_u64(a: int, b: int) -> int {
    if a + b > u64::MAX {
        u64::MAX as int
    } else {
        a + b
    }
}

/// `a - b` clamped below at zero.
pub open spec fn sat_sub_u64(a: int, b: int) -> int {
    if a - b < 0 {
        0
    } else {
        a - b
    }
}

/// The key-repeat state machine.
pub struct InputController {
    /// The repeat state carried across ticks.
    pub state: RepeatState,
    /// Whether a recognized key-down has arrived in the current tick.
    pub seen_this_tick: bool,
}

impl InputController {
    /// A repeating count is at least one.
    pub open spec fn wf(self) -> bool {
        match self.state {
            RepeatState::Idle => true,
            RepeatState::Repeating(n) => n >= 1,
        }
    }

    /// The repeat count: zero when idle.
    pub open spec fn spec_count(self) -> int {
        match self.state {
            RepeatState::Idle => 0,
            RepeatState::Repeating(n) => n as int,
        }
    }

    /// A controller in the idle state.
    pub fn new() -> (c: InputController)
        ensures
            c.wf(),
            c.state == RepeatState::Idle,
            c.seen_this_tick == false,
    {
        InputController { state: RepeatState::Idle, seen_this_tick: false }
    }

    /// Consumes one key-down of a recognized command: raises the repeat count
    /// (saturating) and applies the command to the viewport — the squared
    /// count as time units for a zoom key, the count as pixels for a pan key.
    pub fn on_key_down(&mut self, cmd: Command, vp: &mut Viewport)
        requires
            old(self).wf(),
            old(vp).wf(),
        ensures
            final(self).wf(),
            final(vp).wf(),
            final(self).seen_this_tick == true,
            final(self).spec_count() == if old(self).spec_count() == i32::MAX {
                i32::MAX as int
            } else {
                old(self).spec_count() + 1
            },
            final(self).state == RepeatState::Repeating(final(self).spec_count() as i32),
            final(vp).window_width == old(vp).window_width,
            final(vp).min_start == old(vp).min_start,
            final(vp).max_stop == old(vp).max_stop,
            ({
                let n = final(self).spec_count();
                match cmd {
                    Command::ZoomIn => final(vp).scale == sat_add_u64(old(vp).scale as int, n * n)
                        && final(vp).scroll == old(vp).scroll,
                    Command::ZoomOut => final(vp).scale == sat_sub_u64(old(vp).scale as int, n * n)
                        && final(vp).scroll == old(vp).scroll,
                    Command::ResetZoom => final(vp).scale == old(vp).fit_scale() && final(vp).scroll
                        == old(vp).scroll,
                    Command::PanRight => final(vp).scroll == sat_add_i32(old(vp).scroll as int, n)
                        && final(vp).scale == old(vp).scale,
                    Command::PanLeft => final(vp).scroll == sat_add_i32(old(vp).scroll as int, -n)
                        && final(vp).scale == old(vp).scale,
                    Command::ResetPan => final(vp).scroll == 0 && final(vp).scale == old(vp).scale,
                }
            }),
    {
        let n: i32 = match self.state {
            RepeatState::Idle => 1,
            RepeatState::Repeating(c) => if c == i32::MAX {
                c
            } else {
                c + 1
            },
        };
        self.state = RepeatState::Repeating(n);
        self.seen_this_tick = true;
        match cmd {
            Command::ZoomIn => {
                proof {
                    assert((n as int) * (n as int) <= u64::MAX) by (nonlinear_arith)
                        requires
                            1 <= n <= i32::MAX,
                    ;
                }
                vp.zoom_in((n as u64) * (n as u64));
            },
            Command::ZoomOut => {
                proof {
                    assert((n as int) * (n as int) <= u64::MAX) by (nonlinear_arith)
                        requires
                            1 <= n <= i32::MAX,
                    ;
                }
                vp.zoom_out((n as u64) * (n as u64));
            },
            Command::ResetZoom => vp.reset_zoom(),
            Command::PanRight => vp.pan(n),
            Command::PanLeft => vp.pan(-n),
            Command::ResetPan => vp.reset_pan(),
        }
    }

    /// Ends one tick: with no recognized key-down this tick the machine drops
    /// back to idle, otherwise the count carries over; either way the next
    /// tick starts unseen.
    pub fn end_tick(&mut self)
        requires
            old(self).wf(),
        ensures
            final(self).wf(),
            final(self).seen_this_tick == false,
            final(self).state == if old(self).seen_this_tick {
                old(self).state
            } else {
                RepeatState::Idle
            },
    {
        if !self.seen_this_tick {
            self.state = RepeatState::Idle;
        }
        self.seen_this_tick = false;
    }
}

/// Zooming out at the zero floor stays at zero: however long the key is
/// held, the scale never underflows.
pub proof fn lemma_zoom_out_floor(amount: int)
    requires
        0 <= amount,
    ensures
        sat_sub_u64(0, amount) == 0,
{
}

} // verus!
