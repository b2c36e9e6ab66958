//! The fatal error tier of the viewer.
//!
//! These conditions abort the session rather than being absorbed: they come
//! from inputs the viewer was not built to handle, not from ordinary
//! interaction. Zoom and scroll arithmetic, by contrast, saturates and never
//! raises an error.

use vstd::prelude::*;

verus! {

/// A condition the viewer treats as fatal.
#[derive(Clone, Copy, Debug, PartialEq, Eq, Structural)]
pub enum ViewError {
    /// The trace holds no spans after filtering.
    EmptyTrace,
    /// A span stops before it starts.
    MalformedSpan,
    /// A tag is too large to be laid out as a lane.
    TagTooLarge,
    /// A computed rectangle position or width does not fit the pixel range.
    PixelRange,
    /// A timestamp lies before the trace's earliest start.
    StartBeforeMin,
}

impl ViewError {
    /// A short description, for the process exit message.
    pub fn describe(&self) -> (r: &'static str)
        ensures
            r@ =~= match self {
                ViewError::EmptyTrace => "expected a non-empty array of trace spans"@,
                ViewError::MalformedSpan => "span stops before it starts"@,
                ViewError::TagTooLarge => "span tag too large to lay out"@,
                ViewError::PixelRange => "rectangle outside the pixel range"@,
                ViewError::StartBeforeMin => "timestamp before the trace start"@,
            },
    {
        match self {
            ViewError::EmptyTrace => "expected a non-empty array of trace spans",
            ViewError::MalformedSpan => "span stops before it starts",
            ViewError::TagTooLarge => "span tag too large to lay out",
            ViewError::PixelRange => "rectangle outside the pixel range",
            ViewError::StartBeforeMin => "timestamp before the trace start",
        }
    }
}

} // verus!
