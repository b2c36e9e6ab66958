//! One render tick, minus the drawing: the geometry of every span under the
//! current viewport, the rebuilt hit-test index, and the selection state.
//!
//! A frame lays the spans out in store order. Each span becomes one fill
//! command for the backend and one rectangle in the hit-test index; a span
//! whose geometry does not fit the pixel range is a fatal error, not a
//! clamped value. The selection is set from the hit-test index on
//! pointer-down and cleared on pointer-up.

use vstd::prelude::*;

use crate::error::ViewError;
use crate::hittest::last_hit;
use crate::hittest::Area;
use crate::hittest::HitIndex;
use crate::layout::spec_lane_origin;
use crate::layout::spec_span_color;
use crate::layout::lane_origin;
use crate::layout::span_color;
use crate::layout::Rgb;
use crate::layout::SPAN_HEIGHT;
use crate::span::Span;
use crate::store::Store;
use crate::viewport::Viewport;

verus! {

/// One rectangle fill for the rendering backend.
#[derive(Clone, Copy, Debug, PartialEq, Eq, Structural)]
pub struct DrawCmd {
    pub x: i32,
    pub y: i32,
    pub width: u32,
    pub height: u32,
    pub color: Rgb,
}

/// What `layout_span` returns: the span's fill command and hit-test
/// rectangle under `vp`, or the first fatal geometry error.
pub open spec fn spec_layout_span(vp: Viewport, s: Span) -> Result<(DrawCmd, Area), ViewError>
    recommends
        s.wf(),
{
    match vp.spec_to_screen_width(s.start, s.stop) {
        Err(e) => Err(e),
        Ok(w) => match vp.spec_to_screen_x(s.start) {
            Err(e) => Err(e),
            Ok(x) => match spec_lane_origin(s.tag) {
                Err(e) => Err(e),
                Ok(y) => if w > i32::MAX || x + w > i32::MAX {
                    Err(ViewError::PixelRange)
                } else {
                    Ok(
                        (
                            DrawCmd {
                                x,
                                y,
                                width: w,
                                height: SPAN_HEIGHT as u32,
                                color: spec_span_color(s.tag, w),
                            },
                            Area {
                                y_start: y as u64,
                                x_start: x,
                                y_stop: (y + SPAN_HEIGHT) as u64,
                                x_stop: (x + w) as i32,
                                tag_data: (s.tag, s.start, s.stop),
                            },
                        ),
                    )
                },
            },
        },
    }
}

/// Computes the fill command and hit-test rectangle of one span under the
/// viewport. Fails when the span's width, column or lane does not fit the
/// pixel range, or its start lies before the trace start.
pub fn layout_span(vp: &Viewport, s: &Span) -> (r: Result<(DrawCmd, Area), ViewError>)
    requires
        s.wf(),
    ensures
        r == spec_layout_span(*vp, *s),
{
    let w = match vp.to_screen_width(s.start, s.stop) {
        Ok(w) => w,
        Err(e) => {
            return Err(e);
        },
    };
    let x = match vp.to_screen_x(s.start) {
        Ok(x) => x,
        Err(e) => {
            return Err(e);
        },
    };
    let y = match lane_origin(s.tag) {
        Ok(y) => y,
        Err(e) => {
            return Err(e);
        },
    };
    if w > i32::MAX as u32 || (x > 0 && (w as i32) > i32::MAX - x) {
        return Err(ViewError::PixelRange);
    }
    let cmd = DrawCmd {
        x,
        y,
        width: w,
        height: SPAN_HEIGHT as u32,
        color: span_color(s.tag, w),
    };
    let area = Area {
        y_start: y as u64,
        x_start: x,
        y_stop: (y + SPAN_HEIGHT) as u64,
        x_stop: x + (w as i32),
        tag_data: (s.tag, s.start, s.stop),
    };
    Ok((cmd, area))
}

/// Clears the hit-test index and lays out every span of the store in order:
/// one fill command and one hit-test rectangle per span. Fails with the
/// first span whose geometry does not fit, leaving the index rebuilt only up
/// to it.
pub fn layout_frame(store: &Store, vp: &Viewport, index: &mut HitIndex) -> (r: Result<
    Vec<DrawCmd>,
    ViewError,
>)
    requires
        store.wf(),
    ensures
        match r {
            Ok(cmds) => {
                &&& cmds@.len() == store.spans@.len()
                &&& final(index).areas@.len() == store.spans@.len()
                &&& forall|i: int|
                    0 <= i < store.spans@.len() ==> #[trigger] spec_layout_span(
                        *vp,
                        store.spans@[i],
                    ) == Ok::<(DrawCmd, Area), ViewError>(
                        (cmds@[i], final(index).areas@[i]),
                    )
            },
            Err(e) => exists|i: int|
                0 <= i < store.spans@.len() && #[trigger] spec_layout_span(*vp, store.spans@[i])
                    == Err::<(DrawCmd, Area), ViewError>(e) && (forall|j: int|
                    0 <= j < i ==> (#[trigger] spec_layout_span(*vp, store.spans@[j])) is Ok),
        },
{
    index.clear();
    let mut cmds: Vec<DrawCmd> = Vec::new();
    let n = store.len();
    let mut i: usize = 0;
    while i < n
        invariant
            0 <= i <= n,
            n == store.spans@.len(),
            store.wf(),
            cmds@.len() == i,
            index.areas@.len() == i,
            forall|k: int|
                0 <= k < i ==> #[trigger] spec_layout_span(*vp, store.spans@[k]) == Ok::<
                    (DrawCmd, Area),
                    ViewError,
                >((cmds@[k], index.areas@[k])),
        decreases n - i,
    {
        let s = store.get(i);
        match layout_span(vp, &s) {
            Ok((cmd, area)) => {
                cmds.push(cmd);
                index.push(area);
            },
            Err(e) => {
                return Err(e);
            },
        }
        i = i + 1;
    }
    Ok(cmds)
}

/// The active selection: where the pointer went down and what it hit.
#[derive(Clone, Copy, Debug, PartialEq, Eq, Structural)]
pub struct Selection {
    /// Pointer position at the click, where the tooltip is drawn.
    pub pointer_x: i32,
    pub pointer_y: i32,
    /// Tag of the selected span.
    pub tag: u64,
    /// Duration of the selected span, clamped below at zero.
    pub duration: u64,
}

/// Queries the hit-test index at the pointer-down position. A hit replaces
/// the selection with the hit span's data; a miss keeps the previous
/// selection.
pub fn on_pointer_down(index: &HitIndex, px: i32, py: i32, current: Option<Selection>) -> (r:
    Option<Selection>)
    ensures
        r == match last_hit(index.areas@, px as int, py as int) {
            Some(d) => Some(
                Selection {
                    pointer_x: px,
                    pointer_y: py,
                    tag: d.0,
                    duration: if d.2 >= d.1 {
                        (d.2 - d.1) as u64
                    } else {
                        0u64
                    },
                },
            ),
            None => current,
        },
{
    match index.query(px, py) {
        Some(d) => Some(
            Selection {
                pointer_x: px,
                pointer_y: py,
                tag: d.0,
                duration: if d.2 >= d.1 {
                    d.2 - d.1
                } else {
                    0
                },
            },
        ),
        None => current,
    }
}

/// Clears the selection: pointer-up ends the tooltip.
pub fn on_pointer_up(current: Option<Selection>) -> (r: Option<Selection>)
    ensures
        r is None,
{
    let _ = current;
    None
}

/// The tooltip's display values: the selected tag and duration narrowed to
/// the backend's signed pixel-text range. Fails exactly when one of them
/// does not fit.
pub fn selection_values(sel: &Selection) -> (r: Result<(i32, i32), ViewError>)
    ensures
        r == if sel.tag > i32::MAX {
            Err::<(i32, i32), ViewError>(ViewError::TagTooLarge)
        } else if sel.duration > i32::MAX {
            Err::<(i32, i32), ViewError>(ViewError::PixelRange)
        } else {
            Ok::<(i32, i32), ViewError>((sel.tag as i32, sel.duration as i32))
        },
{
    if sel.tag > i32::MAX as u64 {
        Err(ViewError::TagTooLarge)
    } else if sel.duration > i32::MAX as u64 {
        Err(ViewError::PixelRange)
    } else {
        Ok((sel.tag as i32, sel.duration as i32))
    }
}

/// For every well-formed store and a viewport anchored at its earliest
/// start, layout preserves the store's order on screen: a span sorted no
/// later than another is laid out at a column no further right.
pub proof fn lemma_store_order_preserved(st: Store, vp: Viewport, i: int, j: int)
    requires
        st.wf(),
        vp.min_start == st.min_start,
        0 <= i <= j < st.spans@.len(),
    ensures
        vp.spec_x_raw(st.spans@[i].start) <= vp.spec_x_raw(st.spans@[j].start),
        (vp.spec_to_screen_x(st.spans@[i].start) is Ok && vp.spec_to_screen_x(
            st.spans@[j].start,
        ) is Ok) ==> vp.spec_to_screen_x(st.spans@[i].start).unwrap() <= vp.spec_to_screen_x(
            st.spans@[j].start,
        ).unwrap(),
{
    assert(st.spans@[0].start <= st.spans@[i].start);
    crate::viewport::lemma_to_screen_x_monotonic(vp, st.spans@[i].start, st.spans@[j].start);
}

} // verus!
