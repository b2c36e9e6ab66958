use viewer::error::ViewError;
use viewer::frame::{layout_frame, on_pointer_down, on_pointer_up, Selection};
use viewer::hittest::{Area, HitIndex};
use viewer::input::{Command, InputController, RepeatState};
use viewer::span::Span;
use viewer::store::Store;
use viewer::viewport::Viewport;

fn demo_spans() -> Vec<Span> {
    vec![
        Span { tag: 0, start: 100, stop: 10000 },
        Span { tag: 1, start: 20000, stop: 23000 },
        Span { tag: 2, start: 10000, stop: 13000 },
    ]
}

#[test]
fn demo_trace_bounds_scale_and_columns() {
    let store = Store::new(&demo_spans()).unwrap();
    assert_eq!(store.min_start, 100);
    assert_eq!(store.max_stop, 23000);
    let vp = Viewport::new(store.min_start, store.max_stop, 800);
    assert_eq!(vp.scale, (23000 - 100) / 800);
    assert_eq!(vp.scale, 28);
    assert_eq!(vp.to_screen_x(100), Ok(0));
    assert_eq!(vp.to_screen_x(20000), Ok((20000 - 100) / 29));
    assert_eq!(vp.to_screen_x(20000), Ok(686));
}

#[test]
fn demo_trace_is_sorted_stably_by_start() {
    let store = Store::new(&demo_spans()).unwrap();
    assert_eq!(store.spans[0].tag, 0);
    assert_eq!(store.spans[1].tag, 2);
    assert_eq!(store.spans[2].tag, 1);
}

#[test]
fn max_stop_is_true_maximum_with_nested_intervals() {
    // The earlier-starting span nests the later ones and has the largest
    // stop: the bound must come from it, not from the last-by-start span.
    let spans = vec![
        Span { tag: 0, start: 0, stop: 90000 },
        Span { tag: 1, start: 100, stop: 200 },
        Span { tag: 2, start: 300, stop: 400 },
    ];
    let store = Store::new(&spans).unwrap();
    assert_eq!(store.min_start, 0);
    assert_eq!(store.max_stop, 90000);
}

#[test]
fn equal_starts_keep_arrival_order() {
    let spans = vec![
        Span { tag: 5, start: 10, stop: 20 },
        Span { tag: 3, start: 10, stop: 30 },
        Span { tag: 9, start: 5, stop: 6 },
        Span { tag: 4, start: 10, stop: 25 },
    ];
    let store = Store::new(&spans).unwrap();
    let tags: Vec<u64> = store.spans.iter().map(|s| s.tag).collect();
    assert_eq!(tags, vec![9, 5, 3, 4]);
}

#[test]
fn three_zoom_in_key_downs_accelerate_quadratically() {
    let mut vp = Viewport::new(0, 8000, 800);
    assert_eq!(vp.scale, 10);
    let mut c = InputController::new();
    c.on_key_down(Command::ZoomIn, &mut vp);
    assert_eq!(vp.scale, 11); // + 1*1
    c.on_key_down(Command::ZoomIn, &mut vp);
    assert_eq!(vp.scale, 15); // + 2*2
    c.on_key_down(Command::ZoomIn, &mut vp);
    assert_eq!(vp.scale, 24); // + 3*3, cumulative +14
}

#[test]
fn idle_tick_resets_repeat_count() {
    let mut vp = Viewport::new(0, 8000, 800);
    let mut c = InputController::new();
    for _ in 0..5 {
        c.on_key_down(Command::ZoomIn, &mut vp);
    }
    assert_eq!(c.state, RepeatState::Repeating(5));
    // The tick that saw the key-downs ends: the count carries over.
    c.end_tick();
    assert_eq!(c.state, RepeatState::Repeating(5));
    // One tick passes with no key-down: back to idle.
    c.end_tick();
    assert_eq!(c.state, RepeatState::Idle);
    // The next key-down starts again at one, not six.
    let before = vp.scale;
    c.on_key_down(Command::ZoomIn, &mut vp);
    assert_eq!(c.state, RepeatState::Repeating(1));
    assert_eq!(vp.scale, before + 1);
}

#[test]
fn pan_accelerates_linearly_and_reset_pan_clears() {
    let mut vp = Viewport::new(0, 8000, 800);
    let mut c = InputController::new();
    c.on_key_down(Command::PanRight, &mut vp);
    c.on_key_down(Command::PanRight, &mut vp);
    c.on_key_down(Command::PanRight, &mut vp);
    assert_eq!(vp.scroll, 1 + 2 + 3);
    c.on_key_down(Command::PanLeft, &mut vp);
    assert_eq!(vp.scroll, 6 - 4);
    c.on_key_down(Command::ResetPan, &mut vp);
    assert_eq!(vp.scroll, 0);
}

#[test]
fn reset_zoom_restores_fit_scale_after_any_history() {
    let mut vp = Viewport::new(100, 23000, 800);
    let mut c = InputController::new();
    c.on_key_down(Command::ZoomIn, &mut vp);
    c.on_key_down(Command::ZoomIn, &mut vp);
    c.on_key_down(Command::PanRight, &mut vp);
    vp.pan(-12345);
    vp.zoom_in(u64::MAX);
    assert_ne!(vp.scale, 28);
    vp.reset_zoom();
    assert_eq!(vp.scale, (23000 - 100) / 800);
    assert_eq!(vp.scale, 28);
    // Idempotent: resetting again changes nothing.
    vp.reset_zoom();
    assert_eq!(vp.scale, 28);
}

#[test]
fn zoom_out_saturates_at_zero_and_pan_saturates_at_bounds() {
    let mut vp = Viewport::new(0, 700, 700);
    assert_eq!(vp.scale, 1);
    vp.zoom_out(1);
    assert_eq!(vp.scale, 0);
    for _ in 0..4 {
        vp.zoom_out(u64::MAX);
        assert_eq!(vp.scale, 0);
    }
    for _ in 0..3 {
        vp.pan(i32::MAX);
    }
    assert_eq!(vp.scroll, i32::MAX);
    for _ in 0..5 {
        vp.pan(i32::MIN);
    }
    assert_eq!(vp.scroll, i32::MIN);
    vp.reset_pan();
    assert_eq!(vp.scroll, 0);
}

#[test]
fn zoom_in_saturates_at_max() {
    let mut vp = Viewport::new(0, 700, 700);
    vp.zoom_in(u64::MAX);
    assert_eq!(vp.scale, u64::MAX);
    vp.zoom_in(u64::MAX);
    assert_eq!(vp.scale, u64::MAX);
    // The divisor scale + 1 still never divides by zero: conversions at the
    // coarsest zoom collapse to column zero instead of failing.
    assert_eq!(vp.to_screen_x(123), Ok(0));
    assert_eq!(vp.to_screen_width(0, 700), Ok(0));
}

#[test]
fn columns_are_monotone_in_start_for_fixed_viewport() {
    let store = Store::new(&demo_spans()).unwrap();
    let vp = Viewport::new(store.min_start, store.max_stop, 800);
    let mut last = i32::MIN;
    for s in store.spans.iter() {
        let x = vp.to_screen_x(s.start).unwrap();
        assert!(x >= last);
        last = x;
    }
}

#[test]
fn overlapping_rectangles_later_wins() {
    let mut index = HitIndex::new();
    let a = Area {
        y_start: 0,
        x_start: 0,
        y_stop: 100,
        x_stop: 100,
        tag_data: (1, 10, 20),
    };
    let b = Area {
        y_start: 0,
        x_start: 50,
        y_stop: 100,
        x_stop: 150,
        tag_data: (2, 30, 60),
    };
    index.push(a);
    index.push(b);
    // The point lies inside both rectangles: the later-laid-out one wins.
    assert_eq!(index.query(60, 50), Some((2, 30, 60)));
    // A point only inside the first still finds it.
    assert_eq!(index.query(10, 50), Some((1, 10, 20)));
    // A miss finds nothing.
    assert_eq!(index.query(500, 50), None);
}

#[test]
fn rectangle_edges_are_excluded() {
    let mut index = HitIndex::new();
    index.push(Area {
        y_start: 10,
        x_start: 10,
        y_stop: 20,
        x_stop: 20,
        tag_data: (7, 0, 1),
    });
    assert_eq!(index.query(10, 15), None); // px == x_start
    assert_eq!(index.query(20, 15), None); // px == x_stop
    assert_eq!(index.query(15, 10), None); // py == y_start
    assert_eq!(index.query(15, 20), None); // py == y_stop
    assert_eq!(index.query(11, 11), Some((7, 0, 1)));
}

#[test]
fn selection_set_on_pointer_down_cleared_on_pointer_up() {
    let store = Store::new(&demo_spans()).unwrap();
    let vp = Viewport::new(store.min_start, store.max_stop, 800);
    let mut index = HitIndex::new();
    let cmds = layout_frame(&store, &vp, &mut index).unwrap();
    assert_eq!(cmds.len(), 3);
    assert_eq!(index.areas.len(), 3);

    // Click inside the first span's rectangle: lane of tag 0 spans rows 1..11,
    // columns 0..341 ((10000 - 100) / 29).
    let sel = on_pointer_down(&index, 5, 5, None);
    assert_eq!(
        sel,
        Some(Selection { pointer_x: 5, pointer_y: 5, tag: 0, duration: 9900 })
    );
    // A miss keeps the previous selection.
    let sel = on_pointer_down(&index, 5, 500, sel);
    assert_eq!(
        sel,
        Some(Selection { pointer_x: 5, pointer_y: 5, tag: 0, duration: 9900 })
    );
    // Pointer-up clears it.
    let sel = on_pointer_up(sel);
    assert_eq!(sel, None);
}

#[test]
fn fatal_errors_empty_and_malformed() {
    assert_eq!(Store::new(&vec![]).unwrap_err(), ViewError::EmptyTrace);
    let bad = vec![
        Span { tag: 0, start: 10, stop: 20 },
        Span { tag: 1, start: 30, stop: 29 },
    ];
    assert_eq!(Store::new(&bad).unwrap_err(), ViewError::MalformedSpan);
}
