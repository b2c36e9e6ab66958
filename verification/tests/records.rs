use viewer::error::ViewError;
use viewer::frame::{layout_span, selection_values, Selection};
use viewer::layout::{background_color, lane_origin, span_color, Rgb};
use viewer::span::{decode_record, load_spans, read_u64_le, Span};
use viewer::viewport::Viewport;

fn record_bytes(tag: u64, start: u64, stop: u64) -> Vec<u8> {
    let mut v = Vec::new();
    v.extend_from_slice(&tag.to_le_bytes());
    v.extend_from_slice(&start.to_le_bytes());
    v.extend_from_slice(&stop.to_le_bytes());
    v
}

#[test]
fn read_u64_le_matches_byte_values() {
    let data = vec![0x01, 0x02, 0x03, 0x04, 0x05, 0x06, 0x07, 0x08, 0xff];
    assert_eq!(read_u64_le(&data, 0), 0x0807060504030201);
    assert_eq!(read_u64_le(&data, 1), 0xff08070605040302);
    let zero = vec![0u8; 8];
    assert_eq!(read_u64_le(&zero, 0), 0);
    let max = vec![0xffu8; 8];
    assert_eq!(read_u64_le(&max, 0), u64::MAX);
}

#[test]
fn decode_record_reads_tag_start_stop() {
    let mut data = record_bytes(3, 1000, 2000);
    data.extend(record_bytes(u64::MAX, 0, u64::MAX));
    assert_eq!(decode_record(&data, 0), Span { tag: 3, start: 1000, stop: 2000 });
    assert_eq!(decode_record(&data, 1), Span { tag: u64::MAX, start: 0, stop: u64::MAX });
}

#[test]
fn load_spans_selects_index_range_and_tag_range() {
    let mut data = Vec::new();
    data.extend(record_bytes(0, 1, 2)); // record 0: skipped by index range
    data.extend(record_bytes(1, 3, 4)); // record 1: kept
    data.extend(record_bytes(9, 5, 6)); // record 2: tag out of range
    data.extend(record_bytes(2, 7, 8)); // record 3: kept
    data.extend(record_bytes(3, 9, 10)); // record 4: beyond stop index
    let spans = load_spans(&data, 1, 4, 1, 5);
    assert_eq!(
        spans,
        vec![
            Span { tag: 1, start: 3, stop: 4 },
            Span { tag: 2, start: 7, stop: 8 },
        ]
    );
    // An empty index range selects nothing.
    assert_eq!(load_spans(&data, 2, 2, 0, u64::MAX), vec![]);
}

#[test]
fn lane_origin_steps_by_lane_height_plus_spacing() {
    assert_eq!(lane_origin(0), Ok(1));
    assert_eq!(lane_origin(1), Ok(12));
    assert_eq!(lane_origin(2), Ok(23));
    assert_eq!(lane_origin(195225785), Ok(11 * 195225785 + 1));
    assert_eq!(lane_origin(195225786), Err(ViewError::TagTooLarge));
    assert_eq!(lane_origin(u64::MAX), Err(ViewError::TagTooLarge));
}

#[test]
fn palette_is_deterministic_by_tag_and_width() {
    // Sub-pixel spans take the saturated palette.
    assert_eq!(span_color(0, 0), Rgb { r: 255, g: 0, b: 0 });
    assert_eq!(span_color(1, 0), Rgb { r: 0, g: 255, b: 0 });
    // Wider spans take the muted palette.
    assert_eq!(span_color(0, 1), Rgb { r: 192, g: 0, b: 0 });
    assert_eq!(span_color(5, 300), Rgb { r: 192, g: 0, b: 192 });
    // The palette wraps at six tags.
    assert_eq!(span_color(6, 1), span_color(0, 1));
    assert_eq!(span_color(13, 0), span_color(1, 0));
    assert_eq!(background_color(), Rgb { r: 192, g: 192, b: 192 });
}

#[test]
fn to_screen_width_reports_unrepresentable_widths() {
    let vp = Viewport::new(0, u64::MAX, 1);
    // scale = u64::MAX / 1, so even the full range is one pixel wide.
    assert_eq!(vp.to_screen_width(0, u64::MAX), Ok(0));
    let fine = Viewport { scale: 0, scroll: 0, window_width: 800, min_start: 0, max_stop: u64::MAX };
    // At the finest zoom a huge interval exceeds the pixel-width type.
    assert_eq!(fine.to_screen_width(0, 1 << 40), Err(ViewError::PixelRange));
    assert_eq!(fine.to_screen_width(0, 12), Ok(12));
}

#[test]
fn to_screen_x_rejects_starts_before_the_trace() {
    let vp = Viewport::new(100, 1000, 100);
    assert_eq!(vp.to_screen_x(99), Err(ViewError::StartBeforeMin));
    assert_eq!(vp.to_screen_x(100), Ok(0));
}

#[test]
fn to_screen_x_applies_scroll_with_saturation() {
    let mut vp = Viewport::new(0, 900, 900);
    assert_eq!(vp.scale, 1);
    assert_eq!(vp.to_screen_x(100), Ok(50));
    vp.pan(30);
    assert_eq!(vp.to_screen_x(100), Ok(20));
    vp.reset_pan();
    vp.pan(i32::MIN);
    // Subtracting the most negative scroll saturates instead of overflowing.
    assert_eq!(vp.to_screen_x(100), Ok(i32::MAX));
}

#[test]
fn layout_span_combines_column_lane_width_and_color() {
    let vp = Viewport { scale: 9, scroll: 0, window_width: 800, min_start: 100, max_stop: 23000 };
    let s = Span { tag: 2, start: 600, stop: 850 };
    let (cmd, area) = layout_span(&vp, &s).unwrap();
    assert_eq!(cmd.x, 50); // (600 - 100) / 10
    assert_eq!(cmd.y, 23); // lane of tag 2
    assert_eq!(cmd.width, 25); // (850 - 600) / 10
    assert_eq!(cmd.height, 10);
    assert_eq!(cmd.color, Rgb { r: 0, g: 0, b: 192 }); // muted, tag 2
    assert_eq!(area.x_start, 50);
    assert_eq!(area.x_stop, 75);
    assert_eq!(area.y_start, 23);
    assert_eq!(area.y_stop, 33);
    assert_eq!(area.tag_data, (2, 600, 850));
}

#[test]
fn layout_span_reports_fatal_geometry() {
    let vp = Viewport { scale: 0, scroll: 0, window_width: 800, min_start: 0, max_stop: u64::MAX };
    // Width beyond the pixel-width type.
    let wide = Span { tag: 0, start: 0, stop: 1 << 40 };
    assert_eq!(layout_span(&vp, &wide).unwrap_err(), ViewError::PixelRange);
    // Column beyond the signed pixel range.
    let far = Span { tag: 0, start: 1 << 40, stop: 1 << 40 };
    assert_eq!(layout_span(&vp, &far).unwrap_err(), ViewError::PixelRange);
    // Lane beyond the signed pixel range.
    let high = Span { tag: u64::MAX, start: 0, stop: 0 };
    assert_eq!(layout_span(&vp, &high).unwrap_err(), ViewError::TagTooLarge);
}

#[test]
fn selection_values_narrow_or_fail() {
    let ok = Selection { pointer_x: 1, pointer_y: 2, tag: 7, duration: 9900 };
    assert_eq!(selection_values(&ok), Ok((7, 9900)));
    let big_tag = Selection { pointer_x: 1, pointer_y: 2, tag: 1 << 40, duration: 0 };
    assert_eq!(selection_values(&big_tag), Err(ViewError::TagTooLarge));
    let long = Selection { pointer_x: 1, pointer_y: 2, tag: 0, duration: u64::MAX };
    assert_eq!(selection_values(&long), Err(ViewError::PixelRange));
}

#[test]
fn error_descriptions_name_the_condition() {
    assert_eq!(
        ViewError::EmptyTrace.describe(),
        "expected a non-empty array of trace spans"
    );
    assert_eq!(ViewError::MalformedSpan.describe(), "span stops before it starts");
}
