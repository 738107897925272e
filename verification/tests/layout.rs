use std::collections::VecDeque;

use traceviewer::colors::Color;
use traceviewer::layout::{
    line_segments, scrollbar_slice_color, segment_style, values_pane_width, LineViewport,
    ScreenLayout, ScrollbarSlice, SegmentStyle,
};
use traceviewer::model::{Level, LogEntry, Stream};
use traceviewer::render::{EntryRenderer, Part};
use traceviewer::view::{ValuesPaneMode, ValuesPaneState, ViewState};

fn entry_with_level(level: Level) -> LogEntry {
    LogEntry {
        raw: "raw line".to_string(),
        timestamp: None,
        level,
        parsed: true,
        target: None,
        spans: Vec::new(),
        values: Vec::new(),
        message: "line".to_string(),
        message_parts: Vec::new(),
        stream: Stream::Stdout,
    }
}

#[test]
fn line_viewport_marks_hidden_content_on_the_right() {
    assert_eq!(
        LineViewport::new(20, 0, 10),
        LineViewport {
            content_width: 9,
            show_left_marker: false,
            show_right_marker: true,
        }
    );
}

#[test]
fn line_viewport_marks_hidden_content_on_both_sides() {
    assert_eq!(
        LineViewport::new(20, 5, 10),
        LineViewport {
            content_width: 8,
            show_left_marker: true,
            show_right_marker: true,
        }
    );
}

#[test]
fn line_viewport_omits_markers_when_line_fits() {
    assert_eq!(
        LineViewport::new(8, 0, 10),
        LineViewport {
            content_width: 10,
            show_left_marker: false,
            show_right_marker: false,
        }
    );
}

#[test]
fn scrollbar_slice_maps_row_to_entry_range() {
    assert_eq!(ScrollbarSlice::new(0, 5, 10), ScrollbarSlice { start: 0, end: 2 });
    assert_eq!(ScrollbarSlice::new(2, 5, 10), ScrollbarSlice { start: 4, end: 6 });
    assert_eq!(ScrollbarSlice::new(4, 5, 10), ScrollbarSlice { start: 8, end: 10 });
}

#[test]
fn scrollbar_slice_color_uses_highest_severity() {
    let entries = VecDeque::from([
        entry_with_level(Level::Info),
        entry_with_level(Level::Debug),
        entry_with_level(Level::Warn),
        entry_with_level(Level::Error),
    ]);

    let visible = [0, 1, 2, 3];

    assert_eq!(scrollbar_slice_color(&entries, &visible, 0, 2), Color::Green);
    assert_eq!(scrollbar_slice_color(&entries, &visible, 0, 3), Color::Yellow);
    assert_eq!(scrollbar_slice_color(&entries, &visible, 0, 4), Color::Red);
}

#[test]
fn scrollbar_slices_cover_at_least_one_entry() {
    assert_eq!(ScrollbarSlice::new(0, 10, 3), ScrollbarSlice { start: 0, end: 1 });
    assert_eq!(ScrollbarSlice::new(9, 10, 3), ScrollbarSlice { start: 2, end: 3 });
    assert_eq!(ScrollbarSlice::new(3, 0, 3), ScrollbarSlice { start: 0, end: 0 });
    assert_eq!(ScrollbarSlice::new(3, 4, 0), ScrollbarSlice { start: 0, end: 0 });
}

#[test]
fn empty_scrollbar_slice_is_grey() {
    let entries = VecDeque::from([entry_with_level(Level::Error)]);
    assert_eq!(scrollbar_slice_color(&entries, &[0], 1, 1), Color::DarkGrey);
    assert_eq!(scrollbar_slice_color(&entries, &[5], 0, 1), Color::DarkGrey);
}

#[test]
fn values_pane_widths() {
    let mode = |mode| ValuesPaneState {
        mode,
        ..ValuesPaneState::default()
    };
    assert_eq!(values_pane_width(100, &mode(ValuesPaneMode::Closed)), 0);
    assert_eq!(values_pane_width(100, &mode(ValuesPaneMode::Fullscreen)), 100);
    assert_eq!(values_pane_width(59, &mode(ValuesPaneMode::Sidebar)), 0);
    assert_eq!(values_pane_width(60, &mode(ValuesPaneMode::Sidebar)), 24);
    assert_eq!(values_pane_width(90, &mode(ValuesPaneMode::Sidebar)), 30);
    assert_eq!(values_pane_width(200, &mode(ValuesPaneMode::Sidebar)), 42);
}

#[test]
fn line_segments_show_the_window_with_markers() {
    let parts = vec![
        Part::new("| ", Color::DarkGrey, true),
        Part::new("abcdefghij", Color::White, false),
    ];
    let segments = line_segments(&parts, 3, 6);
    assert_eq!(
        segments,
        vec![
            Part::new("<", Color::DarkGrey, true),
            Part::new("bcde", Color::White, false),
            Part::new(">", Color::DarkGrey, true),
        ]
    );
    let text = EntryRenderer::plain_text_from_parts(&segments);
    assert_eq!(text.chars().count(), 6);

    let padded = line_segments(&parts, 0, 15);
    assert_eq!(EntryRenderer::plain_text_from_parts(&padded), "| abcdefghij   ");
    assert!(line_segments(&parts, 0, 0).is_empty());
}

#[test]
fn screen_layout_with_sidebar_and_search_bar() {
    let state = ViewState {
        search_query: "x".to_string(),
        first_visible: 4,
        selected: Some(7),
        values: ValuesPaneState {
            mode: ValuesPaneMode::Sidebar,
            ..ValuesPaneState::default()
        },
        ..ViewState::new()
    };
    let visible = [1, 4, 6, 9];
    let layout = ScreenLayout::new(90, 10, &state, &visible);
    assert_eq!(layout.content_rows, 8);
    assert_eq!(layout.top_bar_rows, 1);
    assert_eq!(layout.scrollbar_width, 1);
    assert_eq!(layout.pane_width, 30);
    assert_eq!(layout.pane_gap, 1);
    assert_eq!(layout.log_width, 58);
    assert_eq!(layout.selected, Some(9));
    assert_eq!(layout.start_pos, 1);
    assert_eq!(layout.end_pos, 4);
    assert_eq!(layout.scrollbar_column, 58);
    assert_eq!(layout.pane_left, 60);
}

#[test]
fn segment_styles_mark_matches_and_selection() {
    assert_eq!(
        segment_style(Color::Red, true, true, true),
        SegmentStyle { foreground: Color::Black, background: Some(Color::Yellow), bold: true }
    );
    assert_eq!(
        segment_style(Color::Red, false, false, true),
        SegmentStyle {
            foreground: Color::DarkRed,
            background: Some(Color::Rgb { r: 64, g: 64, b: 64 }),
            bold: false
        }
    );
    assert_eq!(
        segment_style(Color::White, false, false, true).foreground,
        Color::Reset
    );
    assert_eq!(
        segment_style(Color::Cyan, false, false, false),
        SegmentStyle { foreground: Color::Cyan, background: None, bold: false }
    );
}

#[test]
fn scrollbar_rows_cover_every_entry_without_gaps() {
    for (height, entries) in [(5, 10), (7, 3), (3, 7), (4, 4)] {
        assert_eq!(ScrollbarSlice::new(0, height, entries).start, 0);
        assert_eq!(ScrollbarSlice::new(height - 1, height, entries).end, entries);
        for row in 0..height - 1 {
            assert!(ScrollbarSlice::new(row + 1, height, entries).start <= ScrollbarSlice::new(row, height, entries).end);
        }
    }
}
