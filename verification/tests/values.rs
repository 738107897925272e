use std::collections::VecDeque;

use traceviewer::colors::Color;
use traceviewer::model::{Level, LogEntry, Stream, TraceValue, TraceValueField, TraceValueSection};
use traceviewer::values::{
    nth_value_field, padded_text, selected_value_text, value_row_segments, values_pane_line,
    values_pane_row, ValuesPaneRow,
};
use traceviewer::view::{ValuesPaneMode, ValuesPaneState, ViewState};

fn entry_with_value_sections(values: Vec<TraceValueSection>) -> LogEntry {
    LogEntry {
        raw: "raw line".to_string(),
        timestamp: None,
        level: Level::Info,
        parsed: true,
        target: None,
        spans: Vec::new(),
        values,
        message: "line".to_string(),
        message_parts: Vec::new(),
        stream: Stream::Stdout,
    }
}

fn pane_text(entry: Option<&LogEntry>, state: &ValuesPaneState, width: usize, height: usize) -> String {
    let mut text = String::new();
    for row in 0..height {
        text.push('|');
        let line = values_pane_line(entry, state, row, width.saturating_sub(1));
        for (segment, _) in line.segments {
            text.push_str(&segment);
        }
        text.push('\n');
    }
    text
}

#[test]
fn values_pane_draws_stored_tracing_values() {
    let entry = entry_with_value_sections(vec![
        TraceValueSection::new(
            "scope: request",
            vec![TraceValueField::new("id", TraceValue::Number("7".to_string()))],
        ),
        TraceValueSection::new(
            "event",
            vec![TraceValueField::new("tag", TraceValue::String("admin".to_string()))],
        ),
    ]);

    let text = pane_text(Some(&entry), &ValuesPaneState::default(), 40, 6);

    assert!(text.contains("Tracing values"));
    assert!(text.contains("scope: request"));
    assert!(text.contains("event"));
    assert!(text.contains("id = "));
    assert!(text.contains("7"));
    assert!(text.contains("tag = "));
    assert!(text.contains("\"admin\""));
    assert!(text.find("scope: request").unwrap() < text.find("event").unwrap());
    assert!(matches!(values_pane_row(&entry, 2), Some(ValuesPaneRow::Spacer)));
}

#[test]
fn pane_rows_skip_empty_sections() {
    let entry = entry_with_value_sections(vec![
        TraceValueSection::new("empty", Vec::new()),
        TraceValueSection::new(
            "event",
            vec![
                TraceValueField::new("a", TraceValue::Null),
                TraceValueField::new("b", TraceValue::Bool(false)),
            ],
        ),
    ]);
    assert_eq!(values_pane_row(&entry, 0), Some(ValuesPaneRow::Section(1)));
    assert_eq!(
        values_pane_row(&entry, 2),
        Some(ValuesPaneRow::Field { index: 1, section: 1, position: 1 })
    );
    assert_eq!(values_pane_row(&entry, 3), None);
    assert_eq!(nth_value_field(&entry, 1).map(|f| f.key.as_str()), Some("b"));
    assert!(nth_value_field(&entry, 2).is_none());
}

#[test]
fn empty_pane_says_no_values() {
    let entry = entry_with_value_sections(Vec::new());
    let text = pane_text(Some(&entry), &ValuesPaneState::default(), 20, 3);
    assert!(text.contains("No values"));
    let none = pane_text(None, &ValuesPaneState::default(), 20, 3);
    assert!(none.contains("No values"));
}

#[test]
fn selected_field_row_is_marked() {
    let entry = entry_with_value_sections(vec![TraceValueSection::new(
        "event",
        vec![TraceValueField::new("k", TraceValue::Other("v".to_string()))],
    )]);
    let state = ValuesPaneState {
        mode: ValuesPaneMode::Sidebar,
        selected: Some(0),
        x_offset: 0,
    };
    let line = values_pane_line(Some(&entry), &state, 2, 10);
    assert!(line.selected);
    assert!(!line.bold);
    assert_eq!(line.segments, vec![("k = ".to_string(), Color::White), ("v     ".to_string(), Color::White)]);
}

#[test]
fn value_rows_scroll_past_the_key() {
    assert_eq!(
        value_row_segments("key", "value", Color::Green, 2, 8),
        vec![("y = ".to_string(), Color::White), ("valu".to_string(), Color::Green)]
    );
    assert_eq!(
        value_row_segments("key", "value", Color::Green, 8, 4),
        vec![("lue ".to_string(), Color::Green)]
    );
    assert_eq!(padded_text("abcdef", 2, 3), "cde");
    assert_eq!(padded_text("ab", 5, 3), "   ");
}

#[test]
fn selected_value_needs_a_selection() {
    let entries = VecDeque::from([entry_with_value_sections(vec![TraceValueSection::new(
        "event",
        vec![TraceValueField::new("n", TraceValue::Number("1".to_string()))],
    )])]);
    let state = ViewState {
        values: ValuesPaneState {
            mode: ValuesPaneMode::Sidebar,
            selected: None,
            x_offset: 0,
        },
        ..ViewState::new()
    };
    assert_eq!(selected_value_text(&entries, &state), None);
    let chosen = ViewState {
        values: ValuesPaneState {
            mode: ValuesPaneMode::Sidebar,
            selected: Some(0),
            x_offset: 0,
        },
        ..ViewState::new()
    };
    assert_eq!(selected_value_text(&entries, &chosen).as_deref(), Some("n = 1"));
}

#[test]
fn field_rows_lead_to_the_same_field() {
    let entry = entry_with_value_sections(vec![
        TraceValueSection::new("one", vec![TraceValueField::new("a", TraceValue::Null)]),
        TraceValueSection::new("empty", Vec::new()),
        TraceValueSection::new(
            "two",
            vec![
                TraceValueField::new("b", TraceValue::Null),
                TraceValueField::new("c", TraceValue::Null),
            ],
        ),
    ]);
    let mut seen = Vec::new();
    for row in 0..8 {
        if let Some(ValuesPaneRow::Field { index, section, position }) = values_pane_row(&entry, row) {
            let field = nth_value_field(&entry, index).map(|f| f.key.clone());
            assert_eq!(field, Some(entry.values[section].fields[position].key.clone()));
            seen.push(index);
        }
    }
    assert_eq!(seen, vec![0, 1, 2]);
    assert!(nth_value_field(&entry, 3).is_none());
}
