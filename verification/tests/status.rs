use std::collections::VecDeque;

use traceviewer::colors::{search_bar_colors, status_bar_background, status_bar_foreground, Color};
use traceviewer::layout::content_rows;
use traceviewer::model::{Level, LogEntry, Stream};
use traceviewer::status::{
    decimal_string, fit_to_width, focus_status, help_page_rows, hidden_percentage,
    result_count_label, search_bar_text, search_result_summary, search_status, split_status,
    status_line, LevelCounts,
};
use traceviewer::view::{search_match_indices, LevelFilter, ViewState};

fn entries(count: usize) -> VecDeque<LogEntry> {
    (0..count)
        .map(|idx| LogEntry {
            raw: format!("raw line {idx}"),
            timestamp: None,
            level: Level::Info,
            parsed: true,
            target: None,
            spans: Vec::new(),
            values: Vec::new(),
            message: format!("line {idx}"),
            message_parts: Vec::new(),
            stream: Stream::Stdout,
        })
        .collect()
}

fn entry_with_level(level: Level) -> LogEntry {
    LogEntry {
        raw: "raw line".to_string(),
        timestamp: None,
        level,
        parsed: true,
        target: None,
        spans: Vec::new(),
        values: Vec::new(),
        message: "line".to_string(),
        message_parts: Vec::new(),
        stream: Stream::Stdout,
    }
}

fn entry_with_target(target: Option<&str>, message: &str) -> LogEntry {
    LogEntry {
        raw: format!("raw {message}"),
        timestamp: None,
        level: Level::Info,
        parsed: true,
        target: target.map(str::to_string),
        spans: Vec::new(),
        values: Vec::new(),
        message: message.to_string(),
        message_parts: Vec::new(),
        stream: Stream::Stdout,
    }
}

fn help_text(cols: usize, rows: usize) -> String {
    help_page_rows(cols, rows)
        .into_iter()
        .map(|(line, _)| line)
        .collect::<Vec<_>>()
        .join("\n")
}

#[test]
fn compact_help_page_shows_raw_toggle() {
    let text = help_text(80, 6);

    assert!(text.contains("r               toggle raw log line display"));
}

#[test]
fn help_page_shows_level_filter_shortcuts() {
    let text = help_text(80, 8);

    assert!(text.contains("1..5            filter all, debug+, info+, warn+, error"));
}

#[test]
fn search_bar_shows_input_state_and_result_count() {
    let entries = VecDeque::from([
        entry_with_target(Some("alpha"), "miss"),
        entry_with_target(Some("beta"), "hit one"),
        entry_with_target(Some("gamma"), "hit two"),
    ]);
    let state = ViewState {
        search_editing: true,
        search_query: "hit".to_string(),
        ..ViewState::new()
    };

    let text = search_bar_text(&entries, &state, 100);

    assert!(text.contains("Search(*): hit_"));
    assert!(text.contains("2 results"));
    assert!(text.contains("Enter accept"));
    assert!(text.contains("Esc clear"));
    assert!(text.contains("n next"));
    assert!(text.contains("b previous"));
    assert!(text.find("Enter accept").unwrap() < text.find("2 results").unwrap());
}

#[test]
fn search_bar_colors_distinguish_editing_from_locked() {
    assert_eq!(
        search_bar_colors(true),
        (Color::Black, Color::Rgb { r: 150, g: 205, b: 255 })
    );
    assert_eq!(search_bar_colors(false), (Color::Black, Color::White));
}

#[test]
fn status_bar_uses_high_contrast_neutral_tone() {
    assert_eq!(status_bar_foreground(), Color::Black);
    assert_eq!(status_bar_background(), Color::White);
}

#[test]
fn locked_search_bar_only_shows_normal_mode_shortcuts() {
    let entries = VecDeque::from([
        entry_with_target(Some("alpha"), "miss"),
        entry_with_target(Some("beta"), "hit one"),
    ]);
    let state = ViewState {
        search_query: "hit".to_string(),
        ..ViewState::new()
    };

    let text = search_bar_text(&entries, &state, 100);

    assert!(text.contains("Search: hit"));
    assert!(text.contains("/ edit"));
    assert!(text.contains("n next"));
    assert!(text.contains("b previous"));
    assert!(text.contains("Esc clear"));
    assert!(!text.contains("Enter accept"));
    assert!(text.find("/ edit").unwrap() < text.find("1 result").unwrap());
}

#[test]
fn search_bar_does_not_predict_wraps_at_first_or_last_result() {
    let entries = VecDeque::from([
        entry_with_target(Some("alpha"), "hit one"),
        entry_with_target(Some("beta"), "miss"),
        entry_with_target(Some("gamma"), "hit two"),
    ]);

    let first = ViewState {
        selected: Some(0),
        search_query: "hit".to_string(),
        ..ViewState::new()
    };
    let first_text = search_bar_text(&entries, &first, 120);
    assert!(first_text.contains("2 results  1/2"));
    assert!(!first_text.contains("wrap"));

    let last = ViewState {
        selected: Some(2),
        search_query: "hit".to_string(),
        ..ViewState::new()
    };
    let last_text = search_bar_text(&entries, &last, 120);
    assert!(last_text.contains("2 results  2/2"));
    assert!(!last_text.contains("wrap"));
}

#[test]
fn search_bar_reduces_log_content_rows() {
    let inactive = ViewState::new();
    let active = ViewState {
        search_query: "hit".to_string(),
        ..ViewState::new()
    };

    assert_eq!(content_rows(10, &inactive), 9);
    assert_eq!(content_rows(10, &active), 8);
}

#[test]
fn search_uses_raw_line_not_rendered_message() {
    let entries = VecDeque::from([LogEntry {
        raw: "2026-06-15T12:01:02Z INFO svc: original raw text".to_string(),
        timestamp: Some("2026-06-15T12:01:02Z".to_string()),
        level: Level::Info,
        parsed: true,
        target: Some("svc".to_string()),
        spans: Vec::new(),
        values: Vec::new(),
        message: "parsed message".to_string(),
        message_parts: Vec::new(),
        stream: Stream::Stdout,
    }]);
    let state = ViewState {
        search_query: "original raw".to_string(),
        ..ViewState::new()
    };

    assert_eq!(search_match_indices(&entries, &state), vec![0]);
}

#[test]
fn focus_status_shows_hidden_line_count_and_percentage() {
    let entries = VecDeque::from([
        entry_with_target(Some("alpha"), "one"),
        entry_with_target(Some("beta"), "two"),
        entry_with_target(Some("alpha"), "three"),
        entry_with_target(None, "plain"),
    ]);
    let state = ViewState {
        selected: Some(2),
        focus_target: Some("alpha".to_string()),
        ..ViewState::new()
    };

    let status = status_line(&entries, &state, None, false, 120);

    assert!(status.contains("focus alpha (2 hidden, 50%)"));
}

#[test]
fn status_shows_level_distribution_and_filter() {
    let entries = VecDeque::from([
        entry_with_level(Level::Error),
        entry_with_level(Level::Warn),
        entry_with_level(Level::Info),
        entry_with_level(Level::Debug),
        entry_with_level(Level::Trace),
        entry_with_level(Level::Unknown),
    ]);
    let state = ViewState {
        level_filter: LevelFilter::AtLeast(Level::Warn),
        ..ViewState::new()
    };

    let status = status_line(&entries, &state, None, false, 160);

    assert!(status.contains("lvl E1 W1 I1 D1 T1 U1"));
    assert!(status.contains("| WARN+ |"));
}

#[test]
fn status_shows_loaded_after_file_input_finishes() {
    let entries = entries(1);
    let state = ViewState::new();

    let status = status_line(&entries, &state, None, true, 120);

    assert!(status.contains(" loaded |"));
}

#[test]
fn full_status_line_text() {
    let entries = entries(3);
    let state = ViewState {
        selected: Some(2),
        x_offset: 16,
        ..ViewState::new()
    };
    let status = status_line(&entries, &state, Some("exit status: 1"), false, 200);
    assert_eq!(
        status.trim_end(),
        " exited exit status: 1 | line 3/3 | auto-scroll | lvl E0 W0 I3 D0 T0 U0 | ALL | x=16 | spans on | raw off | ? help"
    );
    assert_eq!(status.chars().count(), 200);
    assert_eq!(status_line(&entries, &state, None, false, 10), " running |");
}

#[test]
fn status_line_without_selection_counts_from_zero() {
    let entries = entries(2);
    let state = ViewState::new();
    let status = status_line(&entries, &state, None, false, 40);
    assert!(status.starts_with(" running | line 0/2 | lvl"));
}

#[test]
fn result_labels_and_summaries() {
    assert_eq!(result_count_label(0), "0 results");
    assert_eq!(result_count_label(1), "1 result");
    assert_eq!(result_count_label(12), "12 results");
    assert_eq!(search_result_summary(&[], Some(1), true), "0 results");
    assert_eq!(search_result_summary(&[3, 8], Some(5), false), "2 results");
    assert_eq!(search_result_summary(&[3, 8], Some(8), true), "2 results  2/2  wrapped");
}

#[test]
fn search_status_shows_query_and_count() {
    let entries = VecDeque::from([entry_with_target(None, "hit"), entry_with_target(None, "miss")]);
    let idle = ViewState::new();
    assert_eq!(search_status(&entries, &idle), "");
    let typing = ViewState {
        search_editing: true,
        ..ViewState::new()
    };
    assert_eq!(search_status(&entries, &typing), " | search / (0 results)");
    let locked = ViewState {
        search_query: "hit".to_string(),
        ..ViewState::new()
    };
    assert_eq!(search_status(&entries, &locked), " | search hit (1 results)");
}

#[test]
fn level_counts_follow_the_focus() {
    let mut entries = VecDeque::from([
        entry_with_target(Some("a"), "x"),
        entry_with_target(Some("b"), "y"),
    ]);
    entries[1].level = Level::Error;
    let state = ViewState {
        focus_target: Some("b".to_string()),
        ..ViewState::new()
    };
    let counts = LevelCounts::from_entries(&entries, &state);
    assert_eq!(counts.summary(), "E1 W0 I0 D0 T0 U0");
    let mut all = LevelCounts::from_entries(&entries, &ViewState::new());
    assert_eq!(all.summary(), "E1 W0 I1 D0 T0 U0");
    all.add(Level::Trace);
    assert_eq!(all.trace, 1);
}

#[test]
fn percentages_round_half_up() {
    assert_eq!(hidden_percentage(0, 0), 0);
    assert_eq!(hidden_percentage(1, 3), 33);
    assert_eq!(hidden_percentage(2, 3), 67);
    assert_eq!(hidden_percentage(1, 8), 13);
    assert_eq!(hidden_percentage(3, 3), 100);
}

#[test]
fn focus_note_on_empty_buffer() {
    let entries: VecDeque<LogEntry> = VecDeque::new();
    assert_eq!(focus_status(&entries, "x"), " | focus x (0 hidden, 0%)");
}

#[test]
fn numbers_and_fitting() {
    assert_eq!(decimal_string(0), "0");
    assert_eq!(decimal_string(9), "9");
    assert_eq!(decimal_string(10), "10");
    assert_eq!(decimal_string(18446744073709551615), "18446744073709551615");
    assert_eq!(fit_to_width("abc", 5), "abc  ");
    assert_eq!(fit_to_width("abcdef", 3), "abc");
}

#[test]
fn status_is_cut_around_the_filter_label() {
    let (before, label, after) = split_status(" a | WARN+ | b", "WARN+").unwrap();
    assert_eq!(before, " a | ");
    assert_eq!(label, "WARN+");
    assert_eq!(after, " | b");
    assert!(split_status(" a | b", "ALL").is_none());
}

#[test]
fn help_rows_are_cut_to_the_width_and_coloured() {
    let rows = help_page_rows(5, 30);
    assert_eq!(rows.len(), 22);
    assert_eq!(rows[0], ("tv he".to_string(), Color::Cyan));
    assert_eq!(rows[1], (String::new(), Color::White));
    assert_eq!(rows[2].1, Color::Cyan);
    assert_eq!(rows[16], ("Navig".to_string(), Color::Cyan));
    assert_eq!(help_page_rows(80, 0).len(), 0);
}
