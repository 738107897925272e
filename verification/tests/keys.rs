use std::collections::VecDeque;

use traceviewer::keys::{handle_key, KeyAction, KeyCode, KeyEvent};
use traceviewer::model::{Level, LogEntry, Stream, TraceValue, TraceValueField, TraceValueSection};
use traceviewer::status::{search_bar_text, status_line};
use traceviewer::values::selected_line_text;
use traceviewer::view::{
    search_match_indices, visible_indices, LevelFilter, ValuesPaneMode, ValuesPaneState, ViewState,
};

fn entries(count: usize) -> VecDeque<LogEntry> {
    (0..count)
        .map(|idx| LogEntry {
            raw: format!("raw line {idx}"),
            timestamp: None,
            level: Level::Info,
            parsed: true,
            target: None,
            spans: Vec::new(),
            values: Vec::new(),
            message: format!("line {idx}"),
            message_parts: Vec::new(),
            stream: Stream::Stdout,
        })
        .collect()
}

fn entry_with_level(level: Level) -> LogEntry {
    LogEntry {
        raw: "raw line".to_string(),
        timestamp: None,
        level,
        parsed: true,
        target: None,
        spans: Vec::new(),
        values: Vec::new(),
        message: "line".to_string(),
        message_parts: Vec::new(),
        stream: Stream::Stdout,
    }
}

fn entry_with_target(target: Option<&str>, message: &str) -> LogEntry {
    LogEntry {
        raw: format!("raw {message}"),
        timestamp: None,
        level: Level::Info,
        parsed: true,
        target: target.map(str::to_string),
        spans: Vec::new(),
        values: Vec::new(),
        message: message.to_string(),
        message_parts: Vec::new(),
        stream: Stream::Stdout,
    }
}

fn entry_with_values(values: Vec<TraceValueField>) -> LogEntry {
    LogEntry {
        raw: "raw line".to_string(),
        timestamp: None,
        level: Level::Info,
        parsed: true,
        target: None,
        spans: Vec::new(),
        values: vec![TraceValueSection::new("event", values)],
        message: "line".to_string(),
        message_parts: Vec::new(),
        stream: Stream::Stdout,
    }
}

fn key(code: KeyCode) -> KeyEvent {
    KeyEvent::new(code, false)
}

#[test]
fn home_and_end_move_to_first_and_last_lines() {
    let entries = entries(10);
    let mut state = ViewState::new();

    handle_key(key(KeyCode::Home), &entries, &mut state, false, 5);
    assert_eq!(state.selected, Some(0));

    handle_key(key(KeyCode::End), &entries, &mut state, false, 5);
    assert_eq!(state.selected, Some(9));
}

#[test]
fn page_keys_move_by_visible_page() {
    let entries = entries(20);
    let mut state = ViewState::new();

    assert_eq!(
        handle_key(key(KeyCode::PageUp), &entries, &mut state, false, 6),
        KeyAction::Continue
    );
    assert_eq!(state.selected, Some(14));

    handle_key(key(KeyCode::PageDown), &entries, &mut state, false, 6);
    assert_eq!(state.selected, Some(19));
}

#[test]
fn number_keys_filter_by_minimum_level() {
    let entries = VecDeque::from([
        entry_with_level(Level::Trace),
        entry_with_level(Level::Debug),
        entry_with_level(Level::Info),
        entry_with_level(Level::Warn),
        entry_with_level(Level::Error),
    ]);
    let mut state = ViewState {
        selected: Some(0),
        ..ViewState::new()
    };

    handle_key(key(KeyCode::Char('3')), &entries, &mut state, false, 5);
    assert_eq!(state.level_filter, LevelFilter::AtLeast(Level::Info));
    assert_eq!(visible_indices(&entries, &state), vec![2, 3, 4]);
    assert_eq!(state.selected, Some(4));

    handle_key(key(KeyCode::Char('5')), &entries, &mut state, false, 5);
    assert_eq!(visible_indices(&entries, &state), vec![4]);
    assert_eq!(state.selected, Some(4));

    handle_key(key(KeyCode::Char('1')), &entries, &mut state, false, 5);
    assert_eq!(state.level_filter, LevelFilter::All);
    assert_eq!(visible_indices(&entries, &state), vec![0, 1, 2, 3, 4]);
}

#[test]
fn y_requests_copy_selected_line() {
    let entries = entries(1);
    let mut state = ViewState::new();

    assert_eq!(
        handle_key(key(KeyCode::Char('y')), &entries, &mut state, false, 5),
        KeyAction::CopySelected
    );
}

#[test]
fn question_mark_toggles_help_page() {
    let entries = entries(1);
    let mut state = ViewState::new();

    assert_eq!(
        handle_key(key(KeyCode::Char('?')), &entries, &mut state, false, 5),
        KeyAction::Continue
    );
    assert!(state.help_visible);

    assert_eq!(
        handle_key(key(KeyCode::Char('?')), &entries, &mut state, false, 5),
        KeyAction::Continue
    );
    assert!(!state.help_visible);
}

#[test]
fn s_toggles_span_information() {
    let entries = entries(1);
    let mut state = ViewState::new();

    assert!(state.show_spans);
    assert_eq!(
        handle_key(key(KeyCode::Char('s')), &entries, &mut state, false, 5),
        KeyAction::Continue
    );
    assert!(!state.show_spans);

    handle_key(key(KeyCode::Char('s')), &entries, &mut state, false, 5);
    assert!(state.show_spans);
}

#[test]
fn r_toggles_raw_log_line_display() {
    let entries = entries(1);
    let mut state = ViewState::new();

    assert!(!state.show_raw);
    assert_eq!(
        handle_key(key(KeyCode::Char('r')), &entries, &mut state, false, 5),
        KeyAction::Continue
    );
    assert!(state.show_raw);

    handle_key(key(KeyCode::Char('r')), &entries, &mut state, false, 5);
    assert!(!state.show_raw);
}

#[test]
fn v_toggles_sidebar_and_uppercase_v_toggles_fullscreen() {
    let entries = VecDeque::from([entry_with_values(vec![TraceValueField::new(
        "id",
        TraceValue::Number("7".to_string()),
    )])]);
    let mut state = ViewState::new();

    assert_eq!(state.values.mode, ValuesPaneMode::Closed);
    assert_eq!(
        handle_key(key(KeyCode::Char('v')), &entries, &mut state, false, 5),
        KeyAction::Continue
    );
    assert_eq!(state.values.mode, ValuesPaneMode::Sidebar);
    assert_eq!(state.values.selected, Some(0));

    handle_key(key(KeyCode::Char('V')), &entries, &mut state, false, 5);
    assert_eq!(state.values.mode, ValuesPaneMode::Fullscreen);

    handle_key(key(KeyCode::Char('v')), &entries, &mut state, false, 5);
    assert_eq!(state.values.mode, ValuesPaneMode::Sidebar);
    assert_eq!(state.values.selected, Some(0));

    handle_key(key(KeyCode::Char('v')), &entries, &mut state, false, 5);
    assert_eq!(state.values.mode, ValuesPaneMode::Closed);
    assert_eq!(state.values.selected, None);

    handle_key(key(KeyCode::Char('V')), &entries, &mut state, false, 5);
    assert_eq!(state.values.mode, ValuesPaneMode::Fullscreen);

    handle_key(key(KeyCode::Char('V')), &entries, &mut state, false, 5);
    assert_eq!(state.values.mode, ValuesPaneMode::Closed);
}

#[test]
fn escape_closes_tracing_values_pane() {
    let entries = entries(1);
    let mut state = ViewState {
        values: ValuesPaneState {
            mode: ValuesPaneMode::Fullscreen,
            selected: Some(0),
            x_offset: 16,
        },
        search_query: "line".to_string(),
        ..ViewState::new()
    };

    assert_eq!(
        handle_key(key(KeyCode::Esc), &entries, &mut state, false, 5),
        KeyAction::Continue
    );
    assert_eq!(state.values.mode, ValuesPaneMode::Closed);
    assert_eq!(state.values.selected, None);
    assert_eq!(state.values.x_offset, 0);
    assert_eq!(state.search_query, "line");
}

#[test]
fn arrow_keys_select_and_scroll_values_when_pane_is_open() {
    let entries = VecDeque::from([entry_with_values(vec![
        TraceValueField::new("id", TraceValue::Number("7".to_string())),
        TraceValueField::new("tag", TraceValue::String("admin".to_string())),
    ])]);
    let mut state = ViewState {
        selected: Some(0),
        values: ValuesPaneState {
            mode: ValuesPaneMode::Sidebar,
            ..ValuesPaneState::default()
        },
        ..ViewState::new()
    };

    handle_key(key(KeyCode::Down), &entries, &mut state, false, 5);
    assert_eq!(state.selected, Some(0));
    assert_eq!(state.values.selected, Some(1));

    handle_key(key(KeyCode::Up), &entries, &mut state, false, 5);
    assert_eq!(state.values.selected, Some(0));

    handle_key(key(KeyCode::Right), &entries, &mut state, false, 5);
    assert_eq!(state.x_offset, 0);
    assert_eq!(state.values.x_offset, 16);

    handle_key(key(KeyCode::Left), &entries, &mut state, false, 5);
    assert_eq!(state.values.x_offset, 0);
}

#[test]
fn y_copies_selected_value_when_values_pane_is_open() {
    let entries = VecDeque::from([entry_with_values(vec![
        TraceValueField::new("id", TraceValue::Number("7".to_string())),
        TraceValueField::new("tag", TraceValue::String("admin".to_string())),
    ])]);
    let mut state = ViewState {
        selected: Some(0),
        values: ValuesPaneState {
            mode: ValuesPaneMode::Sidebar,
            selected: Some(1),
            ..ValuesPaneState::default()
        },
        ..ViewState::new()
    };

    assert_eq!(
        handle_key(key(KeyCode::Char('y')), &entries, &mut state, false, 5),
        KeyAction::CopySelected
    );
    assert_eq!(
        selected_line_text(&entries, &state).as_deref(),
        Some(r#"tag = "admin""#)
    );
}

#[test]
fn slash_closes_values_pane_and_starts_search() {
    let entries = entries(1);
    let mut state = ViewState {
        values: ValuesPaneState {
            mode: ValuesPaneMode::Fullscreen,
            selected: Some(0),
            x_offset: 16,
        },
        ..ViewState::new()
    };

    handle_key(key(KeyCode::Char('/')), &entries, &mut state, false, 5);

    assert_eq!(state.values.mode, ValuesPaneMode::Closed);
    assert!(state.search_editing);
}

#[test]
fn slash_starts_raw_search_and_typing_updates_matches() {
    let entries = VecDeque::from([
        entry_with_target(Some("alpha"), "apple"),
        entry_with_target(Some("beta"), "berry"),
        entry_with_target(Some("gamma"), "cherry"),
    ]);
    let mut state = ViewState {
        selected: Some(0),
        ..ViewState::new()
    };

    handle_key(key(KeyCode::Char('/')), &entries, &mut state, false, 5);
    assert!(state.search_editing);
    assert_eq!(state.search_query, "");

    handle_key(key(KeyCode::Char('e')), &entries, &mut state, false, 5);
    assert_eq!(state.search_query, "e");
    assert_eq!(state.selected, Some(0));

    handle_key(key(KeyCode::Char('r')), &entries, &mut state, false, 5);
    assert_eq!(state.search_query, "er");
    assert_eq!(state.selected, Some(1));
    assert_eq!(search_match_indices(&entries, &state), vec![1, 2]);

    let status = status_line(&entries, &state, None, false, 120);
    assert!(status.contains("search /er (2 results)"));
}

#[test]
fn search_bar_shows_wrapped_after_actual_wrap() {
    let entries = VecDeque::from([
        entry_with_target(Some("alpha"), "hit one"),
        entry_with_target(Some("beta"), "miss"),
        entry_with_target(Some("gamma"), "hit two"),
    ]);
    let mut state = ViewState {
        selected: Some(2),
        search_query: "hit".to_string(),
        ..ViewState::new()
    };

    handle_key(key(KeyCode::Char('n')), &entries, &mut state, false, 5);
    assert_eq!(state.selected, Some(0));
    assert!(state.search_wrapped);

    let text = search_bar_text(&entries, &state, 120);

    assert!(text.contains("2 results  1/2  wrapped"));
}

#[test]
fn search_bar_does_not_note_single_result_until_wrap_happens() {
    let entries = VecDeque::from([
        entry_with_target(Some("alpha"), "miss"),
        entry_with_target(Some("beta"), "hit one"),
    ]);
    let mut state = ViewState {
        selected: Some(1),
        search_query: "hit".to_string(),
        ..ViewState::new()
    };

    let text = search_bar_text(&entries, &state, 120);

    assert!(text.contains("1 result  1/1"));
    assert!(!text.contains("wrapped"));

    handle_key(key(KeyCode::Char('n')), &entries, &mut state, false, 5);
    let wrapped_text = search_bar_text(&entries, &state, 120);

    assert!(wrapped_text.contains("1 result  1/1  wrapped"));
}

#[test]
fn enter_finishes_search_input_and_escape_clears_search() {
    let entries = VecDeque::from([
        entry_with_target(Some("alpha"), "apple"),
        entry_with_target(Some("beta"), "berry"),
    ]);
    let mut state = ViewState::new();

    handle_key(key(KeyCode::Char('/')), &entries, &mut state, false, 5);
    handle_key(key(KeyCode::Char('b')), &entries, &mut state, false, 5);
    handle_key(key(KeyCode::Enter), &entries, &mut state, false, 5);

    assert!(!state.search_editing);
    assert_eq!(state.search_query, "b");
    assert_eq!(state.selected, Some(1));

    handle_key(key(KeyCode::Char('/')), &entries, &mut state, false, 5);
    handle_key(key(KeyCode::Char('a')), &entries, &mut state, false, 5);
    handle_key(key(KeyCode::Esc), &entries, &mut state, false, 5);

    assert!(!state.search_editing);
    assert_eq!(state.search_query, "");
}

#[test]
fn slash_edits_existing_locked_search() {
    let entries = VecDeque::from([entry_with_target(Some("alpha"), "apple")]);
    let mut state = ViewState {
        search_query: "app".to_string(),
        ..ViewState::new()
    };

    handle_key(key(KeyCode::Char('/')), &entries, &mut state, false, 5);
    assert!(state.search_editing);
    assert_eq!(state.search_query, "app");

    handle_key(key(KeyCode::Char('l')), &entries, &mut state, false, 5);
    assert_eq!(state.search_query, "appl");
}

#[test]
fn escape_clears_locked_search_without_quitting() {
    let entries = VecDeque::from([entry_with_target(Some("alpha"), "apple")]);
    let mut state = ViewState {
        search_query: "apple".to_string(),
        ..ViewState::new()
    };

    assert_eq!(
        handle_key(key(KeyCode::Esc), &entries, &mut state, true, 5),
        KeyAction::Continue
    );
    assert_eq!(state.search_query, "");
    assert!(!state.search_editing);
}

#[test]
fn n_and_b_jump_between_search_results_with_wraparound() {
    let entries = VecDeque::from([
        entry_with_target(Some("alpha"), "miss"),
        entry_with_target(Some("beta"), "hit one"),
        entry_with_target(Some("gamma"), "miss again"),
        entry_with_target(Some("delta"), "hit two"),
    ]);
    let mut state = ViewState {
        selected: Some(0),
        search_query: "hit".to_string(),
        ..ViewState::new()
    };

    handle_key(key(KeyCode::Char('n')), &entries, &mut state, false, 5);
    assert_eq!(state.selected, Some(1));
    assert!(!state.search_wrapped);

    handle_key(key(KeyCode::Char('n')), &entries, &mut state, false, 5);
    assert_eq!(state.selected, Some(3));
    assert!(!state.search_wrapped);

    handle_key(key(KeyCode::Char('n')), &entries, &mut state, false, 5);
    assert_eq!(state.selected, Some(1));
    assert!(state.search_wrapped);

    handle_key(key(KeyCode::Char('b')), &entries, &mut state, false, 5);
    assert_eq!(state.selected, Some(3));
    assert!(state.search_wrapped);
}

#[test]
fn f_focuses_selected_target_and_clears_focus() {
    let entries = VecDeque::from([
        entry_with_target(Some("alpha"), "one"),
        entry_with_target(Some("beta"), "two"),
        entry_with_target(Some("alpha"), "three"),
    ]);
    let mut state = ViewState {
        selected: Some(2),
        first_visible: 2,
        ..ViewState::new()
    };

    assert_eq!(
        handle_key(key(KeyCode::Char('f')), &entries, &mut state, false, 5),
        KeyAction::Continue
    );
    assert_eq!(state.focus_target.as_deref(), Some("alpha"));
    assert_eq!(visible_indices(&entries, &state), vec![0, 2]);
    assert_eq!(state.selected, Some(2));

    handle_key(key(KeyCode::Char('f')), &entries, &mut state, false, 5);
    assert_eq!(state.focus_target, None);
    assert_eq!(visible_indices(&entries, &state), vec![0, 1, 2]);
}

#[test]
fn focused_navigation_skips_other_targets() {
    let entries = VecDeque::from([
        entry_with_target(Some("alpha"), "one"),
        entry_with_target(Some("beta"), "two"),
        entry_with_target(Some("alpha"), "three"),
        entry_with_target(Some("beta"), "four"),
    ]);
    let mut state = ViewState {
        selected: Some(0),
        focus_target: Some("alpha".to_string()),
        ..ViewState::new()
    };

    handle_key(key(KeyCode::Down), &entries, &mut state, false, 5);
    assert_eq!(state.selected, Some(2));

    handle_key(key(KeyCode::Up), &entries, &mut state, false, 5);
    assert_eq!(state.selected, Some(0));
}

#[test]
fn f_without_selected_target_keeps_focus_clear() {
    let entries = VecDeque::from([entry_with_target(None, "plain")]);
    let mut state = ViewState {
        selected: Some(0),
        ..ViewState::new()
    };

    handle_key(key(KeyCode::Char('f')), &entries, &mut state, false, 5);
    assert_eq!(state.focus_target, None);
}

#[test]
fn left_and_right_scroll_horizontally_by_sixteen_columns() {
    let entries = entries(1);
    let mut state = ViewState::new();

    assert_eq!(state.x_offset, 0);

    handle_key(key(KeyCode::Right), &entries, &mut state, false, 5);
    assert_eq!(state.x_offset, 16);

    handle_key(key(KeyCode::Right), &entries, &mut state, false, 5);
    assert_eq!(state.x_offset, 32);

    handle_key(key(KeyCode::Left), &entries, &mut state, false, 5);
    assert_eq!(state.x_offset, 16);
}

#[test]
fn help_page_ignores_navigation_until_closed() {
    let entries = entries(10);
    let mut state = ViewState {
        help_visible: true,
        selected: Some(9),
        first_visible: 5,
        ..ViewState::new()
    };

    assert_eq!(
        handle_key(key(KeyCode::Up), &entries, &mut state, false, 5),
        KeyAction::Continue
    );
    assert_eq!(state.selected, Some(9));
    assert!(state.help_visible);

    handle_key(key(KeyCode::Esc), &entries, &mut state, false, 5);
    assert!(!state.help_visible);
}

#[test]
fn cursor_moves_on_screen_before_scrolling_up() {
    let entries = entries(10);
    let mut state = ViewState::new();
    state.follow_latest(&entries, 5);

    handle_key(key(KeyCode::Up), &entries, &mut state, false, 5);
    assert_eq!(state.selected, Some(8));
    assert_eq!(state.first_visible, 5);

    handle_key(key(KeyCode::Up), &entries, &mut state, false, 5);
    handle_key(key(KeyCode::Up), &entries, &mut state, false, 5);
    handle_key(key(KeyCode::Up), &entries, &mut state, false, 5);
    assert_eq!(state.selected, Some(5));
    assert_eq!(state.first_visible, 5);

    handle_key(key(KeyCode::Up), &entries, &mut state, false, 5);
    assert_eq!(state.selected, Some(4));
    assert_eq!(state.first_visible, 4);
}

#[test]
fn cursor_moves_on_screen_before_scrolling_down() {
    let entries = entries(10);
    let mut state = ViewState {
        first_visible: 2,
        selected: Some(2),
        ..ViewState::new()
    };

    handle_key(key(KeyCode::Down), &entries, &mut state, false, 5);
    assert_eq!(state.selected, Some(3));
    assert_eq!(state.first_visible, 2);

    handle_key(key(KeyCode::Down), &entries, &mut state, false, 5);
    handle_key(key(KeyCode::Down), &entries, &mut state, false, 5);
    handle_key(key(KeyCode::Down), &entries, &mut state, false, 5);
    assert_eq!(state.selected, Some(6));
    assert_eq!(state.first_visible, 2);

    handle_key(key(KeyCode::Down), &entries, &mut state, false, 5);
    assert_eq!(state.selected, Some(7));
    assert_eq!(state.first_visible, 3);
}

#[test]
fn control_c_kills_and_exits_without_changing_the_view() {
    let entries = entries(3);
    let mut state = ViewState {
        selected: Some(1),
        search_editing: true,
        ..ViewState::new()
    };

    assert_eq!(
        handle_key(KeyEvent::new(KeyCode::Char('c'), true), &entries, &mut state, false, 5),
        KeyAction::KillAndExit
    );
    assert_eq!(state.selected, Some(1));
    assert!(state.search_editing);
    assert_eq!(state.search_query, "");

    let mut help = ViewState {
        help_visible: true,
        ..ViewState::new()
    };
    assert_eq!(
        handle_key(KeyEvent::new(KeyCode::Char('c'), true), &entries, &mut help, true, 5),
        KeyAction::KillAndExit
    );
    assert!(help.help_visible);
}

#[test]
fn q_quits_only_after_the_process_ended() {
    let entries = entries(3);
    let mut state = ViewState::new();

    assert_eq!(
        handle_key(key(KeyCode::Char('q')), &entries, &mut state, false, 5),
        KeyAction::Continue
    );
    assert_eq!(
        handle_key(key(KeyCode::Char('q')), &entries, &mut state, true, 5),
        KeyAction::Quit
    );
}

#[test]
fn pressing_a_toggle_twice_restores_the_view() {
    let entries = entries(4);
    for c in ['s', 'r', '?'] {
        let mut state = ViewState {
            selected: Some(2),
            first_visible: 1,
            ..ViewState::new()
        };
        handle_key(key(KeyCode::Char(c)), &entries, &mut state, false, 5);
        handle_key(key(KeyCode::Char(c)), &entries, &mut state, false, 5);
        assert!(state.show_spans);
        assert!(!state.show_raw);
        assert!(!state.help_visible);
        assert_eq!(state.selected, Some(2));
        assert_eq!(state.first_visible, 1);
    }
}

#[test]
fn backspace_shortens_the_query_while_typing() {
    let entries = VecDeque::from([
        entry_with_target(Some("alpha"), "apple"),
        entry_with_target(Some("beta"), "berry"),
    ]);
    let mut state = ViewState::new();

    handle_key(key(KeyCode::Char('/')), &entries, &mut state, false, 5);
    handle_key(key(KeyCode::Char('b')), &entries, &mut state, false, 5);
    handle_key(key(KeyCode::Char('x')), &entries, &mut state, false, 5);
    assert_eq!(state.search_query, "bx");
    handle_key(key(KeyCode::Backspace), &entries, &mut state, false, 5);
    assert_eq!(state.search_query, "b");
    assert_eq!(state.selected, Some(1));
}
