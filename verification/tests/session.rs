use std::collections::VecDeque;

use traceviewer::keys::{KeyCode, KeyEvent};
use traceviewer::model::{Level, LogEntry, Stream};
use traceviewer::session::{
    ingest_entry, reader_failure_entry, terminal_event_requests_redraw, MouseKind, TerminalEvent,
};
use traceviewer::view::ViewState;

fn mouse_event(kind: MouseKind) -> TerminalEvent {
    TerminalEvent::Mouse(kind)
}

fn line(n: usize) -> LogEntry {
    LogEntry::unparsed(Stream::Stdout, format!("line {n}"))
}

#[test]
fn mouse_motion_does_not_request_redraw() {
    assert!(!terminal_event_requests_redraw(&mouse_event(MouseKind::Moved)));
}

#[test]
fn mouse_wheel_requests_redraw() {
    assert!(terminal_event_requests_redraw(&mouse_event(MouseKind::ScrollUp)));
    assert!(terminal_event_requests_redraw(&mouse_event(MouseKind::ScrollDown)));
}

#[test]
fn keys_and_resizes_request_redraw() {
    assert!(terminal_event_requests_redraw(&TerminalEvent::Key(KeyEvent::new(KeyCode::Up, false))));
    assert!(terminal_event_requests_redraw(&TerminalEvent::Resize(80, 24)));
    assert!(!terminal_event_requests_redraw(&TerminalEvent::Other));
}

#[test]
fn buffer_keeps_at_most_max_lines_and_follows_newest() {
    let mut entries = VecDeque::new();
    let mut state = ViewState::new();
    for n in 0..5 {
        ingest_entry(&mut entries, &mut state, line(n), Some(3), 2);
        assert!(entries.len() <= 3);
    }
    let raws: Vec<&str> = entries.iter().map(|e| e.raw.as_str()).collect();
    assert_eq!(raws, vec!["line 2", "line 3", "line 4"]);
    assert_eq!(state.selected, Some(2));
    assert_eq!(state.first_visible, 1);
}

#[test]
fn selection_stays_put_when_not_following() {
    let mut entries = VecDeque::new();
    let mut state = ViewState::new();
    for n in 0..3 {
        ingest_entry(&mut entries, &mut state, line(n), None, 5);
    }
    state.selected = Some(0);
    ingest_entry(&mut entries, &mut state, line(3), None, 5);
    assert_eq!(state.selected, Some(0));
    assert_eq!(entries.len(), 4);
    ingest_entry(&mut entries, &mut state, line(4), Some(4), 5);
    assert_eq!(entries.len(), 4);
    assert_eq!(state.selected, Some(0));
    assert_eq!(entries[0].raw, "line 1");
}

#[test]
fn failed_reader_is_reported_as_an_error_line() {
    let entry = reader_failure_entry(Stream::Stderr, "broken pipe");
    assert_eq!(entry.raw, "Stderr reader failed: broken pipe");
    assert_eq!(entry.message, entry.raw);
    assert_eq!(entry.level, Level::Error);
    assert_eq!(entry.target.as_deref(), Some("traceviewer"));
    assert!(!entry.parsed);
}
