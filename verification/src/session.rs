//! Decisions of the viewer's event loop: taking in a new line under the
//! line limit, reporting a failed reader, and which terminal events redraw.

use vstd::prelude::*;
use std::collections::VecDeque;
use crate::keys::KeyEvent;
use crate::model::{Level, LogEntry, Stream};
use crate::view::{ViewModel, ViewState, follow_latest_view, remove_first_line_view};

verus! {

/// Whether the view follows the newest line: nothing is selected, or the
/// last line is.
pub open spec fn follows_latest(selected: Option<usize>, count: nat) -> bool {
    match selected {
        None => true,
        Some(s) => s + 1 == count,
    }
}

/// Whether the oldest line makes room for a new one: the buffer is full.
pub open spec fn evicts(count: nat, max_lines: Option<usize>) -> bool {
    match max_lines {
        Some(m) => count == m,
        None => false,
    }
}

/// The lines after taking in `entry`: the oldest dropped when the buffer
/// was full, the new one appended.
pub open spec fn ingested_entries(entries: Seq<LogEntry>, entry: LogEntry, max_lines: Option<usize>) -> Seq<LogEntry> {
    (if evicts(entries.len(), max_lines) {
        entries.drop_first()
    } else {
        entries
    }).push(entry)
}

/// The view after taking in a line: indices shift when the oldest line
/// went, and a view that followed the newest line follows the new one.
pub open spec fn ingested_view(
    entries: Seq<LogEntry>,
    st: ViewModel,
    entry: LogEntry,
    max_lines: Option<usize>,
    page_size: usize,
) -> ViewModel {
    let shifted = if evicts(entries.len(), max_lines) {
        remove_first_line_view(st)
    } else {
        st
    };
    if follows_latest(st.selected, entries.len()) {
        follow_latest_view(ingested_entries(entries, entry, max_lines), shifted, page_size)
    } else {
        shifted
    }
}

/// Takes in a new line: drops the oldest one when `max_lines` are kept
/// already, appends the new one, and keeps following the newest line when
/// the view did so before.
pub fn ingest_entry(
    entries: &mut VecDeque<LogEntry>,
    state: &mut ViewState,
    entry: LogEntry,
    max_lines: Option<usize>,
    page_size: usize,
)
    requires
        max_lines != Some(0usize),
        old(entries)@.len() < usize::MAX,
    ensures
        final(entries)@ == ingested_entries(old(entries)@, entry, max_lines),
        final(state)@ == ingested_view(old(entries)@, old(state)@, entry, max_lines, page_size),
        max_lines matches Some(m) ==> (old(entries)@.len() <= m ==> final(entries)@.len() <= m),
{
    let ghost before = entries@;
    let following = match state.selected {
        None => true,
        Some(s) => s < usize::MAX && s + 1 == entries.len(),
    };
    let full = match max_lines {
        Some(m) => entries.len() == m,
        None => false,
    };
    if full {
        let _ = entries.pop_front();
        state.remove_first_line();
    }
    entries.push_back(entry);
    proof {
        if full {
            assert(before.len() > 0);
        }
        assert(entries@ =~= ingested_entries(before, entry, max_lines));
    }
    if following {
        state.follow_latest(entries, page_size);
    }
}

/// The line shown when reading a stream failed: an error from the viewer
/// itself naming the stream and the failure.
pub open spec fn failure_message(stream: Stream, error: Seq<char>) -> Seq<char> {
    (match stream {
        Stream::Stdout => "Stdout"@,
        Stream::Stderr => "Stderr"@,
    }) + " reader failed: "@ + error
}

/// The entry reporting that reading `stream` failed with `error`.
pub fn reader_failure_entry(stream: Stream, error: &str) -> (e: LogEntry)
    ensures
        e.raw@ == failure_message(stream, error@),
        e.message@ == failure_message(stream, error@),
        e.level == Level::Error,
        !e.parsed,
        e.timestamp is None,
        e.target matches Some(t) && t@ == "traceviewer"@,
        e.spans@.len() == 0,
        e.values@.len() == 0,
        e.message_parts@.len() == 0,
        e.stream == stream,
{
    let mut message = match stream {
        Stream::Stdout => "Stdout".to_owned(),
        Stream::Stderr => "Stderr".to_owned(),
    };
    message.append(" reader failed: ");
    message.append(error);
    let raw = message.clone();
    LogEntry {
        raw,
        timestamp: None,
        level: Level::Error,
        parsed: false,
        target: Some("traceviewer".to_owned()),
        spans: Vec::new(),
        values: Vec::new(),
        message,
        message_parts: Vec::new(),
        stream,
    }
}

/// What the mouse did.
#[derive(Clone, Copy, Debug, PartialEq, Eq, Structural)]
pub enum MouseKind {
    ScrollUp,
    ScrollDown,
    Moved,
    Other,
}

/// A terminal event as the viewer sees it.
#[derive(Clone, Copy, Debug, PartialEq, Eq)]
pub enum TerminalEvent {
    Key(KeyEvent),
    Mouse(MouseKind),
    Resize(u16, u16),
    Other,
}

/// Keys, resizes and the mouse wheel change what is drawn; mouse motion
/// and other events do not.
pub open spec fn redraws(event: TerminalEvent) -> bool {
    match event {
        TerminalEvent::Key(_) => true,
        TerminalEvent::Resize(_, _) => true,
        TerminalEvent::Mouse(kind) => kind == MouseKind::ScrollUp || kind == MouseKind::ScrollDown,
        TerminalEvent::Other => false,
    }
}

/// Whether a terminal event asks for the screen to be drawn again.
pub fn terminal_event_requests_redraw(event: &TerminalEvent) -> (r: bool)
    ensures
        r == redraws(*event),
{
    match event {
        TerminalEvent::Key(_) => true,
        TerminalEvent::Resize(_, _) => true,
        TerminalEvent::Mouse(kind) => match kind {
            MouseKind::ScrollUp => true,
            MouseKind::ScrollDown => true,
            _ => false,
        },
        TerminalEvent::Other => false,
    }
}

/// Dropping the first element and appending one moves every kept element
/// down by one place.
proof fn lemma_drop_first_push_index<T>(v: Seq<T>, x: T, i: int)
    requires
        0 < i < v.len(),
    ensures
        v.drop_first().push(x)[i - 1] == v[i],
        v.drop_first().push(x).len() == v.len(),
{
}

/// Law: when a full buffer drops its oldest line and the view does not
/// follow the newest line, the selection keeps naming the same line: its
/// index goes down by one and the line there is the one selected before.
pub proof fn lemma_eviction_keeps_selected_line(
    entries: Seq<LogEntry>,
    st: ViewModel,
    entry: LogEntry,
    max_lines: Option<usize>,
    page_size: usize,
    s: usize,
)
    requires
        evicts(entries.len(), max_lines),
        st.selected == Some(s),
        0 < s,
        s + 1 < entries.len(),
    ensures
        ingested_view(entries, st, entry, max_lines, page_size).selected == Some((s - 1) as usize),
        ingested_entries(entries, entry, max_lines)[s - 1] == entries[s as int],
        ingested_entries(entries, entry, max_lines).len() == entries.len(),
{
    assert(s + 1 != entries.len());
    lemma_drop_first_push_index(entries, entry, s as int);
}

} // verus!
