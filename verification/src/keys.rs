//! Key handling: what each key does to the view state in each mode.

use vstd::prelude::*;
use std::collections::VecDeque;
use crate::model::{Level, LogEntry};
use crate::text::{push_char, pop_char};
use crate::view::{
    LevelFilter, SearchDirection, ValuesPaneMode, ValuesPaneState, ViewModel, ViewState,
    clear_search_view, close_values_view, jump_to_search_match, jump_view, move_selected_by_view,
    move_selected_to_view, move_values_view, set_level_filter_view, shown_indices,
    start_search_view, sync_values_view, toggle_focus_view, toggle_values_view, toggled_focus,
    visible_indices,
};

verus! {

/// The keys the viewer tells apart.
#[derive(Clone, Copy, Debug, PartialEq, Eq, Structural)]
pub enum KeyCode {
    Char(char),
    Esc,
    Enter,
    Backspace,
    Left,
    Right,
    Up,
    Down,
    Home,
    End,
    PageUp,
    PageDown,
    Other,
}

/// A key press: the key and whether Control was held.
#[derive(Clone, Copy, Debug, PartialEq, Eq, Structural)]
pub struct KeyEvent {
    pub code: KeyCode,
    pub control: bool,
}

impl KeyEvent {
    pub fn new(code: KeyCode, control: bool) -> (k: Self)
        ensures
            k.code == code,
            k.control == control,
    {
        KeyEvent { code, control }
    }
}

/// What the caller has to do after a key.
#[derive(Clone, Copy, Debug, PartialEq, Eq, Structural)]
pub enum KeyAction {
    Continue,
    CopySelected,
    Quit,
    /// Kill the process and exit: Control-C.
    KillAndExit,
}

/// Columns moved by one horizontal scroll step.
pub const HORIZONTAL_SCROLL_STEP: usize = 16;

/// Columns the values pane moves by one horizontal scroll step.
pub const PANE_SCROLL_STEP: usize = 16;

/// `x` increased by `step`, saturating.
pub open spec fn sat_add(x: usize, step: usize) -> usize {
    if x + step > usize::MAX {
        usize::MAX
    } else {
        (x + step) as usize
    }
}

/// `x` decreased by `step`, stopping at zero.
pub open spec fn sat_sub(x: usize, step: usize) -> usize {
    if x >= step {
        (x - step) as usize
    } else {
        0
    }
}

/// The search query with one character removed from its end.
pub open spec fn query_without_last(q: Seq<char>) -> Seq<char> {
    if q.len() > 0 {
        q.drop_last()
    } else {
        q
    }
}

/// The state after a key while the search is being edited.
pub open spec fn search_key_view(entries: Seq<LogEntry>, st: ViewModel, code: KeyCode, page_size: usize) -> ViewModel {
    match code {
        KeyCode::Esc => clear_search_view(st),
        KeyCode::Enter => jump_view(
            entries,
            ViewModel { search_editing: false, search_wrapped: false, ..st },
            page_size,
            SearchDirection::Next,
        ),
        KeyCode::Backspace => jump_view(
            entries,
            ViewModel { search_query: query_without_last(st.search_query), search_wrapped: false, ..st },
            page_size,
            SearchDirection::CurrentOrNext,
        ),
        KeyCode::Char(ch) => jump_view(
            entries,
            ViewModel { search_query: st.search_query.push(ch), search_wrapped: false, ..st },
            page_size,
            SearchDirection::CurrentOrNext,
        ),
        _ => st,
    }
}

/// The state after a key while the help page is open.
pub open spec fn help_key_view(st: ViewModel, code: KeyCode) -> ViewModel {
    match code {
        KeyCode::Esc | KeyCode::Char('q') | KeyCode::Char('?') => ViewModel { help_visible: false, ..st },
        _ => st,
    }
}

/// The state after a key while the values pane is open.
pub open spec fn values_key_view(entries: Seq<LogEntry>, st0: ViewModel, code: KeyCode) -> ViewModel {
    let st = sync_values_view(entries, st0);
    match code {
        KeyCode::Esc => close_values_view(st),
        KeyCode::Char('v') => toggle_values_view(entries, st, ValuesPaneMode::Sidebar),
        KeyCode::Char('V') => toggle_values_view(entries, st, ValuesPaneMode::Fullscreen),
        KeyCode::Char('/') => start_search_view(st),
        KeyCode::Up => move_values_view(entries, st, -1),
        KeyCode::Down => move_values_view(entries, st, 1),
        KeyCode::Left => ViewModel {
            values: ValuesPaneState { x_offset: sat_sub(st.values.x_offset, 16), ..st.values },
            ..st
        },
        KeyCode::Right => ViewModel {
            values: ValuesPaneState { x_offset: sat_add(st.values.x_offset, 16), ..st.values },
            ..st
        },
        _ => st,
    }
}

/// The action after a key while the values pane is open.
pub open spec fn values_key_action(code: KeyCode) -> KeyAction {
    if code == KeyCode::Char('y') {
        KeyAction::CopySelected
    } else {
        KeyAction::Continue
    }
}

/// Rows moved by a page key: one less than the page, at least one.
pub open spec fn page_step(page_size: usize) -> int {
    if page_size <= 2 {
        1
    } else {
        page_size - 1
    }
}

/// The state after a key in the normal mode.
pub open spec fn normal_key_view(entries: Seq<LogEntry>, st: ViewModel, code: KeyCode, page_size: usize) -> ViewModel {
    let visible = shown_indices(entries, st);
    if st.values.mode != ValuesPaneMode::Closed {
        values_key_view(entries, st, code)
    } else {
        match code {
            KeyCode::Char('?') => ViewModel { help_visible: !st.help_visible, ..st },
            KeyCode::Char('/') => start_search_view(st),
            KeyCode::Char('n') => jump_view(entries, st, page_size, SearchDirection::Next),
            KeyCode::Char('b') => jump_view(entries, st, page_size, SearchDirection::Previous),
            KeyCode::Char('s') => ViewModel { show_spans: !st.show_spans, ..st },
            KeyCode::Char('r') => ViewModel { show_raw: !st.show_raw, ..st },
            KeyCode::Char('1') => set_level_filter_view(entries, st, LevelFilter::All, page_size),
            KeyCode::Char('2') => set_level_filter_view(entries, st, LevelFilter::AtLeast(Level::Debug), page_size),
            KeyCode::Char('3') => set_level_filter_view(entries, st, LevelFilter::AtLeast(Level::Info), page_size),
            KeyCode::Char('4') => set_level_filter_view(entries, st, LevelFilter::AtLeast(Level::Warn), page_size),
            KeyCode::Char('5') => set_level_filter_view(entries, st, LevelFilter::AtLeast(Level::Error), page_size),
            KeyCode::Char('v') => toggle_values_view(entries, st, ValuesPaneMode::Sidebar),
            KeyCode::Char('V') => toggle_values_view(entries, st, ValuesPaneMode::Fullscreen),
            KeyCode::Char('f') => toggle_focus_view(entries, st, page_size),
            KeyCode::Esc => if st.search_query.len() > 0 {
                clear_search_view(st)
            } else {
                st
            },
            KeyCode::Left => ViewModel { x_offset: sat_sub(st.x_offset, 16), ..st },
            KeyCode::Right => ViewModel { x_offset: sat_add(st.x_offset, 16), ..st },
            KeyCode::Home => move_selected_to_view(st, visible, 0, page_size),
            KeyCode::End => move_selected_to_view(
                st,
                visible,
                if visible.len() > 0 { visible.len() - 1 } else { 0 },
                page_size,
            ),
            KeyCode::Up => move_selected_by_view(st, visible, -1, page_size),
            KeyCode::Down => move_selected_by_view(st, visible, 1, page_size),
            KeyCode::PageUp => move_selected_by_view(st, visible, -page_step(page_size), page_size),
            KeyCode::PageDown => move_selected_by_view(st, visible, page_step(page_size), page_size),
            _ => st,
        }
    }
}

/// The action after a key in the normal mode.
pub open spec fn normal_key_action(st: ViewModel, code: KeyCode, process_exited: bool) -> KeyAction {
    if st.values.mode != ValuesPaneMode::Closed {
        values_key_action(code)
    } else if code == KeyCode::Char('y') {
        KeyAction::CopySelected
    } else if code == KeyCode::Char('q') && process_exited {
        KeyAction::Quit
    } else {
        KeyAction::Continue
    }
}

/// Control-C, which always kills the process and exits.
pub open spec fn is_interrupt(key: KeyEvent) -> bool {
    key.code == KeyCode::Char('c') && key.control
}

/// The state after a key: Control-C changes nothing, then the search editor,
/// the help page and the normal mode take keys in that order.
pub open spec fn key_view(
    entries: Seq<LogEntry>,
    st: ViewModel,
    key: KeyEvent,
    process_exited: bool,
    page_size: usize,
) -> ViewModel {
    if is_interrupt(key) {
        st
    } else if st.search_editing {
        search_key_view(entries, st, key.code, page_size)
    } else if st.help_visible {
        help_key_view(st, key.code)
    } else {
        normal_key_view(entries, st, key.code, page_size)
    }
}

/// The action a key asks for.
pub open spec fn key_action(st: ViewModel, key: KeyEvent, process_exited: bool) -> KeyAction {
    if is_interrupt(key) {
        KeyAction::KillAndExit
    } else if st.search_editing || st.help_visible {
        KeyAction::Continue
    } else {
        normal_key_action(st, key.code, process_exited)
    }
}

/// Applies a key to the view and says what the caller has to do next.
pub fn handle_key(
    key: KeyEvent,
    entries: &VecDeque<LogEntry>,
    state: &mut ViewState,
    process_exited: bool,
    page_size: usize,
) -> (action: KeyAction)
    requires
        page_size <= isize::MAX,
    ensures
        final(state)@ == key_view(entries@, old(state)@, key, process_exited, page_size),
        action == key_action(old(state)@, key, process_exited),
{
    if key.code == KeyCode::Char('c') && key.control {
        return KeyAction::KillAndExit;
    }
    if state.search_editing {
        return handle_search_key(key, entries, state, page_size);
    }
    if state.help_visible {
        return handle_help_key(key, state);
    }
    handle_normal_key(key, entries, state, process_exited, page_size)
}

pub fn handle_search_key(
    key: KeyEvent,
    entries: &VecDeque<LogEntry>,
    state: &mut ViewState,
    page_size: usize,
) -> (action: KeyAction)
    ensures
        final(state)@ == search_key_view(entries@, old(state)@, key.code, page_size),
        action == KeyAction::Continue,
{
    match key.code {
        KeyCode::Esc => {
            state.clear_search();
        },
        KeyCode::Enter => {
            state.search_editing = false;
            state.search_wrapped = false;
            jump_to_search_match(entries, state, page_size, SearchDirection::Next);
        },
        KeyCode::Backspace => {
            pop_char(&mut state.search_query);
            state.search_wrapped = false;
            jump_to_search_match(entries, state, page_size, SearchDirection::CurrentOrNext);
        },
        KeyCode::Char(ch) => {
            push_char(&mut state.search_query, ch);
            state.search_wrapped = false;
            jump_to_search_match(entries, state, page_size, SearchDirection::CurrentOrNext);
        },
        _ => {},
    }
    KeyAction::Continue
}

pub fn handle_help_key(key: KeyEvent, state: &mut ViewState) -> (action: KeyAction)
    ensures
        final(state)@ == help_key_view(old(state)@, key.code),
        action == KeyAction::Continue,
{
    match key.code {
        KeyCode::Esc | KeyCode::Char('q') | KeyCode::Char('?') => {
            state.help_visible = false;
        },
        _ => {},
    }
    KeyAction::Continue
}

pub fn handle_values_key(key: KeyEvent, entries: &VecDeque<LogEntry>, state: &mut ViewState) -> (action: KeyAction)
    ensures
        final(state)@ == values_key_view(entries@, old(state)@, key.code),
        action == values_key_action(key.code),
{
    state.sync_values_selection(entries);
    match key.code {
        KeyCode::Esc => {
            state.close_values_pane();
        },
        KeyCode::Char('v') => {
            state.toggle_values_sidebar(entries);
        },
        KeyCode::Char('V') => {
            state.toggle_values_fullscreen(entries);
        },
        KeyCode::Char('/') => {
            state.start_search();
        },
        KeyCode::Up => state.move_values_selection(entries, -1),
        KeyCode::Down => state.move_values_selection(entries, 1),
        KeyCode::Left => {
            state.values.x_offset = state.values.x_offset.saturating_sub(PANE_SCROLL_STEP);
        },
        KeyCode::Right => {
            state.values.x_offset = state.values.x_offset.saturating_add(PANE_SCROLL_STEP);
        },
        KeyCode::Char('y') => return KeyAction::CopySelected,
        _ => {},
    }
    KeyAction::Continue
}

pub fn handle_normal_key(
    key: KeyEvent,
    entries: &VecDeque<LogEntry>,
    state: &mut ViewState,
    process_exited: bool,
    page_size: usize,
) -> (action: KeyAction)
    requires
        page_size <= isize::MAX,
    ensures
        final(state)@ == normal_key_view(entries@, old(state)@, key.code, page_size),
        action == normal_key_action(old(state)@, key.code, process_exited),
{
    let visible = visible_indices(entries, state);
    let page_step: usize = if page_size <= 2 {
        1
    } else {
        page_size - 1
    };
    if state.values.mode != ValuesPaneMode::Closed {
        return handle_values_key(key, entries, state);
    }
    match key.code {
        KeyCode::Char('?') => {
            state.help_visible = !state.help_visible;
        },
        KeyCode::Char('/') => {
            state.start_search();
        },
        KeyCode::Char('n') => {
            jump_to_search_match(entries, state, page_size, SearchDirection::Next);
        },
        KeyCode::Char('b') => {
            jump_to_search_match(entries, state, page_size, SearchDirection::Previous);
        },
        KeyCode::Char('s') => {
            state.show_spans = !state.show_spans;
        },
        KeyCode::Char('r') => {
            state.show_raw = !state.show_raw;
        },
        KeyCode::Char('1') => {
            state.set_level_filter(entries, LevelFilter::All, page_size);
        },
        KeyCode::Char('2') => {
            state.set_level_filter(entries, LevelFilter::AtLeast(Level::Debug), page_size);
        },
        KeyCode::Char('3') => {
            state.set_level_filter(entries, LevelFilter::AtLeast(Level::Info), page_size);
        },
        KeyCode::Char('4') => {
            state.set_level_filter(entries, LevelFilter::AtLeast(Level::Warn), page_size);
        },
        KeyCode::Char('5') => {
            state.set_level_filter(entries, LevelFilter::AtLeast(Level::Error), page_size);
        },
        KeyCode::Char('v') => {
            state.toggle_values_sidebar(entries);
        },
        KeyCode::Char('V') => {
            state.toggle_values_fullscreen(entries);
        },
        KeyCode::Char('f') => {
            state.toggle_focus(entries, page_size);
        },
        KeyCode::Char('y') => return KeyAction::CopySelected,
        KeyCode::Esc => {
            if !state.search_query.as_str().is_empty() {
                state.clear_search();
            }
        },
        KeyCode::Char('q') => {
            if process_exited {
                return KeyAction::Quit;
            }
        },
        KeyCode::Left => {
            state.x_offset = state.x_offset.saturating_sub(HORIZONTAL_SCROLL_STEP);
        },
        KeyCode::Right => {
            state.x_offset = state.x_offset.saturating_add(HORIZONTAL_SCROLL_STEP);
        },
        KeyCode::Home => state.move_selected_to(visible.as_slice(), 0, page_size),
        KeyCode::End => state.move_selected_to(visible.as_slice(), visible.len().saturating_sub(1), page_size),
        KeyCode::Up => state.move_selected_by(visible.as_slice(), -1, page_size),
        KeyCode::Down => state.move_selected_by(visible.as_slice(), 1, page_size),
        KeyCode::PageUp => state.move_selected_by(visible.as_slice(), -(page_step as isize), page_size),
        KeyCode::PageDown => state.move_selected_by(visible.as_slice(), page_step as isize, page_size),
        _ => {},
    }
    KeyAction::Continue
}

/// A key press without modifiers.
pub open spec fn plain(code: KeyCode) -> KeyEvent {
    KeyEvent { code: code, control: false }
}

/// Law: in the normal mode `s`, `r` and `?` are toggles: pressing one of
/// them twice gives back the view it started from.
pub proof fn lemma_toggle_keys_involutive(entries: Seq<LogEntry>, st: ViewModel, process_exited: bool, page_size: usize)
    requires
        !st.search_editing,
        !st.help_visible,
        st.values.mode == ValuesPaneMode::Closed,
    ensures
        key_view(entries, key_view(entries, st, plain(KeyCode::Char('s')), process_exited, page_size), plain(KeyCode::Char('s')), process_exited, page_size) == st,
        key_view(entries, key_view(entries, st, plain(KeyCode::Char('r')), process_exited, page_size), plain(KeyCode::Char('r')), process_exited, page_size) == st,
        key_view(entries, key_view(entries, st, plain(KeyCode::Char('?')), process_exited, page_size), plain(KeyCode::Char('?')), process_exited, page_size) == st,
{
}

/// Law: while the help page is open, every key but Esc, `q`, `?` and
/// Control-C leaves the view as it is and asks for nothing.
pub proof fn lemma_help_page_ignores_keys(entries: Seq<LogEntry>, st: ViewModel, key: KeyEvent, process_exited: bool, page_size: usize)
    requires
        st.help_visible,
        !st.search_editing,
        !is_interrupt(key),
        key.code != KeyCode::Esc,
        key.code != KeyCode::Char('q'),
        key.code != KeyCode::Char('?'),
    ensures
        key_view(entries, st, key, process_exited, page_size) == st,
        key_action(st, key, process_exited) == KeyAction::Continue,
{
}

/// Law: Control-C kills the process and exits in every mode, and changes
/// nothing on the way.
pub proof fn lemma_interrupt_quits(entries: Seq<LogEntry>, st: ViewModel, process_exited: bool, page_size: usize)
    ensures
        key_view(entries, st, KeyEvent { code: KeyCode::Char('c'), control: true }, process_exited, page_size) == st,
        key_action(st, KeyEvent { code: KeyCode::Char('c'), control: true }, process_exited) == KeyAction::KillAndExit,
{
}

/// Law: `q` quits only once the process has ended.
pub proof fn lemma_quit_waits_for_process(st: ViewModel, process_exited: bool)
    requires
        !st.search_editing,
        !st.help_visible,
        st.values.mode == ValuesPaneMode::Closed,
    ensures
        key_action(st, plain(KeyCode::Char('q')), process_exited) == if process_exited {
            KeyAction::Quit
        } else {
            KeyAction::Continue
        },
{
}

/// Law: in the normal mode Right then Left gives back the view, as long as
/// the horizontal offset does not hit its upper limit.
pub proof fn lemma_horizontal_scroll_round_trip(entries: Seq<LogEntry>, st: ViewModel, process_exited: bool, page_size: usize)
    requires
        !st.search_editing,
        !st.help_visible,
        st.values.mode == ValuesPaneMode::Closed,
        st.x_offset + 16 <= usize::MAX,
    ensures
        key_view(entries, key_view(entries, st, plain(KeyCode::Right), process_exited, page_size), plain(KeyCode::Left), process_exited, page_size) == st,
{
}

/// Law: Esc clears the search, both while it is typed and once it is set.
pub proof fn lemma_escape_clears_search(entries: Seq<LogEntry>, st: ViewModel, process_exited: bool, page_size: usize)
    requires
        st.search_editing || (!st.help_visible && st.values.mode == ValuesPaneMode::Closed && st.search_query.len() > 0),
    ensures
        key_view(entries, st, plain(KeyCode::Esc), process_exited, page_size).search_query.len() == 0,
        !key_view(entries, st, plain(KeyCode::Esc), process_exited, page_size).search_editing,
{
}

/// Law: `f` clears a set focus, and otherwise focuses on the selected
/// entry's target.
pub proof fn lemma_focus_key(entries: Seq<LogEntry>, st: ViewModel, process_exited: bool, page_size: usize)
    requires
        !st.search_editing,
        !st.help_visible,
        st.values.mode == ValuesPaneMode::Closed,
    ensures
        key_view(entries, st, plain(KeyCode::Char('f')), process_exited, page_size).focus_target == toggled_focus(entries, st),
        st.focus_target is Some ==> key_view(entries, st, plain(KeyCode::Char('f')), process_exited, page_size).focus_target is None,
{
}

} // verus!
