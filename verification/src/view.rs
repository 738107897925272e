//! The view state of the log viewer and the rules that move it: filtering,
//! selection, scrolling, searching and the tracing values pane.

use vstd::prelude::*;
use crate::model::{Level, LogEntry, level_severity, field_count, value_field_count};
use std::collections::VecDeque;
use crate::text::{seq_contains, str_contains};

verus! {

/// Which entries the level filter lets through.
#[derive(Clone, Copy, Debug, PartialEq, Eq, Structural)]
pub enum LevelFilter {
    All,
    AtLeast(Level),
}

/// How the tracing values pane is shown.
#[derive(Clone, Copy, Debug, PartialEq, Eq, Structural)]
pub enum ValuesPaneMode {
    Closed,
    Sidebar,
    Fullscreen,
}

/// The state of the tracing values pane.
#[derive(Clone, Copy, Debug, PartialEq, Eq, Structural)]
pub struct ValuesPaneState {
    pub mode: ValuesPaneMode,
    pub selected: Option<usize>,
    pub x_offset: usize,
}

impl Default for ValuesPaneState {
    fn default() -> (s: Self)
        ensures
            s.mode == ValuesPaneMode::Closed,
            s.selected is None,
            s.x_offset == 0,
    {
        ValuesPaneState { mode: ValuesPaneMode::Closed, selected: None, x_offset: 0 }
    }
}

/// Everything the viewer remembers between keys.
#[derive(Debug)]
pub struct ViewState {
    pub x_offset: usize,
    pub first_visible: usize,
    pub selected: Option<usize>,
    pub help_visible: bool,
    pub values: ValuesPaneState,
    pub show_spans: bool,
    pub show_raw: bool,
    pub search_query: String,
    pub search_editing: bool,
    pub search_wrapped: bool,
    pub focus_target: Option<String>,
    pub level_filter: LevelFilter,
}

/// The view state with its texts as character sequences.
#[verifier::ext_equal]
pub struct ViewModel {
    pub x_offset: usize,
    pub first_visible: usize,
    pub selected: Option<usize>,
    pub help_visible: bool,
    pub values: ValuesPaneState,
    pub show_spans: bool,
    pub show_raw: bool,
    pub search_query: Seq<char>,
    pub search_editing: bool,
    pub search_wrapped: bool,
    pub focus_target: Option<Seq<char>>,
    pub level_filter: LevelFilter,
}

/// The character sequence inside an optional string.
pub open spec fn opt_view(s: Option<String>) -> Option<Seq<char>> {
    match s {
        Some(t) => Some(t@),
        None => None,
    }
}

impl View for ViewState {
    type V = ViewModel;

    open spec fn view(&self) -> ViewModel {
        ViewModel {
            x_offset: self.x_offset,
            first_visible: self.first_visible,
            selected: self.selected,
            help_visible: self.help_visible,
            values: self.values,
            show_spans: self.show_spans,
            show_raw: self.show_raw,
            search_query: self.search_query@,
            search_editing: self.search_editing,
            search_wrapped: self.search_wrapped,
            focus_target: opt_view(self.focus_target),
            level_filter: self.level_filter,
        }
    }
}

// ---------------------------------------------------------------------------
// Filtering

/// The level filter admits `level`.
pub open spec fn filter_includes(filter: LevelFilter, level: Level) -> bool {
    match filter {
        LevelFilter::All => true,
        LevelFilter::AtLeast(minimum) => level_severity(level) >= level_severity(minimum),
    }
}

/// The entry passes the level filter and, when a focus target is set, has that target.
pub open spec fn entry_shown(entry: LogEntry, filter: LevelFilter, focus: Option<Seq<char>>) -> bool {
    &&& filter_includes(filter, entry.level)
    &&& match focus {
        None => true,
        Some(target) => entry.target is Some && entry.target->0@ == target,
    }
}

/// The indices below `n` of the entries that are shown, in increasing order.
pub open spec fn shown_upto(
    entries: Seq<LogEntry>,
    filter: LevelFilter,
    focus: Option<Seq<char>>,
    n: nat,
) -> Seq<usize>
    decreases n,
{
    if n == 0 {
        Seq::empty()
    } else {
        let prev = shown_upto(entries, filter, focus, (n - 1) as nat);
        if entry_shown(entries[n - 1], filter, focus) {
            prev.push((n - 1) as usize)
        } else {
            prev
        }
    }
}

/// The indices of the entries the view shows, in increasing order.
pub open spec fn shown_indices(entries: Seq<LogEntry>, st: ViewModel) -> Seq<usize> {
    shown_upto(entries, st.level_filter, st.focus_target, entries.len())
}

/// The values of `s` strictly increase.
pub open spec fn strictly_increasing(s: Seq<usize>) -> bool {
    forall|i: int, j: int| 0 <= i < j < s.len() ==> s[i] < s[j]
}

/// What the shown indices below `n` are: increasing, below `n`, and exactly the shown entries.
pub proof fn lemma_shown_upto(
    entries: Seq<LogEntry>,
    filter: LevelFilter,
    focus: Option<Seq<char>>,
    n: nat,
)
    requires
        n <= entries.len(),
        entries.len() <= usize::MAX,
    ensures
        strictly_increasing(shown_upto(entries, filter, focus, n)),
        forall|k: int|
            0 <= k < shown_upto(entries, filter, focus, n).len() ==> #[trigger] shown_upto(
                entries,
                filter,
                focus,
                n,
            )[k] < n,
        forall|i: int|
            0 <= i < n ==> (shown_upto(entries, filter, focus, n).contains(i as usize)
                <==> entry_shown(entries[i], filter, focus)),
        shown_upto(entries, filter, focus, n).len() <= n,
    decreases n,
{
    if n > 0 {
        lemma_shown_upto(entries, filter, focus, (n - 1) as nat);
        let prev = shown_upto(entries, filter, focus, (n - 1) as nat);
        let cur = shown_upto(entries, filter, focus, n);
        assert forall|i: int| 0 <= i < n implies (cur.contains(i as usize) <==> entry_shown(
            entries[i],
            filter,
            focus,
        )) by {
            if i < n - 1 {
                if cur.contains(i as usize) {
                    let k = choose|k: int| 0 <= k < cur.len() && cur[k] == i as usize;
                    if k < prev.len() {
                        assert(prev.contains(i as usize));
                    }
                }
                if prev.contains(i as usize) {
                    let k = choose|k: int| 0 <= k < prev.len() && prev[k] == i as usize;
                    assert(cur[k] == i as usize);
                }
            } else {
                if entry_shown(entries[n - 1], filter, focus) {
                    assert(cur[cur.len() - 1] == i as usize);
                } else {
                    if cur.contains(i as usize) {
                        let k = choose|k: int| 0 <= k < cur.len() && cur[k] == i as usize;
                        assert(prev[k] < n - 1);
                    }
                }
            }
        }
    }
}

/// The shown indices are increasing, in range and exactly those of the shown entries.
pub proof fn lemma_shown_indices(entries: Seq<LogEntry>, st: ViewModel)
    requires
        entries.len() <= usize::MAX,
    ensures
        strictly_increasing(shown_indices(entries, st)),
        forall|k: int|
            0 <= k < shown_indices(entries, st).len() ==> #[trigger] shown_indices(entries, st)[k]
                < entries.len(),
        forall|i: int|
            0 <= i < entries.len() ==> (shown_indices(entries, st).contains(i as usize)
                <==> entry_shown(entries[i], st.level_filter, st.focus_target)),
        shown_indices(entries, st).len() <= entries.len(),
{
    lemma_shown_upto(entries, st.level_filter, st.focus_target, entries.len());
}

impl LevelFilter {
    pub fn includes(self, level: Level) -> (r: bool)
        ensures
            r == filter_includes(self, level),
    {
        match self {
            LevelFilter::All => true,
            LevelFilter::AtLeast(minimum) => level.severity() >= minimum.severity(),
        }
    }
}

/// Whether the view shows `entry`.
pub fn entry_visible(entry: &LogEntry, state: &ViewState) -> (r: bool)
    ensures
        r == entry_shown(*entry, state.level_filter, state@.focus_target),
{
    if !state.level_filter.includes(entry.level) {
        return false;
    }
    match &state.focus_target {
        None => true,
        Some(target) => match &entry.target {
            Some(t) => t.eq(target),
            None => false,
        },
    }
}

/// The indices of the entries the view shows, in increasing order.
pub fn visible_indices(entries: &VecDeque<LogEntry>, state: &ViewState) -> (v: Vec<usize>)
    ensures
        v@ == shown_indices(entries@, state@),
{
    let mut v: Vec<usize> = Vec::new();
    let n = entries.len();
    let mut i: usize = 0;
    while i < n
        invariant
            n == entries@.len(),
            i <= n,
            v@ == shown_upto(entries@, state.level_filter, state@.focus_target, i as nat),
        decreases n - i,
    {
        if entry_visible(&entries[i], state) {
            v.push(i);
        }
        i = i + 1;
    }
    v
}

} // verus!

verus! {

// ---------------------------------------------------------------------------
// Positions in index lists

/// The first position of `x` in `s`.
pub open spec fn position_of(s: Seq<usize>, x: usize) -> Option<int> {
    if exists|i: int| 0 <= i < s.len() && s[i] == x {
        Some(
            choose|i: int|
                0 <= i < s.len() && s[i] == x && forall|j: int| 0 <= j < i ==> s[j] != x,
        )
    } else {
        None
    }
}

/// The first position in `s` holding a value of at least `x`.
pub open spec fn position_at_least(s: Seq<usize>, x: usize) -> Option<int> {
    if exists|i: int| 0 <= i < s.len() && s[i] >= x {
        Some(
            choose|i: int|
                0 <= i < s.len() && s[i] >= x && forall|j: int| 0 <= j < i ==> s[j] < x,
        )
    } else {
        None
    }
}

/// The last element of `s`.
pub open spec fn last_of(s: Seq<usize>) -> Option<usize> {
    if s.len() == 0 {
        None
    } else {
        Some(s.last())
    }
}

/// The position of `x` in `s`, found by scanning from the front.
pub fn find_position(s: &[usize], x: usize) -> (r: Option<usize>)
    ensures
        match r {
            Some(p) => position_of(s@, x) == Some(p as int),
            None => position_of(s@, x) is None,
        },
{
    let mut i: usize = 0;
    while i < s.len()
        invariant
            i <= s@.len(),
            forall|j: int| 0 <= j < i ==> s@[j] != x,
        decreases s@.len() - i,
    {
        if s[i] == x {
            proof {
                assert(0 <= i < s@.len() && s@[i as int] == x);
                let c = choose|c: int|
                    0 <= c < s@.len() && s@[c] == x && forall|j: int| 0 <= j < c ==> s@[j] != x;
                assert(c == i as int);
            }
            return Some(i);
        }
        i = i + 1;
    }
    None
}

/// The first position in `s` holding a value of at least `x`, found by scanning.
pub fn find_position_at_least(s: &[usize], x: usize) -> (r: Option<usize>)
    ensures
        match r {
            Some(p) => position_at_least(s@, x) == Some(p as int),
            None => position_at_least(s@, x) is None,
        },
{
    let mut i: usize = 0;
    while i < s.len()
        invariant
            i <= s@.len(),
            forall|j: int| 0 <= j < i ==> s@[j] < x,
        decreases s@.len() - i,
    {
        if s[i] >= x {
            proof {
                assert(0 <= i < s@.len() && s@[i as int] >= x);
                let c = choose|c: int|
                    0 <= c < s@.len() && s@[c] >= x && forall|j: int| 0 <= j < c ==> s@[j] < x;
                assert(c == i as int);
            }
            return Some(i);
        }
        i = i + 1;
    }
    None
}

/// In a strictly increasing list, the position of the element at `p` is `p`.
pub proof fn lemma_position_of_increasing(s: Seq<usize>, p: int)
    requires
        strictly_increasing(s),
        0 <= p < s.len(),
    ensures
        position_of(s, s[p]) == Some(p),
{
    let c = choose|c: int|
        0 <= c < s.len() && s[c] == s[p] && forall|j: int| 0 <= j < c ==> s[j] != s[p];
    assert(0 <= p < s.len() && s[p] == s[p]);
    assert(c == p);
}

/// A found position holds the value searched for.
pub proof fn lemma_position_of_found(s: Seq<usize>, x: usize)
    requires
        position_of(s, x) is Some,
    ensures
        0 <= position_of(s, x)->0 < s.len(),
        s[position_of(s, x)->0] == x,
        forall|j: int| 0 <= j < position_of(s, x)->0 ==> s[j] != x,
{
    let i = choose|i: int| 0 <= i < s.len() && s[i] == x;
    lemma_minimal_position_exists(s, x, i);
}

pub(crate) proof fn lemma_minimal_position_exists(s: Seq<usize>, x: usize, i: int)
    requires
        0 <= i < s.len(),
        s[i] == x,
    ensures
        exists|c: int| 0 <= c < s.len() && s[c] == x && forall|j: int| 0 <= j < c ==> s[j] != x,
    decreases i,
{
    if exists|j: int| 0 <= j < i && s[j] == x {
        let j = choose|j: int| 0 <= j < i && s[j] == x;
        lemma_minimal_position_exists(s, x, j);
    } else {
        assert(forall|j: int| 0 <= j < i ==> s[j] != x);
    }
}

/// A found position holds a value of at least the bound searched for.
pub proof fn lemma_position_at_least_found(s: Seq<usize>, x: usize)
    requires
        position_at_least(s, x) is Some,
    ensures
        0 <= position_at_least(s, x)->0 < s.len(),
        s[position_at_least(s, x)->0] >= x,
{
    let i = choose|i: int| 0 <= i < s.len() && s[i] >= x;
    lemma_minimal_at_least_exists(s, x, i);
}

proof fn lemma_minimal_at_least_exists(s: Seq<usize>, x: usize, i: int)
    requires
        0 <= i < s.len(),
        s[i] >= x,
    ensures
        exists|c: int| 0 <= c < s.len() && s[c] >= x && forall|j: int| 0 <= j < c ==> s[j] < x,
    decreases i,
{
    if exists|j: int| 0 <= j < i && s[j] >= x {
        let j = choose|j: int| 0 <= j < i && s[j] >= x;
        lemma_minimal_at_least_exists(s, x, j);
    } else {
        assert(forall|j: int| 0 <= j < i ==> s[j] < x);
    }
}

// ---------------------------------------------------------------------------
// Scrolling

/// The page size used for scrolling: at least one row.
pub open spec fn effective_page(page_size: usize) -> int {
    if page_size == 0 {
        1
    } else {
        page_size as int
    }
}

/// The position in `visible` the viewport started from before scrolling:
/// that of `first_visible`, else of the first later entry, else the last one.
pub open spec fn start_position(visible: Seq<usize>, first_visible: usize) -> int {
    match position_of(visible, first_visible) {
        Some(p) => p,
        None => match position_at_least(visible, first_visible) {
            Some(p) => p,
            None => visible.len() - 1,
        },
    }
}

/// The position of the first row after moving the viewport just enough to
/// show the entry at position `sp`.
pub open spec fn scrolled_first_position(visible: Seq<usize>, first_visible: usize, sp: int, page_size: usize) -> int {
    let page = effective_page(page_size);
    let start = start_position(visible, first_visible);
    let max_first = if visible.len() >= page {
        visible.len() - page
    } else {
        0
    };
    let clamped = if start < max_first {
        start
    } else {
        max_first
    };
    if sp < clamped {
        sp
    } else if sp >= clamped + page {
        sp + 1 - page
    } else {
        clamped
    }
}

/// First visible entry and selection after bringing the selection into view:
/// no selection scrolls to the top; a selection that is not shown moves to
/// the last shown entry with the viewport at the first one.
pub open spec fn scroll_into_slice(
    visible: Seq<usize>,
    first_visible: usize,
    selected: Option<usize>,
    page_size: usize,
) -> (usize, Option<usize>) {
    match selected {
        None => (0, None),
        Some(sel) => match position_of(visible, sel) {
            None => (
                if visible.len() == 0 {
                    0
                } else {
                    visible[0]
                },
                last_of(visible),
            ),
            Some(sp) => (visible[scrolled_first_position(visible, first_visible, sp, page_size)], selected),
        },
    }
}

/// The state with a new first visible entry and selection.
pub open spec fn with_scroll(st: ViewModel, r: (usize, Option<usize>)) -> ViewModel {
    ViewModel { first_visible: r.0, selected: r.1, ..st }
}

/// The selection is shown, and lies on the page that starts at the first visible entry.
pub open spec fn selection_on_screen(visible: Seq<usize>, first_visible: usize, selected: Option<usize>, page_size: usize) -> bool {
    match selected {
        None => false,
        Some(sel) => {
            &&& position_of(visible, sel) is Some
            &&& position_of(visible, first_visible) is Some
            &&& position_of(visible, first_visible)->0 <= position_of(visible, sel)->0
            &&& position_of(visible, sel)->0 < position_of(visible, first_visible)->0 + effective_page(page_size)
        },
    }
}

/// The scrolled-to first position lies in range and keeps position `sp` on its page.
proof fn lemma_scrolled_first_position(visible: Seq<usize>, first_visible: usize, sp: int, page_size: usize)
    requires
        0 <= sp < visible.len(),
    ensures
        0 <= scrolled_first_position(visible, first_visible, sp, page_size) <= sp,
        sp < scrolled_first_position(visible, first_visible, sp, page_size) + effective_page(page_size),
{
    let start = start_position(visible, first_visible);
    if let Some(p) = position_of(visible, first_visible) {
        lemma_position_of_found(visible, first_visible);
    } else if let Some(p) = position_at_least(visible, first_visible) {
        lemma_position_at_least_found(visible, first_visible);
    }
    assert(0 <= start < visible.len());
}

/// Law: when the selected entry is shown, bringing the selection into view
/// keeps it selected and places it on the visible page.
pub proof fn lemma_scroll_shows_selection(
    visible: Seq<usize>,
    first_visible: usize,
    selected: Option<usize>,
    page_size: usize,
)
    requires
        strictly_increasing(visible),
        selected is Some,
        position_of(visible, selected->0) is Some,
    ensures
        scroll_into_slice(visible, first_visible, selected, page_size).1 == selected,
        selection_on_screen(
            visible,
            scroll_into_slice(visible, first_visible, selected, page_size).0,
            scroll_into_slice(visible, first_visible, selected, page_size).1,
            page_size,
        ),
{
    let sel = selected->0;
    match position_of(visible, sel) {
        None => {},
        Some(sp) => {
            lemma_position_of_found(visible, sel);
            lemma_scrolled_first_position(visible, first_visible, sp, page_size);
            let f = scrolled_first_position(visible, first_visible, sp, page_size);
            lemma_position_of_increasing(visible, f);
            lemma_position_of_increasing(visible, sp);
        },
    }
}

impl ViewState {
    /// Moves the viewport, and the selection when it is not shown, so that the
    /// selection is on screen.
    pub fn scroll_selected_into_visible_slice(&mut self, visible: &[usize], page_size: usize)
        ensures
            final(self)@ == with_scroll(
                old(self)@,
                scroll_into_slice(visible@, old(self).first_visible, old(self).selected, page_size),
            ),
    {
        let selected = match self.selected {
            None => {
                self.first_visible = 0;
                return;
            },
            Some(s) => s,
        };
        let selected_pos = match find_position(visible, selected) {
            None => {
                self.first_visible = if visible.len() > 0 {
                    visible[0]
                } else {
                    0
                };
                self.selected = if visible.len() > 0 {
                    Some(visible[visible.len() - 1])
                } else {
                    None
                };
                return;
            },
            Some(p) => p,
        };
        proof {
            lemma_position_of_found(visible@, selected);
        }
        let page_size_eff = if page_size == 0 {
            1
        } else {
            page_size
        };
        let first_pos = match find_position(visible, self.first_visible) {
            Some(p) => p,
            None => match find_position_at_least(visible, self.first_visible) {
                Some(p) => p,
                None => visible.len() - 1,
            },
        };
        let max_first_pos = visible.len().saturating_sub(page_size_eff);
        let mut first_pos = if first_pos < max_first_pos {
            first_pos
        } else {
            max_first_pos
        };
        if selected_pos < first_pos {
            first_pos = selected_pos;
        } else if selected_pos >= first_pos.saturating_add(page_size_eff) {
            first_pos = (selected_pos + 1).saturating_sub(page_size_eff);
        }
        proof {
            lemma_scrolled_first_position(visible@, old(self).first_visible, selected_pos as int, page_size);
        }
        self.first_visible = visible[first_pos];
    }
}

} // verus!

verus! {

// ---------------------------------------------------------------------------
// State transitions

/// The state a fresh viewer starts in: nothing selected, spans shown.
pub open spec fn initial_view() -> ViewModel {
    ViewModel {
        x_offset: 0,
        first_visible: 0,
        selected: None,
        help_visible: false,
        values: ValuesPaneState { mode: ValuesPaneMode::Closed, selected: None, x_offset: 0 },
        show_spans: true,
        show_raw: false,
        search_query: Seq::empty(),
        search_editing: false,
        search_wrapped: false,
        focus_target: None,
        level_filter: LevelFilter::All,
    }
}

/// The state after bringing the selection into view among the shown entries.
pub open spec fn scroll_view(entries: Seq<LogEntry>, st: ViewModel, page_size: usize) -> ViewModel {
    with_scroll(
        st,
        scroll_into_slice(shown_indices(entries, st), st.first_visible, st.selected, page_size),
    )
}

/// The state after selecting the last shown entry and scrolling to it.
pub open spec fn follow_latest_view(entries: Seq<LogEntry>, st: ViewModel, page_size: usize) -> ViewModel {
    scroll_view(entries, ViewModel { selected: last_of(shown_indices(entries, st)), ..st }, page_size)
}

/// The state after the oldest entry was dropped: every index moves down by one.
pub open spec fn remove_first_line_view(st: ViewModel) -> ViewModel {
    ViewModel {
        first_visible: if st.first_visible > 0 {
            (st.first_visible - 1) as usize
        } else {
            0
        },
        selected: match st.selected {
            Some(s) => Some(
                if s > 0 {
                    (s - 1) as usize
                } else {
                    0
                },
            ),
            None => None,
        },
        ..st
    }
}

/// The state with no search.
pub open spec fn clear_search_view(st: ViewModel) -> ViewModel {
    ViewModel { search_query: Seq::empty(), search_editing: false, search_wrapped: false, ..st }
}

/// The state with a new level filter, scrolled to the selection.
pub open spec fn set_level_filter_view(
    entries: Seq<LogEntry>,
    st: ViewModel,
    filter: LevelFilter,
    page_size: usize,
) -> ViewModel {
    scroll_view(entries, ViewModel { level_filter: filter, search_wrapped: false, ..st }, page_size)
}

/// The focus after toggling it: cleared when set, else the selected entry's target.
pub open spec fn toggled_focus(entries: Seq<LogEntry>, st: ViewModel) -> Option<Seq<char>> {
    if st.focus_target is Some {
        None
    } else {
        match st.selected {
            Some(i) => if i < entries.len() {
                opt_view(entries[i as int].target)
            } else {
                None
            },
            None => None,
        }
    }
}

/// The state after toggling the focus, scrolled to the selection.
pub open spec fn toggle_focus_view(entries: Seq<LogEntry>, st: ViewModel, page_size: usize) -> ViewModel {
    scroll_view(entries, ViewModel { focus_target: toggled_focus(entries, st), ..st }, page_size)
}

/// The state with the values pane closed and reset.
pub open spec fn close_values_view(st: ViewModel) -> ViewModel {
    ViewModel {
        values: ValuesPaneState { mode: ValuesPaneMode::Closed, selected: None, x_offset: 0 },
        ..st
    }
}

/// The state after starting to edit the search.
pub open spec fn start_search_view(st: ViewModel) -> ViewModel {
    ViewModel { search_editing: true, search_wrapped: false, ..close_values_view(st) }
}

/// The entry whose values the pane shows: the selected one when shown, else the last shown.
pub open spec fn values_entry(entries: Seq<LogEntry>, st: ViewModel) -> Option<usize> {
    let visible = shown_indices(entries, st);
    match st.selected {
        Some(s) => if visible.contains(s) {
            Some(s)
        } else {
            last_of(visible)
        },
        None => last_of(visible),
    }
}

/// The number of values of the entry the pane shows.
pub open spec fn selected_values_count(entries: Seq<LogEntry>, st: ViewModel) -> usize {
    match values_entry(entries, st) {
        Some(i) => if i < entries.len() {
            field_count(entries[i as int].values@)
        } else {
            0
        },
        None => 0,
    }
}

/// The state with the value selection clamped to the values present.
pub open spec fn sync_values_view(entries: Seq<LogEntry>, st: ViewModel) -> ViewModel {
    let count = selected_values_count(entries, st);
    ViewModel {
        values: ValuesPaneState {
            selected: if count == 0 {
                None
            } else {
                match st.values.selected {
                    Some(s) => Some(
                        if s < count - 1 {
                            s
                        } else {
                            (count - 1) as usize
                        },
                    ),
                    None => Some(0usize),
                }
            },
            ..st.values
        },
        ..st
    }
}

/// The state with the values pane opened in `mode`.
pub open spec fn open_values_view(entries: Seq<LogEntry>, st: ViewModel, mode: ValuesPaneMode) -> ViewModel {
    let cleared = clear_search_view(st);
    sync_values_view(
        entries,
        ViewModel { values: ValuesPaneState { mode: mode, ..cleared.values }, ..cleared },
    )
}

/// The state after toggling the values pane in `mode`: closed when shown so, opened otherwise.
pub open spec fn toggle_values_view(entries: Seq<LogEntry>, st: ViewModel, mode: ValuesPaneMode) -> ViewModel {
    if st.values.mode == mode {
        close_values_view(st)
    } else {
        open_values_view(entries, st, mode)
    }
}

/// `x` moved by `delta`, stopping at zero below and at `max` above.
pub open spec fn moved_by(x: usize, delta: int, max: int) -> int {
    if delta < 0 {
        if x + delta < 0 {
            0
        } else {
            x + delta
        }
    } else {
        let up = if x + delta > usize::MAX {
            usize::MAX as int
        } else {
            x + delta
        };
        if up < max {
            up
        } else {
            max
        }
    }
}

/// The state after moving the value selection by `delta`.
pub open spec fn move_values_view(entries: Seq<LogEntry>, st: ViewModel, delta: int) -> ViewModel {
    let count = selected_values_count(entries, st);
    ViewModel {
        values: ValuesPaneState {
            selected: if count == 0 {
                None
            } else {
                Some(
                    moved_by(
                        match st.values.selected {
                            Some(s) => s,
                            None => 0,
                        },
                        delta,
                        count - 1,
                    ) as usize,
                )
            },
            ..st.values
        },
        ..st
    }
}

/// The state after selecting the shown entry at position `pos` of `visible`.
pub open spec fn move_selected_to_view(st: ViewModel, visible: Seq<usize>, pos: int, page_size: usize) -> ViewModel {
    let selected = if 0 <= pos < visible.len() {
        Some(visible[pos])
    } else {
        None
    };
    with_scroll(
        ViewModel { selected: selected, ..st },
        scroll_into_slice(visible, st.first_visible, selected, page_size),
    )
}

/// The position of the selection among the shown entries; the last one when
/// nothing shown is selected.
pub open spec fn selected_position(visible: Seq<usize>, selected: Option<usize>) -> Option<int> {
    let found = match selected {
        Some(s) => position_of(visible, s),
        None => None,
    };
    match found {
        Some(p) => Some(p),
        None => if visible.len() > 0 {
            Some(visible.len() - 1)
        } else {
            None
        },
    }
}

/// The state after moving the selection by `delta` shown entries.
pub open spec fn move_selected_by_view(st: ViewModel, visible: Seq<usize>, delta: int, page_size: usize) -> ViewModel {
    match selected_position(visible, st.selected) {
        None => st,
        Some(p) => move_selected_to_view(
            st,
            visible,
            moved_by(p as usize, delta, if visible.len() > 0 { visible.len() - 1 } else { 0 }),
            page_size,
        ),
    }
}

/// The magnitude of a signed step.
pub fn step_magnitude(delta: isize) -> (m: usize)
    ensures
        m as int == if delta < 0 { -delta } else { delta as int },
{
    if delta < 0 {
        let wide: i128 = delta as i128;
        (-wide) as usize
    } else {
        delta as usize
    }
}

/// `x` moved by `delta`, stopping at zero below and at `max` above.
pub fn move_index(x: usize, delta: isize, max: usize) -> (r: usize)
    ensures
        r as int == moved_by(x, delta as int, max as int),
{
    let m = step_magnitude(delta);
    if delta < 0 {
        x.saturating_sub(m)
    } else {
        let up = x.saturating_add(m);
        if up < max {
            up
        } else {
            max
        }
    }
}

/// The position of the selection among the shown entries; the last one when
/// nothing shown is selected.
pub fn selected_visible_pos(visible: &[usize], selected: Option<usize>) -> (r: Option<usize>)
    ensures
        match r {
            Some(p) => selected_position(visible@, selected) == Some(p as int),
            None => selected_position(visible@, selected) is None,
        },
{
    let found = match selected {
        Some(s) => find_position(visible, s),
        None => None,
    };
    match found {
        Some(p) => Some(p),
        None => if visible.len() > 0 {
            Some(visible.len() - 1)
        } else {
            None
        },
    }
}

/// The entry whose values the pane shows: the selected one when shown, else the last shown.
pub fn selected_entry_for_values(entries: &VecDeque<LogEntry>, state: &ViewState) -> (r: Option<usize>)
    ensures
        r == values_entry(entries@, state@),
        r matches Some(i) ==> i < entries@.len(),
{
    let visible = visible_indices(entries, state);
    let n = entries.len();
    proof {
        lemma_shown_indices(entries@, state@);
    }
    let found = match state.selected {
        Some(s) => find_position(visible.as_slice(), s),
        None => None,
    };
    let chosen = match found {
        Some(p) => Some(visible[p]),
        None => if visible.len() > 0 {
            Some(visible[visible.len() - 1])
        } else {
            None
        },
    };
    proof {
        let vs = visible@;
        match state.selected {
            Some(s) => {
                if vs.contains(s) {
                    let k = choose|k: int| 0 <= k < vs.len() && vs[k] == s;
                    lemma_minimal_position_exists(vs, s, k);
                    lemma_position_of_found(vs, s);
                } else {
                    if position_of(vs, s) is Some {
                        lemma_position_of_found(vs, s);
                    }
                }
            },
            None => {},
        }
        if chosen is Some {
            if vs.len() > 0 {
                assert(vs[vs.len() - 1] < entries@.len());
            }
        }
    }
    chosen
}

/// The number of values of the entry the values pane shows.
pub fn selected_values_len(entries: &VecDeque<LogEntry>, state: &ViewState) -> (n: usize)
    ensures
        n == selected_values_count(entries@, state@),
{
    match selected_entry_for_values(entries, state) {
        Some(i) => value_field_count(&entries[i]),
        None => 0,
    }
}

impl ViewState {
    /// A fresh view: nothing selected, spans shown, no filter or search.
    pub fn new() -> (s: Self)
        ensures
            s@ == initial_view(),
    {
        ViewState {
            x_offset: 0,
            first_visible: 0,
            selected: None,
            help_visible: false,
            values: ValuesPaneState { mode: ValuesPaneMode::Closed, selected: None, x_offset: 0 },
            show_spans: true,
            show_raw: false,
            search_query: String::new(),
            search_editing: false,
            search_wrapped: false,
            focus_target: None,
            level_filter: LevelFilter::All,
        }
    }

    pub fn scroll_selected_into_view(&mut self, entries: &VecDeque<LogEntry>, page_size: usize)
        ensures
            final(self)@ == scroll_view(entries@, old(self)@, page_size),
    {
        let visible = visible_indices(entries, self);
        self.scroll_selected_into_visible_slice(visible.as_slice(), page_size);
    }

    /// Selects the last shown entry and scrolls to it.
    pub fn follow_latest(&mut self, entries: &VecDeque<LogEntry>, page_size: usize)
        ensures
            final(self)@ == follow_latest_view(entries@, old(self)@, page_size),
    {
        let visible = visible_indices(entries, self);
        self.selected = if visible.len() > 0 {
            Some(visible[visible.len() - 1])
        } else {
            None
        };
        self.scroll_selected_into_view(entries, page_size);
    }

    /// Shifts the viewport and selection after the oldest entry was dropped.
    pub fn remove_first_line(&mut self)
        ensures
            final(self)@ == remove_first_line_view(old(self)@),
    {
        self.first_visible = self.first_visible.saturating_sub(1);
        self.selected = match self.selected {
            Some(s) => Some(s.saturating_sub(1)),
            None => None,
        };
    }

    pub fn clear_search(&mut self)
        ensures
            final(self)@ == clear_search_view(old(self)@),
    {
        self.search_query = String::new();
        self.search_editing = false;
        self.search_wrapped = false;
    }

    pub fn set_level_filter(&mut self, entries: &VecDeque<LogEntry>, filter: LevelFilter, page_size: usize)
        ensures
            final(self)@ == set_level_filter_view(entries@, old(self)@, filter, page_size),
    {
        self.level_filter = filter;
        self.search_wrapped = false;
        self.scroll_selected_into_view(entries, page_size);
    }

    /// Focuses the selected entry's target, or clears the focus when one is set.
    pub fn toggle_focus(&mut self, entries: &VecDeque<LogEntry>, page_size: usize)
        ensures
            final(self)@ == toggle_focus_view(entries@, old(self)@, page_size),
    {
        self.focus_target = if self.focus_target.is_some() {
            None
        } else {
            match self.selected {
                Some(i) => if i < entries.len() {
                    match &entries[i].target {
                        Some(t) => Some(t.clone()),
                        None => None,
                    }
                } else {
                    None
                },
                None => None,
            }
        };
        self.scroll_selected_into_view(entries, page_size);
    }

    pub fn start_search(&mut self)
        ensures
            final(self)@ == start_search_view(old(self)@),
    {
        self.close_values_pane();
        self.search_editing = true;
        self.search_wrapped = false;
    }

    pub fn open_values_sidebar(&mut self, entries: &VecDeque<LogEntry>)
        ensures
            final(self)@ == open_values_view(entries@, old(self)@, ValuesPaneMode::Sidebar),
    {
        self.clear_search();
        self.values.mode = ValuesPaneMode::Sidebar;
        self.sync_values_selection(entries);
    }

    pub fn open_values_fullscreen(&mut self, entries: &VecDeque<LogEntry>)
        ensures
            final(self)@ == open_values_view(entries@, old(self)@, ValuesPaneMode::Fullscreen),
    {
        self.clear_search();
        self.values.mode = ValuesPaneMode::Fullscreen;
        self.sync_values_selection(entries);
    }

    pub fn toggle_values_sidebar(&mut self, entries: &VecDeque<LogEntry>)
        ensures
            final(self)@ == toggle_values_view(entries@, old(self)@, ValuesPaneMode::Sidebar),
    {
        if self.values.mode == ValuesPaneMode::Sidebar {
            self.close_values_pane();
        } else {
            self.open_values_sidebar(entries);
        }
    }

    pub fn toggle_values_fullscreen(&mut self, entries: &VecDeque<LogEntry>)
        ensures
            final(self)@ == toggle_values_view(entries@, old(self)@, ValuesPaneMode::Fullscreen),
    {
        if self.values.mode == ValuesPaneMode::Fullscreen {
            self.close_values_pane();
        } else {
            self.open_values_fullscreen(entries);
        }
    }

    pub fn close_values_pane(&mut self)
        ensures
            final(self)@ == close_values_view(old(self)@),
    {
        self.values.mode = ValuesPaneMode::Closed;
        self.values.selected = None;
        self.values.x_offset = 0;
    }

    /// Clamps the value selection to the values of the entry the pane shows.
    pub fn sync_values_selection(&mut self, entries: &VecDeque<LogEntry>)
        ensures
            final(self)@ == sync_values_view(entries@, old(self)@),
    {
        let value_count = selected_values_len(entries, self);
        self.values.selected = if value_count == 0 {
            None
        } else {
            match self.values.selected {
                Some(s) => Some(
                    if s < value_count - 1 {
                        s
                    } else {
                        value_count - 1
                    },
                ),
                None => Some(0),
            }
        };
    }

    /// Moves the value selection by `delta`, staying within the values present.
    pub fn move_values_selection(&mut self, entries: &VecDeque<LogEntry>, delta: isize)
        ensures
            final(self)@ == move_values_view(entries@, old(self)@, delta as int),
    {
        let value_count = selected_values_len(entries, self);
        if value_count == 0 {
            self.values.selected = None;
            return;
        }
        let selected = match self.values.selected {
            Some(s) => s,
            None => 0,
        };
        self.values.selected = Some(move_index(selected, delta, value_count - 1));
    }

    /// Selects the shown entry at position `selected_visible` and scrolls to it.
    pub fn move_selected_to(&mut self, visible: &[usize], selected_visible: usize, page_size: usize)
        ensures
            final(self)@ == move_selected_to_view(old(self)@, visible@, selected_visible as int, page_size),
    {
        self.selected = if selected_visible < visible.len() {
            Some(visible[selected_visible])
        } else {
            None
        };
        self.scroll_selected_into_visible_slice(visible, page_size);
    }

    /// Moves the selection by `delta` shown entries and scrolls to it.
    pub fn move_selected_by(&mut self, visible: &[usize], delta: isize, page_size: usize)
        ensures
            final(self)@ == move_selected_by_view(old(self)@, visible@, delta as int, page_size),
    {
        let selected_pos = match selected_visible_pos(visible, self.selected) {
            Some(p) => p,
            None => return,
        };
        let target = move_index(selected_pos, delta, visible.len().saturating_sub(1));
        self.move_selected_to(visible, target, page_size);
    }
}

} // verus!

verus! {

// ---------------------------------------------------------------------------
// Search

/// The shown entries in `visible` whose raw line contains `query`, in order.
pub open spec fn matches_among(entries: Seq<LogEntry>, visible: Seq<usize>, query: Seq<char>) -> Seq<usize>
    decreases visible.len(),
{
    if visible.len() == 0 {
        Seq::empty()
    } else {
        let prev = matches_among(entries, visible.drop_last(), query);
        let i = visible.last();
        if i < entries.len() && seq_contains(entries[i as int].raw@, query) {
            prev.push(i)
        } else {
            prev
        }
    }
}

/// The shown entries whose raw line contains the search query; none without a query.
pub open spec fn search_matches(entries: Seq<LogEntry>, st: ViewModel) -> Seq<usize> {
    if st.search_query.len() == 0 {
        Seq::empty()
    } else {
        matches_among(entries, shown_indices(entries, st), st.search_query)
    }
}

/// The indices of the shown entries whose raw line contains the search query.
pub fn search_match_indices(entries: &VecDeque<LogEntry>, state: &ViewState) -> (m: Vec<usize>)
    ensures
        m@ == search_matches(entries@, state@),
{
    let mut m: Vec<usize> = Vec::new();
    if state.search_query.as_str().is_empty() {
        return m;
    }
    let visible = visible_indices(entries, state);
    let mut k: usize = 0;
    while k < visible.len()
        invariant
            k <= visible@.len(),
            visible@ == shown_indices(entries@, state@),
            m@ == matches_among(entries@, visible@.take(k as int), state.search_query@),
        decreases visible@.len() - k,
    {
        let i = visible[k];
        proof {
            assert(visible@.take(k + 1).drop_last() =~= visible@.take(k as int));
        }
        if i < entries.len() && str_contains(entries[i].raw.as_str(), state.search_query.as_str()) {
            m.push(i);
        }
        k = k + 1;
    }
    assert(visible@.take(visible@.len() as int) =~= visible@);
    m
}

/// The first element of `s` above `x`.
pub open spec fn first_above(s: Seq<usize>, x: usize) -> Option<usize> {
    if exists|i: int| 0 <= i < s.len() && s[i] > x {
        Some(
            s[choose|i: int|
                0 <= i < s.len() && s[i] > x && forall|j: int| 0 <= j < i ==> s[j] <= x],
        )
    } else {
        None
    }
}

/// The last element of `s` below `x`.
pub open spec fn last_below(s: Seq<usize>, x: usize) -> Option<usize> {
    if exists|i: int| 0 <= i < s.len() && s[i] < x {
        Some(
            s[choose|i: int|
                0 <= i < s.len() && s[i] < x && forall|j: int| i < j < s.len() ==> s[j] >= x],
        )
    } else {
        None
    }
}

/// The first match after the selection.
pub open spec fn next_after(matches: Seq<usize>, selected: Option<usize>) -> Option<usize> {
    match selected {
        Some(s) => first_above(matches, s),
        None => None,
    }
}

/// The last match before the selection.
pub open spec fn previous_before(matches: Seq<usize>, selected: Option<usize>) -> Option<usize> {
    match selected {
        Some(s) => last_below(matches, s),
        None => None,
    }
}

pub fn next_match_after(matches: &[usize], selected: Option<usize>) -> (r: Option<usize>)
    ensures
        r == next_after(matches@, selected),
{
    let s = match selected {
        Some(s) => s,
        None => return None,
    };
    let mut i: usize = 0;
    while i < matches.len()
        invariant
            i <= matches@.len(),
            forall|j: int| 0 <= j < i ==> matches@[j] <= s,
            selected == Some(s),
        decreases matches@.len() - i,
    {
        if matches[i] > s {
            proof {
                assert(0 <= i < matches@.len() && matches@[i as int] > s);
                let c = choose|c: int|
                    0 <= c < matches@.len() && matches@[c] > s && forall|j: int|
                        0 <= j < c ==> matches@[j] <= s;
                assert(c == i as int);
            }
            return Some(matches[i]);
        }
        i = i + 1;
    }
    None
}

pub fn previous_match_before(matches: &[usize], selected: Option<usize>) -> (r: Option<usize>)
    ensures
        r == previous_before(matches@, selected),
{
    let s = match selected {
        Some(s) => s,
        None => return None,
    };
    let mut i: usize = matches.len();
    while i > 0
        invariant
            i <= matches@.len(),
            forall|j: int| i <= j < matches@.len() ==> matches@[j] >= s,
            selected == Some(s),
        decreases i,
    {
        if matches[i - 1] < s {
            proof {
                let p = i - 1;
                assert(0 <= p < matches@.len() && matches@[p as int] < s);
                let c = choose|c: int|
                    0 <= c < matches@.len() && matches@[c] < s && forall|j: int|
                        c < j < matches@.len() ==> matches@[j] >= s;
                assert(c == p as int);
            }
            return Some(matches[i - 1]);
        }
        i = i - 1;
    }
    None
}

/// How a search jump chooses its target.
#[derive(Clone, Copy, Debug, PartialEq, Eq, Structural)]
pub enum SearchDirection {
    CurrentOrNext,
    Next,
    Previous,
}

/// The match a jump goes to and whether it wrapped around the end of the list.
pub open spec fn jump_target(matches: Seq<usize>, selected: Option<usize>, direction: SearchDirection) -> (usize, bool) {
    match direction {
        SearchDirection::CurrentOrNext => (
            match selected {
                Some(s) if matches.contains(s) => s,
                _ => match next_after(matches, selected) {
                    Some(n) => n,
                    None => matches[0],
                },
            },
            false,
        ),
        SearchDirection::Next => match next_after(matches, selected) {
            Some(n) => (n, false),
            None => (matches[0], selected is Some),
        },
        SearchDirection::Previous => match previous_before(matches, selected) {
            Some(p) => (p, false),
            None => (matches.last(), selected is Some),
        },
    }
}

/// The state after jumping to a search match; unchanged when nothing matches.
pub open spec fn jump_view(entries: Seq<LogEntry>, st: ViewModel, page_size: usize, direction: SearchDirection) -> ViewModel {
    let matches = search_matches(entries, st);
    if matches.len() == 0 {
        st
    } else {
        let (target, wrapped) = jump_target(matches, st.selected, direction);
        scroll_view(entries, ViewModel { search_wrapped: wrapped, selected: Some(target), ..st }, page_size)
    }
}

/// The matches are some of the shown entries, in the same increasing order,
/// each one containing the query.
pub proof fn lemma_matches_among(entries: Seq<LogEntry>, visible: Seq<usize>, query: Seq<char>)
    requires
        strictly_increasing(visible),
    ensures
        strictly_increasing(matches_among(entries, visible, query)),
        forall|k: int|
            0 <= k < matches_among(entries, visible, query).len() ==> {
                let m = #[trigger] matches_among(entries, visible, query)[k];
                &&& visible.contains(m)
                &&& m < entries.len()
                &&& seq_contains(entries[m as int].raw@, query)
            },
    decreases visible.len(),
{
    if visible.len() > 0 {
        let prev_v = visible.drop_last();
        lemma_matches_among(entries, prev_v, query);
        let prev = matches_among(entries, prev_v, query);
        let cur = matches_among(entries, visible, query);
        assert forall|k: int| 0 <= k < prev.len() implies visible.contains(#[trigger] prev[k]) && prev[k] < visible.last() by {
            let j = choose|j: int| 0 <= j < prev_v.len() && prev_v[j] == prev[k];
            assert(visible[j] == prev[k]);
        }
        assert forall|k: int| 0 <= k < cur.len() implies {
            let m = #[trigger] cur[k];
            &&& visible.contains(m)
            &&& m < entries.len()
            &&& seq_contains(entries[m as int].raw@, query)
        } by {
            if k == prev.len() {
                assert(visible[visible.len() - 1] == cur[k]);
            } else {
                assert(cur[k] == prev[k]);
            }
        }
    }
}

/// Law: `n` on the last search match wraps around to the first one, and
/// `b` on the first wraps around to the last; both note the wrap.
pub proof fn lemma_search_wraps_around(entries: Seq<LogEntry>, st: ViewModel)
    requires
        entries.len() <= usize::MAX,
        search_matches(entries, st).len() > 0,
    ensures
        jump_target(
            search_matches(entries, st),
            Some(search_matches(entries, st).last()),
            SearchDirection::Next,
        ) == (search_matches(entries, st)[0], true),
        jump_target(
            search_matches(entries, st),
            Some(search_matches(entries, st)[0]),
            SearchDirection::Previous,
        ) == (search_matches(entries, st).last(), true),
{
    lemma_shown_indices(entries, st);
    lemma_matches_among(entries, shown_indices(entries, st), st.search_query);
    let m = search_matches(entries, st);
    assert(!(exists|i: int| 0 <= i < m.len() && #[trigger] m[i] > m.last()));
    assert(!(exists|i: int| 0 <= i < m.len() && #[trigger] m[i] < m[0]));
}

/// Selects a search match in the given direction and scrolls to it.
pub fn jump_to_search_match(
    entries: &VecDeque<LogEntry>,
    state: &mut ViewState,
    page_size: usize,
    direction: SearchDirection,
)
    ensures
        final(state)@ == jump_view(entries@, old(state)@, page_size, direction),
{
    let matches = search_match_indices(entries, state);
    if matches.len() == 0 {
        return;
    }
    let selected = state.selected;
    let (next, wrapped) = match direction {
        SearchDirection::CurrentOrNext => {
            let current = match selected {
                Some(s) => match find_position(matches.as_slice(), s) {
                    Some(_) => Some(s),
                    None => None,
                },
                None => None,
            };
            proof {
                if let Some(s) = selected {
                    if matches@.contains(s) {
                        let k = choose|k: int| 0 <= k < matches@.len() && matches@[k] == s;
                        lemma_minimal_position_exists(matches@, s, k);
                    } else if position_of(matches@, s) is Some {
                        lemma_position_of_found(matches@, s);
                    }
                }
            }
            let target = match current {
                Some(c) => c,
                None => match next_match_after(matches.as_slice(), selected) {
                    Some(n) => n,
                    None => matches[0],
                },
            };
            (target, false)
        },
        SearchDirection::Next => match next_match_after(matches.as_slice(), selected) {
            Some(n) => (n, false),
            None => (matches[0], selected.is_some()),
        },
        SearchDirection::Previous => match previous_match_before(matches.as_slice(), selected) {
            Some(p) => (p, false),
            None => (matches[matches.len() - 1], selected.is_some()),
        },
    };
    state.search_wrapped = wrapped;
    state.selected = Some(next);
    state.scroll_selected_into_view(entries, page_size);
}

// ---------------------------------------------------------------------------
// Laws of the view

/// Law: dropping the oldest line moves every index down by one: the
/// selection and the first row keep naming the same lines (an index of zero
/// stays zero), and nothing else changes.
pub proof fn lemma_remove_first_line_shifts(st: ViewModel)
    ensures
        st.selected matches Some(s) ==> remove_first_line_view(st).selected == Some(
            if s > 0 {
                (s - 1) as usize
            } else {
                0usize
            },
        ),
        st.selected is None ==> remove_first_line_view(st).selected is None,
        st.first_visible > 0 ==> remove_first_line_view(st).first_visible == st.first_visible - 1,
        remove_first_line_view(st).search_query == st.search_query,
        remove_first_line_view(st).focus_target == st.focus_target,
        remove_first_line_view(st).level_filter == st.level_filter,
        remove_first_line_view(st).values == st.values,
{
}

/// Law: a level filter shows exactly the levels at or above its minimum in
/// the order Trace < Debug < Info < Warn < Error; lines of unknown level
/// show only without a filter.
pub proof fn lemma_level_filter_order(m: Level)
    ensures
        level_severity(Level::Unknown) < level_severity(Level::Trace),
        level_severity(Level::Trace) < level_severity(Level::Debug),
        level_severity(Level::Debug) < level_severity(Level::Info),
        level_severity(Level::Info) < level_severity(Level::Warn),
        level_severity(Level::Warn) < level_severity(Level::Error),
        filter_includes(LevelFilter::All, m),
        filter_includes(LevelFilter::AtLeast(Level::Trace), m) <==> m != Level::Unknown,
        filter_includes(LevelFilter::AtLeast(Level::Debug), m) <==> (m == Level::Debug || m
            == Level::Info || m == Level::Warn || m == Level::Error),
        filter_includes(LevelFilter::AtLeast(Level::Info), m) <==> (m == Level::Info || m
            == Level::Warn || m == Level::Error),
        filter_includes(LevelFilter::AtLeast(Level::Warn), m) <==> (m == Level::Warn || m
            == Level::Error),
        filter_includes(LevelFilter::AtLeast(Level::Error), m) <==> m == Level::Error,
{
}

/// Law: with a focus target set, an entry is shown exactly when it passes
/// the level filter and its target is that very target (not one that merely
/// contains it).
pub proof fn lemma_focus_shows_exact_target(entries: Seq<LogEntry>, st: ViewModel, i: int)
    requires
        entries.len() <= usize::MAX,
        0 <= i < entries.len(),
        st.focus_target is Some,
    ensures
        shown_indices(entries, st).contains(i as usize) <==> (filter_includes(st.level_filter, entries[i].level)
            && entries[i].target is Some && entries[i].target->0@ == st.focus_target->0),
{
    lemma_shown_indices(entries, st);
}

/// Law: moving the selection by `delta` shown lines from position `p`
/// lands on position `p + delta`, clamped to the first and last shown
/// line: moving up never goes below the first line nor past the start, and
/// moving down never passes the last line. The new selection is on screen.
pub proof fn lemma_move_selection_clamps(st: ViewModel, visible: Seq<usize>, delta: int, page_size: usize, p: int)
    requires
        strictly_increasing(visible),
        visible.len() <= usize::MAX,
        0 <= p < visible.len(),
        st.selected == Some(visible[p]),
        -(usize::MAX as int) <= delta <= usize::MAX,
    ensures
        ({
            let target = if p + delta < 0 {
                0
            } else if p + delta > visible.len() - 1 {
                visible.len() - 1
            } else {
                p + delta
            };
            &&& move_selected_by_view(st, visible, delta, page_size).selected == Some(visible[target])
            &&& delta <= 0 ==> target <= p
            &&& delta >= 0 ==> target >= p
        }),
        selection_on_screen(
            visible,
            move_selected_by_view(st, visible, delta, page_size).first_visible,
            move_selected_by_view(st, visible, delta, page_size).selected,
            page_size,
        ),
{
    lemma_position_of_increasing(visible, p);
    assert(selected_position(visible, st.selected) == Some(p));
    assert((p as usize) as int == p);
    let pos = moved_by(p as usize, delta, visible.len() - 1);
    lemma_moved_by_clamps(p as usize, delta, visible.len() - 1);
    lemma_move_to_shows(st, visible, pos, page_size);
    assert(move_selected_by_view(st, visible, delta, page_size) == move_selected_to_view(st, visible, pos, page_size));
}

/// Moving by `delta` clamps to `0..=max`.
proof fn lemma_moved_by_clamps(x: usize, delta: int, max: int)
    requires
        0 <= x <= max <= usize::MAX,
        -(usize::MAX as int) <= delta <= usize::MAX,
    ensures
        moved_by(x, delta, max) == if x + delta < 0 {
            0
        } else if x + delta > max {
            max
        } else {
            x + delta
        },
{
}

/// Selecting the shown line at `pos` selects it and puts it on screen.
proof fn lemma_move_to_shows(st: ViewModel, visible: Seq<usize>, pos: int, page_size: usize)
    requires
        strictly_increasing(visible),
        0 <= pos < visible.len(),
    ensures
        move_selected_to_view(st, visible, pos, page_size).selected == Some(visible[pos]),
        selection_on_screen(
            visible,
            move_selected_to_view(st, visible, pos, page_size).first_visible,
            move_selected_to_view(st, visible, pos, page_size).selected,
            page_size,
        ),
{
    lemma_position_of_increasing(visible, pos);
    lemma_scroll_shows_selection(visible, st.first_visible, Some(visible[pos]), page_size);
}

/// A jump goes to one of the matches.
proof fn lemma_jump_target_is_match(matches: Seq<usize>, selected: Option<usize>, direction: SearchDirection)
    requires
        matches.len() > 0,
    ensures
        matches.contains(jump_target(matches, selected, direction).0),
{
    assert(matches.contains(matches[0]));
    assert(matches.contains(matches[matches.len() - 1]));
    match selected {
        Some(s) => {
            if exists|i: int| 0 <= i < matches.len() && matches[i] > s {
                let i = choose|i: int|
                    0 <= i < matches.len() && matches[i] > s && forall|j: int| 0 <= j < i ==> matches[j] <= s;
                lemma_minimal_above_exists(matches, s);
                assert(matches.contains(matches[i]));
            }
            if exists|i: int| 0 <= i < matches.len() && matches[i] < s {
                lemma_maximal_below_exists(matches, s);
                let i = choose|i: int|
                    0 <= i < matches.len() && matches[i] < s && forall|j: int| i < j < matches.len() ==> matches[j] >= s;
                assert(matches.contains(matches[i]));
            }
        },
        None => {},
    }
}

/// Some element above `x` comes first among those above it.
proof fn lemma_minimal_above_exists(s: Seq<usize>, x: usize)
    requires
        exists|i: int| 0 <= i < s.len() && s[i] > x,
    ensures
        exists|c: int| 0 <= c < s.len() && s[c] > x && forall|j: int| 0 <= j < c ==> s[j] <= x,
{
    let i = choose|i: int| 0 <= i < s.len() && s[i] > x;
    lemma_minimal_above_from(s, x, i);
}

proof fn lemma_minimal_above_from(s: Seq<usize>, x: usize, i: int)
    requires
        0 <= i < s.len(),
        s[i] > x,
    ensures
        exists|c: int| 0 <= c < s.len() && s[c] > x && forall|j: int| 0 <= j < c ==> s[j] <= x,
    decreases i,
{
    if exists|j: int| 0 <= j < i && s[j] > x {
        let j = choose|j: int| 0 <= j < i && s[j] > x;
        lemma_minimal_above_from(s, x, j);
    } else {
        assert(forall|j: int| 0 <= j < i ==> s[j] <= x);
    }
}

/// Some element below `x` comes last among those below it.
proof fn lemma_maximal_below_exists(s: Seq<usize>, x: usize)
    requires
        exists|i: int| 0 <= i < s.len() && s[i] < x,
    ensures
        exists|c: int| 0 <= c < s.len() && s[c] < x && forall|j: int| c < j < s.len() ==> s[j] >= x,
{
    let i = choose|i: int| 0 <= i < s.len() && s[i] < x;
    lemma_maximal_below_from(s, x, i);
}

proof fn lemma_maximal_below_from(s: Seq<usize>, x: usize, i: int)
    requires
        0 <= i < s.len(),
        s[i] < x,
    ensures
        exists|c: int| 0 <= c < s.len() && s[c] < x && forall|j: int| c < j < s.len() ==> s[j] >= x,
    decreases s.len() - i,
{
    if exists|j: int| i < j < s.len() && s[j] < x {
        let j = choose|j: int| i < j < s.len() && s[j] < x;
        lemma_maximal_below_from(s, x, j);
    } else {
        assert(forall|j: int| i < j < s.len() ==> s[j] >= x);
    }
}

/// Law: a search jump that finds matches selects one of them, a shown line
/// whose raw text contains the query, and scrolls so that it is on screen;
/// the filter, focus and query stay as they were.
pub proof fn lemma_jump_selects_match_on_screen(
    entries: Seq<LogEntry>,
    st: ViewModel,
    page_size: usize,
    direction: SearchDirection,
)
    requires
        entries.len() <= usize::MAX,
        search_matches(entries, st).len() > 0,
    ensures
        ({
            let after = jump_view(entries, st, page_size, direction);
            &&& after.selected is Some
            &&& search_matches(entries, st).contains(after.selected->0)
            &&& after.selected->0 < entries.len()
            &&& seq_contains(entries[after.selected->0 as int].raw@, st.search_query)
            &&& after.level_filter == st.level_filter
            &&& after.focus_target == st.focus_target
            &&& after.search_query == st.search_query
            &&& selection_on_screen(shown_indices(entries, after), after.first_visible, after.selected, page_size)
        }),
{
    let m = search_matches(entries, st);
    let visible = shown_indices(entries, st);
    lemma_shown_indices(entries, st);
    lemma_matches_among(entries, visible, st.search_query);
    lemma_jump_target_is_match(m, st.selected, direction);
    let t = jump_target(m, st.selected, direction).0;
    let k = choose|k: int| 0 <= k < m.len() && m[k] == t;
    assert(visible.contains(t));
    let j = choose|j: int| 0 <= j < visible.len() && visible[j] == t;
    lemma_minimal_position_exists(visible, t, j);
    let st2 = ViewModel { search_wrapped: jump_target(m, st.selected, direction).1, selected: Some(t), ..st };
    assert(shown_indices(entries, st2) == visible);
    lemma_scroll_shows_selection(visible, st.first_visible, Some(t), page_size);
    let after = jump_view(entries, st, page_size, direction);
    assert(shown_indices(entries, after) == visible);
}

} // verus!
