//! Screen layout: how many rows the log gets, where the scrollbar and the
//! values pane go, and which piece of each line fits in its row.

use vstd::prelude::*;
use std::collections::VecDeque;
use crate::model::{LogEntry, Level, level_severity};
use crate::colors::{
    Color, level_scrollbar_color, spec_level_scrollbar_color, spec_selected_foreground,
    search_match_background, search_match_foreground, selected_background, selected_foreground,
};
use crate::render::{Part, PartView, part, parts_text, parts_view, lemma_parts_text_append};
use crate::text::{chars_of, push_char, string_from_range};
use crate::view::{
    ValuesPaneMode, ValuesPaneState, ViewState, last_of, position_at_least, position_of,
    find_position, find_position_at_least, lemma_position_of_found,
    lemma_position_at_least_found, lemma_minimal_position_exists,
};

verus! {

/// Whether the search bar takes the top row.
pub open spec fn spec_search_bar_visible(search_editing: bool, search_query: Seq<char>) -> bool {
    search_editing || search_query.len() > 0
}

/// Whether the search bar takes the top row: while typing a query or while one is set.
pub fn search_bar_visible(state: &ViewState) -> (r: bool)
    ensures
        r == spec_search_bar_visible(state.search_editing, state.search_query@),
{
    state.search_editing || !state.search_query.as_str().is_empty()
}

/// The rows left for log lines: all but the status line and the search bar.
pub open spec fn spec_content_rows(rows: u16, search_bar: bool) -> usize {
    let taken: int = if search_bar { 2 } else { 1 };
    if rows >= taken {
        (rows - taken) as usize
    } else {
        0
    }
}

/// The rows left for log lines on a terminal of `rows` rows.
pub fn content_rows(rows: u16, state: &ViewState) -> (n: usize)
    ensures
        n == spec_content_rows(rows, spec_search_bar_visible(state.search_editing, state.search_query@)),
{
    let taken: u16 = if search_bar_visible(state) {
        2
    } else {
        1
    };
    rows.saturating_sub(taken) as usize
}

/// The width of the values pane: the whole screen in full-screen mode, a
/// third of it between 24 and 42 columns as a sidebar, none on screens
/// narrower than 60 columns.
pub open spec fn spec_values_pane_width(cols: usize, mode: ValuesPaneMode) -> usize {
    match mode {
        ValuesPaneMode::Closed => 0,
        ValuesPaneMode::Fullscreen => cols,
        ValuesPaneMode::Sidebar => if cols < 60 {
            0
        } else if cols / 3 < 24 {
            24
        } else if cols / 3 > 42 {
            42
        } else {
            cols / 3
        },
    }
}

/// The width of the values pane on a screen of `cols` columns.
pub fn values_pane_width(cols: usize, state: &ValuesPaneState) -> (w: usize)
    ensures
        w == spec_values_pane_width(cols, state.mode),
        w <= cols,
{
    match state.mode {
        ValuesPaneMode::Closed => 0,
        ValuesPaneMode::Fullscreen => cols,
        ValuesPaneMode::Sidebar => if cols < 60 {
            0
        } else if cols / 3 < 24 {
            24
        } else if cols / 3 > 42 {
            42
        } else {
            cols / 3
        },
    }
}

// ---------------------------------------------------------------------------
// One line in its row

/// How a line of `line_width` columns, scrolled by `x_offset`, fits a row of
/// `terminal_width` columns: the columns left for text and whether `<` and
/// `>` mark hidden text on either side.
#[derive(Debug, PartialEq, Eq, Structural)]
pub struct LineViewport {
    pub content_width: usize,
    pub show_left_marker: bool,
    pub show_right_marker: bool,
}

/// `a + b`, capped at the largest `usize`.
pub open spec fn sat_add(a: usize, b: usize) -> usize {
    if a + b > usize::MAX {
        usize::MAX
    } else {
        (a + b) as usize
    }
}

/// `a - b`, stopping at zero.
pub open spec fn sat_sub(a: usize, b: usize) -> usize {
    if a >= b {
        (a - b) as usize
    } else {
        0
    }
}

/// `a * b`, capped at the largest `usize`.
pub open spec fn sat_mul(a: usize, b: usize) -> usize {
    if a * b > usize::MAX {
        usize::MAX
    } else {
        (a * b) as usize
    }
}

/// The viewport of a line: the left marker shows when the line is scrolled
/// and there is room for more than the marker; the right marker shows when
/// text is hidden past the right edge.
pub open spec fn spec_line_viewport(line_width: usize, x_offset: usize, terminal_width: usize) -> LineViewport {
    let left = x_offset > 0 && terminal_width > 1;
    let w1 = sat_sub(terminal_width, if left { 1 } else { 0 });
    let right = line_width > sat_add(x_offset, w1) && w1 > 0;
    let w2 = sat_sub(w1, if right { 1 } else { 0 });
    LineViewport { content_width: w2, show_left_marker: left, show_right_marker: right }
}

impl LineViewport {
    pub fn new(line_width: usize, x_offset: usize, terminal_width: usize) -> (v: Self)
        ensures
            v == spec_line_viewport(line_width, x_offset, terminal_width),
    {
        let show_left_marker = x_offset > 0 && terminal_width > 1;
        let mut content_width = terminal_width.saturating_sub(
            if show_left_marker {
                1
            } else {
                0
            },
        );
        let show_right_marker = line_width > x_offset.saturating_add(content_width) && content_width
            > 0;
        content_width = content_width.saturating_sub(
            if show_right_marker {
                1
            } else {
                0
            },
        );
        LineViewport { content_width, show_left_marker, show_right_marker }
    }
}

// ---------------------------------------------------------------------------
// Scrollbar

/// The entries, by position among the shown ones, that one scrollbar row stands for.
#[derive(Debug, PartialEq, Eq, Structural)]
pub struct ScrollbarSlice {
    pub start: usize,
    pub end: usize,
}

/// `a / b` rounded up.
pub open spec fn ceil_div(a: usize, b: usize) -> int
    recommends
        b > 0,
{
    a / b + if a % b == 0 {
        0int
    } else {
        1int
    }
}

/// Row `row` of a scrollbar `height` rows high over `entries` entries covers
/// the positions from `row * entries / height` (rounded down) to
/// `(row + 1) * entries / height` (rounded up), and at least one entry.
pub open spec fn spec_scrollbar_slice(row: usize, height: usize, entries: usize) -> ScrollbarSlice {
    if height == 0 || entries == 0 {
        ScrollbarSlice { start: 0, end: 0 }
    } else {
        let start = sat_mul(row, entries) / height;
        let end0 = ceil_div(sat_mul(sat_add(row, 1), entries), height);
        let end1 = if end0 > sat_add(start, 1) {
            end0
        } else {
            sat_add(start, 1) as int
        };
        let end = if end1 < entries {
            end1
        } else {
            entries as int
        };
        ScrollbarSlice { start: start, end: end as usize }
    }
}

/// `a * b`, capped at the largest `usize`.
fn saturating_mul(a: usize, b: usize) -> (r: usize)
    ensures
        r == sat_mul(a, b),
{
    match a.checked_mul(b) {
        Some(p) => p,
        None => usize::MAX,
    }
}

impl ScrollbarSlice {
    pub fn new(row: usize, height: usize, entries: usize) -> (s: Self)
        ensures
            s == spec_scrollbar_slice(row, height, entries),
    {
        if height == 0 || entries == 0 {
            return ScrollbarSlice { start: 0, end: 0 };
        }
        let start = saturating_mul(row, entries) / height;
        let total = saturating_mul(row.saturating_add(1), entries);
        let q = total / height;
        let rounded = if total % height == 0 {
            q
        } else {
            proof {
                assert(q < usize::MAX) by (nonlinear_arith)
                    requires
                        height > 0,
                        total % height != 0,
                        q == total / height,
                        total <= usize::MAX,
                {
                    if height == 1 {
                        assert(total % height == 0);
                    } else {
                        assert(q * height <= total);
                        assert(q * 2 <= q * height);
                    }
                }
            }
            q + 1
        };
        let floor = start.saturating_add(1);
        let mut end = if rounded > floor {
            rounded
        } else {
            floor
        };
        if end > entries {
            end = entries;
        }
        ScrollbarSlice { start, end }
    }
}

/// The highest-severity level among the entries at positions `start..end`
/// of `visible`, skipping positions outside `visible` and indices outside
/// `entries`.
pub open spec fn max_level_in(entries: Seq<LogEntry>, visible: Seq<usize>, start: int, end: int) -> Option<Level>
    decreases end - start,
{
    if end <= start || start >= visible.len() {
        None
    } else {
        let rest = max_level_in(entries, visible, start + 1, end);
        let here = if visible[start] < entries.len() {
            Some(entries[visible[start] as int].level)
        } else {
            None
        };
        match (here, rest) {
            (Some(a), Some(b)) => if level_severity(a) > level_severity(b) {
                Some(a)
            } else {
                Some(b)
            },
            (Some(a), None) => Some(a),
            (None, r) => r,
        }
    }
}

/// The colour of a scrollbar row: that of the most severe level among its
/// entries, grey when it has none.
pub open spec fn spec_scrollbar_slice_color(entries: Seq<LogEntry>, visible: Seq<usize>, start: usize, end: usize) -> Color {
    match max_level_in(entries, visible, start as int, end as int) {
        Some(level) => spec_level_scrollbar_color(level),
        None => Color::DarkGrey,
    }
}

/// The colour of the scrollbar row covering positions `start..end` of `visible`.
pub fn scrollbar_slice_color(entries: &VecDeque<LogEntry>, visible: &[usize], start: usize, end: usize) -> (c: Color)
    ensures
        c == spec_scrollbar_slice_color(entries@, visible@, start, end),
{
    let stop = if end < visible.len() {
        end
    } else {
        visible.len()
    };
    let mut best: Option<Level> = None;
    let mut i: usize = stop;
    proof {
        assert(max_level_in(entries@, visible@, stop as int, end as int) is None);
    }
    while i > start
        invariant
            start <= i <= stop || (i == stop && stop < start),
            stop <= visible@.len(),
            stop == end || stop == visible@.len(),
            stop <= end,
            best == max_level_in(entries@, visible@, i as int, end as int),
        decreases i,
    {
        i = i - 1;
        let idx = visible[i];
        proof {
            assert(i < stop && stop <= end && stop <= visible@.len());
            assert(visible@[i as int] == idx);
        }
        if idx < entries.len() {
            let level = entries[idx].level;
            best = match best {
                Some(b) => if level.severity() > b.severity() {
                    Some(level)
                } else {
                    Some(b)
                },
                None => Some(level),
            };
        }
    }
    proof {
        if stop < start {
            assert(max_level_in(entries@, visible@, start as int, end as int) is None);
        }
    }
    match best {
        Some(level) => level_scrollbar_color(level),
        None => Color::DarkGrey,
    }
}

// ---------------------------------------------------------------------------
// The whole screen

/// Where everything goes on a screen of `cols` columns and `rows` rows.
#[derive(Debug, PartialEq, Eq, Structural)]
pub struct ScreenLayout {
    /// Rows for log lines.
    pub content_rows: usize,
    /// Rows above the log lines: one while the search bar shows.
    pub top_bar_rows: usize,
    /// Columns of the scrollbar: one when there is room for it.
    pub scrollbar_width: usize,
    /// Columns of the values pane.
    pub pane_width: usize,
    /// One column between the log and an open values pane.
    pub pane_gap: usize,
    /// Columns for log lines.
    pub log_width: usize,
    /// The entry drawn as selected.
    pub selected: Option<usize>,
    /// Positions in the shown entries of the first row and past the last row.
    pub start_pos: usize,
    pub end_pos: usize,
    /// The column of the scrollbar.
    pub scrollbar_column: u16,
    /// The first column of the values pane.
    pub pane_left: usize,
}

/// The selection as drawn: the selected entry when it is shown, else the last shown one.
pub open spec fn shown_selection(visible: Seq<usize>, selected: Option<usize>) -> Option<usize> {
    match selected {
        Some(s) => if visible.contains(s) {
            Some(s)
        } else {
            last_of(visible)
        },
        None => last_of(visible),
    }
}

/// The first row's position: that of `first_visible` among the shown
/// entries, else of the first later one, else the top.
pub open spec fn first_row_position(visible: Seq<usize>, first_visible: usize) -> int {
    match position_of(visible, first_visible) {
        Some(p) => p,
        None => match position_at_least(visible, first_visible) {
            Some(p) => p,
            None => 0,
        },
    }
}

/// `a - b`, stopping at zero, on `u16`.
pub open spec fn sat_sub16(a: u16, b: u16) -> u16 {
    if a >= b {
        (a - b) as u16
    } else {
        0
    }
}

/// The layout of the screen for a view and its shown entries.
pub open spec fn spec_screen_layout(
    cols: u16,
    rows: u16,
    search_bar: bool,
    mode: ValuesPaneMode,
    selected: Option<usize>,
    first_visible: usize,
    visible: Seq<usize>,
) -> ScreenLayout {
    let content = spec_content_rows(rows, search_bar);
    let scrollbar: usize = if cols > 1 && content > 0 {
        1
    } else {
        0
    };
    let pane = spec_values_pane_width(cols as usize, mode);
    let gap: usize = if pane > 0 {
        1
    } else {
        0
    };
    let start = first_row_position(visible, first_visible);
    ScreenLayout {
        content_rows: content,
        top_bar_rows: if search_bar {
            1
        } else {
            0
        },
        scrollbar_width: scrollbar,
        pane_width: pane,
        pane_gap: gap,
        log_width: if mode == ValuesPaneMode::Fullscreen {
            0
        } else {
            sat_sub(sat_sub(sat_sub(cols as usize, scrollbar), pane), gap)
        },
        selected: shown_selection(visible, selected),
        start_pos: start as usize,
        end_pos: if start + content < visible.len() {
            (start + content) as usize
        } else {
            visible.len() as usize
        },
        scrollbar_column: sat_sub16(sat_sub16(sat_sub16(cols, 1), pane as u16), gap as u16),
        pane_left: if mode == ValuesPaneMode::Fullscreen {
            0
        } else {
            (cols - pane) as usize
        },
    }
}

/// The selection as drawn: the selected entry when shown, else the last shown one.
fn drawn_selection(visible: &[usize], selected: Option<usize>) -> (r: Option<usize>)
    ensures
        r == shown_selection(visible@, selected),
{
    let found = match selected {
        Some(s) => find_position(visible, s),
        None => None,
    };
    proof {
        match selected {
            Some(s) => {
                if visible@.contains(s) {
                    let k = choose|k: int| 0 <= k < visible@.len() && visible@[k] == s;
                    lemma_minimal_position_exists(visible@, s, k);
                } else if position_of(visible@, s) is Some {
                    lemma_position_of_found(visible@, s);
                }
            },
            None => {},
        }
    }
    match (selected, found) {
        (Some(s), Some(_)) => Some(s),
        _ => if visible.len() > 0 {
            Some(visible[visible.len() - 1])
        } else {
            None
        },
    }
}

/// The position of the first row among the shown entries.
fn first_row(visible: &[usize], first_visible: usize) -> (p: usize)
    ensures
        p == first_row_position(visible@, first_visible),
        p <= visible@.len(),
{
    proof {
        if position_of(visible@, first_visible) is Some {
            lemma_position_of_found(visible@, first_visible);
        } else if position_at_least(visible@, first_visible) is Some {
            lemma_position_at_least_found(visible@, first_visible);
        }
    }
    match find_position(visible, first_visible) {
        Some(p) => p,
        None => match find_position_at_least(visible, first_visible) {
            Some(p) => p,
            None => 0,
        },
    }
}

impl ScreenLayout {
    /// The layout of a screen of `cols` by `rows` showing the entries at `visible`.
    pub fn new(cols: u16, rows: u16, state: &ViewState, visible: &[usize]) -> (l: Self)
        ensures
            l == spec_screen_layout(
                cols,
                rows,
                spec_search_bar_visible(state.search_editing, state.search_query@),
                state.values.mode,
                state.selected,
                state.first_visible,
                visible@,
            ),
            l.start_pos <= l.end_pos <= visible@.len(),
    {
        let search_bar = search_bar_visible(state);
        let content = content_rows(rows, state);
        let top_bar_rows: usize = if search_bar {
            1
        } else {
            0
        };
        let scrollbar_width: usize = if cols > 1 && content > 0 {
            1
        } else {
            0
        };
        let pane_width = values_pane_width(cols as usize, &state.values);
        let pane_gap: usize = if pane_width > 0 {
            1
        } else {
            0
        };
        let fullscreen = match state.values.mode {
            ValuesPaneMode::Fullscreen => true,
            _ => false,
        };
        let log_width = if fullscreen {
            0
        } else {
            (cols as usize).saturating_sub(scrollbar_width).saturating_sub(pane_width).saturating_sub(
                pane_gap,
            )
        };
        let selected = drawn_selection(visible, state.selected);
        let start_pos = first_row(visible, state.first_visible);
        let end_pos = if content < visible.len() - start_pos {
            start_pos + content
        } else {
            visible.len()
        };
        let scrollbar_column = cols.saturating_sub(1).saturating_sub(pane_width as u16).saturating_sub(
            pane_gap as u16,
        );
        let pane_left = if fullscreen {
            0
        } else {
            cols as usize - pane_width
        };
        ScreenLayout {
            content_rows: content,
            top_bar_rows,
            scrollbar_width,
            pane_width,
            pane_gap,
            log_width,
            selected,
            start_pos,
            end_pos,
            scrollbar_column,
            pane_left,
        }
    }
}

// ---------------------------------------------------------------------------
// The visible piece of a line

/// The characters of `t` from column `lo` up to column `hi`, cut short at its end.
pub open spec fn window(t: Seq<char>, lo: int, hi: int) -> Seq<char> {
    let a = if lo < t.len() {
        lo
    } else {
        t.len() as int
    };
    let b = if hi < t.len() {
        hi
    } else {
        t.len() as int
    };
    t.subrange(a, b)
}

/// The piece of part `p`, starting at column `off` of the line, that falls
/// in columns `lo..hi`, if any.
pub open spec fn clip_piece(p: PartView, off: int, lo: int, hi: int) -> Seq<PartView> {
    let os = if off > lo {
        off
    } else {
        lo
    };
    let end = off + p.text.len();
    let oe = if end < hi {
        end
    } else {
        hi
    };
    if os >= oe {
        Seq::empty()
    } else {
        seq![PartView { text: p.text.subrange(os - off, oe - off), ..p }]
    }
}

/// The pieces of the parts that fall in columns `lo..hi`, in order.
pub open spec fn clip_parts(parts: Seq<PartView>, lo: int, hi: int) -> Seq<PartView>
    decreases parts.len(),
{
    if parts.len() == 0 {
        Seq::empty()
    } else {
        let prev = parts.drop_last();
        clip_parts(prev, lo, hi) + clip_piece(parts.last(), parts_text(prev).len() as int, lo, hi)
    }
}

/// Law: the pieces of a line that a row shows spell exactly the window of
/// the line's text between the same columns.
pub proof fn lemma_clip_parts_text(parts: Seq<PartView>, lo: int, hi: int)
    requires
        0 <= lo <= hi,
    ensures
        parts_text(clip_parts(parts, lo, hi)) == window(parts_text(parts), lo, hi),
    decreases parts.len(),
{
    if parts.len() == 0 {
        assert(window(parts_text(parts), lo, hi) =~= Seq::<char>::empty());
    } else {
        let prev = parts.drop_last();
        let p = parts.last();
        let off = parts_text(prev).len() as int;
        lemma_clip_parts_text(prev, lo, hi);
        let piece = clip_piece(p, off, lo, hi);
        lemma_parts_text_append(clip_parts(prev, lo, hi), piece);
        let t = parts_text(parts);
        assert(t == parts_text(prev) + p.text);
        let piece_text = parts_text(piece);
        let os = if off > lo { off } else { lo };
        let end = off + p.text.len();
        let oe = if end < hi { end } else { hi };
        if os >= oe {
            assert(piece_text =~= Seq::<char>::empty()) by {
                assert(piece =~= Seq::<PartView>::empty());
            }
        } else {
            assert(piece_text =~= p.text.subrange(os - off, oe - off)) by {
                let q = PartView { text: p.text.subrange(os - off, oe - off), ..p };
                assert(piece =~= seq![q]);
                assert(piece.drop_last() =~= Seq::<PartView>::empty());
                assert(parts_text(piece.drop_last()) =~= Seq::<char>::empty());
            }
        }
        assert(window(t, lo, hi) =~= window(parts_text(prev), lo, hi) + piece_text);
    }
}

/// A run of `n` spaces.
pub open spec fn spaces(n: nat) -> Seq<char> {
    Seq::new(n, |_i: int| ' ')
}

/// What a row shows of a line drawn `width` columns wide and scrolled by
/// `x_offset`: a `<` when scrolled, the visible pieces of the parts, spaces
/// up to the edge, and a `>` when text is hidden on the right.
pub open spec fn spec_line_segments(parts: Seq<PartView>, x_offset: usize, width: usize) -> Seq<PartView> {
    if width == 0 {
        Seq::empty()
    } else {
        let text = parts_text(parts);
        let vp = spec_line_viewport(text.len() as usize, x_offset, width);
        let hi = sat_add(x_offset, vp.content_width);
        let shown = window(text, x_offset as int, hi as int).len();
        let remaining = sat_sub(vp.content_width, shown as usize);
        (if vp.show_left_marker {
            seq![part(seq!['<'], Color::DarkGrey, true)]
        } else {
            Seq::empty()
        }) + clip_parts(parts, x_offset as int, hi as int) + (if remaining > 0 {
            seq![part(spaces(remaining as nat), Color::White, false)]
        } else {
            Seq::empty()
        }) + (if vp.show_right_marker {
            seq![part(seq!['>'], Color::DarkGrey, true)]
        } else {
            Seq::empty()
        })
    }
}

/// The piece of `p`, starting at column `start` of the line, in columns `lo..hi`.
fn clip_part(p: &Part, start: usize, len: usize, lo: usize, hi: usize) -> (r: Option<Part>)
    requires
        len == p.text@.len(),
        start + len <= usize::MAX,
    ensures
        match r {
            Some(q) => clip_piece(p@, start as int, lo as int, hi as int) == seq![q@],
            None => clip_piece(p@, start as int, lo as int, hi as int) == Seq::<PartView>::empty(),
        },
{
    let end = start + len;
    let os = if start > lo {
        start
    } else {
        lo
    };
    let oe = if end < hi {
        end
    } else {
        hi
    };
    if os >= oe {
        return None;
    }
    let chars = chars_of(p.text.as_str());
    let text = string_from_range(chars.as_slice(), os - start, oe - start);
    Some(Part { text, color: p.color, bold: p.bold, highlighted: p.highlighted })
}

/// A string of `n` spaces.
fn space_string(n: usize) -> (s: String)
    ensures
        s@ == spaces(n as nat),
{
    let mut s = String::new();
    let mut i: usize = 0;
    while i < n
        invariant
            i <= n,
            s@ == spaces(i as nat),
        decreases n - i,
    {
        push_char(&mut s, ' ');
        proof {
            assert(s@ =~= spaces((i + 1) as nat));
        }
        i = i + 1;
    }
    s
}

/// The number of characters in a list of parts.
fn text_len(parts: &[Part]) -> (n: usize)
    requires
        parts_text(parts_view(parts@)).len() <= usize::MAX,
    ensures
        n == parts_text(parts_view(parts@)).len(),
{
    let mut n: usize = 0;
    let mut i: usize = 0;
    while i < parts.len()
        invariant
            i <= parts@.len(),
            n == parts_text(parts_view(parts@.take(i as int))).len(),
            parts_text(parts_view(parts@)).len() <= usize::MAX,
        decreases parts@.len() - i,
    {
        proof {
            let t = parts@.take(i + 1);
            assert(parts_view(t).drop_last() =~= parts_view(parts@.take(i as int)));
            lemma_parts_text_append(parts_view(t), parts_view(parts@.skip(i + 1)));
            assert(parts_view(t) + parts_view(parts@.skip(i + 1)) =~= parts_view(parts@));
        }
        let chars = chars_of(parts[i].text.as_str());
        n = n + chars.len();
        i = i + 1;
    }
    proof {
        assert(parts@.take(parts@.len() as int) =~= parts@);
    }
    n
}

/// What a row shows of a line drawn `width` columns wide, scrolled by `x_offset`.
pub fn line_segments(parts: &[Part], x_offset: usize, width: usize) -> (r: Vec<Part>)
    requires
        parts_text(parts_view(parts@)).len() <= usize::MAX,
    ensures
        parts_view(r@) == spec_line_segments(parts_view(parts@), x_offset, width),
{
    let mut out: Vec<Part> = Vec::new();
    if width == 0 {
        proof {
            assert(parts_view(out@) =~= Seq::<PartView>::empty());
        }
        return out;
    }
    let ghost all = parts_view(parts@);
    let total = text_len(parts);
    let viewport = LineViewport::new(total, x_offset, width);
    let content_width = viewport.content_width;
    let hi = x_offset.saturating_add(content_width);
    proof {
        reveal_strlit("<");
        reveal_strlit(">");
        assert("<"@ =~= seq!['<']);
        assert(">"@ =~= seq!['>']);
    }
    if viewport.show_left_marker {
        out.push(Part::new("<", Color::DarkGrey, true));
    }
    let ghost head = parts_view(out@);
    proof {
        assert(head =~= (if viewport.show_left_marker {
            seq![part(seq!['<'], Color::DarkGrey, true)]
        } else {
            Seq::<PartView>::empty()
        }));
    }
    let mut cursor: usize = 0;
    let mut i: usize = 0;
    while i < parts.len()
        invariant
            i <= parts@.len(),
            all == parts_view(parts@),
            parts_text(all).len() <= usize::MAX,
            cursor == parts_text(all.take(i as int)).len(),
            parts_view(out@) == head + clip_parts(all.take(i as int), x_offset as int, hi as int),
        decreases parts@.len() - i,
    {
        let ghost t = all.take(i + 1);
        proof {
            assert(t.drop_last() =~= all.take(i as int));
            assert(t.last() == parts@[i as int]@);
            lemma_parts_text_append(t, all.skip(i + 1));
            assert(t + all.skip(i + 1) =~= all);
        }
        let chars = chars_of(parts[i].text.as_str());
        let len = chars.len();
        let piece = clip_part(&parts[i], cursor, len, x_offset, hi);
        match piece {
            Some(q) => {
                let ghost before = out@;
                out.push(q);
                proof {
                    assert(parts_view(out@) =~= parts_view(before).push(q@));
                }
            },
            None => {},
        }
        proof {
            assert(parts_view(out@) =~= head + clip_parts(t, x_offset as int, hi as int));
        }
        cursor = cursor + len;
        i = i + 1;
    }
    proof {
        assert(all.take(parts@.len() as int) =~= all);
        lemma_clip_parts_text(all, x_offset as int, hi as int);
    }
    let shown = if x_offset < total {
        if hi < total {
            hi - x_offset
        } else {
            total - x_offset
        }
    } else {
        0
    };
    proof {
        assert(shown == window(parts_text(all), x_offset as int, hi as int).len());
    }
    let remaining = content_width.saturating_sub(shown);
    if remaining > 0 {
        let ghost before = out@;
        out.push(Part { text: space_string(remaining), color: Color::White, bold: false, highlighted: false });
        proof {
            assert(parts_view(out@) =~= parts_view(before).push(part(spaces(remaining as nat), Color::White, false)));
        }
    }
    if viewport.show_right_marker {
        let ghost before = out@;
        out.push(Part::new(">", Color::DarkGrey, true));
        proof {
            assert(parts_view(out@) =~= parts_view(before).push(part(seq!['>'], Color::DarkGrey, true)));
        }
    }
    proof {
        assert(parts_view(out@) =~= spec_line_segments(all, x_offset, width));
    }
    out
}

/// The text of a single part.
proof fn lemma_single_part_text(p: PartView)
    ensures
        parts_text(seq![p]) == p.text,
{
    let e = seq![p].drop_last();
    assert(e =~= Seq::<PartView>::empty());
    assert(parts_text(e) =~= Seq::<char>::empty());
    assert(parts_text(e) + p.text =~= p.text);
}

/// Law: a drawn row is exactly as wide as the room it was drawn in.
pub proof fn lemma_line_segments_width(parts: Seq<PartView>, x_offset: usize, width: usize)
    requires
        width > 0,
        parts_text(parts).len() <= usize::MAX,
    ensures
        parts_text(spec_line_segments(parts, x_offset, width)).len() == width,
{
    let text = parts_text(parts);
    let vp = spec_line_viewport(text.len() as usize, x_offset, width);
    let hi = sat_add(x_offset, vp.content_width);
    lemma_clip_parts_text(parts, x_offset as int, hi as int);
    let shown = window(text, x_offset as int, hi as int).len();
    let remaining = sat_sub(vp.content_width, shown as usize);
    let left: Seq<PartView> = if vp.show_left_marker {
        seq![part(seq!['<'], Color::DarkGrey, true)]
    } else {
        Seq::empty()
    };
    let pad: Seq<PartView> = if remaining > 0 {
        seq![part(spaces(remaining as nat), Color::White, false)]
    } else {
        Seq::empty()
    };
    let right: Seq<PartView> = if vp.show_right_marker {
        seq![part(seq!['>'], Color::DarkGrey, true)]
    } else {
        Seq::empty()
    };
    let clipped = clip_parts(parts, x_offset as int, hi as int);
    lemma_parts_text_append(left, clipped);
    lemma_parts_text_append(left + clipped, pad);
    lemma_parts_text_append(left + clipped + pad, right);
    if vp.show_left_marker {
        lemma_single_part_text(left[0]);
        assert(left =~= seq![left[0]]);
    }
    if remaining > 0 {
        lemma_single_part_text(pad[0]);
        assert(pad =~= seq![pad[0]]);
    }
    if vp.show_right_marker {
        lemma_single_part_text(right[0]);
        assert(right =~= seq![right[0]]);
    }
    assert(shown <= vp.content_width);
}

/// How a piece of a line is coloured on screen.
#[derive(Clone, Copy, Debug, PartialEq, Eq)]
pub struct SegmentStyle {
    pub foreground: Color,
    pub background: Option<Color>,
    pub bold: bool,
}

/// Search matches are black on yellow; the selected line has a dark grey
/// background with darker variants of the bright colours; other pieces keep
/// their colour on the terminal's background.
pub open spec fn spec_segment_style(color: Color, bold: bool, highlighted: bool, selected: bool) -> SegmentStyle {
    if highlighted {
        SegmentStyle { foreground: Color::Black, background: Some(Color::Yellow), bold: bold }
    } else if selected {
        SegmentStyle {
            foreground: spec_selected_foreground(color),
            background: Some(Color::Rgb { r: 64, g: 64, b: 64 }),
            bold: bold,
        }
    } else {
        SegmentStyle { foreground: color, background: None, bold: bold }
    }
}

/// The style a piece of a line is drawn in.
pub fn segment_style(color: Color, bold: bool, highlighted: bool, selected: bool) -> (s: SegmentStyle)
    ensures
        s == spec_segment_style(color, bold, highlighted, selected),
{
    if highlighted {
        SegmentStyle {
            foreground: search_match_foreground(),
            background: Some(search_match_background()),
            bold,
        }
    } else if selected {
        SegmentStyle { foreground: selected_foreground(color), background: Some(selected_background()), bold }
    } else {
        SegmentStyle { foreground: color, background: None, bold }
    }
}

/// Law: each row of a scrollbar over some entries stands for at least one
/// of them and for none past the last.
pub proof fn lemma_scrollbar_slice_bounds(row: usize, height: usize, entries: usize)
    requires
        0 < entries,
        row < height,
        (row + 1) * entries <= usize::MAX,
    ensures
        spec_scrollbar_slice(row, height, entries).start < spec_scrollbar_slice(row, height, entries).end,
        spec_scrollbar_slice(row, height, entries).end <= entries,
{
    assert(row * entries <= (row + 1) * entries) by (nonlinear_arith)
        requires
            entries > 0,
    {}
    assert(sat_mul(row, entries) == row * entries);
    assert((row * entries) / (height as int) < entries) by (nonlinear_arith)
        requires
            row < height,
            entries > 0,
    {
        assert(row * entries < height * entries);
    }
}

/// Law: outside full-screen mode the log, the scrollbar, the values pane
/// and the gap before it share the screen's columns exactly.
pub proof fn lemma_screen_columns_fit(
    cols: u16,
    rows: u16,
    search_bar: bool,
    mode: ValuesPaneMode,
    selected: Option<usize>,
    first_visible: usize,
    visible: Seq<usize>,
)
    ensures
        ({
            let l = spec_screen_layout(cols, rows, search_bar, mode, selected, first_visible, visible);
            mode != ValuesPaneMode::Fullscreen ==> l.log_width + l.scrollbar_width + l.pane_width
                + l.pane_gap == cols
        }),
{
}

/// Law: the rows of a scrollbar cover all entries in order without a gap:
/// the first row starts at the first entry, the last row ends at the last,
/// and each row starts no later than the one above it ends. (Where the
/// products saturate at the largest `usize` this need not hold.)
pub proof fn lemma_scrollbar_rows_cover(height: usize, entries: usize, row: usize)
    requires
        0 < height,
        0 < entries,
        height * entries <= usize::MAX,
    ensures
        spec_scrollbar_slice(0, height, entries).start == 0,
        spec_scrollbar_slice((height - 1) as usize, height, entries).end == entries,
        row + 1 < height ==> spec_scrollbar_slice((row + 1) as usize, height, entries).start
            <= spec_scrollbar_slice(row, height, entries).end,
{
    assert(sat_mul(0, entries) == 0);
    let last = (height - 1) as usize;
    assert(sat_add(last, 1) == height);
    assert(sat_mul(height, entries) == height * entries);
    assert((height * entries) / (height as int) == entries && (height * entries) % (height as int) == 0) by (nonlinear_arith)
        requires
            height > 0,
    {}
    if row + 1 < height {
        let r1 = (row + 1) as usize;
        assert(r1 * entries <= height * entries) by (nonlinear_arith)
            requires
                r1 < height,
                entries > 0,
        {}
        assert(sat_add(row, 1) == r1);
        assert(sat_mul(r1, entries) == r1 * entries);
        assert((r1 * entries) / (height as int) <= entries) by (nonlinear_arith)
            requires
                r1 < height,
                height > 0,
                entries > 0,
        {
            assert(r1 * entries <= height * entries);
        }
    }
}

} // verus!
