//! The texts of the status line, the search bar and the help page.

use vstd::prelude::*;
use std::collections::VecDeque;
use crate::model::{Level, LogEntry};
use crate::colors::{Color, level_color, spec_level_color, status_bar_foreground};
use crate::view::{
    LevelFilter, ViewState, position_of, find_position, search_matches, search_match_indices,
    lemma_position_of_found,
};
use crate::layout::spaces;
use crate::render::{occurs_at, occurs_at_exec};
use crate::text::{same_text, chars_of, push_char, slice_chars, string_from_range, visible_slice};

verus! {

// ---------------------------------------------------------------------------
// Numbers

/// The character of a decimal digit.
pub open spec fn digit_char(d: nat) -> char {
    ((d + 48) as u8) as char
}

/// The decimal digits of `n`, most significant first, without leading zeros.
pub open spec fn decimal(n: nat) -> Seq<char>
    decreases n,
{
    if n < 10 {
        seq![digit_char(n)]
    } else {
        decimal(n / 10).push(digit_char(n % 10))
    }
}

/// Appends the decimal digits of `n`.
pub fn push_decimal(s: &mut String, n: usize)
    ensures
        final(s)@ == old(s)@ + decimal(n as nat),
    decreases n,
{
    if n >= 10 {
        push_decimal(s, n / 10);
    }
    let d = (n % 10) as u8;
    push_char(s, (d + 48) as char);
    proof {
        assert(final(s)@ =~= old(s)@ + decimal(n as nat));
    }
}

/// The decimal digits of `n`.
pub fn decimal_string(n: usize) -> (s: String)
    ensures
        s@ == decimal(n as nat),
{
    let mut s = String::new();
    push_decimal(&mut s, n);
    proof {
        assert(s@ =~= decimal(n as nat));
    }
    s
}

// ---------------------------------------------------------------------------
// Level filter labels

/// The label of a level filter in the status line.
pub open spec fn filter_label(filter: LevelFilter) -> Seq<char> {
    match filter {
        LevelFilter::All => "ALL"@,
        LevelFilter::AtLeast(Level::Debug) => "DEBUG+"@,
        LevelFilter::AtLeast(Level::Info) => "INFO+"@,
        LevelFilter::AtLeast(Level::Warn) => "WARN+"@,
        LevelFilter::AtLeast(Level::Error) => "ERROR"@,
        LevelFilter::AtLeast(Level::Trace) => "TRACE+"@,
        LevelFilter::AtLeast(Level::Unknown) => "UNKNOWN+"@,
    }
}

impl LevelFilter {
    /// The label of the filter in the status line.
    pub fn status_label(self) -> (s: &'static str)
        ensures
            s@ == filter_label(self),
    {
        match self {
            LevelFilter::All => "ALL",
            LevelFilter::AtLeast(Level::Debug) => "DEBUG+",
            LevelFilter::AtLeast(Level::Info) => "INFO+",
            LevelFilter::AtLeast(Level::Warn) => "WARN+",
            LevelFilter::AtLeast(Level::Error) => "ERROR",
            LevelFilter::AtLeast(Level::Trace) => "TRACE+",
            LevelFilter::AtLeast(Level::Unknown) => "UNKNOWN+",
        }
    }

    /// The colour of the filter label: the level's colour, or the status
    /// bar's when every level shows.
    pub fn status_color(self) -> (c: Color)
        ensures
            c == match self {
                LevelFilter::All => Color::Black,
                LevelFilter::AtLeast(level) => spec_level_color(level),
            },
    {
        match self {
            LevelFilter::All => status_bar_foreground(),
            LevelFilter::AtLeast(level) => level_color(level),
        }
    }
}

// ---------------------------------------------------------------------------
// Search results

/// "1 result", or the count and "results".
pub open spec fn count_label(count: nat) -> Seq<char> {
    if count == 1 {
        "1 result"@
    } else {
        decimal(count) + " results"@
    }
}

/// The label for a number of search results.
pub fn result_count_label(count: usize) -> (s: String)
    ensures
        s@ == count_label(count as nat),
{
    if count == 1 {
        "1 result".to_owned()
    } else {
        let mut s = decimal_string(count);
        s.append(" results");
        s
    }
}

/// The search summary: the result count, and, when the selection is a
/// result, its number among them and whether the last jump wrapped around.
pub open spec fn result_summary(matches: Seq<usize>, selected: Option<usize>, wrapped: bool) -> Seq<char> {
    if matches.len() == 0 {
        "0 results"@
    } else {
        let label = count_label(matches.len());
        let position = match selected {
            Some(s) => position_of(matches, s),
            None => None,
        };
        match position {
            None => label,
            Some(p) => label + "  "@ + decimal((p + 1) as nat) + "/"@ + decimal(matches.len()) + (
            if wrapped {
                "  wrapped"@
            } else {
                ""@
            }),
        }
    }
}

/// The search summary shown in the search bar.
pub fn search_result_summary(matches: &[usize], selected: Option<usize>, wrapped: bool) -> (s: String)
    ensures
        s@ == result_summary(matches@, selected, wrapped),
{
    if matches.len() == 0 {
        return "0 results".to_owned();
    }
    let mut s = result_count_label(matches.len());
    let position = match selected {
        Some(sel) => find_position(matches, sel),
        None => None,
    };
    match position {
        None => s,
        Some(p) => {
            proof {
                lemma_position_of_found(matches@, selected->0);
            }
            s.append("  ");
            push_decimal(&mut s, p + 1);
            s.append("/");
            push_decimal(&mut s, matches.len());
            if wrapped {
                s.append("  wrapped");
            } else {
                s.append("");
            }
            s
        },
    }
}

/// The text of the search bar before it is fitted to the screen width.
pub open spec fn search_bar_line(query: Seq<char>, editing: bool, results: Seq<char>) -> Seq<char> {
    let prompt = if editing {
        "Search(*)"@
    } else {
        "Search"@
    };
    let cursor = if editing {
        "_"@
    } else {
        ""@
    };
    let help = if editing {
        "Enter accept  Esc clear"@
    } else {
        "/ edit  Esc clear"@
    };
    " "@ + prompt + ": "@ + query + cursor + "  "@ + help + "  n next  b previous  "@ + results + " "@
}

/// `text` left-aligned in exactly `width` columns: cut or padded with spaces.
pub open spec fn fit(text: Seq<char>, width: nat) -> Seq<char> {
    if text.len() >= width {
        text.take(width as int)
    } else {
        text + spaces((width - text.len()) as nat)
    }
}

/// `text` left-aligned in exactly `width` columns.
pub fn fit_to_width(text: &str, width: usize) -> (s: String)
    ensures
        s@ == fit(text@, width as nat),
{
    let chars = chars_of(text);
    if chars.len() >= width {
        let s = string_from_range(chars.as_slice(), 0, width);
        proof {
            assert(s@ =~= text@.take(width as int));
        }
        s
    } else {
        let mut s = text.to_owned();
        let mut k: usize = chars.len();
        while k < width
            invariant
                chars@ == text@,
                chars@.len() <= k <= width,
                s@ == text@ + spaces((k - chars@.len()) as nat),
            decreases width - k,
        {
            push_char(&mut s, ' ');
            proof {
                assert(s@ =~= text@ + spaces((k + 1 - chars@.len()) as nat));
            }
            k = k + 1;
        }
        s
    }
}

/// The search bar of a view, fitted to `width` columns.
pub fn search_bar_text(entries: &VecDeque<LogEntry>, state: &ViewState, width: usize) -> (s: String)
    ensures
        s@ == fit(
            search_bar_line(
                state.search_query@,
                state.search_editing,
                result_summary(search_matches(entries@, state@), state.selected, state.search_wrapped),
            ),
            width as nat,
        ),
{
    let matches = search_match_indices(entries, state);
    let results = search_result_summary(matches.as_slice(), state.selected, state.search_wrapped);
    let mut bar = " ".to_owned();
    if state.search_editing {
        bar.append("Search(*)");
    } else {
        bar.append("Search");
    }
    bar.append(": ");
    bar.append(state.search_query.as_str());
    if state.search_editing {
        bar.append("_");
        bar.append("  ");
        bar.append("Enter accept  Esc clear");
    } else {
        bar.append("");
        bar.append("  ");
        bar.append("/ edit  Esc clear");
    }
    bar.append("  n next  b previous  ");
    bar.append(results.as_str());
    bar.append(" ");
    proof {
        assert(bar@ =~= search_bar_line(
            state.search_query@,
            state.search_editing,
            result_summary(search_matches(entries@, state@), state.selected, state.search_wrapped),
        ));
    }
    fit_to_width(bar.as_str(), width)
}

// ---------------------------------------------------------------------------
// Level counts and focus

/// Whether an entry belongs to the focus: every entry when there is none,
/// else those whose target is the focus target.
pub open spec fn in_focus(entry: LogEntry, focus: Option<Seq<char>>) -> bool {
    match focus {
        None => true,
        Some(t) => entry.target is Some && entry.target->0@ == t,
    }
}

/// The number of entries in the focus with the given level.
pub open spec fn level_count(entries: Seq<LogEntry>, focus: Option<Seq<char>>, level: Level) -> nat
    decreases entries.len(),
{
    if entries.len() == 0 {
        0
    } else {
        level_count(entries.drop_last(), focus, level) + if in_focus(entries.last(), focus)
            && entries.last().level == level {
            1nat
        } else {
            0nat
        }
    }
}

/// The number of entries outside the focus on `target`.
pub open spec fn hidden_count(entries: Seq<LogEntry>, target: Seq<char>) -> nat
    decreases entries.len(),
{
    if entries.len() == 0 {
        0
    } else {
        hidden_count(entries.drop_last(), target) + if in_focus(entries.last(), Some(target)) {
            0nat
        } else {
            1nat
        }
    }
}

/// A count is at most the number of entries counted.
proof fn lemma_level_count_bound(entries: Seq<LogEntry>, focus: Option<Seq<char>>, level: Level)
    ensures
        level_count(entries, focus, level) <= entries.len(),
    decreases entries.len(),
{
    if entries.len() > 0 {
        lemma_level_count_bound(entries.drop_last(), focus, level);
    }
}

/// How many entries of each level the status line reports.
#[derive(Debug, PartialEq, Eq, Structural)]
pub struct LevelCounts {
    pub error: usize,
    pub warn: usize,
    pub info: usize,
    pub debug: usize,
    pub trace: usize,
    pub unknown: usize,
}

/// The counter of a level.
pub open spec fn count_of(c: LevelCounts, level: Level) -> usize {
    match level {
        Level::Error => c.error,
        Level::Warn => c.warn,
        Level::Info => c.info,
        Level::Debug => c.debug,
        Level::Trace => c.trace,
        Level::Unknown => c.unknown,
    }
}

/// The counts as `E.. W.. I.. D.. T.. U..`.
pub open spec fn counts_summary(c: LevelCounts) -> Seq<char> {
    "E"@ + decimal(c.error as nat) + " W"@ + decimal(c.warn as nat) + " I"@ + decimal(c.info as nat)
        + " D"@ + decimal(c.debug as nat) + " T"@ + decimal(c.trace as nat) + " U"@ + decimal(
        c.unknown as nat,
    )
}

impl LevelCounts {
    /// All counts zero.
    pub fn new() -> (c: Self)
        ensures
            forall|l: Level| count_of(c, l) == 0,
    {
        LevelCounts { error: 0, warn: 0, info: 0, debug: 0, trace: 0, unknown: 0 }
    }

    /// Counts one more entry of `level`.
    pub fn add(&mut self, level: Level)
        requires
            count_of(*old(self), level) < usize::MAX,
        ensures
            count_of(*final(self), level) == count_of(*old(self), level) + 1,
            forall|l: Level| l != level ==> count_of(*final(self), l) == count_of(*old(self), l),
    {
        match level {
            Level::Error => self.error = self.error + 1,
            Level::Warn => self.warn = self.warn + 1,
            Level::Info => self.info = self.info + 1,
            Level::Debug => self.debug = self.debug + 1,
            Level::Trace => self.trace = self.trace + 1,
            Level::Unknown => self.unknown = self.unknown + 1,
        }
    }

    /// The counts of the entries in the view's focus, by level.
    pub fn from_entries(entries: &VecDeque<LogEntry>, state: &ViewState) -> (c: Self)
        ensures
            forall|l: Level| count_of(c, l) == level_count(entries@, state@.focus_target, l),
    {
        let mut counts = LevelCounts::new();
        let mut i: usize = 0;
        while i < entries.len()
            invariant
                i <= entries@.len(),
                forall|l: Level| count_of(counts, l) == level_count(entries@.take(i as int), state@.focus_target, l),
            decreases entries@.len() - i,
        {
            let entry = &entries[i];
            let ghost t = entries@.take(i + 1);
            proof {
                assert(t.drop_last() =~= entries@.take(i as int));
                assert(t.last() == entries@[i as int]);
                lemma_level_count_bound(entries@.take(i as int), state@.focus_target, entry.level);
            }
            let counted = match &state.focus_target {
                None => true,
                Some(target) => match &entry.target {
                    Some(t) => t.eq(target),
                    None => false,
                },
            };
            if counted {
                counts.add(entry.level);
            }
            i = i + 1;
        }
        proof {
            assert(entries@.take(entries@.len() as int) =~= entries@);
        }
        counts
    }

    /// The counts as `E.. W.. I.. D.. T.. U..`.
    pub fn summary(&self) -> (s: String)
        ensures
            s@ == counts_summary(*self),
    {
        let mut s = "E".to_owned();
        push_decimal(&mut s, self.error);
        s.append(" W");
        push_decimal(&mut s, self.warn);
        s.append(" I");
        push_decimal(&mut s, self.info);
        s.append(" D");
        push_decimal(&mut s, self.debug);
        s.append(" T");
        push_decimal(&mut s, self.trace);
        s.append(" U");
        push_decimal(&mut s, self.unknown);
        s
    }
}

/// `hidden` out of `total` as a percentage rounded to the nearest integer
/// (halves up); zero when there is nothing.
pub open spec fn percentage(hidden: nat, total: nat) -> nat {
    if total == 0 {
        0
    } else {
        (hidden * 100 + total / 2) / total
    }
}

/// The share of hidden lines, in percent.
pub fn hidden_percentage(hidden: usize, total: usize) -> (p: usize)
    requires
        hidden * 100 + total / 2 <= usize::MAX,
    ensures
        p == percentage(hidden as nat, total as nat),
{
    if total == 0 {
        return 0;
    }
    (hidden * 100 + total / 2) / total
}

/// Law: the share of hidden lines is a percentage: at most 100 when no
/// more lines are hidden than there are.
pub proof fn lemma_percentage_at_most_hundred(hidden: nat, total: nat)
    requires
        hidden <= total,
    ensures
        percentage(hidden, total) <= 100,
{
    if total > 0 {
        assert((hidden * 100 + total / 2) / total <= 100) by (nonlinear_arith)
            requires
                hidden <= total,
                total > 0,
        {
            assert(hidden * 100 + total / 2 < 101 * total);
        }
    }
}

/// The focus note of the status line.
pub open spec fn focus_note(entries: Seq<LogEntry>, target: Seq<char>) -> Seq<char> {
    let hidden = hidden_count(entries, target);
    " | focus "@ + target + " ("@ + decimal(hidden) + " hidden, "@ + decimal(
        percentage(hidden, entries.len()),
    ) + "%)"@
}

/// Hidden entries are at most all entries.
proof fn lemma_hidden_count_bound(entries: Seq<LogEntry>, target: Seq<char>)
    ensures
        hidden_count(entries, target) <= entries.len(),
    decreases entries.len(),
{
    if entries.len() > 0 {
        lemma_hidden_count_bound(entries.drop_last(), target);
    }
}

/// The focus note: how many lines the focus on `target` hides, and their share.
pub fn focus_status(entries: &VecDeque<LogEntry>, target: &str) -> (s: String)
    requires
        entries@.len() * 101 <= usize::MAX,
    ensures
        s@ == focus_note(entries@, target@),
{
    let mut hidden: usize = 0;
    let mut i: usize = 0;
    while i < entries.len()
        invariant
            i <= entries@.len(),
            hidden == hidden_count(entries@.take(i as int), target@),
            entries@.len() * 101 <= usize::MAX,
        decreases entries@.len() - i,
    {
        proof {
            let t = entries@.take(i + 1);
            assert(t.drop_last() =~= entries@.take(i as int));
            assert(t.last() == entries@[i as int]);
            lemma_hidden_count_bound(entries@.take(i as int), target@);
        }
        let matches = match &entries[i].target {
            Some(t) => same_text(t.as_str(), target),
            None => false,
        };
        if !matches {
            hidden = hidden + 1;
        }
        i = i + 1;
    }
    proof {
        assert(entries@.take(entries@.len() as int) =~= entries@);
        lemma_hidden_count_bound(entries@, target@);
        assert(hidden * 100 + entries@.len() / 2 <= usize::MAX) by (nonlinear_arith)
            requires
                hidden <= entries@.len(),
                entries@.len() * 101 <= usize::MAX,
        {}
    }
    let percent = hidden_percentage(hidden, entries.len());
    let mut s = " | focus ".to_owned();
    s.append(target);
    s.append(" (");
    push_decimal(&mut s, hidden);
    s.append(" hidden, ");
    push_decimal(&mut s, percent);
    s.append("%)");
    s
}

// ---------------------------------------------------------------------------
// The status line

/// The search note of the status line: the query and its number of results,
/// while a search is typed or set.
pub open spec fn search_note(query: Seq<char>, editing: bool, matches: nat) -> Seq<char> {
    if query.len() == 0 && !editing {
        Seq::empty()
    } else {
        " | "@ + (if editing {
            "search /"@
        } else {
            "search "@
        }) + query + " ("@ + decimal(matches) + " results)"@
    }
}

/// The search note of the status line.
pub fn search_status(entries: &VecDeque<LogEntry>, state: &ViewState) -> (s: String)
    ensures
        s@ == search_note(state.search_query@, state.search_editing, search_matches(entries@, state@).len()),
{
    if state.search_query.as_str().is_empty() && !state.search_editing {
        return String::new();
    }
    let matches = search_match_indices(entries, state);
    let mut s = " | ".to_owned();
    if state.search_editing {
        s.append("search /");
    } else {
        s.append("search ");
    }
    s.append(state.search_query.as_str());
    s.append(" (");
    push_decimal(&mut s, matches.len());
    s.append(" results)");
    s
}

/// What the process is doing, as the status line says it.
pub open spec fn process_note(exit: Option<Seq<char>>, input_finished: bool) -> Seq<char> {
    match exit {
        Some(description) => "exited "@ + description,
        None => if input_finished {
            "loaded"@
        } else {
            "running"@
        },
    }
}

/// "on" or "off".
pub open spec fn on_off(b: bool) -> Seq<char> {
    if b {
        "on"@
    } else {
        "off"@
    }
}

/// The counts of the entries in a focus, by level.
pub open spec fn focus_counts(entries: Seq<LogEntry>, focus: Option<Seq<char>>) -> LevelCounts {
    LevelCounts {
        error: level_count(entries, focus, Level::Error) as usize,
        warn: level_count(entries, focus, Level::Warn) as usize,
        info: level_count(entries, focus, Level::Info) as usize,
        debug: level_count(entries, focus, Level::Debug) as usize,
        trace: level_count(entries, focus, Level::Trace) as usize,
        unknown: level_count(entries, focus, Level::Unknown) as usize,
    }
}

/// The start of the status line: process state, selected line out of all
/// lines, and whether the view follows the newest line.
pub open spec fn status_head(count: nat, selected: Option<usize>, exit: Option<Seq<char>>, input_finished: bool) -> Seq<char> {
    let shown: nat = match selected {
        Some(i) => (i + 1) as nat,
        None => 0,
    };
    let follow = match selected {
        Some(i) => if i + 1 == count {
            " | auto-scroll"@
        } else {
            ""@
        },
        None => ""@,
    };
    " "@ + process_note(exit, input_finished) + " | line "@ + decimal(shown) + "/"@ + decimal(count)
        + follow
}

/// The end of the status line: level counts, filter, horizontal scroll and
/// display toggles.
pub open spec fn status_tail(counts: LevelCounts, filter: LevelFilter, x_offset: usize, show_spans: bool, show_raw: bool) -> Seq<char> {
    " | lvl "@ + counts_summary(counts) + " | "@ + filter_label(filter) + " | x="@ + decimal(
        x_offset as nat,
    ) + " | spans "@ + on_off(show_spans) + " | raw "@ + on_off(show_raw) + " | ? help "@
}

/// The status line before it is fitted to the screen.
pub open spec fn status_text(
    entries: Seq<LogEntry>,
    state: ViewState,
    exit: Option<Seq<char>>,
    input_finished: bool,
) -> Seq<char> {
    let focus = match state@.focus_target {
        Some(t) => focus_note(entries, t),
        None => Seq::empty(),
    };
    status_head(entries.len(), state.selected, exit, input_finished) + focus + search_note(
        state.search_query@,
        state.search_editing,
        search_matches(entries, state@).len(),
    ) + status_tail(
        focus_counts(entries, state@.focus_target),
        state.level_filter,
        state.x_offset,
        state.show_spans,
        state.show_raw,
    )
}

/// The start of the status line.
fn status_head_text(count: usize, selected: Option<usize>, exit: Option<&str>, input_finished: bool) -> (s: String)
    requires
        selected matches Some(i) ==> i < usize::MAX,
    ensures
        s@ == status_head(
            count as nat,
            selected,
            match exit {
                Some(d) => Some(d@),
                None => None,
            },
            input_finished,
        ),
{
    let mut s = " ".to_owned();
    match exit {
        Some(description) => {
            s.append("exited ");
            s.append(description);
        },
        None => if input_finished {
            s.append("loaded");
        } else {
            s.append("running");
        },
    }
    s.append(" | line ");
    match selected {
        Some(i) => push_decimal(&mut s, i + 1),
        None => push_decimal(&mut s, 0),
    }
    s.append("/");
    push_decimal(&mut s, count);
    match selected {
        Some(i) => if i + 1 == count {
            s.append(" | auto-scroll");
        } else {
            s.append("");
        },
        None => s.append(""),
    }
    s
}

/// The end of the status line.
fn status_tail_text(counts: &LevelCounts, filter: LevelFilter, x_offset: usize, show_spans: bool, show_raw: bool) -> (s: String)
    ensures
        s@ == status_tail(*counts, filter, x_offset, show_spans, show_raw),
{
    let mut s = " | lvl ".to_owned();
    let summary = counts.summary();
    s.append(summary.as_str());
    s.append(" | ");
    s.append(filter.status_label());
    s.append(" | x=");
    push_decimal(&mut s, x_offset);
    s.append(" | spans ");
    if show_spans {
        s.append("on");
    } else {
        s.append("off");
    }
    s.append(" | raw ");
    if show_raw {
        s.append("on");
    } else {
        s.append("off");
    }
    s.append(" | ? help ");
    s
}

/// The status line fitted to `width` columns. `exit` describes how the
/// process ended, once it has.
pub fn status_line(
    entries: &VecDeque<LogEntry>,
    state: &ViewState,
    exit: Option<&str>,
    input_finished: bool,
    width: usize,
) -> (s: String)
    requires
        entries@.len() * 101 <= usize::MAX,
        state.selected matches Some(i) ==> i < usize::MAX,
    ensures
        s@ == fit(
            status_text(
                entries@,
                *state,
                match exit {
                    Some(d) => Some(d@),
                    None => None,
                },
                input_finished,
            ),
            width as nat,
        ),
{
    let mut s = status_head_text(entries.len(), state.selected, exit, input_finished);
    let ghost head = s@;
    match &state.focus_target {
        Some(target) => {
            let note = focus_status(entries, target.as_str());
            s.append(note.as_str());
        },
        None => {},
    }
    let ghost with_focus = s@;
    let search = search_status(entries, state);
    s.append(search.as_str());
    let counts = LevelCounts::from_entries(entries, state);
    proof {
        assert(counts == focus_counts(entries@, state@.focus_target)) by {
            assert(count_of(counts, Level::Error) == counts.error);
            assert(count_of(counts, Level::Warn) == counts.warn);
            assert(count_of(counts, Level::Info) == counts.info);
            assert(count_of(counts, Level::Debug) == counts.debug);
            assert(count_of(counts, Level::Trace) == counts.trace);
            assert(count_of(counts, Level::Unknown) == counts.unknown);
        }
    }
    let tail = status_tail_text(&counts, state.level_filter, state.x_offset, state.show_spans, state.show_raw);
    s.append(tail.as_str());
    proof {
        let focus = match state@.focus_target {
            Some(t) => focus_note(entries@, t),
            None => Seq::<char>::empty(),
        };
        assert(with_focus =~= head + focus);
        assert(s@ =~= status_text(
            entries@,
            *state,
            match exit {
                Some(d) => Some(d@),
                None => None,
            },
            input_finished,
        ));
    }
    fit_to_width(s.as_str(), width)
}

// ---------------------------------------------------------------------------
// Colouring the filter label

/// The first position where `needle` occurs in `hay`.
pub open spec fn first_occurrence(hay: Seq<char>, needle: Seq<char>) -> Option<int> {
    if exists|i: int| occurs_at(hay, needle, i) {
        Some(choose|i: int| occurs_at(hay, needle, i) && forall|j: int| 0 <= j < i ==> !occurs_at(hay, needle, j))
    } else {
        None
    }
}

/// The status line cut around the first occurrence of the filter label, so
/// that the label can be drawn in the filter's colour; `None` when the
/// label does not occur.
pub fn split_status(status: &str, label: &str) -> (r: Option<(String, String, String)>)
    ensures
        match r {
            Some((before, middle, after)) => first_occurrence(status@, label@) matches Some(p) && {
                &&& before@ == status@.take(p)
                &&& middle@ == label@
                &&& after@ == status@.skip(p + label@.len())
            },
            None => first_occurrence(status@, label@) is None,
        },
{
    let hay = chars_of(status);
    let needle = chars_of(label);
    match find_occurrence(hay.as_slice(), needle.as_slice()) {
        Some(p) => {
            proof {
                let c = choose|c: int|
                    occurs_at(status@, label@, c) && forall|j: int| 0 <= j < c ==> !occurs_at(status@, label@, j);
                assert(c == p as int);
            }
            assert(hay@.len() == hay.len());
            let before = string_from_range(hay.as_slice(), 0, p);
            let after = string_from_range(hay.as_slice(), p + needle.len(), hay.len());
            proof {
                assert(before@ =~= status@.take(p as int));
                assert(after@ =~= status@.skip(p + label@.len()));
            }
            Some((before, label.to_owned(), after))
        },
        None => None,
    }
}

/// The first position where `needle` occurs in `hay`.
fn find_occurrence(hay: &[char], needle: &[char]) -> (r: Option<usize>)
    ensures
        match r {
            Some(p) => {
                &&& occurs_at(hay@, needle@, p as int)
                &&& forall|j: int| 0 <= j < p ==> !occurs_at(hay@, needle@, j)
                &&& p + needle@.len() <= hay@.len()
            },
            None => forall|j: int| !occurs_at(hay@, needle@, j),
        },
{
    if needle.len() > hay.len() {
        return None;
    }
    let last = hay.len() - needle.len();
    let mut i: usize = 0;
    loop
        invariant
            i <= last,
            last + needle@.len() == hay@.len(),
            forall|j: int| 0 <= j < i ==> !occurs_at(hay@, needle@, j),
        decreases last - i,
    {
        if occurs_at_exec(hay, needle, i) {
            return Some(i);
        }
        if i == last {
            return None;
        }
        i = i + 1;
    }
}

// ---------------------------------------------------------------------------
// The help page

/// The lines of the help page.
pub open spec fn help_line(i: int) -> Seq<char> {
    if i == 0 {
        "tv help"@
    } else if i == 1 {
        ""@
    } else if i == 2 {
        "Actions"@
    } else if i == 3 {
        "  f               focus selected target, or clear focus"@
    } else if i == 4 {
        "  s               toggle span information"@
    } else if i == 5 {
        "  r               toggle raw log line display"@
    } else if i == 6 {
        "  1..5            filter all, debug+, info+, warn+, error"@
    } else if i == 7 {
        "  v / V           toggle tracing values pane or fullscreen"@
    } else if i == 8 {
        "  /               search raw log lines"@
    } else if i == 9 {
        "  n / b           jump to next or previous search result"@
    } else if i == 10 {
        "  Esc             clear search, close help, or close values pane"@
    } else if i == 11 {
        "  y               copy selected line or value to clipboard"@
    } else if i == 12 {
        "  ?               toggle this help page"@
    } else if i == 13 {
        "  q               exit after the process ends"@
    } else if i == 14 {
        "  Ctrl-C          kill process and exit"@
    } else if i == 15 {
        ""@
    } else if i == 16 {
        "Navigation"@
    } else if i == 17 {
        "  Up / Down       move cursor one line"@
    } else if i == 18 {
        "  PgUp / PgDown   move cursor one page"@
    } else if i == 19 {
        "  Home / Pos1     move cursor to first retained line"@
    } else if i == 20 {
        "  End             move cursor to last retained line"@
    } else {
        "  Left / Right    scroll horizontally, or scroll values pane"@
    }
}

/// The number of lines of the help page.
pub const HELP_LINES: usize = 22;

/// Headings are cyan, the rest white.
pub open spec fn help_line_color(i: int) -> Color {
    if i == 0 || i == 2 || i == 16 {
        Color::Cyan
    } else {
        Color::White
    }
}

/// One line of the help page.
fn help_line_text(i: usize) -> (s: &'static str)
    requires
        i < HELP_LINES,
    ensures
        s@ == help_line(i as int),
{
    if i == 0 {
        "tv help"
    } else if i == 1 {
        ""
    } else if i == 2 {
        "Actions"
    } else if i == 3 {
        "  f               focus selected target, or clear focus"
    } else if i == 4 {
        "  s               toggle span information"
    } else if i == 5 {
        "  r               toggle raw log line display"
    } else if i == 6 {
        "  1..5            filter all, debug+, info+, warn+, error"
    } else if i == 7 {
        "  v / V           toggle tracing values pane or fullscreen"
    } else if i == 8 {
        "  /               search raw log lines"
    } else if i == 9 {
        "  n / b           jump to next or previous search result"
    } else if i == 10 {
        "  Esc             clear search, close help, or close values pane"
    } else if i == 11 {
        "  y               copy selected line or value to clipboard"
    } else if i == 12 {
        "  ?               toggle this help page"
    } else if i == 13 {
        "  q               exit after the process ends"
    } else if i == 14 {
        "  Ctrl-C          kill process and exit"
    } else if i == 15 {
        ""
    } else if i == 16 {
        "Navigation"
    } else if i == 17 {
        "  Up / Down       move cursor one line"
    } else if i == 18 {
        "  PgUp / PgDown   move cursor one page"
    } else if i == 19 {
        "  Home / Pos1     move cursor to first retained line"
    } else if i == 20 {
        "  End             move cursor to last retained line"
    } else {
        "  Left / Right    scroll horizontally, or scroll values pane"
    }
}

/// The rows of the help page on a screen `cols` wide with `content_rows`
/// rows: as many lines as fit, each cut to the width, with its colour.
pub fn help_page_rows(cols: usize, content_rows: usize) -> (rows: Vec<(String, Color)>)
    ensures
        rows@.len() == if content_rows < HELP_LINES {
            content_rows
        } else {
            HELP_LINES
        },
        forall|i: int|
            0 <= i < rows@.len() ==> {
                &&& (#[trigger] rows@[i]).0@ == slice_chars(help_line(i), 0, cols as int)
                &&& rows@[i].1 == help_line_color(i)
            },
{
    let mut rows: Vec<(String, Color)> = Vec::new();
    let mut i: usize = 0;
    while i < HELP_LINES && i < content_rows
        invariant
            i <= HELP_LINES,
            i <= content_rows,
            rows@.len() == i,
            forall|k: int|
                0 <= k < i ==> {
                    &&& (#[trigger] rows@[k]).0@ == slice_chars(help_line(k), 0, cols as int)
                    &&& rows@[k].1 == help_line_color(k)
                },
        decreases HELP_LINES - i,
    {
        let line = help_line_text(i);
        let color = if i == 0 || i == 2 || i == 16 {
            Color::Cyan
        } else {
            Color::White
        };
        rows.push((visible_slice(line, 0, cols), color));
        i = i + 1;
    }
    rows
}

} // verus!
