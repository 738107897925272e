//! The tracing values pane: which section, field or spacer each row shows,
//! and the text copied for a selected line or value.

use vstd::prelude::*;
use std::collections::VecDeque;
use crate::model::{LogEntry, TraceValueField, TraceValueSection, field_total, render_value, value_field_count};
use crate::colors::{Color, spec_trace_value_color, trace_value_color};
use crate::layout::spaces;
use crate::render::{EntryRenderer, view_entry_parts, parts_text};
use crate::status::fit;
use crate::text::{chars_of, push_char, slice_chars, visible_slice};
use crate::view::{ValuesPaneMode, ValuesPaneState, ViewState, values_entry, selected_entry_for_values};

verus! {

/// What one row of the values pane shows, below its heading.
#[derive(Debug, PartialEq, Eq, Structural)]
pub enum ValuesPaneRow {
    /// The title of the section at this position of the entry's sections.
    Section(usize),
    /// A field: its number among all fields, its section and its position there.
    Field { index: usize, section: usize, position: usize },
    /// The empty row between two sections.
    Spacer,
}

/// The row `row` of the pane counted from section `k` on, where `first`
/// fields came before and a spacer is due when a section was shown.
/// Sections without fields are skipped.
pub open spec fn pane_row_from(
    sections: Seq<TraceValueSection>,
    k: int,
    row: int,
    first: int,
    needs_spacer: bool,
) -> Option<ValuesPaneRow>
    decreases sections.len() - k,
{
    if k < 0 || k >= sections.len() {
        None
    } else {
        let n = sections[k].fields@.len() as int;
        if n == 0 {
            pane_row_from(sections, k + 1, row, first, needs_spacer)
        } else if needs_spacer && row == 0 {
            Some(ValuesPaneRow::Spacer)
        } else {
            let r = if needs_spacer {
                row - 1
            } else {
                row
            };
            if r == 0 {
                Some(ValuesPaneRow::Section(k as usize))
            } else if r - 1 < n {
                Some(
                    ValuesPaneRow::Field {
                        index: (first + r - 1) as usize,
                        section: k as usize,
                        position: (r - 1) as usize,
                    },
                )
            } else {
                pane_row_from(sections, k + 1, r - 1 - n, first + n, true)
            }
        }
    }
}

/// The rows of the pane point at sections and fields that exist.
pub proof fn lemma_pane_row_in_range(
    sections: Seq<TraceValueSection>,
    k: int,
    row: int,
    first: int,
    needs_spacer: bool,
)
    requires
        0 <= k,
        0 <= row,
        sections.len() <= usize::MAX,
    ensures
        match pane_row_from(sections, k, row, first, needs_spacer) {
            Some(ValuesPaneRow::Section(j)) => k <= j < sections.len(),
            Some(ValuesPaneRow::Field { index, section, position }) => k <= section < sections.len()
                && position < sections[section as int].fields@.len(),
            _ => true,
        },
    decreases sections.len() - k,
{
    if k < sections.len() {
        let n = sections[k].fields@.len() as int;
        assert(sections[k].fields.len() == n);
        let r = if needs_spacer {
            row - 1
        } else {
            row
        };
        if n == 0 {
            lemma_pane_row_in_range(sections, k + 1, row, first, needs_spacer);
        } else if !(needs_spacer && row == 0) && r != 0 && !(r - 1 < n) {
            lemma_pane_row_in_range(sections, k + 1, r - 1 - n, first + n, true);
        }
    }
}

/// The number of fields in the sections before `k`.
pub open spec fn fields_before(sections: Seq<TraceValueSection>, k: int) -> nat {
    field_total(sections.take(k))
}

/// The fields before a section are at most all fields.
proof fn lemma_fields_before_bound(sections: Seq<TraceValueSection>, k: int)
    requires
        0 <= k <= sections.len(),
    ensures
        fields_before(sections, k) <= field_total(sections),
    decreases sections.len() - k,
{
    if k < sections.len() {
        lemma_fields_before_bound(sections, k + 1);
        assert(sections.take(k + 1).drop_last() =~= sections.take(k));
    } else {
        assert(sections.take(k) =~= sections);
    }
}

/// What row `row` of the values pane shows for an entry.
pub fn values_pane_row(entry: &LogEntry, row: usize) -> (r: Option<ValuesPaneRow>)
    requires
        field_total(entry.values@) <= usize::MAX,
    ensures
        r == pane_row_from(entry.values@, 0, row as int, 0, false),
{
    let ghost sections = entry.values@;
    let ghost row0 = row;
    let mut remaining = row;
    let mut field_index: usize = 0;
    let mut needs_spacer = false;
    let mut k: usize = 0;
    while k < entry.values.len()
        invariant
            sections == entry.values@,
            row0 == row,
            k <= sections.len(),
            field_index == fields_before(sections, k as int),
            field_total(sections) <= usize::MAX,
            pane_row_from(sections, 0, row0 as int, 0, false) == pane_row_from(
                sections,
                k as int,
                remaining as int,
                field_index as int,
                needs_spacer,
            ),
        decreases sections.len() - k,
    {
        let n = entry.values[k].fields.len();
        let ghost r0 = remaining;
        let ghost at_k = pane_row_from(sections, k as int, r0 as int, field_index as int, needs_spacer);
        proof {
            assert(n == sections[k as int].fields@.len());
            assert(sections.take(k + 1).drop_last() =~= sections.take(k as int));
            lemma_fields_before_bound(sections, k + 1);
            assert(sections.take(0) =~= Seq::<TraceValueSection>::empty());
        }
        if n == 0 {
            k = k + 1;
            continue;
        }
        if needs_spacer {
            if remaining == 0 {
                assert(at_k == Some(ValuesPaneRow::Spacer));
                return Some(ValuesPaneRow::Spacer);
            }
            remaining = remaining - 1;
        }
        if remaining == 0 {
            assert(at_k == Some(ValuesPaneRow::Section(k)));
            return Some(ValuesPaneRow::Section(k));
        }
        remaining = remaining - 1;
        if remaining < n {
            assert(at_k == Some(ValuesPaneRow::Field { index: (field_index + remaining) as usize, section: k, position: remaining }));
            return Some(ValuesPaneRow::Field { index: field_index + remaining, section: k, position: remaining });
        }
        remaining = remaining - n;
        field_index = field_index + n;
        needs_spacer = true;
        k = k + 1;
    }
    None
}

/// Where the `n`-th field (from zero) lies, counting from section `k`:
/// its section and its position there.
pub open spec fn nth_field_from(sections: Seq<TraceValueSection>, k: int, n: int) -> Option<(int, int)>
    decreases sections.len() - k,
{
    if k < 0 || k >= sections.len() {
        None
    } else if n < sections[k].fields@.len() {
        Some((k, n))
    } else {
        nth_field_from(sections, k + 1, n - sections[k].fields@.len())
    }
}

/// The `n`-th field of an entry's sections.
pub open spec fn nth_field(sections: Seq<TraceValueSection>, n: int) -> Option<TraceValueField> {
    match nth_field_from(sections, 0, n) {
        Some((k, p)) => Some(sections[k].fields@[p]),
        None => None,
    }
}

/// The field at position `selected` among all of an entry's values.
pub fn nth_value_field(entry: &LogEntry, selected: usize) -> (r: Option<&TraceValueField>)
    ensures
        match r {
            Some(f) => nth_field(entry.values@, selected as int) == Some(*f),
            None => nth_field(entry.values@, selected as int) is None,
        },
{
    let ghost sections = entry.values@;
    let mut remaining = selected;
    let mut k: usize = 0;
    while k < entry.values.len()
        invariant
            sections == entry.values@,
            k <= sections.len(),
            nth_field_from(sections, 0, selected as int) == nth_field_from(sections, k as int, remaining as int),
        decreases sections.len() - k,
    {
        let n = entry.values[k].fields.len();
        if remaining < n {
            return Some(&entry.values[k].fields[remaining]);
        }
        remaining = remaining - n;
        k = k + 1;
    }
    None
}

/// The text copied for a selected value: `key = value`.
pub open spec fn value_line(f: TraceValueField) -> Seq<char> {
    f.key@ + " = "@ + render_value(f.value)
}

/// The text copied for the selected value of the values pane, if one is selected.
pub open spec fn selected_value(entries: Seq<LogEntry>, state: ViewState) -> Option<Seq<char>> {
    match values_entry(entries, state@) {
        Some(i) => match state.values.selected {
            Some(sel) => match nth_field(entries[i as int].values@, sel as int) {
                Some(f) => Some(value_line(f)),
                None => None,
            },
            None => None,
        },
        None => None,
    }
}

/// The selected value as `key = value`, if the values pane has one selected.
pub fn selected_value_text(entries: &VecDeque<LogEntry>, state: &ViewState) -> (r: Option<String>)
    ensures
        match r {
            Some(t) => selected_value(entries@, *state) == Some(t@),
            None => selected_value(entries@, *state) is None,
        },
{
    let i = match selected_entry_for_values(entries, state) {
        Some(i) => i,
        None => return None,
    };
    let sel = match state.values.selected {
        Some(sel) => sel,
        None => return None,
    };
    let field = match nth_value_field(&entries[i], sel) {
        Some(f) => f,
        None => return None,
    };
    let mut text = field.key.clone();
    text.append(" = ");
    let value = field.value.text();
    text.append(value.as_str());
    Some(text)
}

/// The text copied for the selection: the selected value when the values
/// pane is open, else the selected line as drawn.
pub open spec fn selected_text(entries: Seq<LogEntry>, state: ViewState) -> Option<Seq<char>> {
    if state.values.mode != ValuesPaneMode::Closed {
        selected_value(entries, state)
    } else {
        match state.selected {
            Some(i) => if i < entries.len() {
                Some(parts_text(view_entry_parts(state, entries[i as int])))
            } else {
                None
            },
            None => None,
        }
    }
}

/// The text to copy for the current selection.
pub fn selected_line_text(entries: &VecDeque<LogEntry>, state: &ViewState) -> (r: Option<String>)
    ensures
        match r {
            Some(t) => selected_text(entries@, *state) == Some(t@),
            None => selected_text(entries@, *state) is None,
        },
{
    match state.values.mode {
        ValuesPaneMode::Closed => {},
        _ => return selected_value_text(entries, state),
    }
    let i = match state.selected {
        Some(i) => i,
        None => return None,
    };
    if i >= entries.len() {
        return None;
    }
    let renderer = EntryRenderer::from(state);
    Some(renderer.plain_text(&entries[i]))
}

// ---------------------------------------------------------------------------
// Drawing rows of the pane

/// `text` from column `x_offset` on, left-aligned in exactly `width` columns.
pub open spec fn padded(text: Seq<char>, x_offset: int, width: nat) -> Seq<char> {
    fit(slice_chars(text, x_offset, width as int), width)
}

/// `text` from column `x_offset` on, left-aligned in exactly `width` columns.
pub fn padded_text(text: &str, x_offset: usize, width: usize) -> (s: String)
    ensures
        s@ == padded(text@, x_offset as int, width as nat),
{
    let mut s = visible_slice(text, x_offset, width);
    let n = chars_of(s.as_str()).len();
    let mut k = n;
    while k < width
        invariant
            n <= k <= width,
            n == slice_chars(text@, x_offset as int, width as int).len(),
            s@ == slice_chars(text@, x_offset as int, width as int) + spaces((k - n) as nat),
        decreases width - k,
    {
        push_char(&mut s, ' ');
        proof {
            assert(s@ =~= slice_chars(text@, x_offset as int, width as int) + spaces((k + 1 - n) as nat));
        }
        k = k + 1;
    }
    proof {
        let t = slice_chars(text@, x_offset as int, width as int);
        if t.len() >= width {
            assert(t.take(width as int) =~= t);
            assert(spaces(0) =~= Seq::<char>::empty());
            assert(s@ =~= t);
        }
    }
    s
}

/// The segments of a field row: `key = ` in white then the value in its
/// colour, scrolled together by `x_offset` and fitted to `width` columns.
pub open spec fn value_row(key: Seq<char>, value: Seq<char>, value_color: Color, x_offset: usize, width: usize) -> Seq<(Seq<char>, Color)> {
    let prefix = key + " = "@;
    if x_offset < prefix.len() {
        let pw: nat = if prefix.len() - x_offset < width {
            (prefix.len() - x_offset) as nat
        } else {
            width as nat
        };
        seq![
            (padded(prefix, x_offset as int, pw), Color::White),
            (padded(value, 0, if width >= pw { (width - pw) as nat } else { 0 }), value_color),
        ]
    } else {
        seq![(padded(value, x_offset - prefix.len(), width as nat), value_color)]
    }
}

/// The segments of a field row of the values pane.
pub fn value_row_segments(key: &str, value: &str, value_color: Color, x_offset: usize, width: usize) -> (r: Vec<(String, Color)>)
    ensures
        r@.len() == value_row(key@, value@, value_color, x_offset, width).len(),
        forall|i: int|
            0 <= i < r@.len() ==> (#[trigger] r@[i]).0@ == value_row(key@, value@, value_color, x_offset, width)[i].0
                && r@[i].1 == value_row(key@, value@, value_color, x_offset, width)[i].1,
{
    let mut prefix = key.to_owned();
    prefix.append(" = ");
    let prefix_width = chars_of(prefix.as_str()).len();
    let mut r: Vec<(String, Color)> = Vec::new();
    if x_offset < prefix_width {
        let pw = if prefix_width - x_offset < width {
            prefix_width - x_offset
        } else {
            width
        };
        r.push((padded_text(prefix.as_str(), x_offset, pw), Color::White));
        r.push((padded_text(value, 0, width.saturating_sub(pw)), value_color));
    } else {
        r.push((padded_text(value, x_offset - prefix_width, width), value_color));
    }
    r
}

/// The label of an empty pane row: "No values" on the first row when the
/// entry has no values or there is no entry.
pub fn empty_pane_label(row: usize, field_count: Option<usize>) -> (s: &'static str)
    ensures
        s@ == if row == 1 && (field_count is None || field_count == Some(0usize)) {
            "No values"@
        } else {
            ""@
        },
{
    let empty = match field_count {
        None => true,
        Some(n) => n == 0,
    };
    if row == 1 && empty {
        "No values"
    } else {
        ""
    }
}

/// One row of the values pane: its coloured pieces, whether it is drawn
/// bold, and whether it is the selected field.
pub struct PaneLine {
    pub segments: Vec<(String, Color)>,
    pub bold: bool,
    pub selected: bool,
}

/// A row of the pane as text: pieces, bold, selected.
pub open spec fn pane_line(entry: Option<LogEntry>, state: ValuesPaneState, row: int, width: nat) -> (Seq<(Seq<char>, Color)>, bool, bool) {
    if row == 0 {
        (seq![(padded("Tracing values"@, 0, width), Color::Cyan)], true, false)
    } else {
        let shown = match entry {
            Some(e) => pane_row_from(e.values@, 0, row - 1, 0, false),
            None => None,
        };
        match shown {
            Some(ValuesPaneRow::Section(k)) => (
                seq![(padded(entry->0.values@[k as int].title@, 0, width), Color::Cyan)],
                true,
                false,
            ),
            Some(ValuesPaneRow::Field { index, section, position }) => {
                let f = entry->0.values@[section as int].fields@[position as int];
                (
                    value_row(
                        f.key@,
                        render_value(f.value),
                        spec_trace_value_color(f.value),
                        state.x_offset,
                        width as usize,
                    ),
                    false,
                    state.selected == Some(index),
                )
            },
            Some(ValuesPaneRow::Spacer) => (seq![(padded(""@, 0, width), Color::White)], false, false),
            None => {
                let empty = match entry {
                    None => true,
                    Some(e) => field_total(e.values@) == 0,
                };
                let label = if row == 1 && empty {
                    "No values"@
                } else {
                    ""@
                };
                (seq![(padded(label, 0, width), Color::White)], false, false)
            },
        }
    }
}

/// Whether a pane line holds the given pieces, bold and selected flags.
pub open spec fn line_matches(line: PaneLine, expected: (Seq<(Seq<char>, Color)>, bool, bool)) -> bool {
    &&& line.segments@.len() == expected.0.len()
    &&& forall|i: int|
        0 <= i < expected.0.len() ==> (#[trigger] line.segments@[i]).0@ == expected.0[i].0
            && line.segments@[i].1 == expected.0[i].1
    &&& line.bold == expected.1
    &&& line.selected == expected.2
}

/// A row holding one piece.
fn single_line(text: &str, width: usize, color: Color, bold: bool) -> (l: PaneLine)
    ensures
        line_matches(l, (seq![(padded(text@, 0, width as nat), color)], bold, false)),
{
    let mut segments: Vec<(String, Color)> = Vec::new();
    segments.push((padded_text(text, 0, width), color));
    PaneLine { segments, bold, selected: false }
}

/// Row `row` of the values pane showing `entry`, `width` columns wide.
pub fn values_pane_line(entry: Option<&LogEntry>, state: &ValuesPaneState, row: usize, width: usize) -> (l: PaneLine)
    requires
        entry matches Some(e) ==> field_total(e.values@) < usize::MAX,
    ensures
        line_matches(
            l,
            pane_line(
                match entry {
                    Some(e) => Some(*e),
                    None => None,
                },
                *state,
                row as int,
                width as nat,
            ),
        ),
{
    proof {
        reveal_strlit("Tracing values");
        reveal_strlit("No values");
        reveal_strlit("");
    }
    if row == 0 {
        return single_line("Tracing values", width, Color::Cyan, true);
    }
    let shown = match entry {
        Some(e) => values_pane_row(e, row - 1),
        None => None,
    };
    proof {
        match entry {
            Some(e) => {
                assert(e.values@.len() == e.values.len());
                lemma_pane_row_in_range(e.values@, 0, row - 1, 0, false);
            },
            None => {},
        }
    }
    match shown {
        Some(ValuesPaneRow::Section(k)) => {
            let e = entry.unwrap();
            single_line(e.values[k].title.as_str(), width, Color::Cyan, true)
        },
        Some(ValuesPaneRow::Field { index, section, position }) => {
            let e = entry.unwrap();
            let field = &e.values[section].fields[position];
            let value = field.value.text();
            let color = trace_value_color(&field.value);
            let segments = value_row_segments(field.key.as_str(), value.as_str(), color, state.x_offset, width);
            let selected = match state.selected {
                Some(s) => s == index,
                None => false,
            };
            PaneLine { segments, bold: false, selected }
        },
        Some(ValuesPaneRow::Spacer) => single_line("", width, Color::White, false),
        None => {
            let count = match entry {
                Some(e) => Some(value_field_count(e)),
                None => None,
            };
            single_line(empty_pane_label(row, count), width, Color::White, false)
        },
    }
}

/// The fields before section `k + 1` are those before `k` and those of `k`.
proof fn lemma_fields_before_step(sections: Seq<TraceValueSection>, k: int)
    requires
        0 <= k < sections.len(),
    ensures
        fields_before(sections, k + 1) == fields_before(sections, k) + sections[k].fields@.len(),
{
    assert(sections.take(k + 1).drop_last() =~= sections.take(k));
}

/// Counting from the first section reaches the same field as counting
/// from section `k` past the fields before it.
proof fn lemma_nth_field_skip(sections: Seq<TraceValueSection>, k: int, n: int)
    requires
        0 <= k <= sections.len(),
        n >= fields_before(sections, k),
    ensures
        nth_field_from(sections, 0, n) == nth_field_from(sections, k, n - fields_before(sections, k)),
    decreases k,
{
    if k == 0 {
        assert(sections.take(0) =~= Seq::<TraceValueSection>::empty());
    } else {
        lemma_fields_before_step(sections, k - 1);
        lemma_nth_field_skip(sections, k - 1, n);
    }
}

/// A field is found exactly when there are that many fields.
proof fn lemma_nth_field_found(sections: Seq<TraceValueSection>, k: int, m: int)
    requires
        0 <= k <= sections.len(),
        0 <= m,
    ensures
        nth_field_from(sections, k, m) is Some <==> m < field_total(sections) - fields_before(sections, k),
    decreases sections.len() - k,
{
    if k == sections.len() {
        assert(sections.take(k) =~= sections);
    } else {
        lemma_fields_before_step(sections, k);
        if m >= sections[k].fields@.len() {
            lemma_nth_field_found(sections, k + 1, m - sections[k].fields@.len());
        } else {
            lemma_fields_before_bound(sections, k + 1);
        }
    }
}

/// A field row counted from section `k` names a field at or after `k`
/// whose number is the fields before its section plus its position.
proof fn lemma_field_row_index(
    sections: Seq<TraceValueSection>,
    k: int,
    row: int,
    first: int,
    needs_spacer: bool,
)
    requires
        0 <= k,
        0 <= row,
        first == fields_before(sections, k),
        sections.len() <= usize::MAX,
        field_total(sections) <= usize::MAX,
    ensures
        pane_row_from(sections, k, row, first, needs_spacer) matches Some(
            ValuesPaneRow::Field { index, section, position },
        ) ==> {
            &&& k <= section < sections.len()
            &&& position < sections[section as int].fields@.len()
            &&& index == fields_before(sections, section as int) + position
        },
    decreases sections.len() - k,
{
    if k < sections.len() {
        let n = sections[k].fields@.len() as int;
        assert(sections[k].fields.len() == n);
        lemma_fields_before_step(sections, k);
        lemma_fields_before_bound(sections, k + 1);
        let r = if needs_spacer {
            row - 1
        } else {
            row
        };
        if n == 0 {
            lemma_field_row_index(sections, k + 1, row, first, needs_spacer);
        } else if !(needs_spacer && row == 0) && r != 0 && !(r - 1 < n) {
            lemma_field_row_index(sections, k + 1, r - 1 - n, first + n, true);
        }
    }
}

/// Law: the field a row of the values pane shows is the field that
/// `nth_value_field` finds under that row's field number, and a field
/// number finds a field exactly when the entry has more fields than it.
/// Field numbers are `usize`, so this is stated for entries whose fields
/// can all be numbered.
pub proof fn lemma_field_rows_agree_with_field_numbers(sections: Seq<TraceValueSection>, row: nat, n: nat)
    requires
        sections.len() <= usize::MAX,
        field_total(sections) <= usize::MAX,
    ensures
        pane_row_from(sections, 0, row as int, 0, false) matches Some(ValuesPaneRow::Field { index, section, position })
            ==> nth_field(sections, index as int) == Some(sections[section as int].fields@[position as int]),
        nth_field(sections, n as int) is Some <==> n < field_total(sections),
{
    assert(sections.take(0) =~= Seq::<TraceValueSection>::empty());
    lemma_field_row_index(sections, 0, row as int, 0, false);
    if let Some(ValuesPaneRow::Field { index, section, position }) = pane_row_from(sections, 0, row as int, 0, false) {
        lemma_nth_field_skip(sections, section as int, index as int);
        lemma_fields_before_bound(sections, section as int);
    }
    lemma_nth_field_found(sections, 0, n as int);
}

} // verus!
