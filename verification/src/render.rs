//! Rendering an entry into coloured parts: stream marker, timestamp, level,
//! target, spans and message, with search matches highlighted.

use vstd::prelude::*;
use crate::colors::{
    Color, spec_span_key_color, spec_span_name_color, spec_span_punctuation_color,
    spec_span_value_color, spec_string_color, spec_target_module_color, span_key_color,
    span_name_color, span_punctuation_color, span_value_color, string_color,
    target_module_color,
};
use crate::text::{chars_of, push_char, seq_contains, str_contains, string_from_chars, string_from_range};
use crate::view::ViewState;
use crate::model::{LogEntry, Level, level_label, stream_indicator};
use crate::colors::{
    level_color, message_color, spec_level_color, spec_message_color, spec_stream_color,
    stream_color,
};
use crate::model::{
    MessagePart, TraceValue, TraceValueField, json_string_literal, quoted_string, render_value,
    render_items, render_members, lemma_array_item_decreases, lemma_member_value_decreases,
};

verus! {

/// A run of text drawn in one style.
#[derive(Clone, Debug, PartialEq, Eq)]
pub struct Part {
    pub text: String,
    pub color: Color,
    pub bold: bool,
    pub highlighted: bool,
}

/// A part with its text as characters.
pub struct PartView {
    pub text: Seq<char>,
    pub color: Color,
    pub bold: bool,
    pub highlighted: bool,
}

impl View for Part {
    type V = PartView;

    open spec fn view(&self) -> PartView {
        PartView { text: self.text@, color: self.color, bold: self.bold, highlighted: self.highlighted }
    }
}

/// An unhighlighted part.
pub open spec fn part(text: Seq<char>, color: Color, bold: bool) -> PartView {
    PartView { text: text, color: color, bold: bold, highlighted: false }
}

/// The views of a list of parts.
pub open spec fn parts_view(parts: Seq<Part>) -> Seq<PartView> {
    parts.map_values(|p: Part| p@)
}

/// The text of a list of parts, concatenated.
pub open spec fn parts_text(parts: Seq<PartView>) -> Seq<char>
    decreases parts.len(),
{
    if parts.len() == 0 {
        Seq::empty()
    } else {
        parts_text(parts.drop_last()) + parts.last().text
    }
}

/// The text of the concatenation of two part lists is the concatenation of their texts.
pub proof fn lemma_parts_text_append(a: Seq<PartView>, b: Seq<PartView>)
    ensures
        parts_text(a + b) == parts_text(a) + parts_text(b),
    decreases b.len(),
{
    if b.len() == 0 {
        assert(a + b =~= a);
        assert(parts_text(b) =~= Seq::<char>::empty());
        assert(parts_text(a) + parts_text(b) =~= parts_text(a));
    } else {
        lemma_parts_text_append(a, b.drop_last());
        assert((a + b).drop_last() =~= a + b.drop_last());
        assert(parts_text(a) + parts_text(b) =~= parts_text(a) + parts_text(b.drop_last()) + b.last().text);
    }
}

impl Part {
    pub fn new(text: &str, color: Color, bold: bool) -> (p: Self)
        ensures
            p@ == part(text@, color, bold),
    {
        Part { text: text.to_owned(), color, bold, highlighted: false }
    }
}

/// Appends an unhighlighted part holding `text`.
fn push_part(parts: &mut Vec<Part>, text: String, color: Color, bold: bool)
    ensures
        parts_view(final(parts)@) == parts_view(old(parts)@).push(part(text@, color, bold)),
{
    parts.push(Part { text, color, bold, highlighted: false });
    proof {
        assert(parts_view(final(parts)@) =~= parts_view(old(parts)@).push(part(text@, color, bold)));
    }
}

/// Appends an unhighlighted part holding the literal `text`.
fn push_str_part(parts: &mut Vec<Part>, text: &str, color: Color, bold: bool)
    ensures
        parts_view(final(parts)@) == parts_view(old(parts)@).push(part(text@, color, bold)),
{
    push_part(parts, text.to_owned(), color, bold);
}

// ---------------------------------------------------------------------------
// Targets

/// The pieces of `s` between occurrences of `::`, splitting from the left as
/// `str::split` does; `start` is where the current piece began and `i` the
/// position being looked at.
pub open spec fn split_modules_from(s: Seq<char>, start: int, i: int) -> Seq<Seq<char>>
    decreases s.len() - i,
{
    if i + 1 >= s.len() {
        seq![s.subrange(start, s.len() as int)]
    } else if s[i] == ':' && s[i + 1] == ':' {
        seq![s.subrange(start, i)] + split_modules_from(s, i + 2, i + 2)
    } else {
        split_modules_from(s, start, i + 1)
    }
}

/// The modules of a target path: its pieces between `::` separators.
pub open spec fn split_modules(s: Seq<char>) -> Seq<Seq<char>> {
    split_modules_from(s, 0, 0)
}

/// Each module in its palette colour, with grey `::` between modules.
pub open spec fn module_parts(modules: Seq<Seq<char>>) -> Seq<PartView>
    decreases modules.len(),
{
    if modules.len() == 0 {
        Seq::empty()
    } else if modules.len() == 1 {
        seq![part(modules[0], spec_target_module_color(modules[0]), false)]
    } else {
        module_parts(modules.drop_last()) + seq![
            part(seq![':', ':'], Color::DarkGrey, false),
            part(modules.last(), spec_target_module_color(modules.last()), false),
        ]
    }
}

/// The position of the first whitespace character of `s`, or its length.
pub open spec fn first_whitespace(s: Seq<char>) -> int {
    if exists|i: int| 0 <= i < s.len() && is_whitespace(s[i]) {
        choose|i: int| 0 <= i < s.len() && is_whitespace(s[i]) && forall|j: int| 0 <= j < i ==> !is_whitespace(s[j])
    } else {
        s.len() as int
    }
}

/// The Unicode `White_Space` characters, which `char::is_whitespace` recognises.
pub open spec fn is_whitespace(c: char) -> bool {
    let u = c as u32;
    (0x09 <= u && u <= 0x0d) || u == 0x20 || u == 0x85 || u == 0xa0 || u == 0x1680 || (0x2000
        <= u && u <= 0x200a) || u == 0x2028 || u == 0x2029 || u == 0x202f || u == 0x205f || u
        == 0x3000
}

/// Whether `c` is a Unicode `White_Space` character.
pub fn char_is_whitespace(c: char) -> (r: bool)
    ensures
        r == is_whitespace(c),
{
    let u = c as u32;
    (0x09 <= u && u <= 0x0d) || u == 0x20 || u == 0x85 || u == 0xa0 || u == 0x1680 || (0x2000
        <= u && u <= 0x200a) || u == 0x2028 || u == 0x2029 || u == 0x202f || u == 0x205f || u
        == 0x3000
}

/// A target split into coloured modules up to its first whitespace, the rest
/// in grey, and a grey `: ` after it.
pub open spec fn target_parts(target: Seq<char>) -> Seq<PartView> {
    let split = first_whitespace(target);
    let path = target.take(split);
    let suffix = target.skip(split);
    module_parts(split_modules(path)) + (if suffix.len() > 0 {
        seq![part(suffix, Color::DarkGrey, false)]
    } else {
        Seq::empty()
    }) + seq![part(seq![':', ' '], Color::DarkGrey, false)]
}

/// Modules joined back together with `::` between them.
pub open spec fn join_modules(modules: Seq<Seq<char>>) -> Seq<char>
    decreases modules.len(),
{
    if modules.len() == 0 {
        Seq::empty()
    } else if modules.len() == 1 {
        modules[0]
    } else {
        join_modules(modules.drop_last()) + seq![':', ':'] + modules.last()
    }
}

/// Joining a module in front of others puts `::` after it.
proof fn lemma_join_modules_front(a: Seq<char>, rest: Seq<Seq<char>>)
    requires
        rest.len() > 0,
    ensures
        join_modules(seq![a] + rest) == a + seq![':', ':'] + join_modules(rest),
    decreases rest.len(),
{
    let all = seq![a] + rest;
    if rest.len() == 1 {
        assert(all.drop_last() =~= seq![a]);
        assert(all.last() == rest[0]);
        assert(join_modules(seq![a]) == a);
        assert(join_modules(rest) == rest[0]);
        assert(join_modules(all) == join_modules(all.drop_last()) + seq![':', ':'] + all.last());
    } else {
        lemma_join_modules_front(a, rest.drop_last());
        assert(all.drop_last() =~= seq![a] + rest.drop_last());
        assert(all.last() == rest.last());
        assert(join_modules(all) == join_modules(all.drop_last()) + seq![':', ':'] + all.last());
        assert(join_modules(rest) == join_modules(rest.drop_last()) + seq![':', ':'] + rest.last());
        assert(join_modules(all) =~= a + seq![':', ':'] + join_modules(rest));
    }
}

/// Splitting at `::` and joining back gives the text from `start` on.
proof fn lemma_split_join(s: Seq<char>, start: int, i: int)
    requires
        0 <= start <= i,
        i <= s.len() || (i == start && i <= s.len() + 1),
    ensures
        split_modules_from(s, start, i).len() > 0,
        start <= s.len() ==> join_modules(split_modules_from(s, start, i)) == s.subrange(start, s.len() as int),
    decreases s.len() - i,
{
    if i + 1 >= s.len() {
    } else if s[i] == ':' && s[i + 1] == ':' {
        lemma_split_join(s, i + 2, i + 2);
        let rest = split_modules_from(s, i + 2, i + 2);
        lemma_join_modules_front(s.subrange(start, i), rest);
        assert(s.subrange(start, i) + seq![':', ':'] + s.subrange(i + 2, s.len() as int) =~= s.subrange(start, s.len() as int));
    } else {
        lemma_split_join(s, start, i + 1);
    }
}

/// The module parts spell the modules joined with `::`.
proof fn lemma_module_parts_text(modules: Seq<Seq<char>>)
    ensures
        parts_text(module_parts(modules)) == join_modules(modules),
    decreases modules.len(),
{
    if modules.len() == 1 {
        let p = part(modules[0], spec_target_module_color(modules[0]), false);
        lemma_parts_text_one(p);
        assert(module_parts(modules) == seq![p]);
    } else if modules.len() > 1 {
        lemma_module_parts_text(modules.drop_last());
        let sep = part(seq![':', ':'], Color::DarkGrey, false);
        let mp = part(modules.last(), spec_target_module_color(modules.last()), false);
        let front = module_parts(modules.drop_last());
        let two = seq![sep, mp];
        lemma_parts_text_append(front, two);
        assert(two.drop_last() =~= seq![sep]);
        lemma_parts_text_one(sep);
        assert(parts_text(two) == parts_text(seq![sep]) + mp.text);
        assert(module_parts(modules) == front + two);
        assert(parts_text(module_parts(modules)) =~= join_modules(modules));
    }
}

/// The parts of a split target spell the path, the rest and `: `.
proof fn lemma_target_pieces_text(path: Seq<char>, suffix: Seq<char>)
    ensures
        parts_text(
            module_parts(split_modules(path)) + (if suffix.len() > 0 {
                seq![part(suffix, Color::DarkGrey, false)]
            } else {
                Seq::empty()
            }) + seq![part(seq![':', ' '], Color::DarkGrey, false)],
        ) == path + suffix + seq![':', ' '],
{
    lemma_split_join(path, 0, 0);
    lemma_module_parts_text(split_modules(path));
    assert(path.subrange(0, path.len() as int) =~= path);
    let mods = module_parts(split_modules(path));
    let sfx: Seq<PartView> = if suffix.len() > 0 {
        seq![part(suffix, Color::DarkGrey, false)]
    } else {
        Seq::empty()
    };
    let tail = seq![part(seq![':', ' '], Color::DarkGrey, false)];
    lemma_parts_text_append(mods, sfx);
    lemma_parts_text_append(mods + sfx, tail);
    lemma_parts_text_one(tail[0]);
    if suffix.len() > 0 {
        lemma_parts_text_one(sfx[0]);
    } else {
        assert(parts_text(sfx) =~= Seq::<char>::empty());
    }
    assert(parts_text(mods + sfx + tail) =~= path + suffix + seq![':', ' ']);
}

/// Law: the parts of a target spell the target followed by `: `.
#[verifier::spinoff_prover]
#[verifier::rlimit(40)]
pub proof fn lemma_target_parts_text(target: Seq<char>)
    ensures
        parts_text(target_parts(target)) == target + seq![':', ' '],
{
    lemma_first_whitespace(target);
    let split = first_whitespace(target);
    lemma_target_pieces_text(target.take(split), target.skip(split));
    assert(target.take(split) + target.skip(split) =~= target);
}

/// The first whitespace position lies within the text.
proof fn lemma_first_whitespace(s: Seq<char>)
    ensures
        0 <= first_whitespace(s) <= s.len(),
        forall|j: int| 0 <= j < first_whitespace(s) ==> !is_whitespace(s[j]),
{
    if exists|i: int| 0 <= i < s.len() && is_whitespace(s[i]) {
        let i = choose|i: int| 0 <= i < s.len() && is_whitespace(s[i]);
        lemma_minimal_whitespace(s, i);
    }
}

proof fn lemma_minimal_whitespace(s: Seq<char>, i: int)
    requires
        0 <= i < s.len(),
        is_whitespace(s[i]),
    ensures
        exists|c: int| 0 <= c < s.len() && is_whitespace(s[c]) && forall|j: int| 0 <= j < c ==> !is_whitespace(s[j]),
    decreases i,
{
    if exists|j: int| 0 <= j < i && is_whitespace(s[j]) {
        let j = choose|j: int| 0 <= j < i && is_whitespace(s[j]);
        lemma_minimal_whitespace(s, j);
    } else {
        assert(forall|j: int| 0 <= j < i ==> !is_whitespace(s[j]));
    }
}

/// The position of the first whitespace character of `v`, or its length.
fn find_whitespace(v: &[char]) -> (r: usize)
    ensures
        r == first_whitespace(v@),
{
    let mut i: usize = 0;
    while i < v.len()
        invariant
            i <= v@.len(),
            forall|j: int| 0 <= j < i ==> !is_whitespace(v@[j]),
        decreases v@.len() - i,
    {
        if char_is_whitespace(v[i]) {
            proof {
                assert(0 <= i < v@.len() && is_whitespace(v@[i as int]));
                let c = choose|c: int|
                    0 <= c < v@.len() && is_whitespace(v@[c]) && forall|j: int|
                        0 <= j < c ==> !is_whitespace(v@[j]);
                assert(c == i as int);
            }
            return i;
        }
        i = i + 1;
    }
    i
}

/// Appends the module parts of the path `v[..end]`.
fn push_module_parts(parts: &mut Vec<Part>, v: &[char], end: usize)
    requires
        end <= v@.len(),
    ensures
        parts_view(final(parts)@) == parts_view(old(parts)@) + module_parts(
            split_modules(v@.take(end as int)),
        ),
{
    let ghost path = v@.take(end as int);
    let ghost base = parts_view(parts@);
    let mut start: usize = 0;
    let mut i: usize = 0;
    let ghost mut done: Seq<Seq<char>> = Seq::empty();
    let mut pushed_any = false;
    while end - i > 1
        invariant
            end <= v@.len(),
            path == v@.take(end as int),
            start <= i,
            i <= end,
            split_modules(path) == done + split_modules_from(path, start as int, i as int),
            parts_view(parts@) == base + module_parts(done),
            pushed_any == (done.len() > 0),
        decreases end - i,
    {
        if v[i] == ':' && v[i + 1] == ':' {
            let module = string_from_range(v, start, i);
            let color = target_module_color(module.as_str());
            proof {
                assert(path[i as int] == v@[i as int] && path[i + 1] == v@[i + 1]);
                assert(module@ =~= path.subrange(start as int, i as int));
            }
            if pushed_any {
                push_str_part(parts, "::", Color::DarkGrey, false);
            }
            push_part(parts, module, color, false);
            pushed_any = true;
            proof {
                reveal_strlit("::");
                assert("::"@ =~= seq![':', ':']);
                let m = path.subrange(start as int, i as int);
                let nd = done.push(m);
                assert(nd.drop_last() =~= done);
                assert(nd.last() == m);
                let mp = part(m, spec_target_module_color(m), false);
                if done.len() > 0 {
                    let sep = part(seq![':', ':'], Color::DarkGrey, false);
                    assert(module_parts(nd) == module_parts(done) + seq![sep, mp]);
                    assert(parts_view(parts@) =~= (base + module_parts(done)).push(sep).push(mp));
                    assert(parts_view(parts@) =~= base + module_parts(nd));
                } else {
                    assert(module_parts(nd) == seq![mp]);
                    assert(module_parts(done) =~= Seq::<PartView>::empty());
                    assert(parts_view(parts@) =~= base + module_parts(nd));
                }
                assert(seq![m] + split_modules_from(path, i + 2, i + 2) =~= split_modules_from(
                    path,
                    start as int,
                    i as int,
                ));
                assert(done + split_modules_from(path, start as int, i as int) =~= nd
                    + split_modules_from(path, i + 2, i + 2));
                done = nd;
            }
            i = i + 2;
            start = i;
        } else {
            proof {
                assert(path[i as int] == v@[i as int] && path[i + 1] == v@[i + 1]);
            }
            i = i + 1;
        }
    }
    let module = string_from_range(v, start, end);
    let color = target_module_color(module.as_str());
    if pushed_any {
        push_str_part(parts, "::", Color::DarkGrey, false);
    }
    push_part(parts, module, color, false);
    proof {
        reveal_strlit("::");
        assert("::"@ =~= seq![':', ':']);
        let m = path.subrange(start as int, end as int);
        assert(module@ =~= m);
        assert(split_modules_from(path, start as int, i as int) =~= seq![m]);
        let nd = done.push(m);
        assert(nd.drop_last() =~= done);
        assert(nd.last() == m);
        assert(done + seq![m] =~= nd);
        let mp = part(m, spec_target_module_color(m), false);
        if done.len() > 0 {
            let sep = part(seq![':', ':'], Color::DarkGrey, false);
            assert(module_parts(nd) == module_parts(done) + seq![sep, mp]);
            assert(parts_view(parts@) =~= (base + module_parts(done)).push(sep).push(mp));
        } else {
            assert(module_parts(nd) == seq![mp]);
            assert(module_parts(done) =~= Seq::<PartView>::empty());
        }
        assert(parts_view(parts@) =~= base + module_parts(nd));
    }
}

impl EntryRenderer {
    /// Appends the parts of a target: coloured modules, grey remainder, grey `: `.
    pub fn push_target_parts(&self, parts: &mut Vec<Part>, target: &str)
        ensures
            parts_view(final(parts)@) == parts_view(old(parts)@) + target_parts(target@),
    {
        let v = chars_of(target);
        let split_at = find_whitespace(v.as_slice());
        proof {
            lemma_first_whitespace(v@);
        }
        let ghost base = parts_view(parts@);
        push_module_parts(parts, v.as_slice(), split_at);
        let ghost after_modules = parts_view(parts@);
        let ghost suffix = target@.skip(split_at as int);
        let ghost suffix_parts: Seq<PartView> = if suffix.len() > 0 {
            seq![part(suffix, Color::DarkGrey, false)]
        } else {
            Seq::empty()
        };
        if split_at < v.len() {
            let suffix_text = string_from_range(v.as_slice(), split_at, v.len());
            proof {
                assert(suffix_text@ =~= suffix);
            }
            push_part(parts, suffix_text, Color::DarkGrey, false);
            proof {
                assert(parts_view(parts@) =~= after_modules + suffix_parts);
            }
        } else {
            proof {
                assert(suffix =~= Seq::<char>::empty());
                assert(parts_view(parts@) =~= after_modules + suffix_parts);
            }
        }
        let ghost after_suffix = parts_view(parts@);
        push_str_part(parts, ": ", Color::DarkGrey, false);
        proof {
            reveal_strlit(": ");
            assert(": "@ =~= seq![':', ' ']);
            assert(target@.take(split_at as int) =~= v@.take(split_at as int));
            assert(parts_view(parts@) =~= base + target_parts(target@));
        }
    }
}

/// Renders entries into parts with the given display options.
#[derive(Clone, Debug)]
pub struct EntryRenderer {
    pub options: RenderOptions,
}

/// What the renderer shows: spans, the raw line, and which text to highlight.
#[derive(Clone, Debug)]
pub struct RenderOptions {
    pub show_spans: bool,
    pub show_raw: bool,
    pub search_query: String,
}

} // verus!

verus! {

// ---------------------------------------------------------------------------
// Spans

/// Where the span field scanner is after some characters.
pub struct SpanScan {
    pub parts: Seq<PartView>,
    pub token: Seq<char>,
    pub in_string: bool,
    pub escaped: bool,
    pub expecting_key: bool,
    pub expecting_value: bool,
}

/// The colour of a finished token: a key, a value by its kind, or default.
pub open spec fn token_color(token: Seq<char>, expecting_key: bool, expecting_value: bool) -> Color {
    if expecting_key {
        spec_span_key_color()
    } else if expecting_value {
        spec_span_value_color(token)
    } else {
        Color::Reset
    }
}

/// The parts with the pending token appended, if there is one.
pub open spec fn flush_token(parts: Seq<PartView>, token: Seq<char>, expecting_key: bool, expecting_value: bool) -> Seq<PartView> {
    if token.len() == 0 {
        parts
    } else {
        parts.push(part(token, token_color(token, expecting_key, expecting_value), false))
    }
}

/// Punctuation that closes a token and is drawn on its own.
pub open spec fn is_span_bracket(c: char) -> bool {
    c == '{' || c == '}' || c == '(' || c == ')' || c == '[' || c == ']' || c == ','
}

/// One step of the span field scanner.
pub open spec fn span_step(st: SpanScan, ch: char) -> SpanScan {
    if st.in_string {
        if st.escaped {
            SpanScan { token: st.token.push(ch), escaped: false, ..st }
        } else if ch == '\\' {
            SpanScan { token: st.token.push(ch), escaped: true, ..st }
        } else if ch == '"' {
            SpanScan {
                parts: st.parts.push(part(st.token.push(ch), spec_string_color(), false)),
                token: Seq::empty(),
                in_string: false,
                expecting_value: false,
                ..st
            }
        } else {
            SpanScan { token: st.token.push(ch), ..st }
        }
    } else if ch == '"' {
        SpanScan {
            parts: flush_token(st.parts, st.token, st.expecting_key, st.expecting_value),
            token: seq!['"'],
            in_string: true,
            ..st
        }
    } else if ch == '=' || ch == ':' {
        SpanScan {
            parts: flush_token(st.parts, st.token, st.expecting_key, st.expecting_value).push(
                part(seq![ch], spec_span_punctuation_color(), false),
            ),
            token: Seq::empty(),
            expecting_key: false,
            expecting_value: true,
            ..st
        }
    } else if is_span_bracket(ch) {
        SpanScan {
            parts: flush_token(st.parts, st.token, st.expecting_key, st.expecting_value).push(
                part(seq![ch], spec_span_punctuation_color(), false),
            ),
            token: Seq::empty(),
            expecting_key: ch == '{' || ch == ',' || ch == '(',
            expecting_value: false,
            ..st
        }
    } else if is_whitespace(ch) {
        SpanScan {
            parts: flush_token(st.parts, st.token, st.expecting_key, st.expecting_value).push(
                part(seq![ch], Color::Reset, false),
            ),
            token: Seq::empty(),
            expecting_key: !st.expecting_value,
            ..st
        }
    } else {
        SpanScan { token: st.token.push(ch), ..st }
    }
}

/// The scanner state after the first `n` characters.
pub open spec fn span_scan(fields: Seq<char>, n: nat) -> SpanScan
    decreases n,
{
    if n == 0 {
        SpanScan {
            parts: Seq::empty(),
            token: Seq::empty(),
            in_string: false,
            escaped: false,
            expecting_key: true,
            expecting_value: false,
        }
    } else {
        span_step(span_scan(fields, (n - 1) as nat), fields[n - 1])
    }
}

/// The parts of a span's field list (from its `{` on): keys, values,
/// strings and punctuation each in their colour.
pub open spec fn span_field_parts(fields: Seq<char>) -> Seq<PartView> {
    let st = span_scan(fields, fields.len());
    if st.in_string {
        st.parts.push(part(st.token, spec_string_color(), false))
    } else {
        flush_token(st.parts, st.token, st.expecting_key, st.expecting_value)
    }
}

/// The position of the first `{` in `s`, or its length.
pub open spec fn first_brace(s: Seq<char>) -> int {
    if exists|i: int| 0 <= i < s.len() && s[i] == '{' {
        choose|i: int| 0 <= i < s.len() && s[i] == '{' && forall|j: int| 0 <= j < i ==> s[j] != '{'
    } else {
        s.len() as int
    }
}

/// A span: its name in the span palette, then its fields.
pub open spec fn span_parts(span: Seq<char>) -> Seq<PartView> {
    let open = first_brace(span);
    if open < span.len() {
        seq![part(span.take(open), spec_span_name_color(span.take(open)), false)]
            + span_field_parts(span.skip(open))
    } else {
        seq![part(span, spec_span_name_color(span), false)]
    }
}

/// Each span followed by a grey `: `.
pub open spec fn spans_parts(spans: Seq<Seq<char>>) -> Seq<PartView>
    decreases spans.len(),
{
    if spans.len() == 0 {
        Seq::empty()
    } else {
        spans_parts(spans.drop_last()) + span_parts(spans.last()) + seq![
            part(seq![':', ' '], Color::DarkGrey, false),
        ]
    }
}

/// The texts of a list of strings.
pub open spec fn strings_view(v: Seq<String>) -> Seq<Seq<char>> {
    v.map_values(|s: String| s@)
}

/// Law: the scanner loses no character: the parts and the pending token
/// together spell the characters scanned so far.
pub proof fn lemma_span_scan_text(fields: Seq<char>, n: nat)
    requires
        n <= fields.len(),
    ensures
        parts_text(span_scan(fields, n).parts) + span_scan(fields, n).token == fields.take(n as int),
        span_scan(fields, n).in_string ==> span_scan(fields, n).token.len() > 0,
    decreases n,
{
    if n > 0 {
        lemma_span_scan_text(fields, (n - 1) as nat);
        let st = span_scan(fields, (n - 1) as nat);
        let ch = fields[n - 1];
        let prev = fields.take(n - 1);
        assert(fields.take(n as int) =~= prev.push(ch));
        let flushed = flush_token(st.parts, st.token, st.expecting_key, st.expecting_value);
        assert(parts_text(flushed) == parts_text(st.parts) + st.token) by {
            if st.token.len() == 0 {
                assert(parts_text(st.parts) + st.token =~= parts_text(st.parts));
            } else {
                let p = part(st.token, token_color(st.token, st.expecting_key, st.expecting_value), false);
                assert(flushed.drop_last() =~= st.parts);
            }
        }
        let next = span_scan(fields, n);
        if st.in_string {
            if !st.escaped && ch != '\\' && ch == '"' {
                assert(next.parts.drop_last() =~= st.parts);
                assert(parts_text(next.parts) + next.token =~= parts_text(st.parts) + st.token.push(ch));
            } else {
                assert(parts_text(next.parts) + next.token =~= parts_text(st.parts) + st.token.push(ch));
            }
        } else if ch == '"' {
            assert(parts_text(next.parts) + next.token =~= parts_text(flushed) + seq!['"']);
        } else if ch == '=' || ch == ':' || is_span_bracket(ch) || is_whitespace(ch) {
            assert(next.parts.drop_last() =~= flushed);
            assert(parts_text(next.parts) + next.token =~= parts_text(flushed) + seq![ch]);
        } else {
            assert(parts_text(next.parts) + next.token =~= parts_text(st.parts) + st.token.push(ch));
        }
    }
}

/// Law: the parts of a span's field list spell exactly the field list.
pub proof fn lemma_span_field_parts_text(fields: Seq<char>)
    ensures
        parts_text(span_field_parts(fields)) == fields,
{
    lemma_span_scan_text(fields, fields.len());
    let st = span_scan(fields, fields.len());
    assert(fields.take(fields.len() as int) =~= fields);
    if st.in_string {
        assert(span_field_parts(fields).drop_last() =~= st.parts);
    } else if st.token.len() == 0 {
        assert(parts_text(st.parts) + st.token =~= parts_text(st.parts));
    } else {
        assert(span_field_parts(fields).drop_last() =~= st.parts);
    }
}

/// Appends the pending token, coloured by what the scanner expected, and empties it.
pub fn flush_span_token(parts: &mut Vec<Part>, token: &mut String, expecting_key: bool, expecting_value: bool)
    ensures
        parts_view(final(parts)@) == flush_token(parts_view(old(parts)@), old(token)@, expecting_key, expecting_value),
        final(token)@ == Seq::<char>::empty(),
{
    if token.as_str().is_empty() {
        return;
    }
    let color = if expecting_key {
        span_key_color()
    } else if expecting_value {
        span_value_color(token.as_str())
    } else {
        Color::Reset
    };
    let text = token.clone();
    *token = String::new();
    push_part(parts, text, color, false);
}

/// Appends a one-character part.
fn push_char_part(parts: &mut Vec<Part>, ch: char, color: Color)
    ensures
        parts_view(final(parts)@) == parts_view(old(parts)@).push(part(seq![ch], color, false)),
{
    let mut s = String::new();
    push_char(&mut s, ch);
    proof {
        assert(s@ =~= seq![ch]);
    }
    push_part(parts, s, color, false);
}

impl EntryRenderer {
    /// Appends the parts of a span's field list (from its `{` on).
    pub fn push_span_fields(&self, parts: &mut Vec<Part>, fields: &str)
        ensures
            parts_view(final(parts)@) == parts_view(old(parts)@) + span_field_parts(fields@),
    {
        let chars = chars_of(fields);
        let ghost base = parts_view(parts@);
        let ghost mut scanned: Seq<PartView> = Seq::empty();
        let mut token = String::new();
        let mut in_string = false;
        let mut escaped = false;
        let mut expecting_key = true;
        let mut expecting_value = false;
        let mut i: usize = 0;
        while i < chars.len()
            invariant
                i <= chars@.len(),
                chars@ == fields@,
                parts_view(parts@) == base + span_scan(fields@, i as nat).parts,
                token@ == span_scan(fields@, i as nat).token,
                in_string == span_scan(fields@, i as nat).in_string,
                escaped == span_scan(fields@, i as nat).escaped,
                expecting_key == span_scan(fields@, i as nat).expecting_key,
                expecting_value == span_scan(fields@, i as nat).expecting_value,
            decreases chars@.len() - i,
        {
            let ch = chars[i];
            let ghost st = span_scan(fields@, i as nat);
            let ghost before = parts_view(parts@);
            proof {
                assert(span_scan(fields@, (i + 1) as nat) == span_step(st, ch));
            }
            if in_string {
                if escaped {
                    push_char(&mut token, ch);
                    escaped = false;
                } else if ch == '\\' {
                    push_char(&mut token, ch);
                    escaped = true;
                } else if ch == '"' {
                    push_char(&mut token, ch);
                    let text = token.clone();
                    token = String::new();
                    push_part(parts, text, string_color(), false);
                    in_string = false;
                    expecting_value = false;
                    proof {
                        assert(parts_view(parts@) =~= base + span_step(st, ch).parts);
                    }
                } else {
                    push_char(&mut token, ch);
                }
            } else if ch == '"' {
                flush_span_token(parts, &mut token, expecting_key, expecting_value);
                push_char(&mut token, ch);
                in_string = true;
                proof {
                    assert(token@ =~= seq!['"']);
                    assert(parts_view(parts@) =~= base + span_step(st, ch).parts);
                }
            } else if ch == '=' || ch == ':' {
                flush_span_token(parts, &mut token, expecting_key, expecting_value);
                push_char_part(parts, ch, span_punctuation_color());
                expecting_key = false;
                expecting_value = true;
                proof {
                    assert(parts_view(parts@) =~= base + span_step(st, ch).parts);
                }
            } else if ch == '{' || ch == '}' || ch == '(' || ch == ')' || ch == '[' || ch == ']' || ch == ',' {
                flush_span_token(parts, &mut token, expecting_key, expecting_value);
                push_char_part(parts, ch, span_punctuation_color());
                expecting_key = ch == '{' || ch == ',' || ch == '(';
                expecting_value = false;
                proof {
                    assert(parts_view(parts@) =~= base + span_step(st, ch).parts);
                }
            } else if char_is_whitespace(ch) {
                flush_span_token(parts, &mut token, expecting_key, expecting_value);
                push_char_part(parts, ch, Color::Reset);
                expecting_key = !expecting_value;
                proof {
                    assert(parts_view(parts@) =~= base + span_step(st, ch).parts);
                }
            } else {
                push_char(&mut token, ch);
            }
            proof {
                assert(fields@[i as int] == ch);
                assert(token@ =~= span_step(st, ch).token);
                assert(parts_view(parts@) =~= base + span_step(st, ch).parts);
            }
            i = i + 1;
        }
        if in_string {
            push_part(parts, token, string_color(), false);
            proof {
                assert(parts_view(parts@) =~= base + span_field_parts(fields@));
            }
        } else {
            flush_span_token(parts, &mut token, expecting_key, expecting_value);
            proof {
                assert(parts_view(parts@) =~= base + span_field_parts(fields@));
            }
        }
    }
}

/// The position of the first `{` in `v`, or its length.
fn find_brace(v: &[char]) -> (r: usize)
    ensures
        r == first_brace(v@),
{
    let mut i: usize = 0;
    while i < v.len()
        invariant
            i <= v@.len(),
            forall|j: int| 0 <= j < i ==> v@[j] != '{',
        decreases v@.len() - i,
    {
        if v[i] == '{' {
            proof {
                assert(0 <= i < v@.len() && v@[i as int] == '{');
                let c = choose|c: int|
                    0 <= c < v@.len() && v@[c] == '{' && forall|j: int| 0 <= j < c ==> v@[j] != '{';
                assert(c == i as int);
            }
            return i;
        }
        i = i + 1;
    }
    i
}

impl EntryRenderer {
    /// Appends the parts of one span: its name, then its fields if it has any.
    pub fn push_span_part(&self, parts: &mut Vec<Part>, span: &str)
        ensures
            parts_view(final(parts)@) == parts_view(old(parts)@) + span_parts(span@),
    {
        let chars = chars_of(span);
        let open = find_brace(chars.as_slice());
        let ghost base = parts_view(parts@);
        if open < chars.len() {
            let name = string_from_range(chars.as_slice(), 0, open);
            let fields = string_from_range(chars.as_slice(), open, chars.len());
            proof {
                assert(name@ =~= span@.take(open as int));
                assert(fields@ =~= span@.skip(open as int));
            }
            let color = span_name_color(name.as_str());
            push_part(parts, name, color, false);
            let ghost mid = parts_view(parts@);
            self.push_span_fields(parts, fields.as_str());
            proof {
                assert(parts_view(parts@) =~= base + span_parts(span@));
            }
        } else {
            let name = string_from_chars(chars.as_slice());
            let color = span_name_color(name.as_str());
            push_part(parts, name, color, false);
            proof {
                assert(parts_view(parts@) =~= base + span_parts(span@));
            }
        }
    }

    /// Appends each span's parts followed by a grey `: `.
    pub fn push_span_parts(&self, parts: &mut Vec<Part>, spans: &[String])
        ensures
            parts_view(final(parts)@) == parts_view(old(parts)@) + spans_parts(strings_view(spans@)),
    {
        let ghost base = parts_view(parts@);
        let mut i: usize = 0;
        while i < spans.len()
            invariant
                i <= spans@.len(),
                parts_view(parts@) == base + spans_parts(strings_view(spans@.take(i as int))),
            decreases spans@.len() - i,
        {
            let ghost before = parts_view(parts@);
            self.push_span_part(parts, spans[i].as_str());
            push_str_part(parts, ": ", Color::DarkGrey, false);
            proof {
                reveal_strlit(": ");
                assert(": "@ =~= seq![':', ' ']);
                let t = strings_view(spans@.take(i + 1));
                assert(t.drop_last() =~= strings_view(spans@.take(i as int)));
                assert(t.last() == spans@[i as int]@);
                assert(parts_view(parts@) =~= base + spans_parts(t));
            }
            i = i + 1;
        }
        proof {
            assert(spans@.take(spans@.len() as int) =~= spans@);
        }
    }
}

} // verus!

verus! {

// ---------------------------------------------------------------------------
// Tracing values

/// The parts of a tracing value: scalars in their colour, strings quoted in
/// green, arrays and objects with bold brackets and grey separators.
pub open spec fn value_parts(v: TraceValue) -> Seq<PartView>
    decreases v,
{
    match v {
        TraceValue::Bool(b) => seq![
            part(
                if b {
                    seq!['t', 'r', 'u', 'e']
                } else {
                    seq!['f', 'a', 'l', 's', 'e']
                },
                Color::Reset,
                false,
            ),
        ],
        TraceValue::Null => seq![part(seq!['n', 'u', 'l', 'l'], Color::DarkGrey, false)],
        TraceValue::Number(n) => seq![part(n@, Color::Reset, false)],
        TraceValue::String(s) => seq![part(json_string_literal(s@), Color::Green, false)],
        TraceValue::Other(s) => seq![part(s@, Color::White, false)],
        TraceValue::Array(items) => seq![part(seq!['['], Color::Reset, true)] + items_parts(items@)
            + seq![part(seq![']'], Color::Reset, true)],
        TraceValue::Object(members) => seq![part(seq!['{'], Color::Reset, true)] + members_parts(
            members@,
        ) + seq![part(seq!['}'], Color::Reset, true)],
    }
}

/// Array items' parts separated by grey commas.
pub open spec fn items_parts(items: Seq<TraceValue>) -> Seq<PartView>
    decreases items,
{
    if items.len() == 0 {
        Seq::empty()
    } else if items.len() == 1 {
        value_parts(items[0])
    } else {
        items_parts(items.drop_last()) + seq![part(seq![','], Color::DarkGrey, false)] + value_parts(
            items.last(),
        )
    }
}

/// Object members' parts separated by grey commas.
pub open spec fn members_parts(members: Seq<(String, TraceValue)>) -> Seq<PartView>
    decreases members,
{
    if members.len() == 0 {
        Seq::empty()
    } else if members.len() == 1 {
        seq![part(json_string_literal(members[0].0@), Color::Blue, true), part(seq![':'], Color::DarkGrey, false)]
            + value_parts(members[0].1)
    } else {
        members_parts(members.drop_last()) + seq![part(seq![','], Color::DarkGrey, false)] + seq![
            part(json_string_literal(members.last().0@), Color::Blue, true),
            part(seq![':'], Color::DarkGrey, false),
        ] + value_parts(members.last().1)
    }
}

/// The text of a single part.
proof fn lemma_parts_text_one(p: PartView)
    ensures
        parts_text(seq![p]) == p.text,
{
    let e = seq![p].drop_last();
    assert(e =~= Seq::<PartView>::empty());
    assert(parts_text(e) =~= Seq::<char>::empty());
    assert(seq![p].last() == p);
    assert(parts_text(e) + p.text =~= p.text);
}

/// Law: a value's parts spell exactly the value's display text, so the
/// rendered line shows the same text as the values pane.
pub proof fn lemma_value_parts_text(v: TraceValue)
    ensures
        parts_text(value_parts(v)) == render_value(v),
    decreases v,
{
    match v {
        TraceValue::Array(items) => {
            assert(decreases_to!(v => items));
            lemma_items_parts_text(items@);
            let open_p = seq![part(seq!['['], Color::Reset, true)];
            let close_p = seq![part(seq![']'], Color::Reset, true)];
            lemma_parts_text_append(open_p, items_parts(items@));
            lemma_parts_text_append(open_p + items_parts(items@), close_p);
            lemma_parts_text_one(open_p[0]);
            lemma_parts_text_one(close_p[0]);
        },
        TraceValue::Object(members) => {
            assert(decreases_to!(v => members));
            lemma_members_parts_text(members@);
            let open_p = seq![part(seq!['{'], Color::Reset, true)];
            let close_p = seq![part(seq!['}'], Color::Reset, true)];
            lemma_parts_text_append(open_p, members_parts(members@));
            lemma_parts_text_append(open_p + members_parts(members@), close_p);
            lemma_parts_text_one(open_p[0]);
            lemma_parts_text_one(close_p[0]);
        },
        _ => {
            lemma_parts_text_one(value_parts(v)[0]);
            assert(value_parts(v) =~= seq![value_parts(v)[0]]);
        },
    }
}

/// The items' parts spell the items' display text.
pub proof fn lemma_items_parts_text(items: Seq<TraceValue>)
    ensures
        parts_text(items_parts(items)) == render_items(items),
    decreases items,
{
    if items.len() == 1 {
        lemma_value_parts_text(items[0]);
    } else if items.len() > 1 {
        lemma_items_parts_text(items.drop_last());
        lemma_value_parts_text(items.last());
        let comma = seq![part(seq![','], Color::DarkGrey, false)];
        lemma_parts_text_one(comma[0]);
        lemma_parts_text_append(items_parts(items.drop_last()), comma);
        lemma_parts_text_append(items_parts(items.drop_last()) + comma, value_parts(items.last()));
    }
}

/// The members' parts spell the members' display text.
pub proof fn lemma_members_parts_text(members: Seq<(String, TraceValue)>)
    ensures
        parts_text(members_parts(members)) == render_members(members),
    decreases members,
{
    if members.len() >= 1 {
        let m = members.last();
        assert(decreases_to!(members => m));
        lemma_value_parts_text(m.1);
        let kp = seq![part(json_string_literal(m.0@), Color::Blue, true), part(seq![':'], Color::DarkGrey, false)];
        assert(parts_text(kp) =~= json_string_literal(m.0@) + seq![':']) by {
            assert(kp.drop_last() =~= seq![kp[0]]);
            lemma_parts_text_one(kp[0]);
        }
        lemma_parts_text_append(kp, value_parts(m.1));
        if members.len() > 1 {
            lemma_members_parts_text(members.drop_last());
            let comma = seq![part(seq![','], Color::DarkGrey, false)];
            lemma_parts_text_one(comma[0]);
            lemma_parts_text_append(members_parts(members.drop_last()), comma);
            lemma_parts_text_append(members_parts(members.drop_last()) + comma, kp + value_parts(m.1));
            assert(members_parts(members) =~= members_parts(members.drop_last()) + comma + (kp + value_parts(m.1)));
        } else {
            assert(members[0] == m);
        }
    }
}

impl EntryRenderer {
    /// Appends the parts of a tracing value.
    pub fn push_trace_value(&self, parts: &mut Vec<Part>, value: &TraceValue)
        ensures
            parts_view(final(parts)@) == parts_view(old(parts)@) + value_parts(*value),
        decreases value,
    {
        let ghost base = parts_view(parts@);
        match value {
            TraceValue::Bool(b) => {
                proof {
                    reveal_strlit("true");
                    reveal_strlit("false");
                    assert("true"@ =~= seq!['t', 'r', 'u', 'e']);
                    assert("false"@ =~= seq!['f', 'a', 'l', 's', 'e']);
                }
                if *b {
                    push_str_part(parts, "true", Color::Reset, false);
                } else {
                    push_str_part(parts, "false", Color::Reset, false);
                }
                proof {
                    assert(parts_view(parts@) =~= base + value_parts(*value));
                }
            },
            TraceValue::Null => {
                proof {
                    reveal_strlit("null");
                    assert("null"@ =~= seq!['n', 'u', 'l', 'l']);
                }
                push_str_part(parts, "null", Color::DarkGrey, false);
                proof {
                    assert(parts_view(parts@) =~= base + value_parts(*value));
                }
            },
            TraceValue::Number(n) => {
                push_part(parts, n.clone(), Color::Reset, false);
                proof {
                    assert(parts_view(parts@) =~= base + value_parts(*value));
                }
            },
            TraceValue::String(s) => {
                push_part(parts, quoted_string(s.as_str()), Color::Green, false);
                proof {
                    assert(parts_view(parts@) =~= base + value_parts(*value));
                }
            },
            TraceValue::Other(s) => {
                push_part(parts, s.clone(), Color::White, false);
                proof {
                    assert(parts_view(parts@) =~= base + value_parts(*value));
                }
            },
            TraceValue::Array(items) => {
                proof {
                    reveal_strlit("[");
                    reveal_strlit("]");
                    reveal_strlit(",");
                    assert("["@ =~= seq!['[']);
                    assert("]"@ =~= seq![']']);
                    assert(","@ =~= seq![',']);
                }
                push_str_part(parts, "[", Color::Reset, true);
                let ghost opened = parts_view(parts@);
                let mut i: usize = 0;
                while i < items.len()
                    invariant
                        i <= items@.len(),
                        *value is Array,
                        value->Array_0 == *items,
                        parts_view(parts@) == opened + items_parts(items@.take(i as int)),
                        opened == base.push(part(seq!['['], Color::Reset, true)),
                        ","@ == seq![','],
                    decreases items@.len() - i,
                {
                    let ghost before = parts_view(parts@);
                    if i > 0 {
                        push_str_part(parts, ",", Color::DarkGrey, false);
                    }
                    proof {
                        lemma_array_item_decreases(*value, i as int);
                    }
                    self.push_trace_value(parts, &items[i]);
                    proof {
                        let t = items@.take(i + 1);
                        assert(t.drop_last() =~= items@.take(i as int));
                        assert(t.last() == items@[i as int]);
                        if i == 0 {
                            assert(t =~= seq![items@[0]]);
                            assert(items@.take(0) =~= Seq::<TraceValue>::empty());
                        }
                        assert(parts_view(parts@) =~= opened + items_parts(t));
                    }
                    i = i + 1;
                }
                push_str_part(parts, "]", Color::Reset, true);
                proof {
                    assert(items@.take(items@.len() as int) =~= items@);
                    assert(parts_view(parts@) =~= base + value_parts(*value));
                }
            },
            TraceValue::Object(members) => {
                proof {
                    reveal_strlit("{");
                    reveal_strlit("}");
                    reveal_strlit(",");
                    reveal_strlit(":");
                    assert("{"@ =~= seq!['{']);
                    assert("}"@ =~= seq!['}']);
                    assert(","@ =~= seq![',']);
                    assert(":"@ =~= seq![':']);
                }
                push_str_part(parts, "{", Color::Reset, true);
                let ghost opened = parts_view(parts@);
                let mut i: usize = 0;
                while i < members.len()
                    invariant
                        i <= members@.len(),
                        *value is Object,
                        value->Object_0 == *members,
                        parts_view(parts@) == opened + members_parts(members@.take(i as int)),
                        opened == base.push(part(seq!['{'], Color::Reset, true)),
                        ","@ == seq![','],
                        ":"@ == seq![':'],
                    decreases members@.len() - i,
                {
                    if i > 0 {
                        push_str_part(parts, ",", Color::DarkGrey, false);
                    }
                    let key = quoted_string(members[i].0.as_str());
                    push_part(parts, key, Color::Blue, true);
                    push_str_part(parts, ":", Color::DarkGrey, false);
                    proof {
                        lemma_member_value_decreases(*value, i as int);
                    }
                    self.push_trace_value(parts, &members[i].1);
                    proof {
                        let t = members@.take(i + 1);
                        assert(t.drop_last() =~= members@.take(i as int));
                        assert(t.last() == members@[i as int]);
                        if i == 0 {
                            assert(t =~= seq![members@[0]]);
                            assert(members@.take(0) =~= Seq::<(String, TraceValue)>::empty());
                        }
                        assert(parts_view(parts@) =~= opened + members_parts(t));
                    }
                    i = i + 1;
                }
                push_str_part(parts, "}", Color::Reset, true);
                proof {
                    assert(members@.take(members@.len() as int) =~= members@);
                    assert(parts_view(parts@) =~= base + value_parts(*value));
                }
            },
        }
    }
}

// ---------------------------------------------------------------------------
// Messages

/// Fields as `key=value`, keys in bold blue, separated by `sep` in grey.
pub open spec fn fields_parts(fields: Seq<TraceValueField>, sep: Seq<char>) -> Seq<PartView>
    decreases fields.len(),
{
    if fields.len() == 0 {
        Seq::empty()
    } else {
        fields_parts(fields.drop_last(), sep) + (if fields.len() > 1 {
            seq![part(sep, Color::DarkGrey, false)]
        } else {
            Seq::empty()
        }) + seq![
            part(fields.last().key@, Color::Blue, true),
            part(seq!['='], Color::DarkGrey, false),
        ] + value_parts(fields.last().value)
    }
}

/// The parts of one piece of a structured message: text in the base colour,
/// or fields in grey brackets (preceded by a space once text came before).
pub open spec fn message_part_parts(mp: MessagePart, base: Color, after_text: bool) -> Seq<PartView> {
    match mp {
        MessagePart::Text(t) => seq![part(t@, base, false)],
        MessagePart::Fields(f) => seq![
            part(
                if after_text {
                    seq![' ', '(']
                } else {
                    seq!['(']
                },
                Color::DarkGrey,
                false,
            ),
        ] + fields_parts(f@, seq![' ']) + seq![part(seq![')'], Color::DarkGrey, false)],
    }
}

/// Whether some piece of a structured message is text.
pub open spec fn has_text(mps: Seq<MessagePart>) -> bool {
    exists|i: int| 0 <= i < mps.len() && mps[i] is Text
}

/// The parts of a structured message, piece by piece.
pub open spec fn structured_parts(mps: Seq<MessagePart>, base: Color) -> Seq<PartView>
    decreases mps.len(),
{
    if mps.len() == 0 {
        Seq::empty()
    } else {
        structured_parts(mps.drop_last(), base) + message_part_parts(
            mps.last(),
            base,
            has_text(mps.drop_last()),
        )
    }
}

impl EntryRenderer {
    /// Appends fields as `key=value` separated by `separator`.
    pub fn push_trace_fields(&self, parts: &mut Vec<Part>, fields: &[TraceValueField], separator: &str)
        ensures
            parts_view(final(parts)@) == parts_view(old(parts)@) + fields_parts(fields@, separator@),
    {
        proof {
            reveal_strlit("=");
            assert("="@ =~= seq!['=']);
        }
        let ghost base = parts_view(parts@);
        let mut i: usize = 0;
        while i < fields.len()
            invariant
                i <= fields@.len(),
                parts_view(parts@) == base + fields_parts(fields@.take(i as int), separator@),
                "="@ == seq!['='],
            decreases fields@.len() - i,
        {
            if i > 0 {
                push_str_part(parts, separator, Color::DarkGrey, false);
            }
            push_part(parts, fields[i].key.clone(), Color::Blue, true);
            push_str_part(parts, "=", Color::DarkGrey, false);
            self.push_trace_value(parts, &fields[i].value);
            proof {
                let t = fields@.take(i + 1);
                assert(t.drop_last() =~= fields@.take(i as int));
                assert(t.last() == fields@[i as int]);
                assert(parts_view(parts@) =~= base + fields_parts(t, separator@));
            }
            i = i + 1;
        }
        proof {
            assert(fields@.take(fields@.len() as int) =~= fields@);
        }
    }

    /// Appends one piece of a structured message.
    pub fn push_message_part(&self, parts: &mut Vec<Part>, mp: &MessagePart, base_color: Color, after_text: bool)
        ensures
            parts_view(final(parts)@) == parts_view(old(parts)@) + message_part_parts(*mp, base_color, after_text),
    {
        let ghost base = parts_view(parts@);
        match mp {
            MessagePart::Text(text) => {
                push_part(parts, text.clone(), base_color, false);
                proof {
                    assert(parts_view(parts@) =~= base + message_part_parts(*mp, base_color, after_text));
                }
            },
            MessagePart::Fields(fields) => {
                proof {
                    reveal_strlit(" (");
                    reveal_strlit("(");
                    reveal_strlit(")");
                    reveal_strlit(" ");
                    assert(" ("@ =~= seq![' ', '(']);
                    assert("("@ =~= seq!['(']);
                    assert(")"@ =~= seq![')']);
                    assert(" "@ =~= seq![' ']);
                }
                if after_text {
                    push_str_part(parts, " (", Color::DarkGrey, false);
                } else {
                    push_str_part(parts, "(", Color::DarkGrey, false);
                }
                self.push_trace_fields(parts, fields.as_slice(), " ");
                push_str_part(parts, ")", Color::DarkGrey, false);
                proof {
                    assert(parts_view(parts@) =~= base + message_part_parts(*mp, base_color, after_text));
                }
            },
        }
    }

    /// Appends the pieces of a structured message in order.
    pub fn push_structured_message(&self, parts: &mut Vec<Part>, message_parts: &[MessagePart], base_color: Color)
        ensures
            parts_view(final(parts)@) == parts_view(old(parts)@) + structured_parts(message_parts@, base_color),
    {
        let ghost base = parts_view(parts@);
        let mut rendered_text = false;
        let mut i: usize = 0;
        while i < message_parts.len()
            invariant
                i <= message_parts@.len(),
                parts_view(parts@) == base + structured_parts(message_parts@.take(i as int), base_color),
                rendered_text == has_text(message_parts@.take(i as int)),
            decreases message_parts@.len() - i,
        {
            self.push_message_part(parts, &message_parts[i], base_color, rendered_text);
            let is_text = match &message_parts[i] {
                MessagePart::Text(_) => true,
                MessagePart::Fields(_) => false,
            };
            proof {
                let t = message_parts@.take(i + 1);
                assert(t.drop_last() =~= message_parts@.take(i as int));
                assert(t.last() == message_parts@[i as int]);
                assert(parts_view(parts@) =~= base + structured_parts(t, base_color));
                if is_text {
                    assert(t[i as int] is Text);
                } else if has_text(t) {
                    let j = choose|j: int| 0 <= j < t.len() && t[j] is Text;
                    assert(j < i);
                    assert(message_parts@.take(i as int)[j] is Text);
                }
                if rendered_text {
                    let j = choose|j: int| 0 <= j < i && message_parts@.take(i as int)[j] is Text;
                    assert(t[j] is Text);
                }
            }
            if is_text {
                rendered_text = true;
            }
            i = i + 1;
        }
        proof {
            assert(message_parts@.take(message_parts@.len() as int) =~= message_parts@);
        }
    }
}

/// Where the quoted-string scanner of a plain message is after some characters.
pub struct MessageScan {
    pub parts: Seq<PartView>,
    pub current: Seq<char>,
    pub in_string: bool,
    pub escaped: bool,
}

/// One step of the quoted-string scanner: quoted strings (escapes included)
/// become string-coloured parts, the text between them base-coloured parts.
pub open spec fn message_step(st: MessageScan, ch: char, base: Color) -> MessageScan {
    if st.in_string && st.escaped {
        MessageScan { current: st.current.push(ch), escaped: false, ..st }
    } else if st.in_string && ch == '\\' {
        MessageScan { current: st.current.push(ch), escaped: true, ..st }
    } else if ch == '"' {
        if st.in_string {
            MessageScan {
                parts: st.parts.push(part(st.current.push(ch), spec_string_color(), false)),
                current: Seq::empty(),
                in_string: false,
                escaped: false,
            }
        } else if st.current.len() > 0 {
            MessageScan {
                parts: st.parts.push(part(st.current, base, false)),
                current: seq![ch],
                in_string: true,
                escaped: false,
            }
        } else {
            MessageScan { current: seq![ch], in_string: true, ..st }
        }
    } else {
        MessageScan { current: st.current.push(ch), ..st }
    }
}

/// The scanner after the first `n` characters of `message`.
pub open spec fn message_scan(message: Seq<char>, base: Color, n: nat) -> MessageScan
    decreases n,
{
    if n == 0 {
        MessageScan { parts: Seq::empty(), current: Seq::empty(), in_string: false, escaped: false }
    } else {
        message_step(message_scan(message, base, (n - 1) as nat), message[n - 1], base)
    }
}

/// The parts of a plain message: quoted strings highlighted, an unterminated
/// one running to the end.
pub open spec fn plain_message_parts(message: Seq<char>, base: Color) -> Seq<PartView> {
    let st = message_scan(message, base, message.len());
    if st.current.len() > 0 {
        st.parts.push(part(st.current, if st.in_string { spec_string_color() } else { base }, false))
    } else {
        st.parts
    }
}

/// The parts of a message: the structured pieces when there are any, else
/// the plain text with its quoted strings highlighted.
pub open spec fn message_parts_of(message: Seq<char>, mps: Seq<MessagePart>, base: Color) -> Seq<PartView> {
    if mps.len() > 0 {
        structured_parts(mps, base)
    } else {
        plain_message_parts(message, base)
    }
}

/// Law: the plain-message scanner loses no character.
pub proof fn lemma_message_scan_text(message: Seq<char>, base: Color, n: nat)
    requires
        n <= message.len(),
    ensures
        parts_text(message_scan(message, base, n).parts) + message_scan(message, base, n).current
            == message.take(n as int),
    decreases n,
{
    if n > 0 {
        lemma_message_scan_text(message, base, (n - 1) as nat);
        let st = message_scan(message, base, (n - 1) as nat);
        let ch = message[n - 1];
        assert(message.take(n as int) =~= message.take(n - 1).push(ch));
        let next = message_scan(message, base, n);
        if next.parts.len() > st.parts.len() {
            assert(next.parts.drop_last() =~= st.parts);
        }
        assert(parts_text(next.parts) + next.current =~= parts_text(st.parts) + st.current.push(ch));
    }
}

/// Law: the parts of a plain message spell exactly the message.
pub proof fn lemma_plain_message_parts_text(message: Seq<char>, base: Color)
    ensures
        parts_text(plain_message_parts(message, base)) == message,
{
    lemma_message_scan_text(message, base, message.len());
    let st = message_scan(message, base, message.len());
    assert(message.take(message.len() as int) =~= message);
    if st.current.len() > 0 {
        assert(plain_message_parts(message, base).drop_last() =~= st.parts);
    } else {
        assert(parts_text(st.parts) + st.current =~= parts_text(st.parts));
    }
}

impl EntryRenderer {
    /// Appends the parts of a message: its structured pieces if it has any,
    /// else its text with quoted strings highlighted.
    pub fn push_message_parts(&self, parts: &mut Vec<Part>, message: &str, message_parts: &[MessagePart], base_color: Color)
        ensures
            parts_view(final(parts)@) == parts_view(old(parts)@) + message_parts_of(message@, message_parts@, base_color),
    {
        if message_parts.len() > 0 {
            self.push_structured_message(parts, message_parts, base_color);
            return;
        }
        let ghost base = parts_view(parts@);
        let chars = chars_of(message);
        let mut current = String::new();
        let mut in_string = false;
        let mut escaped = false;
        let mut i: usize = 0;
        while i < chars.len()
            invariant
                i <= chars@.len(),
                chars@ == message@,
                parts_view(parts@) == base + message_scan(message@, base_color, i as nat).parts,
                current@ == message_scan(message@, base_color, i as nat).current,
                in_string == message_scan(message@, base_color, i as nat).in_string,
                escaped == message_scan(message@, base_color, i as nat).escaped,
            decreases chars@.len() - i,
        {
            let ch = chars[i];
            let ghost st = message_scan(message@, base_color, i as nat);
            proof {
                assert(message_scan(message@, base_color, (i + 1) as nat) == message_step(st, ch, base_color));
            }
            if in_string && escaped {
                push_char(&mut current, ch);
                escaped = false;
            } else if in_string && ch == '\\' {
                push_char(&mut current, ch);
                escaped = true;
            } else if ch == '"' {
                if in_string {
                    push_char(&mut current, ch);
                    let text = current.clone();
                    current = String::new();
                    push_part(parts, text, string_color(), false);
                    in_string = false;
                    escaped = false;
                } else {
                    if !current.as_str().is_empty() {
                        let text = current.clone();
                        current = String::new();
                        push_part(parts, text, base_color, false);
                        escaped = false;
                    }
                    push_char(&mut current, ch);
                    in_string = true;
                }
            } else {
                push_char(&mut current, ch);
            }
            proof {
                assert(message@[i as int] == ch);
                assert(current@ =~= message_step(st, ch, base_color).current);
                assert(parts_view(parts@) =~= base + message_step(st, ch, base_color).parts);
            }
            i = i + 1;
        }
        if !current.as_str().is_empty() {
            let color = if in_string {
                string_color()
            } else {
                base_color
            };
            push_part(parts, current, color, false);
        }
        proof {
            assert(parts_view(parts@) =~= base + message_parts_of(message@, message_parts@, base_color));
        }
    }
}

} // verus!

verus! {

// ---------------------------------------------------------------------------
// Search highlighting

/// Whether `query` occurs in `text` starting at position `i`.
pub open spec fn occurs_at(text: Seq<char>, query: Seq<char>, i: int) -> bool {
    0 <= i && i + query.len() <= text.len() && text.subrange(i, i + query.len()) == query
}

/// Highlight flags for `text[i..]`: the leftmost occurrences of `query`,
/// taken without overlap from left to right, are flagged.
pub open spec fn match_mask_from(text: Seq<char>, query: Seq<char>, i: int) -> Seq<bool>
    decreases text.len() - i,
{
    if i >= text.len() {
        Seq::empty()
    } else if query.len() > 0 && occurs_at(text, query, i) {
        Seq::new(query.len(), |_k: int| true) + match_mask_from(text, query, i + query.len())
    } else {
        seq![false] + match_mask_from(text, query, i + 1)
    }
}

/// The maximal runs of equally flagged characters among the first `n`
/// characters of `t`, with their flag.
pub open spec fn flag_runs(t: Seq<char>, f: Seq<bool>, n: nat) -> Seq<(Seq<char>, bool)>
    decreases n,
{
    if n == 0 {
        Seq::empty()
    } else {
        let r = flag_runs(t, f, (n - 1) as nat);
        if r.len() > 0 && r.last().1 == f[n - 1] {
            r.update(r.len() - 1, (r.last().0.push(t[n - 1]), f[n - 1]))
        } else {
            r.push((seq![t[n - 1]], f[n - 1]))
        }
    }
}

/// A run of a part as a part of its own, highlighted if the run is flagged.
pub open spec fn run_part(p: PartView, run: (Seq<char>, bool)) -> PartView {
    PartView { text: run.0, color: p.color, bold: p.bold, highlighted: p.highlighted || run.1 }
}

/// A part cut at the boundaries of the flagged runs `f` over its text.
pub open spec fn segment_parts(p: PartView, f: Seq<bool>) -> Seq<PartView> {
    flag_runs(p.text, f, p.text.len()).map_values(|r: (Seq<char>, bool)| run_part(p, r))
}

/// Each part cut at the boundaries of the flags `mask` over the whole text.
pub open spec fn highlighted_parts(parts: Seq<PartView>, mask: Seq<bool>) -> Seq<PartView>
    decreases parts.len(),
{
    if parts.len() == 0 {
        Seq::empty()
    } else {
        let prev = parts.drop_last();
        let off = parts_text(prev).len() as int;
        highlighted_parts(prev, mask) + segment_parts(
            parts.last(),
            mask.subrange(off, off + parts.last().text.len()),
        )
    }
}

/// Whether some flag is set.
pub open spec fn any_flag(mask: Seq<bool>) -> bool {
    exists|i: int| 0 <= i < mask.len() && mask[i]
}

/// The parts with the occurrences of `query` in their joint text
/// highlighted; unchanged when the query is empty or does not occur.
pub open spec fn search_highlighted(parts: Seq<PartView>, query: Seq<char>) -> Seq<PartView> {
    let mask = match_mask_from(parts_text(parts), query, 0);
    if query.len() == 0 || !any_flag(mask) {
        parts
    } else {
        highlighted_parts(parts, mask)
    }
}

/// The texts of a list of runs, concatenated.
pub open spec fn runs_text(r: Seq<(Seq<char>, bool)>) -> Seq<char>
    decreases r.len(),
{
    if r.len() == 0 {
        Seq::empty()
    } else {
        runs_text(r.drop_last()) + r.last().0
    }
}

/// The mask has one flag per character from `i` on.
proof fn lemma_match_mask_len(text: Seq<char>, query: Seq<char>, i: int)
    requires
        0 <= i <= text.len(),
    ensures
        match_mask_from(text, query, i).len() == text.len() - i,
    decreases text.len() - i,
{
    if i < text.len() {
        if query.len() > 0 && occurs_at(text, query, i) {
            lemma_match_mask_len(text, query, i + query.len());
        } else {
            lemma_match_mask_len(text, query, i + 1);
        }
    }
}

/// The runs spell the characters they were cut from.
proof fn lemma_flag_runs_text(t: Seq<char>, f: Seq<bool>, n: nat)
    requires
        n <= t.len(),
    ensures
        runs_text(flag_runs(t, f, n)) == t.take(n as int),
        n > 0 ==> flag_runs(t, f, n).len() > 0,
    decreases n,
{
    if n > 0 {
        lemma_flag_runs_text(t, f, (n - 1) as nat);
        let r = flag_runs(t, f, (n - 1) as nat);
        let nr = flag_runs(t, f, n);
        assert(t.take(n as int) =~= t.take(n - 1).push(t[n - 1]));
        if r.len() > 0 && r.last().1 == f[n - 1] {
            assert(nr.drop_last() =~= r.drop_last());
            assert(runs_text(r) == runs_text(r.drop_last()) + r.last().0);
            assert(runs_text(nr) =~= runs_text(r.drop_last()) + r.last().0.push(t[n - 1]));
        } else {
            assert(nr.drop_last() =~= r);
            assert(runs_text(nr) =~= runs_text(r) + seq![t[n - 1]]);
        }
    }
}

/// The parts made of runs spell the runs' texts.
proof fn lemma_run_parts_text(p: PartView, r: Seq<(Seq<char>, bool)>)
    ensures
        parts_text(r.map_values(|x: (Seq<char>, bool)| run_part(p, x))) == runs_text(r),
    decreases r.len(),
{
    if r.len() > 0 {
        lemma_run_parts_text(p, r.drop_last());
        let m = r.map_values(|x: (Seq<char>, bool)| run_part(p, x));
        assert(m.drop_last() =~= r.drop_last().map_values(|x: (Seq<char>, bool)| run_part(p, x)));
    } else {
        let m = r.map_values(|x: (Seq<char>, bool)| run_part(p, x));
        assert(m =~= Seq::<PartView>::empty());
    }
}

/// Cutting a part into runs keeps its text.
proof fn lemma_segment_parts_text(p: PartView, f: Seq<bool>)
    ensures
        parts_text(segment_parts(p, f)) == p.text,
{
    lemma_flag_runs_text(p.text, f, p.text.len());
    lemma_run_parts_text(p, flag_runs(p.text, f, p.text.len()));
    assert(p.text.take(p.text.len() as int) =~= p.text);
}

/// Cutting every part keeps the joint text.
proof fn lemma_highlighted_parts_text(parts: Seq<PartView>, mask: Seq<bool>)
    ensures
        parts_text(highlighted_parts(parts, mask)) == parts_text(parts),
    decreases parts.len(),
{
    if parts.len() > 0 {
        let prev = parts.drop_last();
        let off = parts_text(prev).len() as int;
        let f = mask.subrange(off, off + parts.last().text.len());
        lemma_highlighted_parts_text(prev, mask);
        lemma_segment_parts_text(parts.last(), f);
        lemma_parts_text_append(highlighted_parts(prev, mask), segment_parts(parts.last(), f));
    }
}

/// Law: highlighting search matches never changes the text of a line, only
/// how its characters are grouped and coloured.
pub proof fn lemma_search_highlighted_text(parts: Seq<PartView>, query: Seq<char>)
    ensures
        parts_text(search_highlighted(parts, query)) == parts_text(parts),
{
    let mask = match_mask_from(parts_text(parts), query, 0);
    if !(query.len() == 0 || !any_flag(mask)) {
        lemma_highlighted_parts_text(parts, mask);
    }
}

/// The text of a list of parts, concatenated.
pub fn plain_text_of(parts: &[Part]) -> (s: String)
    ensures
        s@ == parts_text(parts_view(parts@)),
{
    let mut s = String::new();
    let mut i: usize = 0;
    while i < parts.len()
        invariant
            i <= parts@.len(),
            s@ == parts_text(parts_view(parts@.take(i as int))),
        decreases parts@.len() - i,
    {
        s.append(parts[i].text.as_str());
        proof {
            assert(parts_view(parts@.take(i + 1)).drop_last() =~= parts_view(parts@.take(i as int)));
        }
        i = i + 1;
    }
    proof {
        assert(parts@.take(parts@.len() as int) =~= parts@);
    }
    s
}

/// Pushing a part pushes its view.
proof fn lemma_parts_view_push(v: Seq<Part>, x: Part)
    ensures
        parts_view(v.push(x)) == parts_view(v).push(x@),
{
    assert(parts_view(v.push(x)) =~= parts_view(v).push(x@));
}

/// Mapping runs to parts commutes with pushing a run.
proof fn lemma_run_parts_push(p: PartView, r: Seq<(Seq<char>, bool)>, x: (Seq<char>, bool))
    ensures
        r.push(x).map_values(|y: (Seq<char>, bool)| run_part(p, y)) == r.map_values(
            |y: (Seq<char>, bool)| run_part(p, y),
        ).push(run_part(p, x)),
{
    assert(r.push(x).map_values(|y: (Seq<char>, bool)| run_part(p, y)) =~= r.map_values(
        |y: (Seq<char>, bool)| run_part(p, y),
    ).push(run_part(p, x)));
}

/// Whether `query` occurs in `text` at position `i`.
pub(crate) fn occurs_at_exec(text: &[char], query: &[char], i: usize) -> (r: bool)
    ensures
        r == occurs_at(text@, query@, i as int),
{
    if i > text.len() || query.len() > text.len() - i {
        return false;
    }
    let end = i + query.len();
    let mut j: usize = 0;
    while j < query.len()
        invariant
            i + query@.len() <= text@.len(),
            end == i + query@.len(),
            j <= query@.len(),
            forall|k: int| 0 <= k < j ==> text@[i + k] == query@[k],
        decreases query@.len() - j,
    {
        if text[i + j] != query[j] {
            proof {
                assert(text@.subrange(i as int, i + query@.len())[j as int] != query@[j as int]);
            }
            return false;
        }
        j = j + 1;
    }
    assert(text@.subrange(i as int, i + query@.len()) =~= query@);
    true
}

/// The highlight flags of `text`: one per character, set on the leftmost
/// non-overlapping occurrences of `query`.
pub fn match_mask(text: &[char], query: &[char]) -> (m: Vec<bool>)
    ensures
        m@ == match_mask_from(text@, query@, 0),
        m@.len() == text@.len(),
{
    let mut m: Vec<bool> = Vec::new();
    let mut i: usize = 0;
    while i < text.len()
        invariant
            i <= text@.len(),
            m@ + match_mask_from(text@, query@, i as int) == match_mask_from(text@, query@, 0),
        decreases text@.len() - i,
    {
        let ghost rest = match_mask_from(text@, query@, i as int);
        if query.len() > 0 && occurs_at_exec(text, query, i) {
            let ghost before = m@;
            let mut k: usize = 0;
            while k < query.len()
                invariant
                    k <= query@.len(),
                    m@ == before + Seq::new(k as nat, |_x: int| true),
                decreases query@.len() - k,
            {
                m.push(true);
                proof {
                    assert(m@ =~= before + Seq::new((k + 1) as nat, |_x: int| true));
                }
                k = k + 1;
            }
            proof {
                assert(rest == Seq::new(query@.len(), |_k: int| true) + match_mask_from(text@, query@, i + query@.len()));
                assert(m@ + match_mask_from(text@, query@, i + query@.len()) =~= before + rest);
            }
            i = i + query.len();
        } else {
            let ghost before = m@;
            m.push(false);
            proof {
                assert(rest == seq![false] + match_mask_from(text@, query@, i + 1));
                assert(m@ + match_mask_from(text@, query@, i + 1) =~= before + rest);
            }
            i = i + 1;
        }
    }
    proof {
        assert(match_mask_from(text@, query@, i as int) =~= Seq::<bool>::empty());
        assert(m@ =~= m@ + Seq::<bool>::empty());
        lemma_match_mask_len(text@, query@, 0);
    }
    m
}

/// Cuts rendered parts at the boundaries of search matches, highlighting the
/// pieces inside a match.
pub struct SearchHighlighter {
    pub mask: Vec<bool>,
    pub cursor: usize,
    pub highlighted: Vec<Part>,
}

impl SearchHighlighter {
    /// A highlighter for the occurrences of `query` in the joint text of
    /// `parts`; `None` when there is nothing to highlight.
    pub fn new(parts: &[Part], query: &str) -> (r: Option<Self>)
        ensures
            r is Some <==> (query@.len() > 0 && any_flag(
                match_mask_from(parts_text(parts_view(parts@)), query@, 0),
            )),
            r matches Some(h) ==> {
                &&& h.mask@ == match_mask_from(parts_text(parts_view(parts@)), query@, 0)
                &&& h.mask@.len() == parts_text(parts_view(parts@)).len()
                &&& h.cursor == 0
                &&& h.highlighted@.len() == 0
            },
    {
        if query.is_empty() {
            return None;
        }
        let text = plain_text_of(parts);
        let text_chars = chars_of(text.as_str());
        let query_chars = chars_of(query);
        let mask = match_mask(text_chars.as_slice(), query_chars.as_slice());
        let mut any = false;
        let mut i: usize = 0;
        while i < mask.len()
            invariant
                i <= mask@.len(),
                any == (exists|j: int| 0 <= j < i && mask@[j]),
            decreases mask@.len() - i,
        {
            if mask[i] {
                any = true;
            }
            i = i + 1;
        }
        if !any {
            return None;
        }
        Some(SearchHighlighter { mask, cursor: 0, highlighted: Vec::new() })
    }

    /// Cuts one part at the match boundaries that fall inside it.
    pub fn push_part(&mut self, part: Part)
        requires
            old(self).cursor + part.text@.len() <= old(self).mask@.len(),
        ensures
            final(self).mask@ == old(self).mask@,
            final(self).cursor == old(self).cursor + part.text@.len(),
            parts_view(final(self).highlighted@) == parts_view(old(self).highlighted@) + segment_parts(
                part@,
                old(self).mask@.subrange(old(self).cursor as int, old(self).cursor + part.text@.len()),
            ),
    {
        let chars = chars_of(part.text.as_str());
        let start = self.cursor;
        assert(self.mask@.len() == self.mask.len());
        let end = start + chars.len();
        let ghost p = part@;
        let ghost f = self.mask@.subrange(start as int, start + part.text@.len());
        let ghost base = parts_view(self.highlighted@);
        let mut current = String::new();
        let mut current_flag = false;
        let mut j: usize = 0;
        while j < chars.len()
            invariant
                chars@ == p.text,
                p == part@,
                j <= chars@.len(),
                start + chars@.len() <= self.mask@.len(),
                f == self.mask@.subrange(start as int, start + chars@.len()),
                j == 0 ==> parts_view(self.highlighted@) == base,
                j > 0 ==> {
                    let r = flag_runs(p.text, f, j as nat);
                    &&& r.len() > 0
                    &&& r.last() == (current@, current_flag)
                    &&& parts_view(self.highlighted@) == base + r.drop_last().map_values(
                        |x: (Seq<char>, bool)| run_part(p, x),
                    )
                },
                self.cursor == start,
                end == start + chars@.len(),
                self.mask@ == old(self).mask@,
                base == parts_view(old(self).highlighted@),
            decreases chars@.len() - j,
        {
            let flag = self.mask[start + j];
            let ch = chars[j];
            let ghost r = flag_runs(p.text, f, j as nat);
            proof {
                assert(f[j as int] == flag);
                assert(p.text[j as int] == ch);
            }
            if j > 0 && flag == current_flag {
                push_char(&mut current, ch);
                proof {
                    let nr = flag_runs(p.text, f, (j + 1) as nat);
                    assert(nr.drop_last() =~= r.drop_last());
                }
            } else {
                if j > 0 {
                    let text = current.clone();
                    let piece = Part { text, color: part.color, bold: part.bold, highlighted: part.highlighted || current_flag };
                    let ghost hb = self.highlighted@;
                    self.highlighted.push(piece);
                    proof {
                        lemma_parts_view_push(hb, piece);
                        assert(piece@ == run_part(p, r.last()));
                        lemma_run_parts_push(p, r.drop_last(), r.last());
                        assert(r.drop_last().push(r.last()) =~= r);
                        assert(parts_view(self.highlighted@) =~= base + r.map_values(|x: (Seq<char>, bool)| run_part(p, x)));
                    }
                } else {
                    proof {
                        assert(r =~= Seq::<(Seq<char>, bool)>::empty());
                        assert(parts_view(self.highlighted@) =~= base + r.map_values(|x: (Seq<char>, bool)| run_part(p, x)));
                    }
                }
                current = String::new();
                push_char(&mut current, ch);
                current_flag = flag;
                proof {
                    let nr = flag_runs(p.text, f, (j + 1) as nat);
                    assert(current@ =~= seq![ch]);
                    assert(nr.drop_last() =~= r);
                    assert(r.map_values(|x: (Seq<char>, bool)| run_part(p, x)) =~= nr.drop_last().map_values(|x: (Seq<char>, bool)| run_part(p, x)));
                }
            }
            j = j + 1;
        }
        if j > 0 {
            let ghost r = flag_runs(p.text, f, j as nat);
            let piece = Part { text: current, color: part.color, bold: part.bold, highlighted: part.highlighted || current_flag };
            let ghost hb = self.highlighted@;
            self.highlighted.push(piece);
            proof {
                lemma_parts_view_push(hb, piece);
                assert(piece@ == run_part(p, r.last()));
                lemma_run_parts_push(p, r.drop_last(), r.last());
                assert(r.drop_last().push(r.last()) =~= r);
                assert(chars@.len() == j);
                assert(parts_view(self.highlighted@) =~= base + r.map_values(|x: (Seq<char>, bool)| run_part(p, x)));
            }
        } else {
            proof {
                assert(flag_runs(p.text, f, 0) =~= Seq::<(Seq<char>, bool)>::empty());
                assert(parts_view(self.highlighted@) =~= base + segment_parts(p, f));
            }
        }
        self.cursor = end;
    }

    /// Cuts every part in turn and hands back the pieces.
    pub fn apply(self, parts: Vec<Part>) -> (r: Vec<Part>)
        requires
            self.cursor == 0,
            self.highlighted@.len() == 0,
            self.mask@.len() == parts_text(parts_view(parts@)).len(),
        ensures
            parts_view(r@) == highlighted_parts(parts_view(parts@), self.mask@),
    {
        let mut h = self;
        let ghost mask = h.mask@;
        let ghost all = parts_view(parts@);
        let mut i: usize = 0;
        while i < parts.len()
            invariant
                i <= parts@.len(),
                all == parts_view(parts@),
                h.mask@ == mask,
                mask.len() == parts_text(all).len(),
                h.cursor == parts_text(all.take(i as int)).len(),
                parts_view(h.highlighted@) == highlighted_parts(all.take(i as int), mask),
            decreases parts@.len() - i,
        {
            let part = Part {
                text: parts[i].text.clone(),
                color: parts[i].color,
                bold: parts[i].bold,
                highlighted: parts[i].highlighted,
            };
            proof {
                let t = all.take(i + 1);
                assert(t.drop_last() =~= all.take(i as int));
                assert(t.last() == part@);
                lemma_parts_text_append(t, all.skip(i + 1));
                assert(t + all.skip(i + 1) =~= all);
            }
            h.push_part(part);
            i = i + 1;
        }
        proof {
            assert(all.take(parts@.len() as int) =~= all);
        }
        h.highlighted
    }
}

} // verus!

verus! {

// ---------------------------------------------------------------------------
// Whole entries

/// The parts with search matches highlighted.
pub fn apply_search_highlights(parts: Vec<Part>, query: &str) -> (r: Vec<Part>)
    ensures
        parts_view(r@) == search_highlighted(parts_view(parts@), query@),
{
    if query.is_empty() {
        return parts;
    }
    match SearchHighlighter::new(parts.as_slice(), query) {
        Some(h) => h.apply(parts),
        None => parts,
    }
}

/// The query whose matches a line shows: the search query when the raw line
/// contains it, else nothing.
pub open spec fn highlight_query(query: Seq<char>, raw: Seq<char>) -> Seq<char> {
    if query.len() > 0 && seq_contains(raw, query) {
        query
    } else {
        Seq::empty()
    }
}

/// A level label left-aligned in five columns, then a space.
pub open spec fn level_column(level: Level) -> Seq<char> {
    let label = level_label(level);
    label + Seq::new((5 - label.len()) as nat, |_i: int| ' ') + seq![' ']
}

/// A timestamp followed by a space, in grey.
pub open spec fn timestamp_parts(timestamp: Option<String>) -> Seq<PartView> {
    match timestamp {
        Some(ts) => seq![part(ts@.push(' '), Color::DarkGrey, false)],
        None => Seq::empty(),
    }
}

/// The target's parts, if there is a target.
pub open spec fn optional_target_parts(target: Option<String>) -> Seq<PartView> {
    match target {
        Some(t) => target_parts(t@),
        None => Seq::empty(),
    }
}

/// The parts of an entry before search highlighting: stream marker, then
/// either the raw line or timestamp, level, target, spans and message.
pub open spec fn base_entry_parts(show_spans: bool, show_raw: bool, entry: LogEntry) -> Seq<PartView> {
    let head = seq![part(seq![stream_indicator(entry.stream), ' '], spec_stream_color(entry.stream), true)];
    let color = spec_message_color(entry.level, entry.stream);
    if show_raw {
        head.push(part(entry.raw@, color, false))
    } else {
        head + timestamp_parts(entry.timestamp) + (if entry.parsed {
            seq![part(level_column(entry.level), spec_level_color(entry.level), true)]
        } else {
            Seq::empty()
        }) + optional_target_parts(entry.target) + (if show_spans {
            spans_parts(strings_view(entry.spans@))
        } else {
            Seq::empty()
        }) + message_parts_of(entry.message@, entry.message_parts@, color)
    }
}

/// The parts an entry is drawn with.
pub open spec fn entry_parts(options: RenderOptions, entry: LogEntry) -> Seq<PartView> {
    search_highlighted(
        base_entry_parts(options.show_spans, options.show_raw, entry),
        highlight_query(options.search_query@, entry.raw@),
    )
}

/// The parts an entry is drawn with in a view.
pub open spec fn view_entry_parts(state: ViewState, entry: LogEntry) -> Seq<PartView> {
    search_highlighted(
        base_entry_parts(state.show_spans, state.show_raw, entry),
        highlight_query(state.search_query@, entry.raw@),
    )
}

impl RenderOptions {
    /// The display options of a view.
    pub fn from(state: &ViewState) -> (o: Self)
        ensures
            o.show_spans == state.show_spans,
            o.show_raw == state.show_raw,
            o.search_query@ == state.search_query@,
    {
        RenderOptions {
            show_spans: state.show_spans,
            show_raw: state.show_raw,
            search_query: state.search_query.clone(),
        }
    }
}

impl EntryRenderer {
    /// A renderer with the display options of a view.
    pub fn from(state: &ViewState) -> (r: Self)
        ensures
            r.options.show_spans == state.show_spans,
            r.options.show_raw == state.show_raw,
            r.options.search_query@ == state.search_query@,
    {
        EntryRenderer { options: RenderOptions::from(state) }
    }

    /// The search query to highlight in an entry: only when its raw line
    /// contains the query.
    pub fn search_highlight_query(&self, entry: &LogEntry) -> (q: &str)
        ensures
            q@ == highlight_query(self.options.search_query@, entry.raw@),
    {
        if !self.options.search_query.as_str().is_empty() && str_contains(
            entry.raw.as_str(),
            self.options.search_query.as_str(),
        ) {
            self.options.search_query.as_str()
        } else {
            proof {
                reveal_strlit("");
            }
            ""
        }
    }

    /// The parts an entry is drawn with.
    pub fn parts(&self, entry: &LogEntry) -> (r: Vec<Part>)
        ensures
            parts_view(r@) == entry_parts(self.options, *entry),
    {
        let mut parts: Vec<Part> = Vec::new();
        let mut marker = String::new();
        push_char(&mut marker, entry.stream.indicator());
        push_char(&mut marker, ' ');
        proof {
            assert(marker@ =~= seq![stream_indicator(entry.stream), ' ']);
        }
        push_part(&mut parts, marker, stream_color(entry.stream), true);
        let color = message_color(entry);
        let ghost head = parts_view(parts@);
        proof {
            assert(head =~= seq![part(seq![stream_indicator(entry.stream), ' '], spec_stream_color(entry.stream), true)]);
        }
        if self.options.show_raw {
            push_part(&mut parts, entry.raw.clone(), color, false);
            let query = self.search_highlight_query(entry);
            return apply_search_highlights(parts, query);
        }
        let ghost mut expected = head;
        match &entry.timestamp {
            Some(ts) => {
                let mut text = ts.clone();
                push_char(&mut text, ' ');
                push_part(&mut parts, text, Color::DarkGrey, false);
            },
            None => {},
        }
        proof {
            expected = expected + timestamp_parts(entry.timestamp);
            assert(parts_view(parts@) =~= expected);
        }
        if entry.parsed {
            let label = entry.level.label();
            let mut text = label.to_owned();
            let n = label_len(label);
            let mut k: usize = n;
            while k < 5
                invariant
                    n <= k <= 5 || (n > 5 && k == n),
                    n == level_label(entry.level).len(),
                    text@ == level_label(entry.level) + Seq::new((k - n) as nat, |_i: int| ' '),
                decreases 5 - k,
            {
                push_char(&mut text, ' ');
                proof {
                    assert(text@ =~= level_label(entry.level) + Seq::new((k + 1 - n) as nat, |_i: int| ' '));
                }
                k = k + 1;
            }
            push_char(&mut text, ' ');
            proof {
                assert(text@ =~= level_column(entry.level));
            }
            push_part(&mut parts, text, level_color(entry.level), true);
        }
        proof {
            expected = expected + (if entry.parsed {
                seq![part(level_column(entry.level), spec_level_color(entry.level), true)]
            } else {
                Seq::<PartView>::empty()
            });
            assert(parts_view(parts@) =~= expected);
        }
        match &entry.target {
            Some(t) => self.push_target_parts(&mut parts, t.as_str()),
            None => {},
        }
        proof {
            expected = expected + optional_target_parts(entry.target);
            assert(parts_view(parts@) =~= expected);
        }
        if self.options.show_spans {
            self.push_span_parts(&mut parts, entry.spans.as_slice());
        }
        proof {
            expected = expected + (if self.options.show_spans {
                spans_parts(strings_view(entry.spans@))
            } else {
                Seq::<PartView>::empty()
            });
            assert(parts_view(parts@) =~= expected);
        }
        self.push_message_parts(&mut parts, entry.message.as_str(), entry.message_parts.as_slice(), color);
        proof {
            assert(parts_view(parts@) =~= base_entry_parts(self.options.show_spans, self.options.show_raw, *entry));
        }
        let query = self.search_highlight_query(entry);
        apply_search_highlights(parts, query)
    }

    /// The text of an entry as drawn, without colours.
    pub fn plain_text(&self, entry: &LogEntry) -> (s: String)
        ensures
            s@ == parts_text(entry_parts(self.options, *entry)),
    {
        let parts = self.parts(entry);
        plain_text_of(parts.as_slice())
    }

    /// The text of a list of parts, concatenated.
    pub fn plain_text_from_parts(parts: &[Part]) -> (s: String)
        ensures
            s@ == parts_text(parts_view(parts@)),
    {
        plain_text_of(parts)
    }
}

/// The number of characters of a level label.
fn label_len(label: &str) -> (n: usize)
    ensures
        n == label@.len(),
{
    let chars = chars_of(label);
    chars.len()
}

/// Law: the plain text of an entry does not depend on the search query:
/// highlighting only regroups the characters of the line.
pub proof fn lemma_plain_text_ignores_search(options: RenderOptions, entry: LogEntry)
    ensures
        parts_text(entry_parts(options, entry)) == parts_text(
            base_entry_parts(options.show_spans, options.show_raw, entry),
        ),
{
    lemma_search_highlighted_text(
        base_entry_parts(options.show_spans, options.show_raw, entry),
        highlight_query(options.search_query@, entry.raw@),
    );
}

impl MessagePart {
    /// The text of a structured message as it is drawn: text pieces as they
    /// are, fields as `(key=value ...)`.
    pub fn plain_text(parts: &[MessagePart]) -> (s: String)
        ensures
            s@ == parts_text(structured_parts(parts@, Color::Reset)),
    {
        let renderer = EntryRenderer {
            options: RenderOptions { show_spans: true, show_raw: false, search_query: String::new() },
        };
        let mut drawn: Vec<Part> = Vec::new();
        renderer.push_structured_message(&mut drawn, parts, Color::Reset);
        proof {
            assert(parts_view(drawn@) =~= structured_parts(parts@, Color::Reset));
        }
        plain_text_of(drawn.as_slice())
    }
}

} // verus!
