//! The data model of log entries and of the tracing values attached to them.

use vstd::prelude::*;
use crate::numbers::{is_number_literal, is_number_text};
use crate::text::{chars_of, same_text, string_from_range};

verus! {

/// The output stream a line was read from.
#[derive(Clone, Copy, Debug, PartialEq, Eq, Structural)]
pub enum Stream {
    Stdout,
    Stderr,
}

/// The one-character marker shown in front of a line of a stream.
pub open spec fn stream_indicator(stream: Stream) -> char {
    match stream {
        Stream::Stdout => '|',
        Stream::Stderr => '!',
    }
}

impl Stream {
    /// The one-character marker shown in front of a line of this stream.
    pub fn indicator(self) -> (c: char)
        ensures
            c == stream_indicator(self),
    {
        match self {
            Stream::Stdout => '|',
            Stream::Stderr => '!',
        }
    }
}

/// The severity level of a log line; `Unknown` when none was recognised.
#[derive(Clone, Copy, Debug, PartialEq, Eq, Structural)]
pub enum Level {
    Trace,
    Debug,
    Info,
    Warn,
    Error,
    Unknown,
}

/// The label printed for a level.
pub open spec fn level_label(level: Level) -> Seq<char> {
    match level {
        Level::Trace => seq!['T', 'R', 'A', 'C', 'E'],
        Level::Debug => seq!['D', 'E', 'B', 'U', 'G'],
        Level::Info => seq!['I', 'N', 'F', 'O'],
        Level::Warn => seq!['W', 'A', 'R', 'N'],
        Level::Error => seq!['E', 'R', 'R', 'O', 'R'],
        Level::Unknown => Seq::empty(),
    }
}

/// The rank of a level: errors rank highest, unknown levels lowest.
pub open spec fn level_severity(level: Level) -> u8 {
    match level {
        Level::Error => 5,
        Level::Warn => 4,
        Level::Info => 3,
        Level::Debug => 2,
        Level::Trace => 1,
        Level::Unknown => 0,
    }
}

impl Level {
    pub fn label(self) -> (s: &'static str)
        ensures
            s@ == level_label(self),
    {
        proof {
            reveal_strlit("TRACE");
            reveal_strlit("DEBUG");
            reveal_strlit("INFO");
            reveal_strlit("WARN");
            reveal_strlit("ERROR");
            reveal_strlit("");
        }
        match self {
            Level::Trace => "TRACE",
            Level::Debug => "DEBUG",
            Level::Info => "INFO",
            Level::Warn => "WARN",
            Level::Error => "ERROR",
            Level::Unknown => "",
        }
    }

    pub fn severity(self) -> (r: u8)
        ensures
            r == level_severity(self),
    {
        match self {
            Level::Error => 5,
            Level::Warn => 4,
            Level::Info => 3,
            Level::Debug => 2,
            Level::Trace => 1,
            Level::Unknown => 0,
        }
    }
}

} // verus!

verus! {

/// One tracing value: the JSON-like shapes a structured log field can take.
#[derive(Debug)]
pub enum TraceValue {
    Bool(bool),
    Null,
    Number(String),
    String(String),
    Object(Vec<(String, TraceValue)>),
    Array(Vec<TraceValue>),
    Other(String),
}

/// The escape sequence JSON uses for one character of a string.
pub open spec fn json_escape_char(c: char) -> Seq<char> {
    if c == '"' {
        seq!['\\', '"']
    } else if c == '\\' {
        seq!['\\', '\\']
    } else if c == '\x08' {
        seq!['\\', 'b']
    } else if c == '\t' {
        seq!['\\', 't']
    } else if c == '\n' {
        seq!['\\', 'n']
    } else if c == '\x0c' {
        seq!['\\', 'f']
    } else if c == '\r' {
        seq!['\\', 'r']
    } else if (c as u32) < 0x20 {
        seq!['\\', 'u', '0', '0', hex_digit_lower((c as u32) / 16), hex_digit_lower((c as u32) % 16)]
    } else {
        seq![c]
    }
}

/// A lower-case hexadecimal digit.
pub open spec fn hex_digit_lower(d: u32) -> char {
    if d < 10 {
        ((d + 48) as u8) as char
    } else {
        ((d + 87) as u8) as char
    }
}

/// The characters of `s` with each one escaped as JSON escapes it.
pub open spec fn json_escape(s: Seq<char>) -> Seq<char>
    decreases s.len(),
{
    if s.len() == 0 {
        Seq::empty()
    } else {
        json_escape(s.drop_last()) + json_escape_char(s.last())
    }
}

/// `s` written as a JSON string literal: quoted and escaped.
pub open spec fn json_string_literal(s: Seq<char>) -> Seq<char> {
    seq!['"'] + json_escape(s) + seq!['"']
}

/// The text a tracing value is displayed as.
pub open spec fn render_value(v: TraceValue) -> Seq<char>
    decreases v,
{
    match v {
        TraceValue::Bool(b) => if b {
            seq!['t', 'r', 'u', 'e']
        } else {
            seq!['f', 'a', 'l', 's', 'e']
        },
        TraceValue::Null => seq!['n', 'u', 'l', 'l'],
        TraceValue::Number(n) => n@,
        TraceValue::String(s) => json_string_literal(s@),
        TraceValue::Other(s) => s@,
        TraceValue::Array(items) => seq!['['] + render_items(items@) + seq![']'],
        TraceValue::Object(members) => seq!['{'] + render_members(members@) + seq!['}'],
    }
}

/// Array items rendered and separated by commas.
pub open spec fn render_items(items: Seq<TraceValue>) -> Seq<char>
    decreases items,
{
    if items.len() == 0 {
        Seq::empty()
    } else if items.len() == 1 {
        render_value(items[0])
    } else {
        render_items(items.drop_last()) + seq![','] + render_value(items.last())
    }
}

/// Object members rendered as `"key":value` and separated by commas.
pub open spec fn render_members(members: Seq<(String, TraceValue)>) -> Seq<char>
    decreases members,
{
    if members.len() == 0 {
        Seq::empty()
    } else if members.len() == 1 {
        json_string_literal(members[0].0@) + seq![':'] + render_value(members[0].1)
    } else {
        render_members(members.drop_last()) + seq![','] + json_string_literal(
            members.last().0@,
        ) + seq![':'] + render_value(members.last().1)
    }
}

} // verus!

verus! {

/// A string as a JSON string literal: `serde_json::to_string` on a `str`.
/// Claims that the call succeeds and gives the quoted, escaped text
/// (serialising a string into the in-memory buffer has no failing step).
#[verifier::external_body]
pub(crate) fn json_quote(s: &str) -> (r: Option<String>)
    ensures
        r is Some,
        r matches Some(q) ==> q@ == json_string_literal(s@),
{
    serde_json::to_string(s).ok()
}

/// The JSON string literal of `s`.
pub(crate) fn quoted_string(s: &str) -> (r: String)
    ensures
        r@ == json_string_literal(s@),
{
    json_quote(s).unwrap()
}

pub(crate) proof fn lemma_array_item_decreases(v: TraceValue, i: int)
    requires
        v is Array,
        0 <= i < v->Array_0@.len(),
    ensures
        decreases_to!(v => v->Array_0@[i]),
{
    assert(decreases_to!(v->Array_0 => v->Array_0@));
}

pub(crate) proof fn lemma_member_value_decreases(v: TraceValue, i: int)
    requires
        v is Object,
        0 <= i < v->Object_0@.len(),
    ensures
        decreases_to!(v => v->Object_0@[i].1),
{
    assert(decreases_to!(v->Object_0 => v->Object_0@));
    assert(decreases_to!(v->Object_0@ => v->Object_0@[i]));
}

impl TraceValue {
    /// The text the value is displayed as; strings are shown as JSON literals.
    pub fn text(&self) -> (r: String)
        ensures
            r@ == render_value(*self),
        decreases self,
    {
        match self {
            TraceValue::Bool(b) => {
                proof {
                    reveal_strlit("true");
                    reveal_strlit("false");
                }
                if *b {
                    "true".to_owned()
                } else {
                    "false".to_owned()
                }
            },
            TraceValue::Null => {
                proof { reveal_strlit("null"); }
                "null".to_owned()
            },
            TraceValue::Number(n) => n.clone(),
            TraceValue::String(s) => quoted_string(s.as_str()),
            TraceValue::Other(s) => s.clone(),
            TraceValue::Array(items) => {
                let mut r = String::new();
                crate::text::push_char(&mut r, '[');
                let mut i: usize = 0;
                while i < items.len()
                    invariant
                        i <= items@.len(),
                        r@ == seq!['['] + render_items(items@.take(i as int)),
                        *self is Array,
                        self->Array_0 == *items,
                    decreases items@.len() - i,
                {
                    if i > 0 {
                        crate::text::push_char(&mut r, ',');
                    }
                    proof {
                        lemma_array_item_decreases(*self, i as int);
                    }
                    let item = items[i].text();
                    r.append(item.as_str());
                    proof {
                        let t = items@.take(i + 1);
                        assert(t.drop_last() =~= items@.take(i as int));
                        if i == 0 {
                            assert(items@.take(0) =~= Seq::<TraceValue>::empty());
                        }
                    }
                    i = i + 1;
                }
                crate::text::push_char(&mut r, ']');
                assert(items@.take(items@.len() as int) =~= items@);
                r
            },
            TraceValue::Object(members) => {
                let mut r = String::new();
                crate::text::push_char(&mut r, '{');
                let mut i: usize = 0;
                while i < members.len()
                    invariant
                        i <= members@.len(),
                        r@ == seq!['{'] + render_members(members@.take(i as int)),
                        *self is Object,
                        self->Object_0 == *members,
                    decreases members@.len() - i,
                {
                    if i > 0 {
                        crate::text::push_char(&mut r, ',');
                    }
                    let key = quoted_string(members[i].0.as_str());
                    r.append(key.as_str());
                    crate::text::push_char(&mut r, ':');
                    proof {
                        lemma_member_value_decreases(*self, i as int);
                    }
                    let value = members[i].1.text();
                    r.append(value.as_str());
                    proof {
                        let t = members@.take(i + 1);
                        assert(t.drop_last() =~= members@.take(i as int));
                        if i == 0 {
                            assert(members@.take(0) =~= Seq::<(String, TraceValue)>::empty());
                        }
                    }
                    i = i + 1;
                }
                crate::text::push_char(&mut r, '}');
                assert(members@.take(members@.len() as int) =~= members@);
                r
            },
        }
    }
}

} // verus!

verus! {

/// A named tracing value.
#[derive(Debug)]
pub struct TraceValueField {
    pub key: String,
    pub value: TraceValue,
}

impl TraceValueField {
    pub fn new(key: &str, value: TraceValue) -> (f: Self)
        ensures
            f.key@ == key@,
            f.value == value,
    {
        TraceValueField { key: key.to_owned(), value }
    }
}

/// A titled group of tracing values, such as the fields of one span or of
/// the event itself.
#[derive(Debug)]
pub struct TraceValueSection {
    pub title: String,
    pub fields: Vec<TraceValueField>,
}

impl TraceValueSection {
    pub fn new(title: &str, fields: Vec<TraceValueField>) -> (s: Self)
        ensures
            s.title@ == title@,
            s.fields@ == fields@,
    {
        TraceValueSection { title: title.to_owned(), fields }
    }
}

/// A piece of a structured message: free text or a group of fields.
#[derive(Debug)]
pub enum MessagePart {
    Text(String),
    Fields(Vec<TraceValueField>),
}

impl MessagePart {
    pub fn text(text: &str) -> (p: Self)
        ensures
            p matches MessagePart::Text(t) && t@ == text@,
    {
        MessagePart::Text(text.to_owned())
    }

    pub fn fields(fields: Vec<TraceValueField>) -> (p: Self)
        ensures
            p matches MessagePart::Fields(f) && f@ == fields@,
    {
        MessagePart::Fields(fields)
    }
}

/// One retained log line with what the parser recognised in it.
#[derive(Debug)]
pub struct LogEntry {
    pub raw: String,
    pub timestamp: Option<String>,
    pub level: Level,
    pub parsed: bool,
    pub target: Option<String>,
    pub spans: Vec<String>,
    pub values: Vec<TraceValueSection>,
    pub message: String,
    pub message_parts: Vec<MessagePart>,
    pub stream: Stream,
}

impl LogEntry {
    /// An entry for a line that no format recognised: the raw line is its message.
    pub fn unparsed(stream: Stream, line: String) -> (e: Self)
        ensures
            e.raw@ == line@,
            e.message@ == line@,
            e.timestamp is None,
            e.level == Level::Unknown,
            !e.parsed,
            e.target is None,
            e.spans@.len() == 0,
            e.values@.len() == 0,
            e.message_parts@.len() == 0,
            e.stream == stream,
    {
        let message = line.clone();
        LogEntry {
            raw: line,
            timestamp: None,
            level: Level::Unknown,
            parsed: false,
            target: None,
            spans: Vec::new(),
            values: Vec::new(),
            message,
            message_parts: Vec::new(),
            stream,
        }
    }
}

} // verus!

verus! {

/// The number of fields in a list of sections.
pub open spec fn field_total(sections: Seq<TraceValueSection>) -> nat
    decreases sections.len(),
{
    if sections.len() == 0 {
        0
    } else {
        field_total(sections.drop_last()) + sections.last().fields@.len()
    }
}

/// The number of fields, capped at the largest `usize`.
pub open spec fn field_count(sections: Seq<TraceValueSection>) -> usize {
    if field_total(sections) > usize::MAX {
        usize::MAX
    } else {
        field_total(sections) as usize
    }
}

/// The number of tracing values stored with an entry.
pub fn value_field_count(entry: &LogEntry) -> (n: usize)
    ensures
        n == field_count(entry.values@),
{
    let mut n: usize = 0;
    let mut i: usize = 0;
    while i < entry.values.len()
        invariant
            i <= entry.values@.len(),
            n == field_count(entry.values@.take(i as int)),
        decreases entry.values@.len() - i,
    {
        proof {
            assert(entry.values@.take(i + 1).drop_last() =~= entry.values@.take(i as int));
        }
        n = n.saturating_add(entry.values[i].fields.len());
        i = i + 1;
    }
    assert(entry.values@.take(entry.values@.len() as int) =~= entry.values@);
    n
}

} // verus!

verus! {

/// A character that JSON writes as itself inside a string.
pub open spec fn json_plain_char(c: char) -> bool {
    c != '"' && c != '\\' && (c as u32) >= 0x20
}

/// A quoted text whose inside needs no escaping: `"` + plain characters + `"`.
pub open spec fn plain_quoted(t: Seq<char>) -> bool {
    &&& t.len() >= 2
    &&& t[0] == '"'
    &&& t[t.len() - 1] == '"'
    &&& forall|i: int| 1 <= i < t.len() - 1 ==> json_plain_char(t[i])
}

/// Whether a text is a tracing keyword: `true`, `false` or `null`.
pub open spec fn is_keyword(t: Seq<char>) -> bool {
    t == "true"@ || t == "false"@ || t == "null"@
}

/// The value a tracing field's text stands for: `true`, `false` and `null`,
/// numbers as Rust parses them, quoted strings that need no escaping (held
/// without their quotes), and anything else as written.
pub open spec fn tracing_value_matches(text: Seq<char>, v: TraceValue) -> bool {
    match v {
        TraceValue::Bool(b) => text == (if b {
            "true"@
        } else {
            "false"@
        }),
        TraceValue::Null => text == "null"@,
        TraceValue::Number(n) => !is_keyword(text) && is_number_literal(text) && n@ == text,
        TraceValue::String(s) => !is_keyword(text) && !is_number_literal(text) && plain_quoted(text)
            && s@ == text.subrange(1, text.len() - 1),
        TraceValue::Other(s) => !is_keyword(text) && !is_number_literal(text) && !plain_quoted(text)
            && s@ == text,
        _ => false,
    }
}

/// Escaping plain characters changes nothing.
proof fn lemma_json_escape_plain(s: Seq<char>)
    requires
        forall|i: int| 0 <= i < s.len() ==> json_plain_char(s[i]),
    ensures
        json_escape(s) == s,
    decreases s.len(),
{
    if s.len() > 0 {
        lemma_json_escape_plain(s.drop_last());
        let c = s.last();
        assert(json_plain_char(c));
        assert(json_escape_char(c) == seq![c]);
        assert(s.drop_last().push(c) =~= s);
    }
}

/// Whether a text is a quoted string with nothing to escape inside.
fn is_plain_quoted(chars: &[char]) -> (r: bool)
    ensures
        r == plain_quoted(chars@),
{
    let n = chars.len();
    if n < 2 || chars[0] != '"' || chars[n - 1] != '"' {
        return false;
    }
    let mut i: usize = 1;
    while i < n - 1
        invariant
            n == chars@.len(),
            n >= 2,
            1 <= i <= n - 1,
            forall|j: int| 1 <= j < i ==> json_plain_char(chars@[j]),
        decreases n - 1 - i,
    {
        let c = chars[i];
        if c == '"' || c == '\\' || (c as u32) < 0x20 {
            return false;
        }
        i = i + 1;
    }
    true
}

impl TraceValue {
    /// The value a tracing field's text stands for.
    ///
    /// `true`, `false`, `null` and number literals are told apart as such.
    /// A string value holds its characters without quotes and an object or
    /// array holds its parsed members, so only a quoted text with nothing
    /// escaped inside becomes a string; braced, bracketed and escaped quoted
    /// texts are kept as written (`Other`, shown white) rather than taken as
    /// an object, an array or a string, since reading them needs a parse of
    /// their contents that is not done here. Every value shows exactly the
    /// text it was read from.
    pub fn from_tracing_text(value: &str) -> (v: TraceValue)
        ensures
            tracing_value_matches(value@, v),
    {
        proof {
            reveal_strlit("true");
            reveal_strlit("false");
            reveal_strlit("null");
        }
        if same_text(value, "true") {
            return TraceValue::Bool(true);
        }
        if same_text(value, "false") {
            return TraceValue::Bool(false);
        }
        if same_text(value, "null") {
            return TraceValue::Null;
        }
        let chars = chars_of(value);
        if is_number_text(chars.as_slice()) {
            return TraceValue::Number(value.to_owned());
        }
        if is_plain_quoted(chars.as_slice()) {
            let inner = string_from_range(chars.as_slice(), 1, chars.len() - 1);
            return TraceValue::String(inner);
        }
        TraceValue::Other(value.to_owned())
    }
}

/// Law: a value read from tracing text is displayed exactly as it was written.
pub proof fn lemma_tracing_value_round_trip(text: Seq<char>, v: TraceValue)
    requires
        tracing_value_matches(text, v),
    ensures
        render_value(v) == text,
{
    reveal_strlit("true");
    reveal_strlit("false");
    reveal_strlit("null");
    match v {
        TraceValue::Bool(b) => {
            assert(render_value(v) =~= text);
        },
        TraceValue::Null => {
            assert(render_value(v) =~= text);
        },
        TraceValue::String(s) => {
            let inner = text.subrange(1, text.len() - 1);
            assert forall|i: int| 0 <= i < inner.len() implies json_plain_char(inner[i]) by {
                assert(inner[i] == text[i + 1]);
            }
            lemma_json_escape_plain(inner);
            assert(json_string_literal(s@) =~= text);
        },
        _ => {},
    }
}

} // verus!
