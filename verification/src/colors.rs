//! The colours the viewer paints with, and which element gets which.

use vstd::prelude::*;
use vstd::string::StringSliceAdditionalSpecFns;
use vstd::utf8::encode_utf8;
use crate::model::{Level, LogEntry, Stream, TraceValue};
use crate::numbers::{is_number_literal, is_number_text};
use crate::text::{chars_equal, chars_of};

verus! {

/// A terminal colour. The two palette variants name a slot of the span-name
/// palette (64 slots) and of the target-module palette (128 slots); the
/// program turns them into RGB values.
#[derive(Clone, Copy, Debug, PartialEq, Eq, Structural)]
pub enum Color {
    Reset,
    Black,
    DarkGrey,
    Grey,
    Red,
    DarkRed,
    Green,
    DarkGreen,
    Yellow,
    DarkYellow,
    Blue,
    DarkBlue,
    Cyan,
    DarkCyan,
    White,
    Rgb { r: u8, g: u8, b: u8 },
    SpanPalette(usize),
    TargetPalette(usize),
}

/// Slots in the span-name palette.
pub const SPAN_PALETTE_SIZE: usize = 64;

/// Slots in the target-module palette.
pub const TARGET_PALETTE_SIZE: usize = 128;

pub open spec fn spec_level_color(level: Level) -> Color {
    match level {
        Level::Trace => Color::DarkGrey,
        Level::Debug => Color::Cyan,
        Level::Info => Color::Green,
        Level::Warn => Color::Yellow,
        Level::Error => Color::Red,
        Level::Unknown => Color::White,
    }
}

/// The colour of a level label.
pub fn level_color(level: Level) -> (c: Color)
    ensures
        c == spec_level_color(level),
{
    match level {
        Level::Trace => Color::DarkGrey,
        Level::Debug => Color::Cyan,
        Level::Info => Color::Green,
        Level::Warn => Color::Yellow,
        Level::Error => Color::Red,
        Level::Unknown => Color::White,
    }
}

pub open spec fn spec_stream_color(stream: Stream) -> Color {
    match stream {
        Stream::Stdout => Color::DarkGrey,
        Stream::Stderr => Color::Yellow,
    }
}

/// The colour of the stream marker.
pub fn stream_color(stream: Stream) -> (c: Color)
    ensures
        c == spec_stream_color(stream),
{
    match stream {
        Stream::Stdout => Color::DarkGrey,
        Stream::Stderr => Color::Yellow,
    }
}

pub open spec fn spec_string_color() -> Color {
    Color::Rgb { r: 206, g: 145, b: 120 }
}

/// The colour of quoted strings in messages and spans.
pub fn string_color() -> (c: Color)
    ensures
        c == spec_string_color(),
{
    Color::Rgb { r: 206, g: 145, b: 120 }
}

pub open spec fn spec_span_key_color() -> Color {
    Color::Rgb { r: 156, g: 220, b: 254 }
}

/// The colour of field names inside span fields.
pub fn span_key_color() -> (c: Color)
    ensures
        c == spec_span_key_color(),
{
    Color::Rgb { r: 156, g: 220, b: 254 }
}

pub open spec fn spec_span_punctuation_color() -> Color {
    Color::Rgb { r: 150, g: 150, b: 150 }
}

/// The colour of punctuation inside span fields.
pub fn span_punctuation_color() -> (c: Color)
    ensures
        c == spec_span_punctuation_color(),
{
    Color::Rgb { r: 150, g: 150, b: 150 }
}

/// The FNV-style hash of a byte sequence: start at 2166136261, then for each
/// byte multiply by 16777619 (wrapping) and xor the byte in.
pub open spec fn fnv_hash(bytes: Seq<u8>) -> usize
    decreases bytes.len(),
{
    if bytes.len() == 0 {
        2_166_136_261usize
    } else {
        fnv_hash(bytes.drop_last()).wrapping_mul(16_777_619usize) ^ (bytes.last() as usize)
    }
}

/// A hash of the UTF-8 bytes of `value` that does not change between runs.
pub fn stable_hash(value: &str) -> (h: usize)
    ensures
        h == fnv_hash(encode_utf8(value@)),
{
    let bytes = value.as_bytes();
    let mut hash: usize = 2_166_136_261usize;
    let mut i: usize = 0;
    while i < bytes.len()
        invariant
            i <= bytes@.len(),
            bytes@ == value.spec_bytes(),
            hash == fnv_hash(bytes@.take(i as int)),
        decreases bytes@.len() - i,
    {
        proof {
            assert(bytes@.take(i + 1).drop_last() =~= bytes@.take(i as int));
        }
        hash = hash.wrapping_mul(16_777_619usize) ^ (bytes[i] as usize);
        i = i + 1;
    }
    assert(bytes@.take(bytes@.len() as int) =~= bytes@);
    hash
}

/// The palette colour of a span name.
pub open spec fn spec_span_name_color(span: Seq<char>) -> Color {
    Color::SpanPalette(fnv_hash(encode_utf8(span)) % 64)
}

pub fn span_name_color(span: &str) -> (c: Color)
    ensures
        c == spec_span_name_color(span@),
{
    Color::SpanPalette(stable_hash(span) % SPAN_PALETTE_SIZE)
}

/// The palette colour of one module of a target path.
pub open spec fn spec_target_module_color(module: Seq<char>) -> Color {
    Color::TargetPalette(fnv_hash(encode_utf8(module)) % 128)
}

pub fn target_module_color(module: &str) -> (c: Color)
    ensures
        c == spec_target_module_color(module@),
{
    Color::TargetPalette(stable_hash(module) % TARGET_PALETTE_SIZE)
}

pub open spec fn spec_message_color(level: Level, stream: Stream) -> Color {
    match (level, stream) {
        (Level::Error, _) => Color::Red,
        (Level::Warn, _) => Color::Yellow,
        (Level::Unknown, Stream::Stderr) => Color::Yellow,
        _ => Color::White,
    }
}

/// The colour of an entry's message: by level, and yellow for unleveled stderr lines.
pub fn message_color(entry: &LogEntry) -> (c: Color)
    ensures
        c == spec_message_color(entry.level, entry.stream),
{
    match (entry.level, entry.stream) {
        (Level::Error, _) => Color::Red,
        (Level::Warn, _) => Color::Yellow,
        (Level::Unknown, Stream::Stderr) => Color::Yellow,
        _ => Color::White,
    }
}

pub open spec fn spec_level_scrollbar_color(level: Level) -> Color {
    match level {
        Level::Error => Color::Red,
        Level::Warn => Color::Yellow,
        Level::Info => Color::Green,
        Level::Debug => Color::Cyan,
        Level::Trace => Color::DarkGrey,
        Level::Unknown => Color::DarkGrey,
    }
}

/// The scrollbar colour a level gives its slice.
pub fn level_scrollbar_color(level: Level) -> (c: Color)
    ensures
        c == spec_level_scrollbar_color(level),
{
    match level {
        Level::Error => Color::Red,
        Level::Warn => Color::Yellow,
        Level::Info => Color::Green,
        Level::Debug => Color::Cyan,
        Level::Trace => Color::DarkGrey,
        Level::Unknown => Color::DarkGrey,
    }
}

/// The background of the selected line.
pub fn selected_background() -> (c: Color)
    ensures
        c == (Color::Rgb { r: 64, g: 64, b: 64 }),
{
    Color::Rgb { r: 64, g: 64, b: 64 }
}

/// The background of search matches.
pub fn search_match_background() -> (c: Color)
    ensures
        c == Color::Yellow,
{
    Color::Yellow
}

/// The foreground of search matches.
pub fn search_match_foreground() -> (c: Color)
    ensures
        c == Color::Black,
{
    Color::Black
}

pub open spec fn spec_selected_foreground(color: Color) -> Color {
    match color {
        Color::Red => Color::DarkRed,
        Color::Yellow => Color::DarkYellow,
        Color::Green => Color::DarkGreen,
        Color::Blue => Color::DarkBlue,
        Color::Cyan => Color::DarkCyan,
        Color::White | Color::Grey => Color::Reset,
        other => other,
    }
}

/// The foreground a colour takes on the selected line: bright colours darken,
/// white and grey fall back to the terminal default.
pub fn selected_foreground(color: Color) -> (c: Color)
    ensures
        c == spec_selected_foreground(color),
{
    match color {
        Color::Red => Color::DarkRed,
        Color::Yellow => Color::DarkYellow,
        Color::Green => Color::DarkGreen,
        Color::Blue => Color::DarkBlue,
        Color::Cyan => Color::DarkCyan,
        Color::White | Color::Grey => Color::Reset,
        other => other,
    }
}

/// The foreground of the status bar.
pub fn status_bar_foreground() -> (c: Color)
    ensures
        c == Color::Black,
{
    Color::Black
}

/// The background of the status bar.
pub fn status_bar_background() -> (c: Color)
    ensures
        c == Color::White,
{
    Color::White
}

/// Foreground and background of the search bar: light blue while editing, white when locked.
pub fn search_bar_colors(editing: bool) -> (c: (Color, Color))
    ensures
        c == if editing {
            (Color::Black, Color::Rgb { r: 150, g: 205, b: 255 })
        } else {
            (Color::Black, Color::White)
        },
{
    if editing {
        (Color::Black, Color::Rgb { r: 150, g: 205, b: 255 })
    } else {
        (Color::Black, Color::White)
    }
}

pub open spec fn spec_trace_value_color(value: TraceValue) -> Color {
    match value {
        TraceValue::Bool(_) | TraceValue::Number(_) => Color::Reset,
        TraceValue::String(_) => Color::Green,
        TraceValue::Null => Color::DarkGrey,
        TraceValue::Object(_) | TraceValue::Array(_) => Color::Reset,
        TraceValue::Other(_) => Color::White,
    }
}

/// The colour of a value in the values pane.
pub fn trace_value_color(value: &TraceValue) -> (c: Color)
    ensures
        c == spec_trace_value_color(*value),
{
    match value {
        TraceValue::Bool(_) | TraceValue::Number(_) => Color::Reset,
        TraceValue::String(_) => Color::Green,
        TraceValue::Null => Color::DarkGrey,
        TraceValue::Object(_) | TraceValue::Array(_) => Color::Reset,
        TraceValue::Other(_) => Color::White,
    }
}

} // verus!

verus! {

pub open spec fn spec_span_value_color(value: Seq<char>) -> Color {
    if value == seq!['t', 'r', 'u', 'e'] || value == seq!['f', 'a', 'l', 's', 'e'] {
        Color::Rgb { r: 86, g: 156, b: 214 }
    } else if is_number_literal(value) {
        Color::Rgb { r: 181, g: 206, b: 168 }
    } else {
        Color::Reset
    }
}

/// The colour of a span field value: booleans blue, numbers green, the rest default.
pub fn span_value_color(value: &str) -> (c: Color)
    ensures
        c == spec_span_value_color(value@),
{
    let chars = chars_of(value);
    let t = ['t', 'r', 'u', 'e'];
    let f = ['f', 'a', 'l', 's', 'e'];
    proof {
        assert(t@ =~= seq!['t', 'r', 'u', 'e']);
        assert(f@ =~= seq!['f', 'a', 'l', 's', 'e']);
    }
    if chars_equal(chars.as_slice(), &t) || chars_equal(chars.as_slice(), &f) {
        Color::Rgb { r: 86, g: 156, b: 214 }
    } else if is_number_text(chars.as_slice()) {
        Color::Rgb { r: 181, g: 206, b: 168 }
    } else {
        Color::Reset
    }
}

} // verus!
