use std::collections::VecDeque;

use traceviewer::colors::{
    span_key_color, span_name_color, span_punctuation_color, span_value_color, stable_hash,
    string_color, target_module_color, Color, SPAN_PALETTE_SIZE, TARGET_PALETTE_SIZE,
};
use traceviewer::model::{Level, LogEntry, MessagePart, Stream, TraceValue, TraceValueField};
use traceviewer::render::{apply_search_highlights, EntryRenderer, Part, RenderOptions};
use traceviewer::values::selected_line_text;
use traceviewer::view::ViewState;

fn renderer() -> EntryRenderer {
    EntryRenderer {
        options: RenderOptions {
            show_spans: true,
            show_raw: false,
            search_query: String::new(),
        },
    }
}

fn entry_with_target(target: Option<&str>, message: &str) -> LogEntry {
    LogEntry {
        raw: format!("raw {message}"),
        timestamp: None,
        level: Level::Info,
        parsed: true,
        target: target.map(str::to_string),
        spans: Vec::new(),
        values: Vec::new(),
        message: message.to_string(),
        message_parts: Vec::new(),
        stream: Stream::Stdout,
    }
}

fn worker_entry() -> LogEntry {
    LogEntry {
        raw: "2026-06-15T12:01:02Z INFO my_crate::worker: request{id=7}: loaded \"user\"".to_string(),
        timestamp: Some("2026-06-15T12:01:02Z".to_string()),
        level: Level::Info,
        parsed: true,
        target: Some("my_crate::worker".to_string()),
        spans: vec!["request{id=7}".to_string()],
        values: Vec::new(),
        message: "loaded \"user\"".to_string(),
        message_parts: Vec::new(),
        stream: Stream::Stdout,
    }
}

#[test]
fn raw_search_match_is_highlighted_in_raw_display() {
    let entry = LogEntry {
        raw: "2026-06-15T12:01:02Z INFO svc: original raw text".to_string(),
        timestamp: Some("2026-06-15T12:01:02Z".to_string()),
        level: Level::Info,
        parsed: true,
        target: Some("svc".to_string()),
        spans: Vec::new(),
        values: Vec::new(),
        message: "parsed message".to_string(),
        message_parts: Vec::new(),
        stream: Stream::Stdout,
    };
    let state = ViewState {
        show_raw: true,
        search_query: "original raw".to_string(),
        ..ViewState::new()
    };

    let parts = EntryRenderer::from(&state).parts(&entry);
    let highlighted_text: String = parts
        .iter()
        .filter(|part| part.highlighted)
        .map(|part| part.text.as_str())
        .collect();

    assert!(highlighted_text.contains("original raw"));
}

#[test]
fn raw_search_highlights_default_sized_line_with_many_matches_compactly() {
    let entry = LogEntry {
        raw: "a".repeat(65_536),
        timestamp: None,
        level: Level::Unknown,
        parsed: false,
        target: None,
        spans: Vec::new(),
        values: Vec::new(),
        message: "a".repeat(65_536),
        message_parts: Vec::new(),
        stream: Stream::Stdout,
    };
    let state = ViewState {
        show_raw: true,
        search_query: "a".to_string(),
        ..ViewState::new()
    };

    let parts = EntryRenderer::from(&state).parts(&entry);
    let highlighted: Vec<_> = parts.iter().filter(|part| part.highlighted).collect();

    assert_eq!(highlighted.len(), 1);
    assert_eq!(highlighted[0].text.len(), 65_536);
}

#[test]
fn visible_search_match_is_highlighted_in_parsed_display() {
    let entry = entry_with_target(Some("svc"), "loaded widgets");
    let state = ViewState {
        search_query: "widgets".to_string(),
        ..ViewState::new()
    };

    let parts = EntryRenderer::from(&state).parts(&entry);

    assert!(parts
        .iter()
        .any(|part| part.text == "widgets" && part.highlighted));
}

#[test]
fn selected_line_text_matches_rendered_plain_text() {
    let entries = VecDeque::from([worker_entry()]);
    let state = ViewState {
        selected: Some(0),
        ..ViewState::new()
    };

    assert_eq!(
        selected_line_text(&entries, &state).as_deref(),
        Some("| 2026-06-15T12:01:02Z INFO  my_crate::worker: request{id=7}: loaded \"user\"")
    );
}

#[test]
fn selected_line_text_omits_spans_when_hidden() {
    let entries = VecDeque::from([worker_entry()]);
    let state = ViewState {
        selected: Some(0),
        show_spans: false,
        ..ViewState::new()
    };

    assert_eq!(
        selected_line_text(&entries, &state).as_deref(),
        Some("| 2026-06-15T12:01:02Z INFO  my_crate::worker: loaded \"user\"")
    );
}

#[test]
fn selected_line_text_uses_raw_line_when_enabled() {
    let entries = VecDeque::from([worker_entry()]);
    let state = ViewState {
        selected: Some(0),
        show_raw: true,
        ..ViewState::new()
    };

    assert_eq!(
        selected_line_text(&entries, &state).as_deref(),
        Some("| 2026-06-15T12:01:02Z INFO my_crate::worker: request{id=7}: loaded \"user\"")
    );
}

#[test]
fn target_module_colors_are_stable_for_same_module() {
    assert_eq!(target_module_color("worker"), target_module_color("worker"));
}

#[test]
fn target_palette_has_128_slots() {
    assert_eq!(TARGET_PALETTE_SIZE, 128);
    assert_ne!(Color::TargetPalette(0), Color::TargetPalette(127));
}

#[test]
fn target_parts_split_rust_modules_and_keep_separators_neutral() {
    let mut parts = Vec::new();
    renderer().push_target_parts(&mut parts, "my_crate::worker::db");

    let text = EntryRenderer::plain_text_from_parts(&parts);
    assert_eq!(text, "my_crate::worker::db: ");
    assert_eq!(parts[1], Part::new("::", Color::DarkGrey, false));
    assert_eq!(parts[3], Part::new("::", Color::DarkGrey, false));
    assert_eq!(parts[5], Part::new(": ", Color::DarkGrey, false));
}

#[test]
fn target_parts_do_not_split_modules_after_first_whitespace() {
    let mut parts = Vec::new();
    renderer().push_target_parts(&mut parts, "my_crate::worker span{path=other::module}");

    let text = EntryRenderer::plain_text_from_parts(&parts);
    assert_eq!(text, "my_crate::worker span{path=other::module}: ");
    assert_eq!(
        parts[3],
        Part::new(" span{path=other::module}", Color::DarkGrey, false)
    );
}

#[test]
fn message_parts_highlight_quoted_strings() {
    let mut parts = Vec::new();
    renderer().push_message_parts(&mut parts, "loaded \"user 42\" from cache", &[], Color::White);

    assert_eq!(parts[0], Part::new("loaded ", Color::White, false));
    assert_eq!(parts[1], Part::new("\"user 42\"", string_color(), false));
    assert_eq!(parts[2], Part::new(" from cache", Color::White, false));
}

#[test]
fn message_parts_keep_escaped_quotes_inside_string() {
    let mut parts = Vec::new();
    renderer().push_message_parts(&mut parts, "loaded \"user \\\"jonas\\\"\"", &[], Color::White);

    assert_eq!(parts[0], Part::new("loaded ", Color::White, false));
    assert_eq!(
        parts[1],
        Part::new("\"user \\\"jonas\\\"\"", string_color(), false)
    );
}

#[test]
fn structured_message_parts_use_jq_style_colors() {
    let message_parts = vec![
        MessagePart::text("au revoir"),
        MessagePart::fields(vec![
            TraceValueField::new("lang", TraceValue::String("fr".to_string())),
            TraceValueField::new("ok", TraceValue::Bool(true)),
            TraceValueField::new("count", TraceValue::Number("7".to_string())),
            TraceValueField::new("none", TraceValue::Null),
        ]),
    ];
    let mut parts = Vec::new();

    renderer().push_message_parts(&mut parts, "", &message_parts, Color::White);

    assert_eq!(
        EntryRenderer::plain_text_from_parts(&parts),
        r#"au revoir (lang="fr" ok=true count=7 none=null)"#
    );
    assert_eq!(parts[0], Part::new("au revoir", Color::White, false));
    assert_eq!(parts[2], Part::new("lang", Color::Blue, true));
    assert_eq!(parts[4], Part::new("\"fr\"", Color::Green, false));
    assert_eq!(parts[8], Part::new("true", Color::Reset, false));
    assert_eq!(parts[12], Part::new("7", Color::Reset, false));
    assert_eq!(parts[16], Part::new("null", Color::DarkGrey, false));
}

#[test]
fn span_parts_use_span_specific_colors() {
    let spans = vec![
        "request{id=7}".to_string(),
        "db{query=\"select\"}".to_string(),
    ];
    let mut parts = Vec::new();

    renderer().push_span_parts(&mut parts, &spans);

    assert_eq!(
        parts[0],
        Part::new("request", span_name_color("request"), false)
    );
    assert_eq!(parts[1], Part::new("{", span_punctuation_color(), false));
    assert_eq!(parts[2], Part::new("id", span_key_color(), false));
    assert_eq!(parts[3], Part::new("=", span_punctuation_color(), false));
    assert_eq!(parts[4], Part::new("7", span_value_color("7"), false));
    assert_eq!(parts[6], Part::new(": ", Color::DarkGrey, false));
    assert_eq!(parts[7], Part::new("db", span_name_color("db"), false));
    assert_eq!(parts[10], Part::new("=", span_punctuation_color(), false));
    assert_eq!(parts[11], Part::new("\"select\"", string_color(), false));
}

#[test]
fn span_parts_render_bare_spans_as_span_names() {
    let spans = vec!["load_graphs".to_string(), "load_graphs_inner".to_string()];
    let mut parts = Vec::new();

    renderer().push_span_parts(&mut parts, &spans);

    assert_eq!(
        parts[0],
        Part::new("load_graphs", span_name_color("load_graphs"), false)
    );
    assert_eq!(parts[1], Part::new(": ", Color::DarkGrey, false));
    assert_eq!(
        parts[2],
        Part::new("load_graphs_inner", span_name_color("load_graphs_inner"), false)
    );
}

#[test]
fn span_palette_is_separate_from_target_palette() {
    assert_eq!(SPAN_PALETTE_SIZE, 64);
    assert_ne!(span_name_color("request"), target_module_color("request"));
}

#[test]
fn highlighting_keeps_the_text_and_marks_every_match() {
    let parts = vec![
        Part::new("| ", Color::DarkGrey, true),
        Part::new("abcab", Color::White, false),
        Part::new("cab", Color::Red, false),
    ];
    let highlighted = apply_search_highlights(parts.clone(), "ab");

    assert_eq!(EntryRenderer::plain_text_from_parts(&highlighted), "| abcabcab");
    let marked: Vec<(&str, bool)> = highlighted
        .iter()
        .map(|part| (part.text.as_str(), part.highlighted))
        .collect();
    assert_eq!(
        marked,
        vec![
            ("| ", false),
            ("ab", true),
            ("c", false),
            ("ab", true),
            ("c", false),
            ("ab", true),
        ]
    );
    assert_eq!(highlighted[5].color, Color::Red);
}

#[test]
fn highlighting_without_a_match_changes_nothing() {
    let parts = vec![Part::new("", Color::White, false), Part::new("abc", Color::White, false)];
    assert_eq!(apply_search_highlights(parts.clone(), "zz"), parts);
    assert_eq!(apply_search_highlights(parts.clone(), ""), parts);
}

#[test]
fn adjacent_matches_form_one_highlighted_piece() {
    let parts = vec![Part::new("aaaa", Color::White, false)];
    let highlighted = apply_search_highlights(parts, "aa");
    assert_eq!(highlighted, vec![Part {
        text: "aaaa".to_string(),
        color: Color::White,
        bold: false,
        highlighted: true,
    }]);
}

#[test]
fn unterminated_quote_runs_to_the_end_of_the_message() {
    let mut parts = Vec::new();
    renderer().push_message_parts(&mut parts, "say \"hi", &[], Color::White);
    assert_eq!(parts, vec![
        Part::new("say ", Color::White, false),
        Part::new("\"hi", string_color(), false),
    ]);
}

#[test]
fn nested_values_render_as_json() {
    let value = TraceValue::Object(vec![
        ("a".to_string(), TraceValue::Array(vec![TraceValue::Number("1".to_string()), TraceValue::Null])),
        ("b\"".to_string(), TraceValue::String("x\ny".to_string())),
    ]);
    assert_eq!(value.text(), r#"{"a":[1,null],"b\"":"x\ny"}"#);
    let mut parts = Vec::new();
    renderer().push_trace_value(&mut parts, &value);
    assert_eq!(EntryRenderer::plain_text_from_parts(&parts), value.text());
    assert_eq!(parts[0], Part::new("{", Color::Reset, true));
    assert_eq!(parts[1], Part::new("\"a\"", Color::Blue, true));
}

#[test]
fn structured_message_plain_text() {
    let message_parts = vec![
        MessagePart::fields(vec![TraceValueField::new("id", TraceValue::Number("7".to_string()))]),
        MessagePart::text("done"),
    ];
    assert_eq!(MessagePart::plain_text(&message_parts), "(id=7)done");
}

#[test]
fn tracing_text_is_classified_and_kept() {
    assert!(matches!(TraceValue::from_tracing_text("true"), TraceValue::Bool(true)));
    assert!(matches!(TraceValue::from_tracing_text("false"), TraceValue::Bool(false)));
    assert!(matches!(TraceValue::from_tracing_text("null"), TraceValue::Null));
    for text in ["42", "-1.5e3", "inf", "NaN"] {
        match TraceValue::from_tracing_text(text) {
            TraceValue::Number(n) => assert_eq!(n, text),
            other => panic!("{text} gave {other:?}"),
        }
    }
    match TraceValue::from_tracing_text("\"admin\"") {
        TraceValue::String(s) => assert_eq!(s, "admin"),
        other => panic!("gave {other:?}"),
    }
    for text in ["\"a\\\"b\"", "{x}", "hello", "1.2.3"] {
        let value = TraceValue::from_tracing_text(text);
        assert!(matches!(value, TraceValue::Other(_)), "{text}");
        assert_eq!(value.text(), text);
    }
    assert_eq!(TraceValue::from_tracing_text("\"admin\"").text(), "\"admin\"");
}

#[test]
fn parsed_entry_shows_level_column_and_timestamp() {
    let entry = LogEntry {
        raw: "x".to_string(),
        timestamp: Some("T".to_string()),
        level: Level::Warn,
        parsed: true,
        target: None,
        spans: Vec::new(),
        values: Vec::new(),
        message: "m".to_string(),
        message_parts: Vec::new(),
        stream: Stream::Stderr,
    };
    let parts = renderer().parts(&entry);
    assert_eq!(parts[0], Part::new("! ", Color::Yellow, true));
    assert_eq!(parts[1], Part::new("T ", Color::DarkGrey, false));
    assert_eq!(parts[2], Part::new("WARN  ", Color::Yellow, true));
    assert_eq!(parts[3], Part::new("m", Color::Yellow, false));
}

#[test]
fn stable_hash_is_fnv_style_over_bytes() {
    assert_eq!(stable_hash(""), 2_166_136_261);
    assert_eq!(stable_hash("ab"), 3_766_795_653_166_345_528);
    assert_eq!(span_name_color("ab"), Color::SpanPalette(56));
    assert_eq!(target_module_color("ab"), Color::TargetPalette(56));
}
