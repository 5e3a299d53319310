use weaverd::errors::DispatchError;
use weaverd::observe::arguments::{GetDefinitionArgs, Language};
use weaverd::observe::enrich::{
    byte_col_to_utf16, compute_utf16_character, extract_hover_text, hover_character,
    is_deprecation_marker, parse_hover_response, to_lsp_language, CardLanguage, HoverContents,
    MarkedString,
};
use weaverd::observe::graph_slice::first_non_whitespace_column;
use weaverd::observe::responses::{
    extract_locations, DefinitionLocation, GotoDefinitionResponse, Location, LocationLink,
    Position,
};

fn args(values: &[&str]) -> Vec<String> {
    values.iter().map(|value| (*value).to_owned()).collect()
}

fn assert_invalid_arguments(values: &[&str], expected_substring: &str) {
    let error = GetDefinitionArgs::parse(&args(values)).expect_err("should fail");
    assert!(matches!(error, DispatchError::InvalidArguments { .. }), "got: {error:?}");
    assert!(
        error.to_message().contains(expected_substring),
        "expected {expected_substring:?} in {}",
        error.to_message()
    );
}

fn check_utf16_offset(line: &str, byte_col: u32, expected: Option<u32>) {
    assert_eq!(byte_col_to_utf16(line, byte_col), expected, "line {line:?} byte {byte_col}");
}

fn assert_deprecation(line: &str, expected: bool) {
    assert_eq!(is_deprecation_marker(line), expected);
    let info = parse_hover_response(&HoverContents::Markup(line.to_owned()));
    assert_eq!(info.deprecated, expected);
}

#[test]
fn parses_valid_arguments() {
    let parsed = GetDefinitionArgs::parse(&args(&["--uri", "file:///src/main.rs", "--position", "10:5"]))
        .expect("should parse");
    assert_eq!(parsed.uri(), "file:///src/main.rs");
    assert_eq!(parsed.line(), 10);
    assert_eq!(parsed.column(), 5);
}

#[test]
fn parses_arguments_in_reverse_order() {
    let parsed = GetDefinitionArgs::parse(&args(&["--position", "42:17", "--uri", "file:///lib.rs"]))
        .expect("should parse");
    assert_eq!(parsed.uri(), "file:///lib.rs");
    assert_eq!(parsed.line(), 42);
    assert_eq!(parsed.column(), 17);
}

#[test]
fn rejects_missing_uri() {
    assert_invalid_arguments(&["--position", "10:5"], "--uri");
}

#[test]
fn rejects_missing_position() {
    assert_invalid_arguments(&["--uri", "file:///main.rs"], "--position");
}

#[test]
fn rejects_malformed_position() {
    assert_invalid_arguments(&["--uri", "file:///main.rs", "--position", "10"], "LINE:COL");
}

#[test]
fn rejects_zero_line() {
    assert_invalid_arguments(&["--uri", "file:///main.rs", "--position", "0:5"], "line");
}

#[test]
fn rejects_unknown_argument() {
    assert_invalid_arguments(
        &["--uri", "file:///main.rs", "--position", "10:5", "--unknown"],
        "unknown",
    );
}

#[test]
fn infers_language_from_extension() {
    for (uri, expected) in [
        ("file:///main.rs", Language::Rust),
        ("file:///lib.rs", Language::Rust),
        ("file:///script.py", Language::Python),
        ("file:///app.ts", Language::TypeScript),
        ("file:///component.tsx", Language::TypeScript),
    ] {
        let parsed = GetDefinitionArgs::parse(&args(&["--uri", uri, "--position", "1:1"]))
            .expect("should parse");
        assert_eq!(parsed.language().expect("should infer language"), expected);
    }
}

#[test]
fn rejects_unsupported_extension() {
    let parsed = GetDefinitionArgs::parse(&args(&["--uri", "file:///main.xyz", "--position", "1:1"]))
        .expect("should parse");
    let error = parsed.language().expect_err("should fail");
    assert!(matches!(error, DispatchError::UnsupportedLanguage { .. }));
}

#[test]
fn converts_to_lsp_params_with_zero_indexed_position() {
    let parsed = GetDefinitionArgs::parse(&args(&["--uri", "file:///main.rs", "--position", "10:5"]))
        .expect("should parse");
    let params = parsed.into_params();
    assert_eq!(params.line, 9);
    assert_eq!(params.character, 4);
}

#[test]
fn parses_markup_hover_response() {
    let info = parse_hover_response(&HoverContents::Markup(String::from(
        "```rust\nfn greet(name: &str) -> usize\n```",
    )));
    assert_eq!(info.source, "lsp_hover");
    assert!(info.hover.contains("fn greet"));
    assert_eq!(info.type_info, "fn greet(name: &str) -> usize");
    assert!(!info.deprecated);
}

#[test]
fn parses_scalar_marked_string_hover() {
    let info = parse_hover_response(&HoverContents::Scalar(MarkedString::String(String::from(
        "A simple function",
    ))));
    assert_eq!(info.hover, "A simple function");
    assert_eq!(info.type_info, "A simple function");
    assert!(!info.deprecated);
}

#[test]
fn detects_deprecation_in_hover_text() {
    assert_deprecation("**Deprecated**: use `new_function` instead", true);
}

#[test]
fn ignores_unstructured_deprecated_mentions_in_hover_text() {
    assert_deprecation("See deprecated alternatives in the migration guide.", false);
}

#[test]
fn handles_empty_hover_contents() {
    let info = parse_hover_response(&HoverContents::Array(vec![]));
    assert!(info.hover.is_empty());
    assert!(info.type_info.is_empty());
    assert!(!info.deprecated);
}

#[test]
fn parses_language_string_hover() {
    let info = parse_hover_response(&HoverContents::Scalar(MarkedString::LanguageString {
        language: String::from("rust"),
        value: String::from("fn hello() -> String"),
    }));
    assert_eq!(info.hover, "fn hello() -> String");
    assert_eq!(info.type_info, "fn hello() -> String");
}

#[test]
fn joins_array_hover_items_by_line() {
    let text = extract_hover_text(&HoverContents::Array(vec![
        MarkedString::String(String::from("one")),
        MarkedString::LanguageString { language: String::from("rust"), value: String::from("two") },
    ]));
    assert_eq!(text, "one\ntwo");
}

#[test]
fn maps_card_languages_to_lsp() {
    assert_eq!(to_lsp_language(CardLanguage::Rust), Some(Language::Rust));
    assert_eq!(to_lsp_language(CardLanguage::Python), Some(Language::Python));
    assert_eq!(to_lsp_language(CardLanguage::TypeScript), Some(Language::TypeScript));
}

#[test]
fn byte_col_to_utf16_converts_ascii_correctly() {
    let line = "fn foo() {}";
    check_utf16_offset(line, 0, Some(0));
    check_utf16_offset(line, 3, Some(3));
    check_utf16_offset(line, 11, Some(11));
}

#[test]
fn byte_col_to_utf16_converts_multibyte_utf8_correctly() {
    let line = "// café";
    check_utf16_offset(line, 0, Some(0));
    check_utf16_offset(line, 3, Some(3));
    check_utf16_offset(line, 4, Some(4));
    check_utf16_offset(line, 5, Some(5));
    check_utf16_offset(line, 6, Some(6));
    check_utf16_offset(line, 8, Some(7));
}

#[test]
fn byte_col_to_utf16_converts_emoji_correctly() {
    let line = "// 🦀 Rust";
    check_utf16_offset(line, 0, Some(0));
    check_utf16_offset(line, 3, Some(3));
    check_utf16_offset(line, 7, Some(5));
    check_utf16_offset(line, 8, Some(6));
}

#[test]
fn byte_col_to_utf16_rejects_out_of_range_offset() {
    check_utf16_offset("hello", 100, None);
}

#[test]
fn byte_col_to_utf16_rejects_non_char_boundary() {
    check_utf16_offset("café", 4, None);
}

#[test]
fn compute_utf16_character_reads_the_requested_line() {
    let source = "fn a() {}\nlet café = 1;\n";
    assert_eq!(compute_utf16_character(source, 1, 12), Some(11));
    assert_eq!(compute_utf16_character(source, 5, 0), None);
}

#[test]
fn hover_character_passes_bytes_through_when_utf8_negotiated() {
    let source = "fn a() {}\nlet café = 1;\n";
    assert_eq!(hover_character(source, 1, 12, true), Some(12));
    assert_eq!(hover_character(source, 1, 12, false), Some(11));
}

#[test]
fn first_non_whitespace_column_uses_character_offsets() {
    assert_eq!(first_non_whitespace_column("\u{2003}\u{2003}fn main() {}"), Some(3));
}

#[test]
fn first_non_whitespace_column_of_blank_line_is_none() {
    assert_eq!(first_non_whitespace_column(" \t "), None);
}

#[test]
fn handles_empty_array() {
    let locations = extract_locations(GotoDefinitionResponse::Array(vec![]));
    assert!(locations.is_empty());
}

#[test]
fn extracts_one_indexed_locations() {
    let locations = extract_locations(GotoDefinitionResponse::Link(vec![LocationLink {
        target_uri: String::from("file:///a.rs"),
        target_selection_start: Position { line: 0, character: 4 },
    }]));
    assert_eq!(locations.len(), 1);
    assert_eq!(locations[0].uri, "file:///a.rs");
    assert_eq!(locations[0].line, 1);
    assert_eq!(locations[0].column, 5);
    let scalar = extract_locations(GotoDefinitionResponse::Scalar(Location {
        uri: String::from("file:///b.rs"),
        start: Position { line: u32::MAX, character: 2 },
    }));
    assert_eq!(scalar[0].line, u32::MAX);
    assert_eq!(scalar[0].column, 3);
}

#[test]
fn serializes_to_expected_json() {
    let location = DefinitionLocation { uri: "file:///path.rs".to_string(), line: 42, column: 17 };
    let json = location.to_json();
    assert!(json.contains(r#""uri":"file:///path.rs""#));
    assert_eq!(json, r#"{"uri":"file:///path.rs","line":42,"column":17}"#);
}

use weaverd::observe::source_path::{card_source_path, path_or_refusal, slice_source_path};

fn invalid_arguments_message(result: Result<String, DispatchError>) -> String {
    match result {
        Err(DispatchError::InvalidArguments { message }) => message,
        other => panic!("expected invalid arguments, got {other:?}"),
    }
}

#[test]
fn card_source_path_resolves_file_uri() {
    assert_eq!(card_source_path("file:///tmp/demo.rs").expect("file path"), "/tmp/demo.rs");
    assert_eq!(
        card_source_path("file:///tmp/with%20space.rs").expect("file path"),
        "/tmp/with space.rs"
    );
}

#[test]
fn card_source_path_rejects_non_file_uri() {
    let message = invalid_arguments_message(card_source_path("https://example.com/demo.rs"));
    assert_eq!(message, "unsupported URI scheme 'https': expected file");
}

#[test]
fn card_source_path_rejects_unparsable_uri() {
    let message = invalid_arguments_message(card_source_path("demo.rs"));
    assert_eq!(message, "invalid URI 'demo.rs': relative URL without a base");
}

#[test]
fn card_source_path_rejects_remote_host() {
    let message = invalid_arguments_message(card_source_path("file://remote/demo.rs"));
    assert_eq!(message, "URI is not a valid file path: file://remote/demo.rs");
}

#[test]
fn slice_source_path_words_its_refusals() {
    assert_eq!(slice_source_path("file:///src/lib.rs").expect("file path"), "/src/lib.rs");
    assert_eq!(
        invalid_arguments_message(slice_source_path("https://example.com/demo.rs")),
        "unsupported URI scheme 'https': expected a file URI"
    );
    assert_eq!(
        invalid_arguments_message(slice_source_path("demo.rs")),
        "invalid URI: relative URL without a base"
    );
    assert_eq!(
        invalid_arguments_message(slice_source_path("file://remote/demo.rs")),
        "URI is not a valid file path"
    );
}

#[test]
fn path_or_refusal_keeps_the_path() {
    assert_eq!(path_or_refusal(Some("/a".to_string()), "no").expect("path"), "/a");
    assert_eq!(invalid_arguments_message(path_or_refusal(None, "no")), "no");
}
