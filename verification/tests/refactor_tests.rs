use weaverd::errors::DispatchError;
use weaverd::refactor::arguments::{is_valid_extra_argument, parse_refactor_args};
use weaverd::refactor::manifests::{
    built_in_provider_names, rope_manifest, rust_analyzer_manifest, CapabilityId, PluginManifest,
};
use weaverd::refactor::metrics::AtomicPositionMetrics;
use weaverd::refactor::paths::{
    contains_parent_traversal, relative_to_workspace, resolve_file, resolve_rope_plugin_path,
    resolve_rust_analyzer_plugin_path,
};
use weaverd::refactor::plugin_args::{PluginArgValue, PluginArgs};
use weaverd::refactor::positions::{line_col_to_byte_offset, parse_line_col, LineCol};
use weaverd::refactor::request_building::{apply_rename_symbol_mapping, build_plugin_args};
use weaverd::refactor::requirements::{
    capability_for_operation, effective_operation, format_required_flags, guidance_lines,
    missing_requirements_error, supported_provider_names, supported_refactoring_names,
    validate_provider, validate_refactoring,
};
use weaverd::refactor::resolution::{
    resolve_provider, CandidateReason, CapabilityResolutionDetails, RefusalReason,
    ResolutionOutcome, ResolutionRequest, SelectionMode,
};
use weaverd::refactor::response_handling::{
    handle_plugin_response, plugin_response_action, resolution_json, PluginAction, PluginOutput,
    PluginResponse,
};
use weaverd::response::ResponseWriter;

fn strings(values: &[&str]) -> Vec<String> {
    values.iter().map(|value| (*value).to_owned()).collect()
}

fn invalid_arguments_message(error: DispatchError) -> String {
    match error {
        DispatchError::InvalidArguments { message } => message,
        other => panic!("expected invalid arguments error, got: {other:?}"),
    }
}

fn assert_invalid_args_contains(args: Vec<String>, expected_substrings: &[&str]) {
    let message =
        invalid_arguments_message(parse_refactor_args(&args).expect_err("parse should fail"));
    for expected in expected_substrings {
        assert!(message.contains(expected), "missing {expected:?} from: {message}");
    }
}

fn assert_full_contract(message: &str) {
    for required in ["--provider <plugin>", "--refactoring <operation>", "--file <path>"] {
        assert!(message.contains(required), "missing '{required}' from: {message}");
    }
    assert!(message.contains("Providers: rope, rust-analyzer"));
    assert!(message.contains("Refactorings: rename"));
    assert!(message.contains("Next command:"));
}

#[test]
fn supported_lists_stay_canonical() {
    assert_eq!(supported_provider_names(), ["rope", "rust-analyzer"]);
    assert_eq!(supported_refactoring_names(), ["rename"]);
}

#[test]
fn built_in_provider_names_match_supported_providers() {
    assert_eq!(built_in_provider_names(), supported_provider_names());
}

#[test]
fn missing_requirements_error_lists_full_contract() {
    let message = invalid_arguments_message(missing_requirements_error());
    assert_full_contract(&message);
}

#[test]
fn invalid_provider_error_lists_supported_values() {
    let message =
        invalid_arguments_message(validate_provider("missing-provider").expect_err("invalid"));
    assert!(message.contains("does not support provider 'missing-provider'"));
    assert!(message.contains("Providers: rope, rust-analyzer"));
}

#[test]
fn invalid_refactoring_error_lists_supported_values() {
    let message =
        invalid_arguments_message(validate_refactoring("extract-method").expect_err("invalid"));
    assert!(message.contains("does not support refactoring 'extract-method'"));
    assert!(message.contains("Refactorings: rename"));
}

#[test]
fn refactoring_table_drives_operation_mapping() {
    assert_eq!(effective_operation("rename").expect("supported"), "rename-symbol");
    assert_eq!(capability_for_operation("rename-symbol").expect("supported"), CapabilityId::RenameSymbol);
}

#[test]
fn unknown_operation_has_no_capability() {
    let message = invalid_arguments_message(
        capability_for_operation("extract-method").expect_err("unsupported"),
    );
    assert!(message.contains("'extract-method'"));
    assert!(message.contains("only 'rename-symbol'"));
}

#[test]
fn guidance_text_is_exact() {
    assert_eq!(format_required_flags(), "--provider <plugin>, --refactoring <operation>, and --file <path>");
    assert_eq!(
        guidance_lines(),
        "Valid alternatives:\n  - Providers: rope, rust-analyzer\n  - Refactorings: rename\n\nNext command:\n  weaver act refactor --provider rope --refactoring rename --file path/to/file.py offset=1 new_name=renamed_symbol"
    );
}

#[test]
fn parses_complete_argument_set() {
    let args = strings(&["--provider", "rope", "--refactoring", "rename", "--file", "src/main.py"]);
    let parsed = parse_refactor_args(&args).expect("parse succeeds");
    assert_eq!(parsed.provider, "rope");
    assert_eq!(parsed.refactoring, "rename");
    assert_eq!(parsed.file, "src/main.py");
}

#[test]
fn keeps_trailing_key_value_arguments() {
    let args = strings(&[
        "--file", "a.py", "offset=1", "--provider", "rust-analyzer", "new_name=x", "--refactoring",
        "rename",
    ]);
    let parsed = parse_refactor_args(&args).expect("parse succeeds");
    assert_eq!(parsed.provider, "rust-analyzer");
    assert_eq!(parsed.extra, strings(&["offset=1", "new_name=x"]));
}

#[test]
fn rejects_missing_flag_value() {
    assert_invalid_args_contains(
        strings(&["--provider", "rope", "--refactoring", "rename", "--file"]),
        &["requires a value"],
    );
}

#[test]
fn rejects_flag_as_value() {
    assert_invalid_args_contains(
        strings(&["--provider", "rope", "--refactoring", "rename", "--file", "--provider"]),
        &["--file requires a value"],
    );
}

#[test]
fn rejects_unsupported_provider() {
    assert_invalid_args_contains(
        strings(&["--provider", "missing-provider", "--refactoring", "rename", "--file", "src/main.py"]),
        &["does not support provider 'missing-provider'", "Providers: rope, rust-analyzer"],
    );
}

#[test]
fn rejects_unsupported_refactoring() {
    assert_invalid_args_contains(
        strings(&["--provider", "rope", "--refactoring", "extract-method", "--file", "src/main.py"]),
        &["does not support refactoring 'extract-method'", "Refactorings: rename"],
    );
}

#[test]
fn rejects_unexpected_top_level_flag() {
    assert_invalid_args_contains(
        strings(&["--provider", "rope", "--refactoring", "rename", "--file", "src/main.py", "--bogus"]),
        &["invalid trailing arguments: '--bogus'", "trailing KEY=VALUE arguments"],
    );
}

#[test]
fn rejects_malformed_trailing_arguments() {
    assert_invalid_args_contains(
        strings(&[
            "--provider", "rope", "--refactoring", "rename", "--file", "src/main.py", "offset",
            "=woven", "new_name",
        ]),
        &["invalid trailing arguments: 'offset', '=woven', 'new_name'", "trailing KEY=VALUE arguments"],
    );
}

#[test]
fn missing_required_flags_report_full_contract() {
    for args in [
        strings(&[]),
        strings(&["--refactoring", "rename", "--file", "src/main.py"]),
        strings(&["--provider", "rope", "--file", "src/main.py"]),
        strings(&["--provider", "rope", "--refactoring", "rename"]),
    ] {
        let message =
            invalid_arguments_message(parse_refactor_args(&args).expect_err("parse should fail"));
        assert_full_contract(&message);
    }
}

#[test]
fn classifies_extra_arguments() {
    assert!(is_valid_extra_argument("offset=1"));
    assert!(is_valid_extra_argument("k="));
    assert!(!is_valid_extra_argument("=v"));
    assert!(!is_valid_extra_argument("--k=v"));
    assert!(!is_valid_extra_argument("flag"));
}

#[test]
fn atomic_metrics_increment_each_counter() {
    let mut metrics = AtomicPositionMetrics::new();
    metrics.reset_test_counters();

    metrics.increment_parse_error();
    assert_eq!(metrics.test_counter_values(), (1, 0));

    metrics.increment_conversion_error();
    assert_eq!(metrics.test_counter_values(), (1, 1));
    metrics.reset_test_counters();
    assert_eq!(metrics.test_counter_values(), (0, 0));
}

#[test]
fn metrics_saturate() {
    let mut metrics = AtomicPositionMetrics { parse_errors: u64::MAX, conversion_errors: 0 };
    metrics.increment_parse_error();
    assert_eq!(metrics.test_counter_values(), (u64::MAX, 0));
}

#[test]
fn parse_line_col_accepts_valid_values() {
    assert_eq!(parse_line_col("1:1").expect("parses"), LineCol { line: 1, column: 1 });
    assert_eq!(parse_line_col("12:34").expect("parses"), LineCol { line: 12, column: 34 });
}

#[test]
fn parse_line_col_rejects_invalid_values() {
    for (value, expected) in [
        ("1", "LINE:COL"),
        ("x:1", "invalid line number"),
        ("1:x", "invalid column number"),
        ("0:1", "line number must be >= 1"),
        ("1:0", "column number must be >= 1"),
    ] {
        let message = invalid_arguments_message(parse_line_col(value).expect_err("should fail"));
        assert!(message.contains(expected), "{message}");
    }
}

#[test]
fn parse_line_col_round_trips_positive_values() {
    for (line, column) in [(1u32, 1u32), (9999, 1), (17, 4242), (u32::MAX, u32::MAX)] {
        let value = format!("{line}:{column}");
        assert_eq!(parse_line_col(&value).expect("parses"), LineCol { line, column });
    }
}

#[test]
fn line_col_to_byte_offset_accepts_valid_positions() {
    for (content, line, column, expected) in [
        ("hello\n", 1, 1, 0usize),
        ("hello\n", 1, 5, 4),
        ("hello\n", 1, 6, 5),
        ("hello\nworld\n", 2, 2, 7),
        ("héllo\n", 1, 3, 3),
        ("héllo\n", 1, 6, 6),
        ("hello\n\nworld\n", 2, 1, 6),
        ("hello\r\nworld\r\n", 2, 1, 7),
    ] {
        assert_eq!(
            line_col_to_byte_offset(content, line, column, None).expect("position converts"),
            expected,
            "{content:?} {line}:{column}"
        );
    }
}

#[test]
fn line_col_to_byte_offset_rejects_out_of_range_positions() {
    for (content, line, column) in [("hello\n", 2, 1), ("hello\n", 1, 7), ("hello\n\nworld\n", 2, 2)] {
        let message = invalid_arguments_message(
            line_col_to_byte_offset(content, line, column, None).expect_err("position should fail"),
        );
        assert!(message.contains("out of range"), "{message}");
    }
}

#[test]
fn out_of_range_message_names_the_file() {
    let message = invalid_arguments_message(
        line_col_to_byte_offset("a\n", 3, 1, Some("/tmp/x.py")).expect_err("should fail"),
    );
    assert_eq!(message, "position 3:1 is out of range for the target file '/tmp/x.py'");
}

#[test]
fn crlf_and_lf_agree_relative_to_line_start() {
    let lf = "ab\ncd\n";
    let crlf = "ab\r\ncd\r\n";
    assert_eq!(line_col_to_byte_offset(lf, 2, 2, None).expect("lf") - 3, 1);
    assert_eq!(line_col_to_byte_offset(crlf, 2, 2, None).expect("crlf") - 4, 1);
}

#[test]
fn offsets_are_monotonic_and_on_char_boundaries() {
    let content = "aé🦀b\n";
    let mut previous = 0usize;
    for column in 1..=5u32 {
        let offset = line_col_to_byte_offset(content, 1, column, None).expect("valid");
        assert!(offset >= previous);
        assert!(content.is_char_boundary(offset));
        previous = offset;
    }
}

#[test]
fn parse_success_does_not_increment_parse_counter() {
    let mut metrics = AtomicPositionMetrics::new();
    if parse_line_col("1:1").is_err() {
        metrics.increment_parse_error();
    }
    assert_eq!(metrics.parse_errors, 0);
}

#[test]
fn parse_failure_increments_parse_counter_once() {
    let mut metrics = AtomicPositionMetrics::new();
    if parse_line_col("1").is_err() {
        metrics.increment_parse_error();
    }
    assert_eq!(metrics.parse_errors, 1);
}

#[test]
fn conversion_success_does_not_increment_conversion_counter() {
    let mut metrics = AtomicPositionMetrics::new();
    let mut plugin_args = PluginArgs::new();
    apply_rename_symbol_mapping(
        &mut plugin_args,
        "/tmp/a.py",
        "hello\n",
        Some(LineCol { line: 1, column: 1 }),
        &mut metrics,
    )
    .expect("position converts");
    assert_eq!(metrics.conversion_errors, 0);
}

#[test]
fn conversion_failure_increments_conversion_counter_once() {
    let mut metrics = AtomicPositionMetrics::new();
    let mut plugin_args = PluginArgs::new();
    let _ = apply_rename_symbol_mapping(
        &mut plugin_args,
        "/tmp/a.py",
        "hello\n",
        Some(LineCol { line: 2, column: 1 }),
        &mut metrics,
    )
    .expect_err("position should fail");
    assert_eq!(metrics.conversion_errors, 1);
}

#[test]
fn apply_rename_symbol_mapping_rejects_non_string_or_numeric_offset() {
    let mut plugin_args = PluginArgs::new();
    plugin_args.insert(String::from("offset"), PluginArgValue::Bool(false));
    plugin_args.insert(String::from("new_name"), PluginArgValue::Text(String::from("woven")));
    let mut metrics = AtomicPositionMetrics::new();
    let err = apply_rename_symbol_mapping(&mut plugin_args, "/tmp", "hello world", None, &mut metrics)
        .expect_err("offset must be rejected when not numeric");

    assert!(matches!(err, DispatchError::InvalidArguments { .. }));
    let message = invalid_arguments_message(err);
    assert!(message.contains("must be a numeric or string byte offset"));
    assert!(message.contains("/tmp"));
}

#[test]
fn rename_mapping_converts_position_and_adds_uri() {
    let mut plugin_args = PluginArgs::new();
    let mut metrics = AtomicPositionMetrics::new();
    apply_rename_symbol_mapping(
        &mut plugin_args,
        "/work/src/main.py",
        "hello\nworld\n",
        Some(LineCol { line: 2, column: 2 }),
        &mut metrics,
    )
    .expect("mapping");
    match plugin_args.get("position") {
        Some(PluginArgValue::Text(t)) => assert_eq!(t, "7"),
        other => panic!("unexpected position {other:?}"),
    }
    match plugin_args.get("uri") {
        Some(PluginArgValue::Text(t)) => assert_eq!(t, "file:///work/src/main.py"),
        other => panic!("unexpected uri {other:?}"),
    }
}

#[test]
fn rename_mapping_moves_deprecated_offset() {
    let mut plugin_args = PluginArgs::new();
    plugin_args.insert(String::from("offset"), PluginArgValue::Text(String::from("12")));
    let mut metrics = AtomicPositionMetrics::new();
    apply_rename_symbol_mapping(&mut plugin_args, "/w/a.py", "", None, &mut metrics).expect("mapping");
    assert!(!plugin_args.contains_key("offset"));
    match plugin_args.get("position") {
        Some(PluginArgValue::Text(t)) => assert_eq!(t, "12"),
        other => panic!("unexpected position {other:?}"),
    }
}

#[test]
fn rename_mapping_refuses_relative_path_and_missing_position() {
    let mut metrics = AtomicPositionMetrics::new();
    let mut plugin_args = PluginArgs::new();
    let message = invalid_arguments_message(
        apply_rename_symbol_mapping(&mut plugin_args, "rel.py", "", None, &mut metrics)
            .expect_err("relative"),
    );
    assert_eq!(message, "cannot construct file URI for 'rel.py'");
    let message = invalid_arguments_message(
        apply_rename_symbol_mapping(&mut plugin_args, "/w/a.py", "", None, &mut metrics)
            .expect_err("missing position"),
    );
    assert_eq!(message, "refactor rename requires --position LINE:COL for '/w/a.py'");
}

#[test]
fn builds_plugin_args_from_extras() {
    let args = parse_refactor_args(&strings(&[
        "--provider", "rope", "--refactoring", "rename", "--file", "a.py", "new_name=x=y", " k =v",
    ]))
    .expect("args");
    let plugin_args = build_plugin_args(&args).expect("plugin args");
    match plugin_args.get("new_name") {
        Some(PluginArgValue::Text(t)) => assert_eq!(t, "x=y"),
        other => panic!("unexpected {other:?}"),
    }
    match plugin_args.get("k") {
        Some(PluginArgValue::Text(t)) => assert_eq!(t, "v"),
        other => panic!("unexpected {other:?}"),
    }
}

#[test]
fn build_plugin_args_rejects_reserved_key() {
    let args = parse_refactor_args(&strings(&[
        "--provider", "rope", "--refactoring", "rename", "--file", "a.py", "refactoring=x",
    ]))
    .expect("args");
    let message = invalid_arguments_message(build_plugin_args(&args).err().expect("refused"));
    assert_eq!(message, "refactor extra argument must not override reserved key 'refactoring'");
}

#[test]
fn plugin_args_insert_replaces_and_remove_deletes() {
    let mut m = PluginArgs::new();
    m.insert(String::from("a"), PluginArgValue::Bool(true));
    m.insert(String::from("a"), PluginArgValue::Number(String::from("3")));
    assert_eq!(m.entries().len(), 1);
    assert!(matches!(m.remove("a"), Some(PluginArgValue::Number(_))));
    assert!(!m.contains_key("a"));
    assert!(m.remove("a").is_none());
}

#[test]
fn detects_parent_traversal() {
    assert!(contains_parent_traversal("../x"));
    assert!(contains_parent_traversal("a/../b"));
    assert!(!contains_parent_traversal("a/...b"));
    assert!(!contains_parent_traversal("a/b.py"));
}

#[test]
fn resolve_file_checks_target() {
    assert_eq!(resolve_file("/work", "src/a.py").expect("ok"), "/work/src/a.py");
    assert!(matches!(resolve_file("/work", "/etc/passwd"), Err(DispatchError::InvalidArguments { .. })));
    let message = invalid_arguments_message(resolve_file("/work", "../x").expect_err("traversal"));
    assert_eq!(message, "path traversal is not allowed");
}

#[test]
fn relative_to_workspace_strips_the_root() {
    assert_eq!(relative_to_workspace("/work", "/work/src/a.py").expect("inside"), "src/a.py");
    assert!(relative_to_workspace("/work", "/workspace/a.py").is_err());
    assert!(relative_to_workspace("/work", "/etc/a.py").is_err());
}

#[test]
fn resolve_rope_plugin_path_makes_relative_overrides_absolute() {
    let path = resolve_rope_plugin_path(Some(String::from("bin/rope")), Some(String::from("/home/u")));
    assert!(path.starts_with('/'));
    assert_eq!(path, "/home/u/bin/rope");
    assert_eq!(resolve_rope_plugin_path(None, None), "/usr/bin/weaver-plugin-rope");
}

#[test]
fn resolve_rust_analyzer_plugin_path_makes_relative_overrides_absolute() {
    let path = resolve_rust_analyzer_plugin_path(
        Some(String::from("bin/rust-analyzer-plugin")),
        Some(String::from("/srv/")),
    );
    assert!(path.starts_with('/'));
    assert_eq!(path, "/srv/bin/rust-analyzer-plugin");
}

#[test]
fn rust_analyzer_manifest_declares_rename_symbol_capability() {
    let manifest = rust_analyzer_manifest(String::from("/usr/bin/weaver-plugin-rust-analyzer"));
    assert_eq!(manifest.capabilities, vec![CapabilityId::RenameSymbol]);
    assert_eq!(manifest.name, "rust-analyzer");
    assert_eq!(manifest.languages, strings(&["rust"]));
    assert_eq!(manifest.timeout_secs, Some(60));
}

#[test]
fn rope_manifest_has_no_timeout() {
    let manifest = rope_manifest(String::from("/usr/bin/weaver-plugin-rope"));
    assert_eq!(manifest.languages, strings(&["python"]));
    assert_eq!(manifest.timeout_secs, None);
}

fn registry() -> Vec<PluginManifest> {
    vec![
        rope_manifest(String::from("/usr/bin/weaver-plugin-rope")),
        rust_analyzer_manifest(String::from("/usr/bin/weaver-plugin-rust-analyzer")),
    ]
}

fn resolution_for(path: &str, provider: Option<&str>) -> CapabilityResolutionDetails {
    let request = ResolutionRequest::new(CapabilityId::RenameSymbol, path, provider);
    resolve_provider(&registry(), &request).details().clone()
}

fn assert_provider_selected(
    details: &CapabilityResolutionDetails,
    provider: &str,
    mode: SelectionMode,
    language: &str,
) {
    assert_eq!(details.selected_provider(), Some(provider));
    assert_eq!(details.selection_mode, mode);
    assert_eq!(details.outcome, ResolutionOutcome::Selected);
    assert_eq!(details.language.as_deref(), Some(language));
}

fn assert_provider_refused(details: &CapabilityResolutionDetails, reason: RefusalReason) {
    assert_eq!(details.selected_provider(), None);
    assert_eq!(details.outcome, ResolutionOutcome::Refused);
    assert_eq!(details.refusal_reason, Some(reason));
}

#[test]
fn automatic_python_selection_prefers_rope() {
    let details = resolution_for("src/main.py", None);
    assert_provider_selected(&details, "rope", SelectionMode::Automatic, "python");
    assert_eq!(details.candidates.len(), 2);
    assert_eq!(details.candidates[0].reason, CandidateReason::MatchedLanguageAndCapability);
}

#[test]
fn automatic_rust_selection_prefers_rust_analyzer() {
    let details = resolution_for("src/main.rs", None);
    assert_provider_selected(&details, "rust-analyzer", SelectionMode::Automatic, "rust");
    assert_eq!(
        details
            .candidates
            .iter()
            .find(|candidate| candidate.provider == "rope")
            .map(|candidate| candidate.reason),
        Some(CandidateReason::UnsupportedLanguage)
    );
}

#[test]
fn explicit_provider_mismatch_is_refused() {
    let details = resolution_for("src/main.py", Some("rust-analyzer"));
    assert_eq!(details.selection_mode, SelectionMode::ExplicitProvider);
    assert_provider_refused(&details, RefusalReason::ExplicitProviderMismatch);
}

#[test]
fn explicit_provider_selection_succeeds_when_language_matches() {
    let details = resolution_for("src/main.py", Some("rope"));
    assert_provider_selected(&details, "rope", SelectionMode::ExplicitProvider, "python");
    assert_eq!(details.requested_provider.as_deref(), Some("rope"));
}

#[test]
fn unknown_explicit_provider_is_refused() {
    let details = resolution_for("src/main.py", Some("missing-provider"));
    assert_eq!(details.selection_mode, SelectionMode::ExplicitProvider);
    assert_provider_refused(&details, RefusalReason::ProviderNotFound);
}

#[test]
fn unsupported_language_is_refused() {
    let details = resolution_for("README.md", None);
    assert_provider_refused(&details, RefusalReason::UnsupportedLanguage);
}

#[test]
fn supported_language_without_provider_is_refused_deterministically() {
    let details = resolution_for("src/main.ts", None);
    assert_eq!(details.language.as_deref(), Some("typescript"));
    assert_provider_refused(&details, RefusalReason::NoMatchingProvider);
    assert!(details
        .candidates
        .iter()
        .all(|candidate| candidate.reason == CandidateReason::UnsupportedLanguage));
}

#[test]
fn candidates_are_sorted_by_name() {
    let mut manifests = registry();
    manifests.reverse();
    let request = ResolutionRequest::new(CapabilityId::RenameSymbol, "a.py", None);
    let envelope = resolve_provider(&manifests, &request);
    let names: Vec<&str> =
        envelope.details().candidates.iter().map(|c| c.provider.as_str()).collect();
    assert_eq!(names, vec!["rope", "rust-analyzer"]);
    assert_eq!(envelope.status(), "ok");
    assert_eq!(envelope.kind(), "CapabilityResolution");
}

#[test]
fn resolution_serializes_as_json() {
    let request = ResolutionRequest::new(CapabilityId::RenameSymbol, "README.md", Some("rope"));
    let envelope = resolve_provider(&registry(), &request);
    let json = resolution_json(&envelope);
    assert!(json.starts_with("{\"status\":\"error\",\"type\":\"CapabilityResolution\",\"details\":{"));
    assert!(json.contains("\"requested_provider\":\"rope\""));
    assert!(!json.contains("selected_provider"));
    assert!(json.contains("\"refusal_reason\":\"unsupported_language\""));
    assert!(json.contains(
        "{\"provider\":\"rope\",\"accepted\":false,\"reason\":\"unsupported_language\"}"
    ));
}

#[test]
fn failed_plugin_reports_diagnostics() {
    let response = PluginResponse {
        success: false,
        diagnostics: strings(&["bad", "worse"]),
        output: PluginOutput::Empty,
    };
    let mut output = Vec::new();
    let mut writer = ResponseWriter::new(&mut output);
    let result = handle_plugin_response(&response, &mut writer).expect("write");
    assert_eq!(result.expect("done").status, 1);
    let text = String::from_utf8(output).expect("utf8");
    assert!(text.contains("act refactor failed: bad; worse\\n"));
}

#[test]
fn successful_diff_is_forwarded_to_apply_patch() {
    let response = PluginResponse {
        success: true,
        diagnostics: Vec::new(),
        output: PluginOutput::Diff { content: String::from("diff --git a b") },
    };
    match plugin_response_action(&response) {
        PluginAction::ApplyPatch { request } => {
            assert_eq!(request.domain(), "act");
            assert_eq!(request.operation(), "apply-patch");
            assert_eq!(request.patch(), Some("diff --git a b"));
        }
        other => panic!("unexpected {other:?}"),
    }
}

#[test]
fn successful_non_diff_output_is_refused() {
    let response =
        PluginResponse { success: true, diagnostics: Vec::new(), output: PluginOutput::Analysis };
    match plugin_response_action(&response) {
        PluginAction::Fail { message } => assert_eq!(
            message,
            "act refactor failed: plugin succeeded but did not return diff output\n"
        ),
        other => panic!("unexpected {other:?}"),
    }
}

use weaverd::refactor::flow::{
    complete_plugin_request, plan_plugin_request, report_resolution, report_runtime_failure,
};
use weaverd::refactor::resolution::language_from_path;
use weaverd::observe::arguments::Language;

#[test]
fn infers_languages_from_paths() {
    assert_eq!(language_from_path("src/main.rs"), Some(Language::Rust));
    assert_eq!(language_from_path("a/b.tsx"), Some(Language::TypeScript));
    assert_eq!(language_from_path(".py"), None);
    assert_eq!(language_from_path("README"), None);
}

#[test]
fn plans_and_completes_a_rename_request() {
    let args = parse_refactor_args(&strings(&[
        "--provider", "rope", "--refactoring", "rename", "--file", "a.py", "new_name=woven",
    ]))
    .expect("args");
    let planned = plan_plugin_request(&args).expect("planned");
    assert_eq!(planned.operation, "rename-symbol");
    let mut metrics = AtomicPositionMetrics::new();
    let plugin_args = complete_plugin_request(
        planned,
        "/w/a.py",
        "hello world\n",
        Some(LineCol { line: 1, column: 7 }),
        &mut metrics,
    )
    .expect("complete");
    match plugin_args.get("refactoring") {
        Some(PluginArgValue::Text(t)) => assert_eq!(t, "rename-symbol"),
        other => panic!("unexpected {other:?}"),
    }
    match plugin_args.get("position") {
        Some(PluginArgValue::Text(t)) => assert_eq!(t, "6"),
        other => panic!("unexpected {other:?}"),
    }
}

#[test]
fn reports_resolution_and_runtime_failures() {
    let request = ResolutionRequest::new(CapabilityId::RenameSymbol, "a.py", None);
    let envelope = resolve_provider(&registry(), &request);
    let mut output = Vec::new();
    let mut writer = ResponseWriter::new(&mut output);
    let provider = report_resolution(&mut writer, &envelope).expect("written");
    assert_eq!(provider.expect("selected"), "rope");
    let refused = ResolutionRequest::new(CapabilityId::RenameSymbol, "a.txt", None);
    let refused_envelope = resolve_provider(&registry(), &refused);
    let mut sink: Vec<u8> = Vec::new();
    let mut refused_writer = ResponseWriter::new(&mut sink);
    let ended = report_resolution(&mut refused_writer, &refused_envelope).expect("written");
    assert_eq!(ended.expect_err("no provider").status, 1);
    let args = parse_refactor_args(&strings(&[
        "--provider", "rope", "--refactoring", "rename", "--file", "a.py",
    ]))
    .expect("args");
    let result = report_runtime_failure(&mut writer, "boom", "rope", &args).expect("written");
    assert_eq!(result.status, 1);
    let text = String::from_utf8(output).expect("utf8");
    assert!(text.contains("CapabilityResolution"));
    assert!(text.contains("act refactor failed: boom (provider=rope, refactoring=rename, file=a.py)"));
}

fn python_manifest(name: &str) -> PluginManifest {
    PluginManifest {
        name: String::from(name),
        version: String::from("1.0.0"),
        kind: weaverd::refactor::manifests::PluginKind::Actuator,
        languages: vec![String::from("python")],
        executable: format!("/usr/bin/{name}"),
        capabilities: vec![CapabilityId::RenameSymbol],
        timeout_secs: None,
    }
}

#[test]
fn automatic_selection_without_preferred_takes_smallest_name() {
    let manifests = vec![python_manifest("zeta"), python_manifest("alpha")];
    let request = ResolutionRequest::new(CapabilityId::RenameSymbol, "a.py", None);
    let details = resolve_provider(&manifests, &request).details().clone();
    assert_eq!(details.selected_provider(), Some("alpha"));
}
