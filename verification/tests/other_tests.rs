use std::sync::{Arc, Mutex};

use weaverd::backend_manager::BackendManager;
use weaverd::errors::DispatchError;
use weaverd::health::StructuredHealthReporter;
use weaverd::observe::enrich::{CardLanguage, EnrichmentOutcome};
use weaverd::observe::graph_slice::{
    apply_card_budget, candidate_positions, exit_status, normalize_lsp_provenance,
    CardSymbolKind, SliceRefusalReason, SourcePosition, SourceRange, SymbolCard, SymbolRef,
};

fn card(id: &str) -> SymbolCard {
    SymbolCard {
        symbol_id: id.to_owned(),
        symbol_ref: SymbolRef {
            uri: String::from("file:///a.rs"),
            range: SourceRange {
                start: SourcePosition { line: 1, column: 1 },
                end: SourcePosition { line: 1, column: 5 },
            },
            language: CardLanguage::Rust,
            kind: CardSymbolKind::Function,
            name: id.to_owned(),
            container: None,
        },
        lsp: None,
        provenance_sources: vec![String::from("tree_sitter")],
    }
}

fn with_backends<B, R>(manager: &BackendManager<B>, f: impl FnOnce(&mut B) -> R) -> Result<R, DispatchError> {
    let outcome = match manager.backends().lock() {
        Ok(mut guard) => Some(f(&mut guard)),
        Err(_) => None,
    };
    weaverd::backend_manager::lock_outcome(outcome)
}

#[test]
fn with_backends_provides_access() {
    let manager = BackendManager::new(Arc::new(Mutex::new(String::from("warn"))));
    let result = with_backends(&manager, |backends| backends.clone());
    assert_eq!(result.expect("access"), "warn");
}

#[test]
fn backend_manager_is_cloneable() {
    let manager = BackendManager::new(Arc::new(Mutex::new(0u32)));
    let cloned = manager.clone();
    with_backends(&manager, |value| *value = 41).expect("set");
    let result = with_backends(&cloned, |value| *value + 1).expect("shared");
    assert_eq!(result, 42);
    assert!(Arc::ptr_eq(manager.backends(), cloned.backends()));
}

#[test]
fn health_reporter_builds() {
    let _reporter = StructuredHealthReporter::new();
    assert_ne!(EnrichmentOutcome::Enriched, EnrichmentOutcome::Degraded);
}

#[test]
fn apply_card_budget_keeps_entry_first_and_spills_the_rest() {
    let siblings = vec![card("b"), card("c"), card("d")];
    let (cards, spillover) = apply_card_budget(card("a"), siblings, 2, false);
    let ids: Vec<&str> = cards.iter().map(|c| c.symbol_id.as_str()).collect();
    assert_eq!(ids, vec!["a", "b"]);
    let frontier: Vec<(&str, u32)> =
        spillover.frontier.iter().map(|c| (c.symbol_id.as_str(), c.depth)).collect();
    assert_eq!(frontier, vec![("c", 1), ("d", 1)]);
    assert!(spillover.truncated);
}

#[test]
fn apply_card_budget_returns_no_cards_when_max_cards_is_zero() {
    let (cards, spillover) = apply_card_budget(card("a"), vec![card("b")], 0, false);
    assert!(cards.is_empty());
    let frontier: Vec<(&str, u32)> =
        spillover.frontier.iter().map(|c| (c.symbol_id.as_str(), c.depth)).collect();
    assert_eq!(frontier, vec![("a", 0), ("b", 1)]);
    assert!(spillover.truncated);
}

#[test]
fn spillover_is_not_truncated_when_everything_fits() {
    let (cards, spillover) = apply_card_budget(card("a"), vec![card("b")], 5, false);
    assert_eq!(cards.len(), 2);
    assert!(spillover.frontier.is_empty());
    assert!(!spillover.truncated);
    let (_, capped) = apply_card_budget(card("a"), vec![card("b")], 5, true);
    assert!(capped.truncated);
}

#[test]
fn candidate_positions_skip_blank_lines() {
    let (positions, capped) = candidate_positions("fn a() {}\n\n    fn b() {}\n");
    assert_eq!(positions, vec![(1, 1), (3, 5)]);
    assert!(!capped);
}

#[test]
fn candidate_positions_are_capped() {
    let source = "x\n".repeat(300);
    let (positions, capped) = candidate_positions(&source);
    assert_eq!(positions.len(), 256);
    assert!(capped);
}

#[test]
fn normalizes_lsp_provenance() {
    let mut c = card("a");
    c.provenance_sources =
        vec![String::from("tree_sitter"), String::from("tree_sitter_degraded_semantic")];
    normalize_lsp_provenance(&mut c);
    assert_eq!(c.provenance_sources, vec![String::from("tree_sitter"), String::from("lsp_hover")]);
    normalize_lsp_provenance(&mut c);
    assert_eq!(c.provenance_sources, vec![String::from("tree_sitter"), String::from("lsp_hover")]);
}

#[test]
fn refusal_exit_statuses() {
    assert_eq!(exit_status(None), 0);
    assert_eq!(exit_status(Some(SliceRefusalReason::UnsupportedLanguage)), 10);
}

use weaverd::observe::card_order::{card_precedes, order_discovered_cards, stable_card_order};
use weaverd::observe::extraction::{
    card_exit_status, discovery_miss, map_card_extraction_error, map_slice_extraction_error,
    CardExtractionError, CardRefusalReason,
};
use weaverd::path_text::{display_filename, file_name};

fn named_card(id: &str, name: &str, line: u32) -> SymbolCard {
    let mut c = card(id);
    c.symbol_ref.name = name.to_owned();
    c.symbol_ref.range.start.line = line;
    c
}

#[test]
fn stable_card_order_compares_keys() {
    let a = named_card("x", "alpha", 1);
    let b = named_card("y", "beta", 1);
    assert!(stable_card_order(&a, &b) < 0);
    assert!(stable_card_order(&b, &a) > 0);
    assert_eq!(stable_card_order(&a, &named_card("z", "alpha", 1)), 0);
    assert!(stable_card_order(&a, &named_card("z", "alpha", 2)) < 0);
    assert!(card_precedes(&a, &named_card("z", "alpha", 1)));
}

#[test]
fn stable_card_order_sorts_same_cards_identically_on_repeated_runs() {
    let first = order_discovered_cards(
        vec![named_card("c", "gamma", 3), named_card("a", "alpha", 1), named_card("b", "beta", 2)],
        "entry",
    );
    let second = order_discovered_cards(
        vec![named_card("b", "beta", 2), named_card("c", "gamma", 3), named_card("a", "alpha", 1)],
        "entry",
    );
    let ids = |cards: &Vec<SymbolCard>| cards.iter().map(|c| c.symbol_id.clone()).collect::<Vec<_>>();
    assert_eq!(ids(&first), vec!["a", "b", "c"]);
    assert_eq!(ids(&first), ids(&second));
}

#[test]
fn discovery_never_returns_duplicate_or_entry_ids() {
    let cards = order_discovered_cards(
        vec![
            named_card("entry", "main", 1),
            named_card("b", "beta", 2),
            named_card("b", "beta-again", 9),
            named_card("a", "alpha", 3),
        ],
        "entry",
    );
    let ids: Vec<&str> = cards.iter().map(|c| c.symbol_id.as_str()).collect();
    assert_eq!(ids, vec!["a", "b"]);
    assert_eq!(cards[1].symbol_ref.name, "beta");
}

#[test]
fn maps_card_extraction_errors() {
    let refusal = map_card_extraction_error(CardExtractionError::NoSymbolAtPosition { line: 3, column: 7 })
        .expect("refusal");
    assert_eq!(refusal.reason, CardRefusalReason::NoSymbolAtPosition);
    assert_eq!(refusal.message, "observe get-card: no symbol found at 3:7");
    let error = map_card_extraction_error(CardExtractionError::Parse {
        language: String::from("rust"),
        message: String::from("boom"),
    })
    .err()
    .expect("internal");
    assert_eq!(error.to_message(), "internal error: Tree-sitter parse failed for rust: boom");
    assert_eq!(card_exit_status(true), 1);
    assert_eq!(card_exit_status(false), 0);
}

#[test]
fn maps_slice_extraction_errors_with_file_names() {
    let refusal = map_slice_extraction_error(CardExtractionError::UnsupportedLanguage {
        path: String::from("/src/notes.txt"),
    })
    .expect("refusal");
    assert_eq!(refusal.reason, SliceRefusalReason::UnsupportedLanguage);
    assert_eq!(refusal.message, "observe graph-slice: unsupported language for 'notes.txt'");
    let refusal = map_slice_extraction_error(CardExtractionError::PositionOutOfRange { line: 9, column: 1 })
        .expect("refusal");
    assert_eq!(refusal.message, "observe graph-slice: position 9:1 is outside the bounds of the file");
    let error = map_slice_extraction_error(CardExtractionError::InvalidPath { path: String::from("rel/x.rs") })
        .err()
        .expect("internal");
    assert_eq!(error.to_message(), "internal error: Tree-sitter extractor requires an absolute path: x.rs");
    assert!(discovery_miss(&CardExtractionError::NoSymbolAtPosition { line: 1, column: 1 }));
    assert!(!discovery_miss(&CardExtractionError::PositionOutOfRange { line: 1, column: 1 }));
}

#[test]
fn file_names_follow_path_rules() {
    assert_eq!(file_name("/a/b/c.rs"), Some(String::from("c.rs")));
    assert_eq!(file_name("/a/b/"), Some(String::from("b")));
    assert_eq!(file_name("/a/.."), None);
    assert_eq!(file_name("/"), None);
    assert_eq!(display_filename("/"), "<unknown>");
}

#[test]
fn from_json_error_keeps_serde_message() {
    let source = serde_json::from_str::<serde_json::Value>("{").expect_err("invalid JSON");
    let expected = source.to_string();
    match weaverd::errors::DispatchError::from_json_error(source) {
        weaverd::errors::DispatchError::MalformedJsonl { message } => assert_eq!(message, expected),
        other => panic!("unexpected error: {other:?}"),
    }
}

#[test]
fn lock_outcome_maps_poisoning_to_internal_error() {
    assert_eq!(weaverd::backend_manager::lock_outcome(Some(42)).expect("value"), 42);
    match weaverd::backend_manager::lock_outcome::<u32>(None) {
        Err(weaverd::errors::DispatchError::Internal { message }) => assert_eq!(message, "backends lock poisoned"),
        other => panic!("unexpected outcome: {other:?}"),
    }
}
