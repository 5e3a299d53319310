//! What card-extraction failures become in `observe get-card` and
//! `observe graph-slice`.
//!
//! Failures a client can act on (an unsupported language, no symbol at the
//! position, a position outside the file) become structured refusals;
//! failures of the daemon itself (a relative path reaching the extractor, a
//! parser failure) become internal errors.

use vstd::prelude::*;

use crate::errors::DispatchError;
use crate::num::{decimal_digits, format_u64};
use crate::path_text::{display_filename, display_filename_spec};

use super::graph_slice::SliceRefusalReason;

verus! {

/// Why a card could not be extracted.
#[derive(Debug)]
pub enum CardExtractionError {
    /// The file's language is not supported.
    UnsupportedLanguage { path: String },
    /// The extractor was handed a relative path.
    InvalidPath { path: String },
    /// No symbol is at the position.
    NoSymbolAtPosition { line: u32, column: u32 },
    /// The position is outside the file.
    PositionOutOfRange { line: u32, column: u32 },
    /// The file could not be parsed.
    Parse { language: String, message: String },
}

/// Reasons `observe get-card` refuses.
#[derive(Debug, Clone, Copy, PartialEq, Eq, Structural)]
pub enum CardRefusalReason {
    UnsupportedLanguage,
    NoSymbolAtPosition,
    PositionOutOfRange,
}

/// A structured refusal: its reason and message.
#[derive(Debug)]
pub struct Refusal<R> {
    pub reason: R,
    pub message: String,
}

/// `LINE:COL` as text.
pub open spec fn position_text(line: u32, column: u32) -> Seq<char> {
    decimal_digits(line as nat) + ":"@ + decimal_digits(column as nat)
}

/// The internal error for extraction failures that are the daemon's own.
pub open spec fn internal_text(e: CardExtractionError, path_text: spec_fn(Seq<char>) -> Seq<char>) -> Seq<
    char,
> {
    match e {
        CardExtractionError::InvalidPath { path } => "Tree-sitter extractor requires an absolute path: "@
            + path_text(path@),
        CardExtractionError::Parse { language, message } => "Tree-sitter parse failed for "@
            + language@ + ": "@ + message@,
        _ => Seq::empty(),
    }
}

/// The `observe get-card` outcome of an extraction failure: a refusal, or
/// the internal error's message.
pub open spec fn card_failure_spec(e: CardExtractionError) -> Result<
    (CardRefusalReason, Seq<char>),
    Seq<char>,
> {
    match e {
        CardExtractionError::UnsupportedLanguage { path } => Ok(
            (
                CardRefusalReason::UnsupportedLanguage,
                "observe get-card: unsupported language for path "@ + path@,
            ),
        ),
        CardExtractionError::NoSymbolAtPosition { line, column } => Ok(
            (
                CardRefusalReason::NoSymbolAtPosition,
                "observe get-card: no symbol found at "@ + position_text(line, column),
            ),
        ),
        CardExtractionError::PositionOutOfRange { line, column } => Ok(
            (
                CardRefusalReason::PositionOutOfRange,
                "observe get-card: position "@ + position_text(line, column)
                    + " is outside the bounds of the file"@,
            ),
        ),
        _ => Err(internal_text(e, |p: Seq<char>| p)),
    }
}

/// The `observe graph-slice` outcome of an extraction failure: a refusal, or
/// the internal error's message. Paths are shown by file name.
pub open spec fn slice_failure_spec(e: CardExtractionError) -> Result<
    (SliceRefusalReason, Seq<char>),
    Seq<char>,
> {
    match e {
        CardExtractionError::UnsupportedLanguage { path } => Ok(
            (
                SliceRefusalReason::UnsupportedLanguage,
                "observe graph-slice: unsupported language for '"@ + display_filename_spec(path@)
                    + "'"@,
            ),
        ),
        CardExtractionError::NoSymbolAtPosition { line, column } => Ok(
            (
                SliceRefusalReason::NoSymbolAtPosition,
                "observe graph-slice: no symbol found at "@ + position_text(line, column),
            ),
        ),
        CardExtractionError::PositionOutOfRange { line, column } => Ok(
            (
                SliceRefusalReason::PositionOutOfRange,
                "observe graph-slice: position "@ + position_text(line, column)
                    + " is outside the bounds of the file"@,
            ),
        ),
        _ => Err(internal_text(e, |p: Seq<char>| display_filename_spec(p))),
    }
}

fn position_string(line: u32, column: u32) -> (s: String)
    ensures
        s@ == position_text(line, column),
{
    let mut s = format_u64(line as u64);
    s.append(":");
    let c = format_u64(column as u64);
    s.append(c.as_str());
    s
}

fn parse_failure(language: &str, message: &str) -> (e: DispatchError)
    ensures
        e matches DispatchError::Internal { message: m } && m@ == "Tree-sitter parse failed for "@
            + language@ + ": "@ + message@,
{
    let mut m = String::from_str("Tree-sitter parse failed for ");
    m.append(language);
    m.append(": ");
    m.append(message);
    DispatchError::Internal { message: m }
}

fn relative_path_failure(shown: &str) -> (e: DispatchError)
    ensures
        e matches DispatchError::Internal { message: m } && m@
            == "Tree-sitter extractor requires an absolute path: "@ + shown@,
{
    let mut m = String::from_str("Tree-sitter extractor requires an absolute path: ");
    m.append(shown);
    DispatchError::Internal { message: m }
}

/// Maps an extraction failure of `observe get-card` to a refusal or an
/// internal error.
pub fn map_card_extraction_error(error: CardExtractionError) -> (r: Result<
    Refusal<CardRefusalReason>,
    DispatchError,
>)
    ensures
        match card_failure_spec(error) {
            Ok((reason, message)) => r matches Ok(f) && f.reason == reason && f.message@ == message,
            Err(message) => r matches Err(DispatchError::Internal { message: m }) && m@ == message,
        },
{
    match error {
        CardExtractionError::UnsupportedLanguage { path } => {
            let mut m = String::from_str("observe get-card: unsupported language for path ");
            m.append(path.as_str());
            Ok(Refusal { reason: CardRefusalReason::UnsupportedLanguage, message: m })
        },
        CardExtractionError::InvalidPath { path } => Err(relative_path_failure(path.as_str())),
        CardExtractionError::NoSymbolAtPosition { line, column } => {
            let mut m = String::from_str("observe get-card: no symbol found at ");
            let p = position_string(line, column);
            m.append(p.as_str());
            Ok(Refusal { reason: CardRefusalReason::NoSymbolAtPosition, message: m })
        },
        CardExtractionError::PositionOutOfRange { line, column } => {
            let mut m = String::from_str("observe get-card: position ");
            let p = position_string(line, column);
            m.append(p.as_str());
            m.append(" is outside the bounds of the file");
            Ok(Refusal { reason: CardRefusalReason::PositionOutOfRange, message: m })
        },
        CardExtractionError::Parse { language, message } => Err(
            parse_failure(language.as_str(), message.as_str()),
        ),
    }
}

/// Maps an extraction failure of `observe graph-slice` to a refusal or an
/// internal error.
pub fn map_slice_extraction_error(error: CardExtractionError) -> (r: Result<
    Refusal<SliceRefusalReason>,
    DispatchError,
>)
    ensures
        match slice_failure_spec(error) {
            Ok((reason, message)) => r matches Ok(f) && f.reason == reason && f.message@ == message,
            Err(message) => r matches Err(DispatchError::Internal { message: m }) && m@ == message,
        },
{
    match error {
        CardExtractionError::UnsupportedLanguage { path } => {
            let mut m = String::from_str("observe graph-slice: unsupported language for '");
            let shown = display_filename(path.as_str());
            m.append(shown.as_str());
            m.append("'");
            Ok(Refusal { reason: SliceRefusalReason::UnsupportedLanguage, message: m })
        },
        CardExtractionError::InvalidPath { path } => {
            let shown = display_filename(path.as_str());
            Err(relative_path_failure(shown.as_str()))
        },
        CardExtractionError::NoSymbolAtPosition { line, column } => {
            let mut m = String::from_str("observe graph-slice: no symbol found at ");
            let p = position_string(line, column);
            m.append(p.as_str());
            Ok(Refusal { reason: SliceRefusalReason::NoSymbolAtPosition, message: m })
        },
        CardExtractionError::PositionOutOfRange { line, column } => {
            let mut m = String::from_str("observe graph-slice: position ");
            let p = position_string(line, column);
            m.append(p.as_str());
            m.append(" is outside the bounds of the file");
            Ok(Refusal { reason: SliceRefusalReason::PositionOutOfRange, message: m })
        },
        CardExtractionError::Parse { language, message } => Err(
            parse_failure(language.as_str(), message.as_str()),
        ),
    }
}

/// Whether same-file discovery skips a failed extraction: a missing symbol
/// or an unsupported language is skipped, any other failure stops discovery.
pub fn discovery_miss(error: &CardExtractionError) -> (r: bool)
    ensures
        r == (error is NoSymbolAtPosition || error is UnsupportedLanguage),
{
    match error {
        CardExtractionError::NoSymbolAtPosition { .. } => true,
        CardExtractionError::UnsupportedLanguage { .. } => true,
        _ => false,
    }
}

/// Exit status of `observe get-card`: 0 for a card, 1 for a refusal.
pub fn card_exit_status(refused: bool) -> (status: i32)
    ensures
        status == if refused {
            1i32
        } else {
            0i32
        },
{
    if refused {
        1
    } else {
        0
    }
}

} // verus!
