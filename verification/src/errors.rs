//! Errors surfaced during request parsing and dispatch.
//!
//! Each variant maps to one failure mode and carries the context needed for
//! an actionable message. Failures that come from outside the library (I/O,
//! JSON serialization, backend start-up) are carried as their messages.

use vstd::prelude::*;

use crate::num::{decimal_digits, format_usize};
use crate::text::concat2;

verus! {

/// Errors surfaced during request parsing and dispatch.
#[derive(Debug)]
pub enum DispatchError {
    /// Request line could not be parsed as valid JSON.
    MalformedJsonl { message: String },
    /// Request JSON structure does not match the `CommandRequest` schema.
    InvalidStructure { message: String },
    /// Domain field contains an unrecognised value.
    UnknownDomain { domain: String },
    /// Operation field contains an unrecognised value for the given domain.
    UnknownOperation { domain: String, operation: String },
    /// Request exceeds the maximum allowed size.
    RequestTooLarge { size: usize, max_size: usize },
    /// I/O error during read or write, by its message.
    Io { message: String },
    /// Response serialization failed, by its message.
    SerializeResponse { message: String },
    /// Invalid or missing command arguments.
    InvalidArguments { message: String },
    /// Backend failed to start, by its message.
    BackendStartup { message: String },
    /// LSP host operation failed.
    LspHost { language: String, message: String },
    /// File extension does not map to a supported language.
    UnsupportedLanguage { extension: String },
    /// Internal error (for example a poisoned lock).
    Internal { message: String },
}

/// Exit status of an error: 1 for protocol and argument failures, 2 for
/// infrastructure failures.
pub open spec fn exit_status_spec(e: DispatchError) -> i32 {
    match e {
        DispatchError::Io { .. } => 2,
        DispatchError::SerializeResponse { .. } => 2,
        DispatchError::Internal { .. } => 2,
        _ => 1,
    }
}

/// The text of an error as it is shown to clients.
pub open spec fn error_text(e: DispatchError) -> Seq<char> {
    match e {
        DispatchError::MalformedJsonl { message } => "malformed JSONL: "@ + message@,
        DispatchError::InvalidStructure { message } => "invalid request structure: "@ + message@,
        DispatchError::UnknownDomain { domain } => "unknown domain: "@ + domain@,
        DispatchError::UnknownOperation { domain, operation } => "unknown operation '"@
            + operation@ + "' for domain '"@ + domain@ + "'"@,
        DispatchError::RequestTooLarge { size, max_size } => "request too large: "@
            + decimal_digits(size as nat) + " bytes exceeds "@ + decimal_digits(max_size as nat)
            + " byte limit"@,
        DispatchError::Io { message } => "IO error: "@ + message@,
        DispatchError::SerializeResponse { message } => "failed to serialize response: "@
            + message@,
        DispatchError::InvalidArguments { message } => "invalid arguments: "@ + message@,
        DispatchError::BackendStartup { message } => "backend startup failed: "@ + message@,
        DispatchError::LspHost { language, message } => "LSP error for "@ + language@ + ": "@
            + message@,
        DispatchError::UnsupportedLanguage { extension } =>
            "unsupported language for extension: "@ + extension@,
        DispatchError::Internal { message } => "internal error: "@ + message@,
    }
}

/// Message of a `serde_json` error: `serde_json::Error`'s `Display` output.
#[verifier::external_body]
fn json_error_message(error: &serde_json::Error) -> String {
    error.to_string()
}

/// The `serde_json` error type, carried through opaquely.
#[verifier::external_type_specification]
#[verifier::external_body]
pub struct ExJsonError(serde_json::Error);

impl DispatchError {
    /// Returns the exit status code for this error.
    ///
    /// Protocol violations and argument errors return status 1. Infrastructure
    /// failures (IO, serialization, internal) return status 2.
    pub fn exit_status(&self) -> (status: i32)
        ensures
            status == exit_status_spec(*self),
            status == 1 || status == 2,
    {
        match self {
            DispatchError::Io { .. } => 2,
            DispatchError::SerializeResponse { .. } => 2,
            DispatchError::Internal { .. } => 2,
            _ => 1,
        }
    }

    /// Creates a malformed JSONL error from a `serde_json` error.
    pub fn from_json_error(source: serde_json::Error) -> (e: Self)
        ensures
            e is MalformedJsonl,
    {
        DispatchError::MalformedJsonl { message: json_error_message(&source) }
    }

    /// Creates a malformed JSONL error with a custom message.
    pub fn malformed(message: &str) -> (e: Self)
        ensures
            e matches DispatchError::MalformedJsonl { message: m } && m@ == message@,
    {
        DispatchError::MalformedJsonl { message: message.to_owned() }
    }

    /// Creates an invalid structure error.
    pub fn invalid_structure(message: &str) -> (e: Self)
        ensures
            e matches DispatchError::InvalidStructure { message: m } && m@ == message@,
    {
        DispatchError::InvalidStructure { message: message.to_owned() }
    }

    /// Creates an unknown domain error.
    pub fn unknown_domain(domain: &str) -> (e: Self)
        ensures
            e matches DispatchError::UnknownDomain { domain: d } && d@ == domain@,
    {
        DispatchError::UnknownDomain { domain: domain.to_owned() }
    }

    /// Creates an unknown operation error.
    pub fn unknown_operation(domain: &str, operation: &str) -> (e: Self)
        ensures
            e matches DispatchError::UnknownOperation { domain: d, operation: o } && d@
                == domain@ && o@ == operation@,
    {
        DispatchError::UnknownOperation {
            domain: domain.to_owned(),
            operation: operation.to_owned(),
        }
    }

    /// Creates a request too large error.
    pub fn request_too_large(size: usize, max_size: usize) -> (e: Self)
        ensures
            e == (DispatchError::RequestTooLarge { size, max_size }),
    {
        DispatchError::RequestTooLarge { size, max_size }
    }

    /// Creates an invalid arguments error.
    pub fn invalid_arguments(message: &str) -> (e: Self)
        ensures
            e matches DispatchError::InvalidArguments { message: m } && m@ == message@,
    {
        DispatchError::InvalidArguments { message: message.to_owned() }
    }

    /// Creates a backend startup error from the start-up failure's message.
    pub fn backend_startup(message: &str) -> (e: Self)
        ensures
            e matches DispatchError::BackendStartup { message: m } && m@ == message@,
    {
        DispatchError::BackendStartup { message: message.to_owned() }
    }

    /// Creates an LSP host error.
    pub fn lsp_host(language: &str, message: &str) -> (e: Self)
        ensures
            e matches DispatchError::LspHost { language: l, message: m } && l@ == language@
                && m@ == message@,
    {
        DispatchError::LspHost { language: language.to_owned(), message: message.to_owned() }
    }

    /// Creates an unsupported language error.
    pub fn unsupported_language(extension: &str) -> (e: Self)
        ensures
            e matches DispatchError::UnsupportedLanguage { extension: x } && x@ == extension@,
    {
        DispatchError::UnsupportedLanguage { extension: extension.to_owned() }
    }

    /// Creates an internal error.
    pub fn internal(message: &str) -> (e: Self)
        ensures
            e matches DispatchError::Internal { message: m } && m@ == message@,
    {
        DispatchError::Internal { message: message.to_owned() }
    }

    /// The error's message as shown to clients (its display form).
    pub fn to_message(&self) -> (s: String)
        ensures
            s@ == error_text(*self),
    {
        match self {
            DispatchError::MalformedJsonl { message } => concat2(
                "malformed JSONL: ",
                message.as_str(),
            ),
            DispatchError::InvalidStructure { message } => concat2(
                "invalid request structure: ",
                message.as_str(),
            ),
            DispatchError::UnknownDomain { domain } => concat2(
                "unknown domain: ",
                domain.as_str(),
            ),
            DispatchError::UnknownOperation { domain, operation } => {
                let mut s = concat2("unknown operation '", operation.as_str());
                s.append("' for domain '");
                s.append(domain.as_str());
                s.append("'");
                s
            },
            DispatchError::RequestTooLarge { size, max_size } => {
                let size_text = format_usize(*size);
                let max_text = format_usize(*max_size);
                let mut s = concat2("request too large: ", size_text.as_str());
                s.append(" bytes exceeds ");
                s.append(max_text.as_str());
                s.append(" byte limit");
                s
            },
            DispatchError::Io { message } => concat2("IO error: ", message.as_str()),
            DispatchError::SerializeResponse { message } => concat2(
                "failed to serialize response: ",
                message.as_str(),
            ),
            DispatchError::InvalidArguments { message } => concat2(
                "invalid arguments: ",
                message.as_str(),
            ),
            DispatchError::BackendStartup { message } => concat2(
                "backend startup failed: ",
                message.as_str(),
            ),
            DispatchError::LspHost { language, message } => {
                let mut s = concat2("LSP error for ", language.as_str());
                s.append(": ");
                s.append(message.as_str());
                s
            },
            DispatchError::UnsupportedLanguage { extension } => concat2(
                "unsupported language for extension: ",
                extension.as_str(),
            ),
            DispatchError::Internal { message } => concat2("internal error: ", message.as_str()),
        }
    }
}

} // verus!
