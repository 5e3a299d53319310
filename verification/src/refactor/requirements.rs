//! The operator-facing contract of `act refactor`.
//!
//! Required flags, supported providers and refactorings, and the guidance
//! shown with every refusal come from one place, so messages and checks stay
//! aligned.

use vstd::prelude::*;

use crate::errors::DispatchError;
use crate::text::{
    contains_str, joined, str_eq, str_views, string_views, to_strings, join_strings,
};

use super::manifests::{built_in_provider_names, provider_names_spec, CapabilityId};

verus! {

/// A complete, valid example command.
pub const NEXT_COMMAND: &'static str = "weaver act refactor --provider rope --refactoring rename --file path/to/file.py offset=1 new_name=renamed_symbol";

/// Refactorings operators can ask for.
pub open spec fn refactoring_names_spec() -> Seq<Seq<char>> {
    seq!["rename"@]
}

/// The required flags, as one phrase.
pub open spec fn required_flags_text() -> Seq<char> {
    "--provider <plugin>"@ + ", "@ + "--refactoring <operation>"@ + ", and "@ + "--file <path>"@
}

/// Supported values and an example command.
pub open spec fn guidance_text() -> Seq<char> {
    "Valid alternatives:\n  - Providers: "@ + joined(provider_names_spec(), ", "@)
        + "\n  - Refactorings: "@ + joined(refactoring_names_spec(), ", "@)
        + "\n\nNext command:\n  "@ + NEXT_COMMAND@
}

/// The message for a missing required flag.
pub open spec fn missing_requirements_text() -> Seq<char> {
    "act refactor requires "@ + required_flags_text() + "\n\n"@ + guidance_text()
}

/// The message for a value outside the supported list.
pub open spec fn unsupported_value_text(kind: Seq<char>, value: Seq<char>) -> Seq<char> {
    "act refactor does not support "@ + kind + " '"@ + value + "'\n\n"@ + guidance_text()
}

/// The message for an operation without capability resolution.
pub open spec fn unresolvable_operation_text(operation: Seq<char>) -> Seq<char> {
    "act refactor does not support capability resolution for '"@ + operation
        + "' (only 'rename-symbol' is currently implemented)"@
}

/// Names of the supported providers.
pub fn supported_provider_names() -> (v: Vec<&'static str>)
    ensures
        str_views(v@) == provider_names_spec(),
{
    built_in_provider_names()
}

/// Names of the supported refactorings.
pub fn supported_refactoring_names() -> (v: Vec<&'static str>)
    ensures
        str_views(v@) == refactoring_names_spec(),
{
    let mut v: Vec<&'static str> = Vec::new();
    v.push("rename");
    assert(str_views(v@) =~= refactoring_names_spec());
    v
}

/// Accepts a value on the supported list; refuses any other, naming `kind`.
pub fn validate_value(kind: &str, supported: &Vec<&str>, value: &str) -> (r: Result<(), DispatchError>)
    ensures
        r is Ok <==> str_views(supported@).contains(value@),
        r matches Err(e) ==> e matches DispatchError::InvalidArguments { message } && message@
            == unsupported_value_text(kind@, value@),
{
    if contains_str(supported, value) {
        Ok(())
    } else {
        Err(invalid_supported_value(kind, value))
    }
}

/// Accepts a supported provider name.
pub fn validate_provider(provider: &str) -> (r: Result<(), DispatchError>)
    ensures
        r is Ok <==> provider_names_spec().contains(provider@),
        r matches Err(e) ==> e matches DispatchError::InvalidArguments { message } && message@
            == unsupported_value_text("provider"@, provider@),
{
    let names = supported_provider_names();
    validate_value("provider", &names, provider)
}

/// Accepts a supported refactoring name.
pub fn validate_refactoring(refactoring: &str) -> (r: Result<(), DispatchError>)
    ensures
        r is Ok <==> refactoring_names_spec().contains(refactoring@),
        r matches Err(e) ==> e matches DispatchError::InvalidArguments { message } && message@
            == unsupported_value_text("refactoring"@, refactoring@),
{
    let names = supported_refactoring_names();
    validate_value("refactoring", &names, refactoring)
}

/// The capability operation of a refactoring: `rename` is `rename-symbol`.
pub fn effective_operation(refactoring: &str) -> (r: Result<&'static str, DispatchError>)
    ensures
        refactoring@ == "rename"@ ==> (r matches Ok(op) && op@ == "rename-symbol"@),
        refactoring@ != "rename"@ ==> (r matches Err(DispatchError::InvalidArguments { message })
            && message@ == unsupported_value_text("refactoring"@, refactoring@)),
{
    if str_eq(refactoring, "rename") {
        Ok("rename-symbol")
    } else {
        Err(invalid_supported_value("refactoring", refactoring))
    }
}

/// The capability an operation resolves through: `rename-symbol` only.
pub fn capability_for_operation(operation: &str) -> (r: Result<CapabilityId, DispatchError>)
    ensures
        operation@ == "rename-symbol"@ ==> r == Ok::<CapabilityId, DispatchError>(
            CapabilityId::RenameSymbol,
        ),
        operation@ != "rename-symbol"@ ==> (r matches Err(
            DispatchError::InvalidArguments { message },
        ) && message@ == unresolvable_operation_text(operation@)),
{
    if str_eq(operation, "rename-symbol") {
        Ok(CapabilityId::RenameSymbol)
    } else {
        let mut m = String::from_str("act refactor does not support capability resolution for '");
        m.append(operation);
        m.append("' (only 'rename-symbol' is currently implemented)");
        Err(DispatchError::InvalidArguments { message: m })
    }
}

/// The error for a missing required flag: the full contract and guidance.
pub fn missing_requirements_error() -> (e: DispatchError)
    ensures
        e matches DispatchError::InvalidArguments { message } && message@
            == missing_requirements_text(),
{
    let mut m = String::from_str("act refactor requires ");
    let flags = format_required_flags();
    m.append(flags.as_str());
    m.append("\n\n");
    let guidance = guidance_lines();
    m.append(guidance.as_str());
    DispatchError::InvalidArguments { message: m }
}

/// Supported providers and refactorings, and an example command.
pub fn guidance_lines() -> (s: String)
    ensures
        s@ == guidance_text(),
{
    let providers = to_strings(&supported_provider_names());
    let refactorings = to_strings(&supported_refactoring_names());
    let mut s = String::from_str("Valid alternatives:\n  - Providers: ");
    let p = join_strings(&providers, ", ");
    s.append(p.as_str());
    s.append("\n  - Refactorings: ");
    let r = join_strings(&refactorings, ", ");
    s.append(r.as_str());
    s.append("\n\nNext command:\n  ");
    s.append(NEXT_COMMAND);
    s
}

fn invalid_supported_value(kind: &str, value: &str) -> (e: DispatchError)
    ensures
        e matches DispatchError::InvalidArguments { message } && message@
            == unsupported_value_text(kind@, value@),
{
    let mut m = String::from_str("act refactor does not support ");
    m.append(kind);
    m.append(" '");
    m.append(value);
    m.append("'\n\n");
    let guidance = guidance_lines();
    m.append(guidance.as_str());
    DispatchError::InvalidArguments { message: m }
}

/// The required flags as one phrase: the first two with commas, the last
/// after "and".
pub fn format_required_flags() -> (s: String)
    ensures
        s@ == required_flags_text(),
{
    let mut s = String::from_str("--provider <plugin>");
    s.append(", ");
    s.append("--refactoring <operation>");
    s.append(", and ");
    s.append("--file <path>");
    s
}

} // verus!
