//! The steps of `act refactor` between its outside calls.
//!
//! A request is parsed and its plugin arguments planned; the target file is
//! read; the arguments are completed with the file's URI and position; a
//! provider is resolved and the decision written; the plugin runs; its
//! answer is handled. Each step here decides; reading files and running
//! plugins happen between them.

use vstd::prelude::*;

use crate::errors::DispatchError;
use crate::response::{stderr_json, ResponseSink, ResponseWriter};
use crate::router::DispatchResult;
use crate::text::string_views;
use vstd::utf8::encode_utf8;

use super::arguments::RefactorArgs;
use super::manifests::CapabilityId;
use super::metrics::{next_count, AtomicPositionMetrics};
use super::plugin_args::{ArgModel, PluginArgValue, PluginArgs};
use super::positions::LineCol;
use super::request_building::{
    apply_capability_argument_mapping, build_plugin_args, conversion_failed, plugin_args_spec,
    rename_mapping_spec,
};
use super::requirements::{
    capability_for_operation, effective_operation, refactoring_names_spec, unsupported_value_text,
};
use super::resolution::CapabilityResolutionEnvelope;
use super::response_handling::{envelope_json, write_capability_resolution};

verus! {

/// Plugin arguments and the operation they serve, before the file is read.
pub struct PlannedRequest {
    pub plugin_args: PluginArgs,
    pub operation: &'static str,
    pub capability: CapabilityId,
}

/// Plans the plugin request of parsed arguments: the plugin arguments of the
/// trailing arguments, then the refactoring's operation and capability.
pub fn plan_plugin_request(args: &RefactorArgs) -> (r: Result<PlannedRequest, DispatchError>)
    ensures
        match plugin_args_spec(string_views(args.extra@)) {
            Err(m) => r matches Err(DispatchError::InvalidArguments { message }) && message@ == m,
            Ok(map) => if args.refactoring@ == "rename"@ {
                r matches Ok(p) && p.plugin_args@ == map && p.operation@ == "rename-symbol"@
                    && p.capability == CapabilityId::RenameSymbol
            } else {
                r matches Err(DispatchError::InvalidArguments { message }) && message@
                    == unsupported_value_text("refactoring"@, args.refactoring@)
            },
        },
{
    let plugin_args = build_plugin_args(args)?;
    let operation = effective_operation(args.refactoring.as_str())?;
    let capability = capability_for_operation(operation)?;
    Ok(PlannedRequest { plugin_args, operation, capability })
}

/// Completes planned plugin arguments with the file's URI and position
/// (see `rename_mapping_spec`) and the `refactoring` key naming the
/// operation.
pub fn complete_plugin_request(
    planned: PlannedRequest,
    file_path: &str,
    file_content: &str,
    position: Option<LineCol>,
    metrics: &mut AtomicPositionMetrics,
) -> (r: Result<PluginArgs, DispatchError>)
    requires
        position matches Some(p) ==> p.column >= 1,
    ensures
        ({
            let (m, error) = rename_mapping_spec(
                planned.plugin_args@,
                file_path@,
                file_content@,
                position,
            );
            match error {
                None => r matches Ok(a) && a@ == m.insert(
                    "refactoring"@,
                    ArgModel::Text(planned.operation@),
                ),
                Some(msg) => r matches Err(DispatchError::InvalidArguments { message })
                    && message@ == msg,
            }
        }),
        final(metrics).conversion_errors == if conversion_failed(
            planned.plugin_args@,
            file_path@,
            file_content@,
            position,
        ) {
            next_count(old(metrics).conversion_errors)
        } else {
            old(metrics).conversion_errors
        },
        final(metrics).parse_errors == old(metrics).parse_errors,
{
    let mut plugin_args = planned.plugin_args;
    apply_capability_argument_mapping(
        &mut plugin_args,
        planned.capability,
        file_path,
        file_content,
        position,
        metrics,
    )?;
    plugin_args.insert(
        String::from_str("refactoring"),
        PluginArgValue::Text(planned.operation.to_owned()),
    );
    Ok(plugin_args)
}

/// Writes the routing decision and returns the provider to run; without one
/// the request ends here with status 1 (`Err` of that result).
pub fn report_resolution<W: ResponseSink>(
    writer: &mut ResponseWriter<W>,
    resolution: &CapabilityResolutionEnvelope,
) -> (r: Result<Result<String, DispatchResult>, DispatchError>)
    ensures
        r is Ok ==> final(writer).sent() == old(writer).sent() + encode_utf8(
            stderr_json(envelope_json(*resolution) + "\n"@) + "\n"@,
        ),
        r matches Ok(p) ==> match resolution.spec_details().selected_provider {
            Some(s) => p matches Ok(q) && q@ == s@,
            None => p == Err::<String, DispatchResult>(DispatchResult { status: 1 }),
        },
        old(writer).reliable() ==> r is Ok,
        final(writer).reliable() == old(writer).reliable(),
{
    write_capability_resolution(writer, resolution)?;
    match resolution.details().selected_provider() {
        Some(p) => Ok(Ok(p.to_owned())),
        None => Ok(Err(DispatchResult::with_status(1))),
    }
}

/// The text reported when the plugin runtime fails.
pub open spec fn runtime_failure_text(
    error: Seq<char>,
    provider: Seq<char>,
    args: RefactorArgs,
) -> Seq<char> {
    "act refactor failed: "@ + error + " (provider="@ + provider + ", refactoring="@
        + args.refactoring@ + ", file="@ + args.file@ + ")\n"@
}

/// Reports a failure of the plugin runtime (resolving or running a
/// provider) on stderr; the request ends with status 1.
pub fn report_runtime_failure<W: ResponseSink>(
    writer: &mut ResponseWriter<W>,
    error: &str,
    provider: &str,
    args: &RefactorArgs,
) -> (r: Result<DispatchResult, DispatchError>)
    ensures
        r is Ok ==> final(writer).sent() == old(writer).sent() + encode_utf8(
            stderr_json(runtime_failure_text(error@, provider@, *args)) + "\n"@,
        ),
        r matches Ok(d) ==> d.status == 1,
        old(writer).reliable() ==> r is Ok,
        final(writer).reliable() == old(writer).reliable(),
{
    let mut m = String::from_str("act refactor failed: ");
    m.append(error);
    m.append(" (provider=");
    m.append(provider);
    m.append(", refactoring=");
    m.append(args.refactoring.as_str());
    m.append(", file=");
    m.append(args.file.as_str());
    m.append(")\n");
    writer.write_stderr(m.as_str())?;
    Ok(DispatchResult::with_status(1))
}

} // verus!
