//! What `act refactor` writes and does with a plugin's answer.
//!
//! The routing decision is written to stderr as one JSON line. A failed
//! plugin run is reported with its diagnostics; a successful run with a diff
//! is forwarded to `act apply-patch`; any other successful output is refused.

use vstd::prelude::*;

use crate::errors::DispatchError;
use crate::json::{json_quoted, json_string_literal};
use crate::request::{CommandDescriptor, CommandRequest};
use crate::response::{stderr_json, ResponseSink, ResponseWriter};
use crate::router::DispatchResult;
use crate::text::{join_strings, joined, string_views};
use vstd::utf8::encode_utf8;

use super::resolution::{
    CandidateEvaluation, CandidateReason, CapabilityResolutionDetails,
    CapabilityResolutionEnvelope, RefusalReason, ResolutionOutcome, SelectionMode,
};

verus! {

pub open spec fn quoted_name(name: Seq<char>) -> Seq<char> {
    "\""@ + name + "\""@
}

pub open spec fn mode_name(m: SelectionMode) -> Seq<char> {
    match m {
        SelectionMode::ExplicitProvider => "explicit_provider"@,
        SelectionMode::Automatic => "automatic"@,
    }
}

pub open spec fn outcome_name(o: ResolutionOutcome) -> Seq<char> {
    match o {
        ResolutionOutcome::Selected => "selected"@,
        ResolutionOutcome::Refused => "refused"@,
    }
}

pub open spec fn refusal_name(r: RefusalReason) -> Seq<char> {
    match r {
        RefusalReason::UnsupportedLanguage => "unsupported_language"@,
        RefusalReason::ProviderNotFound => "provider_not_found"@,
        RefusalReason::ExplicitProviderMismatch => "explicit_provider_mismatch"@,
        RefusalReason::NoMatchingProvider => "no_matching_provider"@,
    }
}

pub open spec fn reason_name(r: CandidateReason) -> Seq<char> {
    match r {
        CandidateReason::MatchedLanguageAndCapability => "matched_language_and_capability"@,
        CandidateReason::NotRequested => "not_requested"@,
        CandidateReason::UnsupportedLanguage => "unsupported_language"@,
        CandidateReason::NotSelectedByPolicy => "not_selected_by_policy"@,
        CandidateReason::ExplicitProviderMismatch => "explicit_provider_mismatch"@,
    }
}

/// An optional text member: `,"name":"value"`, or nothing.
pub open spec fn optional_member(name: Seq<char>, value: Option<String>) -> Seq<char> {
    match value {
        Some(v) => ",\""@ + name + "\":"@ + json_quoted(v@),
        None => ""@,
    }
}

/// One candidate evaluation as a JSON object.
pub open spec fn candidate_json(e: CandidateEvaluation) -> Seq<char> {
    "{\"provider\":"@ + json_quoted(e.provider@) + ",\"accepted\":"@ + (if e.accepted {
        "true"@
    } else {
        "false"@
    }) + ",\"reason\":"@ + quoted_name(reason_name(e.reason)) + "}"@
}

/// The routing decision as a JSON object; absent options are left out.
pub open spec fn details_json(d: CapabilityResolutionDetails) -> Seq<char> {
    "{\"capability\":\"rename-symbol\""@ + optional_member("language"@, d.language)
        + optional_member("requested_provider"@, d.requested_provider) + optional_member(
        "selected_provider"@,
        d.selected_provider,
    ) + ",\"selection_mode\":"@ + quoted_name(mode_name(d.selection_mode)) + ",\"outcome\":"@
        + quoted_name(outcome_name(d.outcome)) + match d.refusal_reason {
        Some(r) => ",\"refusal_reason\":"@ + quoted_name(refusal_name(r)),
        None => ""@,
    } + ",\"candidates\":["@ + joined(
        d.candidates@.map_values(|e: CandidateEvaluation| candidate_json(e)),
        ","@,
    ) + "]}"@
}

/// The envelope as one JSON object.
pub open spec fn envelope_json(e: CapabilityResolutionEnvelope) -> Seq<char> {
    "{\"status\":"@ + quoted_name(e.spec_status()) + ",\"type\":"@ + quoted_name(e.spec_kind())
        + ",\"details\":"@ + details_json(e.spec_details()) + "}"@
}

fn append_optional_member(out: &mut String, name: &str, value: &Option<String>)
    ensures
        final(out)@ == old(out)@ + optional_member(name@, *value),
{
    match value {
        Some(v) => {
            out.append(",\"");
            out.append(name);
            out.append("\":");
            let q = json_string_literal(v.as_str());
            out.append(q.as_str());
        },
        None => {
            proof {
                reveal_strlit("");
            }
        },
    }
}

fn candidate_text(e: &CandidateEvaluation) -> (s: String)
    ensures
        s@ == candidate_json(*e),
{
    let mut s = String::from_str("{\"provider\":");
    let q = json_string_literal(e.provider.as_str());
    s.append(q.as_str());
    s.append(",\"accepted\":");
    if e.accepted {
        s.append("true");
    } else {
        s.append("false");
    }
    s.append(",\"reason\":");
    s.append("\"");
    let name = match e.reason {
        CandidateReason::MatchedLanguageAndCapability => "matched_language_and_capability",
        CandidateReason::NotRequested => "not_requested",
        CandidateReason::UnsupportedLanguage => "unsupported_language",
        CandidateReason::NotSelectedByPolicy => "not_selected_by_policy",
        CandidateReason::ExplicitProviderMismatch => "explicit_provider_mismatch",
    };
    s.append(name);
    s.append("\"");
    s.append("}");
    assert(s@ =~= candidate_json(*e));
    s
}

fn candidates_text(candidates: &Vec<CandidateEvaluation>) -> (s: String)
    ensures
        s@ == joined(candidates@.map_values(|e: CandidateEvaluation| candidate_json(e)), ","@),
{
    let mut items: Vec<String> = Vec::new();
    let mut i: usize = 0;
    while i < candidates.len()
        invariant
            i <= candidates@.len(),
            items@.len() == i,
            forall|k: int| 0 <= k < i ==> (#[trigger] items@[k])@ == candidate_json(candidates@[k]),
        decreases candidates@.len() - i,
    {
        items.push(candidate_text(&candidates[i]));
        i = i + 1;
    }
    assert(string_views(items@) =~= candidates@.map_values(
        |c: CandidateEvaluation| candidate_json(c),
    ));
    join_strings(&items, ",")
}

fn append_quoted_name(out: &mut String, name: &str)
    ensures
        final(out)@ == old(out)@ + quoted_name(name@),
{
    out.append("\"");
    out.append(name);
    out.append("\"");
}

fn details_text(d: &CapabilityResolutionDetails) -> (s: String)
    ensures
        s@ == details_json(*d),
{
    let mut s = String::from_str("{\"capability\":\"rename-symbol\"");
    append_optional_member(&mut s, "language", &d.language);
    append_optional_member(&mut s, "requested_provider", &d.requested_provider);
    append_optional_member(&mut s, "selected_provider", &d.selected_provider);
    s.append(",\"selection_mode\":");
    append_quoted_name(
        &mut s,
        match d.selection_mode {
            SelectionMode::ExplicitProvider => "explicit_provider",
            SelectionMode::Automatic => "automatic",
        },
    );
    s.append(",\"outcome\":");
    append_quoted_name(
        &mut s,
        match d.outcome {
            ResolutionOutcome::Selected => "selected",
            ResolutionOutcome::Refused => "refused",
        },
    );
    let ghost before_reason = s@;
    match d.refusal_reason {
        Some(r) => {
            s.append(",\"refusal_reason\":");
            append_quoted_name(
                &mut s,
                match r {
                    RefusalReason::UnsupportedLanguage => "unsupported_language",
                    RefusalReason::ProviderNotFound => "provider_not_found",
                    RefusalReason::ExplicitProviderMismatch => "explicit_provider_mismatch",
                    RefusalReason::NoMatchingProvider => "no_matching_provider",
                },
            );
        },
        None => {
            proof {
                reveal_strlit("");
            }
            assert(s@ =~= before_reason + ""@);
        },
    }
    s.append(",\"candidates\":[");
    let list = candidates_text(&d.candidates);
    s.append(list.as_str());
    s.append("]}");
    assert(s@ =~= details_json(*d));
    s
}

/// Serializes the routing decision as one JSON object.
pub fn resolution_json(e: &CapabilityResolutionEnvelope) -> (s: String)
    ensures
        s@ == envelope_json(*e),
{
    let mut s = String::from_str("{\"status\":");
    append_quoted_name(&mut s, e.status());
    s.append(",\"type\":");
    append_quoted_name(&mut s, e.kind());
    s.append(",\"details\":");
    let d = details_text(e.details());
    s.append(d.as_str());
    s.append("}");
    assert(s@ =~= envelope_json(*e));
    s
}

/// Writes the routing decision to stderr as one JSON line.
pub fn write_capability_resolution<W: ResponseSink>(
    writer: &mut ResponseWriter<W>,
    resolution: &CapabilityResolutionEnvelope,
) -> (r: Result<(), DispatchError>)
    ensures
        r is Ok ==> final(writer).sent() == old(writer).sent() + encode_utf8(
            stderr_json(envelope_json(*resolution) + "\n"@) + "\n"@,
        ),
        old(writer).reliable() ==> r is Ok,
        final(writer).reliable() == old(writer).reliable(),
{
    let mut json = resolution_json(resolution);
    json.append("\n");
    writer.write_stderr(json.as_str())
}

/// A plugin's output.
#[derive(Debug)]
pub enum PluginOutput {
    /// A unified diff to apply.
    Diff { content: String },
    /// An analysis report.
    Analysis,
    /// Nothing.
    Empty,
}

/// A plugin's answer: whether it succeeded, its diagnostics, its output.
#[derive(Debug)]
pub struct PluginResponse {
    pub success: bool,
    pub diagnostics: Vec<String>,
    pub output: PluginOutput,
}

/// What to do with a plugin's answer.
#[derive(Debug)]
pub enum PluginAction {
    /// Report a failure on stderr and end with status 1.
    Fail { message: String },
    /// Apply the diff through `act apply-patch`.
    ApplyPatch { request: CommandRequest },
}

/// The failure text of a plugin's answer.
pub open spec fn plugin_failure_text(success: bool, diagnostics: Seq<Seq<char>>) -> Seq<char> {
    if !success {
        "act refactor failed: "@ + (if diagnostics.len() == 0 {
            "plugin reported failure without diagnostics"@
        } else {
            joined(diagnostics, "; "@)
        }) + "\n"@
    } else {
        "act refactor failed: plugin succeeded but did not return diff output\n"@
    }
}

/// The `act apply-patch` request that carries a diff.
pub fn forward_diff_to_apply_patch(patch: &str) -> (r: CommandRequest)
    ensures
        r.command.domain@ == "act"@,
        r.command.operation@ == "apply-patch"@,
        r.arguments@.len() == 0,
        r.patch matches Some(p) && p@ == patch@,
{
    CommandRequest {
        command: CommandDescriptor {
            domain: String::from_str("act"),
            operation: String::from_str("apply-patch"),
        },
        arguments: Vec::new(),
        patch: Some(patch.to_owned()),
    }
}

/// Decides what to do with a plugin's answer: a failure is reported with
/// its diagnostics joined by `; `; a successful diff goes to
/// `act apply-patch`; any other successful output is a failure too.
pub fn plugin_response_action(response: &PluginResponse) -> (a: PluginAction)
    ensures
        (response.success && response.output is Diff) ==> (a matches PluginAction::ApplyPatch {
            request,
        } && request.command.domain@ == "act"@ && request.command.operation@ == "apply-patch"@
            && request.arguments@.len() == 0 && (request.patch matches Some(p) && p@
            == response.output->content@)),
        !(response.success && response.output is Diff) ==> (a matches PluginAction::Fail {
            message,
        } && message@ == plugin_failure_text(
            response.success,
            string_views(response.diagnostics@),
        )),
{
    if !response.success {
        let mut m = String::from_str("act refactor failed: ");
        if response.diagnostics.len() == 0 {
            m.append("plugin reported failure without diagnostics");
        } else {
            let joined = join_strings(&response.diagnostics, "; ");
            m.append(joined.as_str());
        }
        m.append("\n");
        return PluginAction::Fail { message: m };
    }
    match &response.output {
        PluginOutput::Diff { content } => PluginAction::ApplyPatch {
            request: forward_diff_to_apply_patch(content.as_str()),
        },
        _ => PluginAction::Fail {
            message: String::from_str(
                "act refactor failed: plugin succeeded but did not return diff output\n",
            ),
        },
    }
}

/// Handles a plugin's answer: failures are written to stderr and end with
/// status 1; a diff is returned as the `act apply-patch` request to run.
pub fn handle_plugin_response<W: ResponseSink>(
    response: &PluginResponse,
    writer: &mut ResponseWriter<W>,
) -> (r: Result<Result<DispatchResult, CommandRequest>, DispatchError>)
    ensures
        (response.success && response.output is Diff) ==> (r matches Ok(Err(request))
            && (request.patch matches Some(p) && p@ == response.output->content@)
            && request.command.domain@ == "act"@ && request.command.operation@
            == "apply-patch"@ && request.arguments@.len() == 0 && final(writer).sent() == old(
            writer,
        ).sent()),
        !(response.success && response.output is Diff) && r is Ok ==> (r matches Ok(Ok(d))
            && d.status == 1 && final(writer).sent() == old(writer).sent() + encode_utf8(
            stderr_json(
                plugin_failure_text(response.success, string_views(response.diagnostics@)),
            ) + "\n"@,
        )),
        old(writer).reliable() ==> r is Ok,
        final(writer).reliable() == old(writer).reliable(),
{
    match plugin_response_action(response) {
        PluginAction::ApplyPatch { request } => Ok(Err(request)),
        PluginAction::Fail { message } => {
            writer.write_stderr(message.as_str())?;
            Ok(Ok(DispatchResult::with_status(1)))
        },
    }
}

} // verus!
