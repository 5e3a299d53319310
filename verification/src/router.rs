//! Domain and operation routing for command dispatch.
//!
//! Requests are routed by domain (`observe`, `act`, `verify`) and then by
//! operation within the domain, both case-insensitively. Operations with a
//! handler are delegated; other known operations answer "not yet
//! implemented"; unknown domains and operations are rejected.

use vstd::prelude::*;
use vstd::utf8::encode_utf8;

use crate::errors::DispatchError;
use crate::refactor::arguments::{parse_refactor_args, refactor_args_spec};
use crate::request::CommandRequest;
use crate::response::{ResponseSink, ResponseWriter, stderr_json};
use crate::text::{ascii_lower, str_eq, to_ascii_lowercase, trim_spec};

verus! {

/// Known command domains.
#[derive(Debug, Clone, Copy, PartialEq, Eq, Structural)]
pub enum Domain {
    /// Query commands for inspecting the codebase.
    Observe,
    /// Modification commands for changing the codebase.
    Act,
    /// Verification commands for checking codebase integrity.
    Verify,
}

/// Canonical name of a domain.
pub open spec fn domain_name(d: Domain) -> Seq<char> {
    match d {
        Domain::Observe => "observe"@,
        Domain::Act => "act"@,
        Domain::Verify => "verify"@,
    }
}

/// The domain named by already lower-cased text.
pub open spec fn domain_named(lower: Seq<char>) -> Option<Domain> {
    if lower == "observe"@ {
        Some(Domain::Observe)
    } else if lower == "act"@ {
        Some(Domain::Act)
    } else if lower == "verify"@ {
        Some(Domain::Verify)
    } else {
        None
    }
}

/// Operations each domain knows.
pub open spec fn known_operations(d: Domain) -> Seq<Seq<char>> {
    match d {
        Domain::Observe => seq![
            "get-definition"@,
            "find-references"@,
            "grep"@,
            "diagnostics"@,
            "call-hierarchy"@,
            "get-card"@,
            "graph-slice"@,
        ],
        Domain::Act => seq![
            "rename-symbol"@,
            "apply-edits"@,
            "apply-patch"@,
            "apply-rewrite"@,
            "refactor"@,
        ],
        Domain::Verify => seq!["diagnostics"@, "syntax"@],
    }
}

/// Operations with a handler of their own.
#[derive(Debug, Clone, Copy, PartialEq, Eq, Structural)]
pub enum OperationHandler {
    /// `observe get-definition`.
    GetDefinition,
    /// `observe get-card`.
    GetCard,
    /// `observe graph-slice`.
    GraphSlice,
    /// `act apply-patch`.
    ApplyPatch,
    /// `act refactor`.
    Refactor,
}

/// The handler of a (lower-cased) operation in a domain, if it has one.
pub open spec fn handler_for(d: Domain, operation: Seq<char>) -> Option<OperationHandler> {
    if d == Domain::Observe && operation == "get-definition"@ {
        Some(OperationHandler::GetDefinition)
    } else if d == Domain::Observe && operation == "get-card"@ {
        Some(OperationHandler::GetCard)
    } else if d == Domain::Observe && operation == "graph-slice"@ {
        Some(OperationHandler::GraphSlice)
    } else if d == Domain::Act && operation == "apply-patch"@ {
        Some(OperationHandler::ApplyPatch)
    } else if d == Domain::Act && operation == "refactor"@ {
        Some(OperationHandler::Refactor)
    } else {
        None
    }
}

/// Text written for a known operation without a handler.
pub open spec fn not_implemented_text(domain: Seq<char>, operation: Seq<char>) -> Seq<char> {
    domain + " "@ + operation + ": operation not yet implemented\n"@
}

/// Result of routing and dispatching a command.
#[derive(Debug, Clone, Copy, PartialEq, Eq, Structural)]
pub struct DispatchResult {
    /// Exit status to return to the client.
    pub status: i32,
}

impl DispatchResult {
    /// Creates a successful result (status 0).
    pub fn success() -> (r: Self)
        ensures
            r.status == 0,
    {
        DispatchResult { status: 0 }
    }

    /// Creates a result with the given status code.
    pub fn with_status(status: i32) -> (r: Self)
        ensures
            r.status == status,
    {
        DispatchResult { status }
    }
}

/// How a routed request continues.
#[derive(Debug, Clone, Copy, PartialEq, Eq, Structural)]
pub enum RouteOutcome {
    /// Routing answered the request itself with this result.
    Completed(DispatchResult),
    /// The request goes to an operation handler.
    Delegated(OperationHandler),
}

impl Domain {
    /// Parses a domain string (ASCII case-insensitive).
    ///
    /// Returns `UnknownDomain` carrying the input if it names no domain.
    pub fn parse(value: &str) -> (r: Result<Self, DispatchError>)
        ensures
            match domain_named(ascii_lower(value@)) {
                Some(d) => r == Ok::<Domain, DispatchError>(d),
                None => r matches Err(DispatchError::UnknownDomain { domain }) && domain@
                    == value@,
            },
    {
        let lower = to_ascii_lowercase(value);
        if str_eq(lower.as_str(), "observe") {
            Ok(Domain::Observe)
        } else if str_eq(lower.as_str(), "act") {
            Ok(Domain::Act)
        } else if str_eq(lower.as_str(), "verify") {
            Ok(Domain::Verify)
        } else {
            Err(DispatchError::unknown_domain(value))
        }
    }

    /// Returns the canonical string representation.
    pub fn as_str(&self) -> (r: &'static str)
        ensures
            r@ == domain_name(*self),
    {
        match self {
            Domain::Observe => "observe",
            Domain::Act => "act",
            Domain::Verify => "verify",
        }
    }
}

/// Context for routing operations within a domain.
pub struct DomainRoutingContext {
    pub domain: Domain,
    pub known_operations: Vec<&'static str>,
}

impl DomainRoutingContext {
    /// The routing context of a domain.
    pub fn for_domain(domain: Domain) -> (c: Self)
        ensures
            c.domain == domain,
            c.known_operations@.map_values(|s: &'static str| s@) == known_operations(domain),
    {
        let mut ops: Vec<&'static str> = Vec::new();
        match domain {
            Domain::Observe => {
                ops.push("get-definition");
                ops.push("find-references");
                ops.push("grep");
                ops.push("diagnostics");
                ops.push("call-hierarchy");
                ops.push("get-card");
                ops.push("graph-slice");
            },
            Domain::Act => {
                ops.push("rename-symbol");
                ops.push("apply-edits");
                ops.push("apply-patch");
                ops.push("apply-rewrite");
                ops.push("refactor");
            },
            Domain::Verify => {
                ops.push("diagnostics");
                ops.push("syntax");
            },
        }
        assert(ops@.map_values(|s: &'static str| s@) =~= known_operations(domain));
        DomainRoutingContext { domain, known_operations: ops }
    }

    /// Whether the context knows the (lower-cased) operation.
    pub fn knows(&self, operation: &str) -> (r: bool)
        ensures
            r == self.known_operations@.map_values(|s: &'static str| s@).contains(operation@),
    {
        let ghost names = self.known_operations@.map_values(|s: &'static str| s@);
        let mut i: usize = 0;
        while i < self.known_operations.len()
            invariant
                i <= self.known_operations.len(),
                names == self.known_operations@.map_values(|s: &'static str| s@),
                forall|j: int| 0 <= j < i ==> names[j] != operation@,
            decreases self.known_operations.len() - i,
        {
            if str_eq(self.known_operations[i], operation) {
                assert(names[i as int] == operation@);
                return true;
            }
            i = i + 1;
        }
        false
    }
}

/// Routes commands to domain handlers.
#[derive(Debug)]
pub struct DomainRouter {
    workspace_root: String,
}

/// Whether a path is absolute (Unix: it starts at the root `/`).
pub open spec fn is_absolute_path(p: Seq<char>) -> bool {
    p.len() > 0 && p[0] == '/'
}

impl DomainRouter {
    /// The workspace root the router serves.
    pub closed spec fn root(&self) -> Seq<char> {
        self.workspace_root@
    }

    /// Creates a domain router for an absolute workspace root.
    ///
    /// Relative roots are rejected with `InvalidArguments`.
    pub fn new(workspace_root: &str) -> (r: Result<Self, DispatchError>)
        ensures
            is_absolute_path(workspace_root@) ==> (r matches Ok(router) && router.root()
                == workspace_root@),
            !is_absolute_path(workspace_root@) ==> r matches Err(
                DispatchError::InvalidArguments { .. },
            ),
    {
        let n = workspace_root.unicode_len();
        if n > 0 && workspace_root.get_char(0) == '/' {
            Ok(DomainRouter { workspace_root: workspace_root.to_owned() })
        } else {
            Err(DispatchError::invalid_arguments("workspace root must be an absolute path"))
        }
    }

    /// Returns the workspace root.
    pub fn workspace_root(&self) -> (r: &str)
        ensures
            r@ == self.root(),
    {
        self.workspace_root.as_str()
    }

    /// Routes a command request to the appropriate domain handler.
    ///
    /// Returns `UnknownDomain` or `UnknownOperation` for requests that name
    /// neither. Known operations without a handler answer on stderr that they
    /// are not yet implemented and complete with status 1. `act refactor`
    /// checks its arguments before it is handed on: invalid ones are
    /// `InvalidArguments`.
    pub fn route<W: ResponseSink>(&self, request: &CommandRequest, writer: &mut ResponseWriter<W>) -> (r:
        Result<RouteOutcome, DispatchError>)
        ensures
            ({
                let domain_text = trim_spec(request@.domain);
                let operation = ascii_lower(trim_spec(request@.operation));
                match domain_named(ascii_lower(domain_text)) {
                    None => (r matches Err(DispatchError::UnknownDomain { domain }) && domain@
                        == domain_text) && final(writer).sent() == old(writer).sent(),
                    Some(d) => match handler_for(d, operation) {
                        Some(h) => final(writer).sent() == old(writer).sent() && if h
                        == OperationHandler::Refactor {
                        match refactor_args_spec(request@.arguments) {
                            Ok(_) => r == Ok::<RouteOutcome, DispatchError>(
                                RouteOutcome::Delegated(h),
                            ),
                            Err(m) => r matches Err(DispatchError::InvalidArguments { message })
                                && message@ == m,
                        }
                    } else {
                        r == Ok::<RouteOutcome, DispatchError>(RouteOutcome::Delegated(h))
                    },
                        None => if known_operations(d).contains(operation) {
                            (r is Ok ==> (r == Ok::<RouteOutcome, DispatchError>(
                                RouteOutcome::Completed(DispatchResult { status: 1 }),
                            ) && final(writer).sent() == old(writer).sent() + encode_utf8(
                                stderr_json(not_implemented_text(domain_name(d), operation))
                                    + "\n"@,
                            ))) && (old(writer).reliable() ==> r is Ok)
                        } else {
                            (r matches Err(DispatchError::UnknownOperation { domain, operation: o })
                                && domain@ == domain_name(d) && o@ == operation)
                                && final(writer).sent() == old(writer).sent()
                        },
                    },
                }
            }),
            final(writer).reliable() == old(writer).reliable(),
    {
        let domain = Domain::parse(request.domain())?;
        let operation = to_ascii_lowercase(request.operation());
        proof {
            reveal_strlit("get-definition");
            reveal_strlit("get-card");
            reveal_strlit("graph-slice");
            reveal_strlit("apply-patch");
            reveal_strlit("refactor");
        }
        match domain {
            Domain::Observe => {
                if str_eq(operation.as_str(), "get-definition") {
                    return Ok(RouteOutcome::Delegated(OperationHandler::GetDefinition));
                }
                if str_eq(operation.as_str(), "get-card") {
                    return Ok(RouteOutcome::Delegated(OperationHandler::GetCard));
                }
                if str_eq(operation.as_str(), "graph-slice") {
                    return Ok(RouteOutcome::Delegated(OperationHandler::GraphSlice));
                }
            },
            Domain::Act => {
                if str_eq(operation.as_str(), "apply-patch") {
                    return Ok(RouteOutcome::Delegated(OperationHandler::ApplyPatch));
                }
                if str_eq(operation.as_str(), "refactor") {
                    // The refactor handler starts from its arguments: a
                    // request without valid flags is refused here.
                    parse_refactor_args(request.arguments.as_slice())?;
                    return Ok(RouteOutcome::Delegated(OperationHandler::Refactor));
                }
            },
            Domain::Verify => {},
        }
        let context = DomainRoutingContext::for_domain(domain);
        self.route_fallback(&context, operation.as_str(), writer)
    }

    /// Handles known-but-unimplemented and unknown operations.
    fn route_fallback<W: ResponseSink>(
        &self,
        routing: &DomainRoutingContext,
        operation: &str,
        writer: &mut ResponseWriter<W>,
    ) -> (r: Result<RouteOutcome, DispatchError>)
        ensures
            ({
                let known = routing.known_operations@.map_values(|s: &'static str| s@);
                if known.contains(operation@) {
                    (r is Ok ==> (r == Ok::<RouteOutcome, DispatchError>(
                        RouteOutcome::Completed(DispatchResult { status: 1 }),
                    ) && final(writer).sent() == old(writer).sent() + encode_utf8(
                        stderr_json(not_implemented_text(domain_name(routing.domain), operation@))
                            + "\n"@,
                    ))) && (old(writer).reliable() ==> r is Ok)
                } else {
                    (r matches Err(DispatchError::UnknownOperation { domain, operation: o })
                        && domain@ == domain_name(routing.domain) && o@ == operation@)
                        && final(writer).sent() == old(writer).sent()
                }
            }),
            final(writer).reliable() == old(writer).reliable(),
    {
        if routing.knows(operation) {
            self.write_not_implemented(writer, routing.domain.as_str(), operation)
        } else {
            Err(DispatchError::unknown_operation(routing.domain.as_str(), operation))
        }
    }

    fn write_not_implemented<W: ResponseSink>(
        &self,
        writer: &mut ResponseWriter<W>,
        domain: &str,
        operation: &str,
    ) -> (r: Result<RouteOutcome, DispatchError>)
        ensures
            r is Ok ==> (r == Ok::<RouteOutcome, DispatchError>(
                RouteOutcome::Completed(DispatchResult { status: 1 }),
            ) && final(writer).sent() == old(writer).sent() + encode_utf8(
                stderr_json(not_implemented_text(domain@, operation@)) + "\n"@,
            )),
            old(writer).reliable() ==> r is Ok,
            final(writer).reliable() == old(writer).reliable(),
    {
        let mut text = domain.to_owned();
        text.append(" ");
        text.append(operation);
        text.append(": operation not yet implemented\n");
        writer.write_stderr(text.as_str())?;
        Ok(RouteOutcome::Completed(DispatchResult::with_status(1)))
    }
}

/// Which operations have a handler of their own: `observe get-definition`,
/// `observe get-card`, `observe graph-slice`, `act apply-patch` and
/// `act refactor`, each its own handler; no other operation has one.
pub proof fn lemma_handler_table(d: Domain, operation: Seq<char>)
    ensures
        (handler_for(d, operation) == Some(OperationHandler::GetDefinition)) == (d
            == Domain::Observe && operation == "get-definition"@),
        (handler_for(d, operation) == Some(OperationHandler::GetCard)) == (d == Domain::Observe
            && operation == "get-card"@),
        (handler_for(d, operation) == Some(OperationHandler::GraphSlice)) == (d
            == Domain::Observe && operation == "graph-slice"@),
        (handler_for(d, operation) == Some(OperationHandler::ApplyPatch)) == (d == Domain::Act
            && operation == "apply-patch"@),
        (handler_for(d, operation) == Some(OperationHandler::Refactor)) == (d == Domain::Act
            && operation == "refactor"@),
        d == Domain::Verify ==> handler_for(d, operation) is None,
{
    reveal_strlit("get-definition");
    reveal_strlit("get-card");
    reveal_strlit("graph-slice");
    reveal_strlit("apply-patch");
    reveal_strlit("refactor");
    assert("get-card"@.len() != "get-definition"@.len());
    assert("graph-slice"@.len() != "get-definition"@.len());
    assert("graph-slice"@.len() != "get-card"@.len());
    assert("refactor"@.len() != "apply-patch"@.len());
}

/// Each domain is named by its own text only.
pub proof fn lemma_domain_named_literals(lower: Seq<char>)
    ensures
        (domain_named(lower) == Some(Domain::Observe)) == (lower == "observe"@),
        (domain_named(lower) == Some(Domain::Act)) == (lower == "act"@),
        (domain_named(lower) == Some(Domain::Verify)) == (lower == "verify"@),
{
    reveal_strlit("observe");
    reveal_strlit("act");
    reveal_strlit("verify");
    assert("observe"@.len() != "act"@.len());
    assert("observe"@.len() != "verify"@.len());
    assert("act"@.len() != "verify"@.len());
}

/// A domain's canonical name parses back to that domain.
pub proof fn lemma_domain_round_trip(d: Domain)
    ensures
        domain_named(ascii_lower(domain_name(d))) == Some(d),
{
    reveal_strlit("observe");
    reveal_strlit("act");
    reveal_strlit("verify");
    assert(ascii_lower(domain_name(d)) =~= domain_name(d));
}

} // verus!
