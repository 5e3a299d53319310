//! Decisions of the connection handler that dispatches JSONL commands.
//!
//! A connection carries one request line. The handler reads and checks the
//! request, reports what happened as structured events, and finishes the
//! response once the request has been routed. Running an operation against
//! the language-server backends happens outside this module, between
//! [`DispatchConnectionHandler::begin_dispatch`] and
//! [`DispatchConnectionHandler::finish_dispatch`].

use vstd::prelude::*;
use vstd::utf8::encode_utf8;

use crate::errors::{DispatchError, exit_status_spec};
use crate::reader::{ChunkSource, MAX_REQUEST_BYTES, read_error_message, read_request_line, request_line};
use crate::refactor::arguments::refactor_args_spec;
use crate::request::{CommandRequest, RequestModel, parse_request_spec};
use crate::response::{ResponseSink, ResponseWriter, error_report, exit_json, stderr_json};
use crate::router::{
    DispatchResult, DomainRouter, OperationHandler, RouteOutcome, domain_name, domain_named,
    lemma_domain_named_literals, lemma_handler_table,
    not_implemented_text,
};
use crate::structured_event::{
    EventModel, StructuredDispatchEvent, StructuredEventMetadata, event_text,
    format_structured_event, opt_view, plain_event, read_error_event, read_error_model,
};
use crate::text::{ascii_lower, trim_spec};

verus! {

/// What an emitted structured event recorded.
pub struct EventRecord {
    pub name: Seq<char>,
    pub payload: Seq<char>,
    pub message: Seq<char>,
    pub is_error: bool,
}

/// A structured event as emitted: its name, payload text, message and
/// severity.
#[derive(Debug)]
pub struct EmittedEvent {
    pub name: String,
    pub payload: String,
    pub message: String,
    pub is_error: bool,
}

/// Where structured dispatch events go.
pub trait EventSink {
    /// Events emitted so far.
    spec fn emitted(&self) -> Seq<EventRecord>;

    /// Emits one event with its message; errors are reported at error level.
    fn emit(&mut self, event: &StructuredDispatchEvent, message: &str, is_error: bool)
        ensures
            final(self).emitted() == old(self).emitted().push(
                record_of(event@, message@, is_error),
            ),
    ;
}

impl EventSink for Vec<EmittedEvent> {
    open spec fn emitted(&self) -> Seq<EventRecord> {
        self@.map_values(
            |e: EmittedEvent|
                EventRecord {
                    name: e.name@,
                    payload: e.payload@,
                    message: e.message@,
                    is_error: e.is_error,
                },
        )
    }

    fn emit(&mut self, event: &StructuredDispatchEvent, message: &str, is_error: bool) {
        let record = EmittedEvent {
            name: event.event.to_owned(),
            payload: format_structured_event(event),
            message: message.to_owned(),
            is_error,
        };
        self.push(record);
        assert(self.emitted() =~= old(self).emitted().push(
            EventRecord {
                name: event.event@,
                payload: event_text(event@),
                message: message@,
                is_error,
            },
        ));
    }
}

/// Why no request was received.
#[derive(Debug)]
pub enum ReadRequestError {
    /// The client closed the connection without sending anything.
    ClientDisconnected,
    /// The request could not be read, parsed or validated.
    BadRequest(DispatchError),
}

/// The record of a structured event.
pub open spec fn record_of(e: EventModel, message: Seq<char>, is_error: bool) -> EventRecord {
    EventRecord { name: e.event, payload: event_text(e), message, is_error }
}

/// Whether a request passes validation.
pub open spec fn request_valid(m: RequestModel) -> bool {
    trim_spec(m.domain).len() > 0 && trim_spec(m.operation).len() > 0
}

/// Connection handler that parses and dispatches JSONL commands.
#[derive(Debug)]
pub struct DispatchConnectionHandler {
    router: DomainRouter,
    endpoint: String,
    runtime_dir: String,
}

impl DispatchConnectionHandler {
    pub closed spec fn endpoint_text(&self) -> Seq<char> {
        self.endpoint@
    }

    pub closed spec fn runtime_dir_text(&self) -> Seq<char> {
        self.runtime_dir@
    }

    pub closed spec fn router_spec(&self) -> DomainRouter {
        self.router
    }

    /// Creates a dispatch handler for a workspace root, the endpoint it
    /// serves, and its runtime directory.
    ///
    /// Relative workspace roots are rejected with `InvalidArguments`.
    pub fn new(workspace_root: &str, endpoint: &str, runtime_dir: &str) -> (r: Result<
        Self,
        DispatchError,
    >)
        ensures
            crate::router::is_absolute_path(workspace_root@) ==> (r matches Ok(h)
                && h.endpoint_text() == endpoint@ && h.runtime_dir_text() == runtime_dir@
                && h.router_spec().root() == workspace_root@),
            !crate::router::is_absolute_path(workspace_root@) ==> r matches Err(
                DispatchError::InvalidArguments { .. },
            ),
    {
        let router = DomainRouter::new(workspace_root)?;
        Ok(
            DispatchConnectionHandler {
                router,
                endpoint: endpoint.to_owned(),
                runtime_dir: runtime_dir.to_owned(),
            },
        )
    }

    /// The router requests are dispatched with.
    pub fn router(&self) -> (r: &DomainRouter)
        ensures
            *r == self.router_spec(),
    {
        &self.router
    }

    /// Reads, parses and validates one request.
    ///
    /// Failures are answered by a `BadRequest` error and reported by one
    /// error-level event: the read failure's event, or a `request_rejected`
    /// event for malformed or invalid requests. A client that sends nothing
    /// is `ClientDisconnected`, with no event.
    pub fn receive_request<S: ChunkSource, E: EventSink>(&self, stream: &mut S, events: &mut E) -> (r:
        Result<(Vec<u8>, CommandRequest), ReadRequestError>)
        ensures
            ({
                let p = old(stream).pending();
                let line = request_line(p);
                let before = old(events).emitted();
                let after = final(events).emitted();
                &&& r matches Ok((bytes, req)) ==> {
                    &&& bytes@ == line
                    &&& parse_request_spec(line) == Ok::<RequestModel, Seq<char>>(req@)
                    &&& request_valid(req@)
                    &&& after == before
                }
                &&& r matches Err(ReadRequestError::ClientDisconnected) ==> p.len() == 0 && after
                    == before
                &&& r matches Err(ReadRequestError::BadRequest(e)) ==> match e {
                    DispatchError::Io { .. } => after == before.push(
                        record_of(
                            read_error_model(e, self.endpoint_text(), self.runtime_dir_text()),
                            read_error_text(e),
                            true,
                        ),
                    ),
                    DispatchError::RequestTooLarge { size, .. } => line_end_exceeds(p) && after
                        == before.push(
                        record_of(
                            read_error_model(e, self.endpoint_text(), self.runtime_dir_text()),
                            read_error_text(e),
                            true,
                        ),
                    ),
                    DispatchError::MalformedJsonl { message } => parse_request_spec(line) == Err::<
                        RequestModel,
                        Seq<char>,
                    >(message@) && after == before.push(
                        record_of(
                            plain_event(
                                "request_rejected"@,
                                self.endpoint_text(),
                                self.runtime_dir_text(),
                                None,
                                None,
                                Some(line.len() as usize),
                                None,
                            ),
                            "request rejected: malformed JSON"@,
                            true,
                        ),
                    ),
                    DispatchError::InvalidStructure { .. } => parse_request_spec(line) matches Ok(
                        m,
                    ) && !request_valid(m) && after == before.push(
                        record_of(
                            plain_event(
                                "request_rejected"@,
                                self.endpoint_text(),
                                self.runtime_dir_text(),
                                Some(trim_spec(m.domain)),
                                Some(trim_spec(m.operation)),
                                Some(line.len() as usize),
                                None,
                            ),
                            "request rejected: invalid request"@,
                            true,
                        ),
                    ),
                    _ => false,
                }
                &&& line_end_exceeds(p) ==> !(r is Ok)
            }),
    {
        let read = read_request_line(stream);
        self.accept_request(read, events)
    }

    /// Parses and validates a request line once it has been read (or its
    /// read has failed, or the client sent nothing), reporting failures as
    /// [`DispatchConnectionHandler::receive_request`] does.
    pub fn accept_request<E: EventSink>(
        &self,
        read: Result<Option<Vec<u8>>, DispatchError>,
        events: &mut E,
    ) -> (r: Result<(Vec<u8>, CommandRequest), ReadRequestError>)
        ensures
            ({
                let before = old(events).emitted();
                let after = final(events).emitted();
                match read {
                    Ok(None) => r matches Err(ReadRequestError::ClientDisconnected) && after
                        == before,
                    Err(e) => r == Err::<(Vec<u8>, CommandRequest), ReadRequestError>(
                        ReadRequestError::BadRequest(e),
                    ) && after == before.push(
                        record_of(
                            read_error_model(e, self.endpoint_text(), self.runtime_dir_text()),
                            read_error_text(e),
                            true,
                        ),
                    ),
                    Ok(Some(bytes)) => match parse_request_spec(bytes@) {
                        Err(m) => (r matches Err(
                            ReadRequestError::BadRequest(DispatchError::MalformedJsonl { message }),
                        ) && message@ == m) && after == before.push(
                            record_of(
                                plain_event(
                                    "request_rejected"@,
                                    self.endpoint_text(),
                                    self.runtime_dir_text(),
                                    None,
                                    None,
                                    Some(bytes@.len() as usize),
                                    None,
                                ),
                                "request rejected: malformed JSON"@,
                                true,
                            ),
                        ),
                        Ok(model) => if request_valid(model) {
                            (r matches Ok((b, req)) && b@ == bytes@ && req@ == model) && after
                                == before
                        } else {
                            r matches Err(
                                ReadRequestError::BadRequest(DispatchError::InvalidStructure { .. }),
                            ) && after == before.push(
                                record_of(
                                    plain_event(
                                        "request_rejected"@,
                                        self.endpoint_text(),
                                        self.runtime_dir_text(),
                                        Some(trim_spec(model.domain)),
                                        Some(trim_spec(model.operation)),
                                        Some(bytes@.len() as usize),
                                        None,
                                    ),
                                    "request rejected: invalid request"@,
                                    true,
                                ),
                            )
                        },
                    },
                }
            }),
    {
        let request_bytes = match read {
            Ok(Some(bytes)) => bytes,
            Ok(None) => {
                return Err(ReadRequestError::ClientDisconnected);
            },
            Err(error) => {
                let event = read_error_event(
                    &error,
                    self.endpoint.as_str(),
                    self.runtime_dir.as_str(),
                );
                events.emit(&event, read_error_message(&error), true);
                return Err(ReadRequestError::BadRequest(error));
            },
        };
        let request = match CommandRequest::parse(request_bytes.as_slice()) {
            Ok(req) => req,
            Err(error) => {
                let event = StructuredDispatchEvent::new(
                    "request_rejected",
                    self.endpoint.as_str(),
                    self.runtime_dir.as_str(),
                    StructuredEventMetadata::none().with_size(request_bytes.len()),
                );
                events.emit(&event, "request rejected: malformed JSON", true);
                return Err(ReadRequestError::BadRequest(error));
            },
        };
        if let Err(error) = request.validate() {
            let event = StructuredDispatchEvent::new(
                "request_rejected",
                self.endpoint.as_str(),
                self.runtime_dir.as_str(),
                StructuredEventMetadata::new(request.domain(), request.operation()).with_size(
                    request_bytes.len(),
                ),
            );
            events.emit(&event, "request rejected: invalid request", true);
            return Err(ReadRequestError::BadRequest(error));
        }
        Ok((request_bytes, request))
    }

    /// Reports that a request is being dispatched (an info-level
    /// `dispatching_request` event).
    pub fn begin_dispatch<E: EventSink>(&self, request: &CommandRequest, size: usize, events: &mut E)
        ensures
            final(events).emitted() == old(events).emitted().push(
                record_of(
                    request_event_model(self, "dispatching_request"@, request@, size),
                    "dispatching request"@,
                    false,
                ),
            ),
    {
        let event = StructuredDispatchEvent::new(
            "dispatching_request",
            self.endpoint.as_str(),
            self.runtime_dir.as_str(),
            StructuredEventMetadata::new(request.domain(), request.operation()).with_size(size),
        );
        events.emit(&event, "dispatching request", false);
    }

    /// Finishes the response once the request has been routed and run.
    ///
    /// `outcome` is the routed result, or the error that kept the backends
    /// from being reached. A result ends the response with its status. An
    /// error is written to the client as its report and the one terminal
    /// exit line, and reported as a `dispatch_failed` event (a dispatch
    /// error) or a `dispatch_infra_error` event (an infrastructure error).
    /// Returns the write error of a successful dispatch's exit message.
    pub fn finish_dispatch<W: ResponseSink, E: EventSink>(
        &self,
        request: &CommandRequest,
        size: usize,
        outcome: Result<Result<DispatchResult, DispatchError>, DispatchError>,
        writer: &mut ResponseWriter<W>,
        events: &mut E,
    ) -> (r: Option<DispatchError>)
        ensures
            match outcome {
                Ok(Ok(result)) => final(events).emitted() == old(events).emitted() && (r is None
                    ==> final(writer).sent() == old(writer).sent() + encode_utf8(
                    exit_json(result.status) + "\n"@,
                )) && (old(writer).reliable() ==> r is None),
                Ok(Err(error)) => r is None && final(events).emitted() == old(
                    events,
                ).emitted().push(
                    record_of(
                        request_event_model(self, "dispatch_failed"@, request@, size),
                        "request dispatch failed"@,
                        true,
                    ),
                ) && (old(writer).reliable() ==> final(writer).sent() == old(writer).sent()
                    + error_answer(error)),
                Err(error) => r is None && final(events).emitted() == old(events).emitted().push(
                    record_of(
                        request_event_model(self, "dispatch_infra_error"@, request@, size),
                        "dispatch infrastructure error"@,
                        true,
                    ),
                ) && (old(writer).reliable() ==> final(writer).sent() == old(writer).sent()
                    + error_answer(error)),
            },
            final(writer).reliable() == old(writer).reliable(),
    {
        match outcome {
            Ok(Ok(result)) => {
                match writer.write_exit(result.status) {
                    Ok(()) => None,
                    Err(error) => Some(error),
                }
            },
            Ok(Err(error)) => {
                let event = StructuredDispatchEvent::new(
                    "dispatch_failed",
                    self.endpoint.as_str(),
                    self.runtime_dir.as_str(),
                    StructuredEventMetadata::new(request.domain(), request.operation()).with_size(
                        size,
                    ),
                );
                events.emit(&event, "request dispatch failed", true);
                let _ = writer.write_error(&error);
                None
            },
            Err(error) => {
                let event = StructuredDispatchEvent::new(
                    "dispatch_infra_error",
                    self.endpoint.as_str(),
                    self.runtime_dir.as_str(),
                    StructuredEventMetadata::new(request.domain(), request.operation()).with_size(
                        size,
                    ),
                );
                events.emit(&event, "dispatch infrastructure error", true);
                let _ = writer.write_error(&error);
                None
            },
        }
    }

    /// Routes a received request. An operation with a handler of its own is
    /// handed back (nothing is written, no event emitted): its handler runs,
    /// and [`DispatchConnectionHandler::finish_dispatch`] ends the answer.
    /// Any other request is answered here in full: on a reliable writer the
    /// answer is one stderr line (the not-implemented notice, or the error's
    /// report) and then the one terminal exit line.
    pub fn route_request<W: ResponseSink, E: EventSink>(
        &self,
        request: &CommandRequest,
        size: usize,
        writer: &mut ResponseWriter<W>,
        events: &mut E,
    ) -> (r: Option<OperationHandler>)
        ensures
            r is Some ==> final(writer).sent() == old(writer).sent() && final(events).emitted()
                == old(events).emitted(),
            r is None && old(writer).reliable() ==> exists|answer: Seq<u8>|
                final(writer).sent() == old(writer).sent() + answer && one_line_answer(answer),
            final(writer).reliable() == old(writer).reliable(),
            (r == Some(OperationHandler::GetDefinition)) == names_operation(
                request@,
                "observe"@,
                "get-definition"@,
            ),
            (r == Some(OperationHandler::GetCard)) == names_operation(
                request@,
                "observe"@,
                "get-card"@,
            ),
            (r == Some(OperationHandler::GraphSlice)) == names_operation(
                request@,
                "observe"@,
                "graph-slice"@,
            ),
            (r == Some(OperationHandler::ApplyPatch)) == names_operation(
                request@,
                "act"@,
                "apply-patch"@,
            ),
            (r == Some(OperationHandler::Refactor)) == (names_operation(
                request@,
                "act"@,
                "refactor"@,
            ) && refactor_args_spec(request@.arguments) is Ok),
    {
        proof {
            reveal_strlit("observe");
            reveal_strlit("act");
            reveal_strlit("verify");
            reveal_strlit("get-definition");
            reveal_strlit("get-card");
            reveal_strlit("graph-slice");
            reveal_strlit("apply-patch");
            reveal_strlit("refactor");
            lemma_domain_named_literals(ascii_lower(trim_spec(request@.domain)));
            let d = domain_named(ascii_lower(trim_spec(request@.domain)));
            if d is Some {
                lemma_handler_table(d->0, ascii_lower(trim_spec(request@.operation)));
            }
        }
        match self.router.route(request, writer) {
            Ok(RouteOutcome::Delegated(h)) => Some(h),
            Ok(RouteOutcome::Completed(result)) => {
                let _ = self.finish_dispatch(request, size, Ok(Ok(result)), writer, events);
                proof {
                    if old(writer).reliable() {
                        let d = domain_named(
                            ascii_lower(trim_spec(request@.domain)),
                        )->0;
                        let op = ascii_lower(trim_spec(request@.operation));
                        let text = not_implemented_text(domain_name(d), op);
                        let answer = answer_bytes(text, 1);
                        assert(writer.sent() =~= old(writer).sent() + answer);
                        assert(one_line_answer(answer));
                    }
                }
                None
            },
            Err(error) => {
                let ghost e = error;
                let _ = self.finish_dispatch(request, size, Ok(Err(error)), writer, events);
                proof {
                    if old(writer).reliable() {
                        assert(writer.sent() == old(writer).sent() + error_answer(e));
                        assert(one_line_answer(error_answer(e)));
                    }
                }
                None
            },
        }
    }

    /// Answers a request that could not be received with its error.
    pub fn reject_request<W: ResponseSink>(&self, error: &DispatchError, writer: &mut ResponseWriter<W>) -> (r: Result<(), DispatchError>)
        ensures
            r is Ok ==> final(writer).sent() == old(writer).sent() + encode_utf8(
                stderr_json(error_report(*error)) + "\n"@,
            ) + encode_utf8(exit_json(exit_status_spec(*error)) + "\n"@),
            old(writer).reliable() ==> r is Ok,
            final(writer).reliable() == old(writer).reliable(),
    {
        writer.write_error(error)
    }
}

/// The event model for a request at a dispatch stage.
pub open spec fn request_event_model(
    h: &DispatchConnectionHandler,
    name: Seq<char>,
    request: RequestModel,
    size: usize,
) -> EventModel {
    plain_event(
        name,
        h.endpoint_text(),
        h.runtime_dir_text(),
        Some(trim_spec(request.domain)),
        Some(trim_spec(request.operation)),
        Some(size),
        None,
    )
}

/// Whether a request names `domain` and `operation` (each compared trimmed
/// and ASCII lower-cased).
pub open spec fn names_operation(m: RequestModel, domain: Seq<char>, operation: Seq<char>) -> bool {
    ascii_lower(trim_spec(m.domain)) == domain && ascii_lower(trim_spec(m.operation)) == operation
}

/// An answer of one stderr line carrying `text` and then the terminal exit
/// line with `status`.
pub open spec fn answer_bytes(text: Seq<char>, status: i32) -> Seq<u8> {
    encode_utf8(stderr_json(text) + "\n"@) + encode_utf8(exit_json(status) + "\n"@)
}

/// Whether bytes are one stderr line followed by one exit line.
pub open spec fn one_line_answer(bytes: Seq<u8>) -> bool {
    exists|text: Seq<char>, status: i32| bytes == #[trigger] answer_bytes(text, status)
}

/// What the client is told of a failed request: the error report on stderr
/// and then the one exit line, with the error's status.
pub open spec fn error_answer(e: DispatchError) -> Seq<u8> {
    answer_bytes(error_report(e), exit_status_spec(e))
}

/// The message logged for a read failure.
pub open spec fn read_error_text(e: DispatchError) -> Seq<char> {
    if e is RequestTooLarge {
        "request rejected: size exceeded"@
    } else {
        "failed to read request"@
    }
}

pub open spec fn line_end_exceeds(p: Seq<u8>) -> bool {
    crate::reader::line_end(p) > MAX_REQUEST_BYTES
}

} // verus!
