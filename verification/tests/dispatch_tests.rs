use weaverd::errors::DispatchError;
use weaverd::handler::{DispatchConnectionHandler, EmittedEvent, EventSink, ReadRequestError};
use weaverd::json::JsonValue;
use weaverd::reader::{read_request_line, ByteStream, MAX_REQUEST_BYTES};
use weaverd::request::CommandRequest;
use weaverd::response::ResponseWriter;
use weaverd::router::{DispatchResult, Domain, DomainRouter, OperationHandler, RouteOutcome};
use weaverd::structured_event::{
    format_structured_event, read_error_event, serialize_structured_event,
    StructuredDispatchEvent, StructuredEventMetadata,
};

fn member<'a>(value: &'a JsonValue, key: &str) -> Option<&'a JsonValue> {
    match value {
        JsonValue::Object(members) => members.iter().find(|(k, _)| k == key).map(|(_, v)| v),
        _ => None,
    }
}

fn text_of(value: Option<&JsonValue>) -> Option<String> {
    match value {
        Some(JsonValue::Str(s)) => Some(s.clone()),
        Some(JsonValue::Number(n)) => Some(n.clone()),
        _ => None,
    }
}

#[test]
fn parses_minimal_request() {
    let input = br#"{"command":{"domain":"observe","operation":"test"}}"#;
    let request = CommandRequest::parse(input).expect("parse minimal");
    assert_eq!(request.domain(), "observe");
    assert_eq!(request.operation(), "test");
}

#[test]
fn parses_request_with_arguments() {
    let input =
        br#"{"command":{"domain":"act","operation":"rename"},"arguments":["--file","x.rs"]}"#;
    let request = CommandRequest::parse(input).expect("parse with args");
    assert_eq!(request.domain(), "act");
    assert_eq!(request.operation(), "rename");
    assert_eq!(request.arguments, vec![String::from("--file"), String::from("x.rs")]);
}

#[test]
fn trims_trailing_whitespace() {
    let input = b"{\"command\":{\"domain\":\"observe\",\"operation\":\"test\"}}  \n";
    let request = CommandRequest::parse(input).expect("parse with whitespace");
    assert_eq!(request.domain(), "observe");
}

#[test]
fn rejects_malformed_empty_input() {
    assert!(matches!(CommandRequest::parse(b""), Err(DispatchError::MalformedJsonl { .. })));
}

#[test]
fn rejects_malformed_whitespace_only() {
    assert!(matches!(
        CommandRequest::parse(b"   \n"),
        Err(DispatchError::MalformedJsonl { .. })
    ));
}

#[test]
fn rejects_malformed_invalid_json() {
    assert!(matches!(
        CommandRequest::parse(b"not json"),
        Err(DispatchError::MalformedJsonl { .. })
    ));
}

#[test]
fn parse_rejects_missing_command() {
    match CommandRequest::parse(br#"{"arguments":[]}"#) {
        Err(DispatchError::MalformedJsonl { message }) => {
            assert!(message.contains("missing field `command`"), "{message}")
        }
        other => panic!("unexpected {other:?}"),
    }
}

#[test]
fn validate_rejects_empty_domain() {
    let request =
        CommandRequest::parse(br#"{"command":{"domain":"","operation":"test"}}"#).expect("parse");
    assert!(matches!(request.validate(), Err(DispatchError::InvalidStructure { .. })));
}

#[test]
fn validate_rejects_blank_operation() {
    let request = CommandRequest::parse(br#"{"command":{"domain":"observe","operation":"  "}}"#)
        .expect("parse");
    assert!(matches!(request.validate(), Err(DispatchError::InvalidStructure { .. })));
}

#[test]
fn parses_patch_payload() {
    let request = CommandRequest::parse(
        br#"{"command":{"domain":"act","operation":"apply-patch"},"patch":"diff"}"#,
    )
    .expect("parse");
    assert_eq!(request.patch(), Some("diff"));
    assert!(request.validate().is_ok());
}

#[test]
fn writes_exit_message() {
    let mut output = Vec::new();
    let mut writer = ResponseWriter::new(&mut output);
    writer.write_exit(0).expect("write exit");

    let response = String::from_utf8(output).expect("valid utf8");
    assert!(response.contains(r#""kind":"exit""#));
    assert!(response.contains(r#""status":0"#));
    assert!(response.ends_with('\n'));
}

#[test]
fn writes_stderr_stream() {
    let mut output = Vec::new();
    let mut writer = ResponseWriter::new(&mut output);
    writer.write_stderr("error text").expect("write stderr");

    let response = String::from_utf8(output).expect("valid utf8");
    assert!(response.contains(r#""stream":"stderr""#));
    assert!(response.contains(r#""data":"error text""#));
}

#[test]
fn write_error_includes_status() {
    let mut output = Vec::new();
    let mut writer = ResponseWriter::new(&mut output);
    let error = DispatchError::unknown_domain("bogus");
    writer.write_error(&error).expect("write error");

    let response = String::from_utf8(output).expect("valid utf8");
    assert!(response.contains("unknown domain"));
    assert!(response.contains(r#""status":1"#));
}

#[test]
fn writes_exact_stderr_line() {
    let mut output = Vec::new();
    let mut writer = ResponseWriter::new(&mut output);
    writer.write_stderr("a\"b").expect("write stderr");
    let response = String::from_utf8(output).expect("valid utf8");
    assert_eq!(response, "{\"kind\":\"stream\",\"stream\":\"stderr\",\"data\":\"a\\\"b\"}\n");
}

#[test]
fn write_error_reports_infrastructure_status_two() {
    let mut output = Vec::new();
    let mut writer = ResponseWriter::new(&mut output);
    writer.write_error(&DispatchError::internal("lock poisoned")).expect("write error");
    let response = String::from_utf8(output).expect("valid utf8");
    assert!(response.contains("internal error: lock poisoned"));
    assert!(response.ends_with("{\"kind\":\"exit\",\"status\":2}\n"));
}

#[test]
fn build_router_rejects_relative_workspace_root() {
    let error = match DomainRouter::new("relative/workspace") {
        Ok(_) => panic!("relative workspace roots should be rejected"),
        Err(error) => error,
    };
    assert!(matches!(error, DispatchError::InvalidArguments { .. }));
}

#[test]
fn domain_parse_rejects_unknown() {
    let result = Domain::parse("bogus");
    assert!(matches!(result, Err(DispatchError::UnknownDomain { .. })));
}

#[test]
fn domain_parse_is_case_insensitive() {
    assert_eq!(Domain::parse("OBSERVE").expect("parse"), Domain::Observe);
    assert_eq!(Domain::parse("Act").expect("parse"), Domain::Act);
    assert_eq!(Domain::parse("verify").expect("parse"), Domain::Verify);
}

#[test]
fn domain_names_round_trip() {
    for domain in [Domain::Observe, Domain::Act, Domain::Verify] {
        assert_eq!(Domain::parse(domain.as_str()).expect("parse"), domain);
    }
}

#[test]
fn dispatch_result_statuses() {
    assert_eq!(DispatchResult::success().status, 0);
    assert_eq!(DispatchResult::with_status(3).status, 3);
}

#[test]
fn router_rejects_unknown_operation() {
    let router = DomainRouter::new("/tmp/weaver-test-workspace").expect("router");
    let request = CommandRequest::parse(br#"{"command":{"domain":"act","operation":"bogus"}}"#)
        .expect("parse");
    let mut output = Vec::new();
    let mut writer = ResponseWriter::new(&mut output);
    let result = router.route(&request, &mut writer);
    assert!(matches!(result, Err(DispatchError::UnknownOperation { .. })));
}

#[test]
fn router_rejects_unknown_domain() {
    let router = DomainRouter::new("/tmp/weaver-test-workspace").expect("router");
    let request = CommandRequest::parse(br#"{"command":{"domain":"bogus","operation":"x"}}"#)
        .expect("parse");
    let mut output = Vec::new();
    let mut writer = ResponseWriter::new(&mut output);
    let result = router.route(&request, &mut writer);
    assert!(matches!(result, Err(DispatchError::UnknownDomain { .. })));
}

#[test]
fn error_exit_statuses() {
    assert_eq!(DispatchError::malformed("x").exit_status(), 1);
    assert_eq!(DispatchError::invalid_arguments("x").exit_status(), 1);
    assert_eq!(DispatchError::internal("x").exit_status(), 2);
}

#[test]
fn error_messages_match_display_text() {
    assert_eq!(
        DispatchError::unknown_operation("observe", "bogus").to_message(),
        "unknown operation 'bogus' for domain 'observe'"
    );
    assert_eq!(
        DispatchError::request_too_large(11, 10).to_message(),
        "request too large: 11 bytes exceeds 10 byte limit"
    );
}

#[test]
fn read_request_line_returns_first_line() {
    let mut stream = ByteStream::new(b"{\"a\":1}\nrest".to_vec());
    let line = read_request_line(&mut stream).expect("read").expect("line");
    assert_eq!(line, b"{\"a\":1}\n".to_vec());
}

#[test]
fn read_request_line_reports_disconnect() {
    let mut stream = ByteStream::new(Vec::new());
    assert!(read_request_line(&mut stream).expect("read").is_none());
}

#[test]
fn read_request_line_returns_request_too_large_for_large_payload() {
    let max_plus_one = MAX_REQUEST_BYTES + 1;
    let mut stream = ByteStream::new(vec![b'a'; max_plus_one]);
    let error = read_request_line(&mut stream).expect_err("expected request too large error");

    assert!(matches!(error, DispatchError::RequestTooLarge { .. }));
    match error {
        DispatchError::RequestTooLarge { max_size, .. } => assert_eq!(max_size, MAX_REQUEST_BYTES),
        _ => unreachable!(),
    }
}

#[test]
fn receive_request_accepts_valid_request() {
    let handler =
        DispatchConnectionHandler::new("/tmp/workspace", "/tmp/weaverd-test/socket.sock", "/tmp")
            .expect("create handler");
    let mut stream = ByteStream::new(
        b"{\"command\":{\"domain\":\"observe\",\"operation\":\"get-card\"}}\n".to_vec(),
    );
    let mut events: Vec<EmittedEvent> = Vec::new();
    let result = handler.receive_request(&mut stream, &mut events).expect("receive request");

    assert_eq!(result.1.domain(), "observe");
    assert_eq!(result.1.operation(), "get-card");
    assert!(!result.0.is_empty());
    assert!(events.is_empty());
}

#[test]
fn receive_request_rejects_malformed_json() {
    let handler = DispatchConnectionHandler::new("/tmp/workspace", "/tmp/s.sock", "/tmp")
        .expect("create handler");
    let mut stream = ByteStream::new(b"not-json\n".to_vec());
    let mut events: Vec<EmittedEvent> = Vec::new();
    let result = handler.receive_request(&mut stream, &mut events);
    assert!(matches!(
        result,
        Err(ReadRequestError::BadRequest(DispatchError::MalformedJsonl { .. }))
    ));
    assert_eq!(events.len(), 1);
    assert_eq!(events[0].name, "request_rejected");
    assert!(events[0].is_error);
}

#[test]
fn receive_request_rejects_invalid_request() {
    let handler = DispatchConnectionHandler::new("/tmp/workspace", "/tmp/s.sock", "/tmp")
        .expect("create handler");
    let mut stream =
        ByteStream::new(b"{\"command\":{\"domain\":\"observe\",\"operation\":\"\"}}\n".to_vec());
    let mut events: Vec<EmittedEvent> = Vec::new();
    let result = handler.receive_request(&mut stream, &mut events);
    assert!(matches!(
        result,
        Err(ReadRequestError::BadRequest(DispatchError::InvalidStructure { .. }))
    ));
}

#[test]
fn receive_request_rejects_oversized_request() {
    let handler = DispatchConnectionHandler::new("/tmp/workspace", "/tmp/s.sock", "/tmp")
        .expect("create handler");
    let mut stream = ByteStream::new(vec![b'a'; MAX_REQUEST_BYTES + 1]);
    let mut events: Vec<EmittedEvent> = Vec::new();
    let result = handler.receive_request(&mut stream, &mut events);
    assert!(matches!(
        result,
        Err(ReadRequestError::BadRequest(DispatchError::RequestTooLarge { .. }))
    ));
    assert_eq!(events[0].name, "request_too_large");
}

#[test]
fn handler_rejects_relative_workspace_root() {
    assert!(matches!(
        DispatchConnectionHandler::new("relative", "/tmp/s.sock", "/tmp"),
        Err(DispatchError::InvalidArguments { .. })
    ));
}

#[test]
fn serialize_structured_dispatch_event_omits_sensitive_fields() {
    let event = StructuredDispatchEvent::new(
        "dispatching_request",
        "/tmp/weaverd.sock",
        "/var/lib/weaverd",
        StructuredEventMetadata::new("observe", "get-card").with_size(42),
    );
    let value = serialize_structured_event(&event);

    assert_eq!(text_of(member(&value, "event")), Some(String::from("dispatching_request")));
    assert!(member(&value, "patch").is_none());
    assert!(member(&value, "body").is_none());
    assert!(member(&value, "source").is_none());
    assert!(member(&value, "env").is_none());
    assert!(member(&value, "fullPayload").is_none());
    assert_eq!(text_of(member(&value, "size")), Some(String::from("42")));
    assert_eq!(text_of(member(&value, "runtime_dir")), Some(String::from("/var/lib/weaverd")));
    assert_eq!(
        text_of(member(&value, "weaverd.health")),
        Some(String::from("/var/lib/weaverd/weaverd.health"))
    );
}

#[test]
fn format_structured_event_redacts_sensitive_request_data() {
    let mut event = StructuredDispatchEvent::new(
        "request_too_large",
        "/tmp/weaverd.sock",
        "/var/lib/weaverd",
        StructuredEventMetadata::new("observe", "apply-patch")
            .with_size(MAX_REQUEST_BYTES + 1)
            .with_max_size(MAX_REQUEST_BYTES),
    );
    event.patch = Some("sensitive patch".to_string());
    event.body = Some("sensitive body".to_string());
    event.source = Some("sensitive source".to_string());
    event.env = Some("PATH=secret".to_string());
    event.full_payload = Some("full json payload".to_string());
    let payload = format_structured_event(&event);

    assert!(payload.contains("\"size\":1048577"));
    assert!(payload.contains("\"max_size\":1048576"));
    assert!(payload.contains("\"patch\":\"<redacted>\""));
    assert!(payload.contains("\"body\":\"<redacted>\""));
    assert!(payload.contains("\"source\":\"<redacted>\""));
    assert!(payload.contains("\"env\":\"<redacted>\""));
    assert!(payload.contains("\"fullPayload\":\"<redacted>\""));
    assert!(payload.contains("\"domain\":\"observe\""));
    assert!(!payload.contains("sensitive"));
    assert!(!payload.contains("secret"));
}

#[test]
fn request_too_large_serialization_maps_to_request_too_large_event() {
    let event = read_error_event(
        &DispatchError::request_too_large(MAX_REQUEST_BYTES + 1, MAX_REQUEST_BYTES),
        "/tmp/weaverd.sock",
        "/tmp",
    );
    let value = serialize_structured_event(&event);

    assert_eq!(text_of(member(&value, "event")), Some(String::from("request_too_large")));
    assert_eq!(text_of(member(&value, "size")), Some(String::from("1048577")));
    assert_eq!(text_of(member(&value, "max_size")), Some(String::from("1048576")));
}

#[test]
fn read_error_event_maps_other_errors_to_request_rejected() {
    for error in [
        DispatchError::malformed("bad json"),
        DispatchError::invalid_structure("missing command"),
        DispatchError::unknown_domain("bogus"),
        DispatchError::invalid_arguments("missing args"),
        DispatchError::internal("lock poisoned"),
    ] {
        let event = read_error_event(&error, "/tmp/weaverd.sock", "/tmp");
        assert_eq!(event.event, "request_rejected");
    }
}

#[test]
fn emit_structured_event_returns_payload_without_sensitive_request_data() {
    let mut event = StructuredDispatchEvent::new(
        "request_too_large",
        "/tmp/weaverd.sock",
        "/var/lib/weaverd",
        StructuredEventMetadata::new("observe", "apply-patch")
            .with_size(MAX_REQUEST_BYTES + 1)
            .with_max_size(MAX_REQUEST_BYTES),
    );
    event.patch = Some("sensitive patch".to_string());
    event.body = Some("sensitive body".to_string());
    event.source = Some("sensitive source".to_string());
    event.env = Some("PATH=secret".to_string());
    event.full_payload = Some("full json payload".to_string());
    let payload = format_structured_event(&event);
    let value = serde_json::from_str::<serde_json::Value>(&payload)
        .expect("valid structured event payload");

    assert_eq!(value["size"], MAX_REQUEST_BYTES + 1);
    assert_eq!(value["max_size"], MAX_REQUEST_BYTES);
    assert_eq!(value["patch"], serde_json::Value::from("<redacted>"));
    assert_eq!(value["body"], serde_json::Value::from("<redacted>"));
    assert_eq!(value["source"], serde_json::Value::from("<redacted>"));
    assert_eq!(value["env"], serde_json::Value::from("<redacted>"));
    assert_eq!(value["fullPayload"], serde_json::Value::from("<redacted>"));
    assert_eq!(value["domain"], serde_json::Value::from("observe"));

    let mut events: Vec<EmittedEvent> = Vec::new();
    events.emit(&event, "request_too_large rejection", true);
    assert_eq!(events.len(), 1);
    assert_eq!(events[0].name, "request_too_large");
    assert_eq!(events[0].payload, payload);
    assert_eq!(events[0].message, "request_too_large rejection");
    assert!(events[0].is_error);
}

#[test]
fn read_error_event_maps_all_dispatch_errors() {
    let endpoint = "/tmp/weaverd.sock";
    let runtime_dir = "/tmp";
    let cases = vec![
        (DispatchError::malformed("bad json"), "request_rejected"),
        (DispatchError::invalid_structure("missing command"), "request_rejected"),
        (DispatchError::unknown_domain("bogus"), "request_rejected"),
        (DispatchError::unknown_operation("observe", "bogus"), "request_rejected"),
        (
            DispatchError::request_too_large(MAX_REQUEST_BYTES + 1, MAX_REQUEST_BYTES),
            "request_too_large",
        ),
        (DispatchError::Io { message: "read failed".to_string() }, "request_rejected"),
        (
            DispatchError::SerializeResponse { message: "EOF while parsing".to_string() },
            "request_rejected",
        ),
        (DispatchError::invalid_arguments("missing args"), "request_rejected"),
        (DispatchError::backend_startup("startup failed"), "request_rejected"),
        (DispatchError::lsp_host("rust", "request failed"), "request_rejected"),
        (DispatchError::unsupported_language("txt"), "request_rejected"),
        (DispatchError::internal("lock poisoned"), "request_rejected"),
    ];

    for (error, expected_event) in cases {
        let event = read_error_event(&error, endpoint, runtime_dir);
        let value = serialize_structured_event(&event);
        assert_eq!(text_of(member(&value, "event")), Some(String::from(expected_event)));
    }
}

fn route_operation(domain: &str, operation: &str) -> (Result<RouteOutcome, DispatchError>, String) {
    let router = DomainRouter::new("/tmp/weaver-test-workspace").expect("router");
    let line = format!(r#"{{"command":{{"domain":"{domain}","operation":"{operation}"}}}}"#);
    let request = CommandRequest::parse(line.as_bytes()).expect("parse");
    let mut output = Vec::new();
    let mut writer = ResponseWriter::new(&mut output);
    let result = router.route(&request, &mut writer);
    (result, String::from_utf8(output).expect("utf8"))
}

#[test]
fn routes_known_operations() {
    let known = [
        ("observe", vec!["get-definition", "find-references", "grep", "diagnostics", "call-hierarchy", "get-card", "graph-slice"]),
        ("act", vec!["rename-symbol", "apply-edits", "apply-patch", "apply-rewrite", "refactor"]),
        ("verify", vec!["diagnostics", "syntax"]),
    ];
    for (domain, operations) in known {
        for operation in operations {
            let (result, output) = route_operation(domain, operation);
            let handler = match (domain, operation) {
                ("observe", "get-definition") => Some(OperationHandler::GetDefinition),
                ("observe", "get-card") => Some(OperationHandler::GetCard),
                ("observe", "graph-slice") => Some(OperationHandler::GraphSlice),
                ("act", "apply-patch") => Some(OperationHandler::ApplyPatch),
                _ => None,
            };
            if (domain, operation) == ("act", "refactor") {
                assert!(matches!(result, Err(DispatchError::InvalidArguments { .. })));
                assert!(output.is_empty());
                continue;
            }
            match handler {
                Some(h) => {
                    assert_eq!(result.expect("routed"), RouteOutcome::Delegated(h));
                    assert!(output.is_empty());
                }
                None => {
                    assert_eq!(
                        result.expect("routed"),
                        RouteOutcome::Completed(DispatchResult::with_status(1))
                    );
                    assert_eq!(
                        output,
                        format!(
                            "{{\"kind\":\"stream\",\"stream\":\"stderr\",\"data\":\"{domain} {operation}: operation not yet implemented\\n\"}}\n"
                        )
                    );
                }
            }
        }
    }
}

#[test]
fn act_refactor_without_flags_is_invalid_arguments() {
    let (result, output) = route_operation("act", "refactor");
    match result {
        Err(DispatchError::InvalidArguments { message }) => {
            assert!(message.starts_with("act refactor requires"));
        }
        other => panic!("unexpected routing: {other:?}"),
    }
    assert!(output.is_empty());
}

#[test]
fn act_refactor_with_flags_goes_to_its_handler() {
    let router = DomainRouter::new("/tmp/weaver-test-workspace").expect("router");
    let line = br#"{"command":{"domain":"act","operation":"refactor"},"arguments":["--provider","rope","--refactoring","rename","--file","a.py"]}"#;
    let request = CommandRequest::parse(line).expect("parse");
    let mut output = Vec::new();
    let mut writer = ResponseWriter::new(&mut output);
    let result = router.route(&request, &mut writer);
    assert_eq!(result.expect("routed"), RouteOutcome::Delegated(OperationHandler::Refactor));
}

#[test]
fn routes_operations_case_insensitively() {
    let (result, _) = route_operation("act", "Apply-Patch");
    assert_eq!(result.expect("routed"), RouteOutcome::Delegated(OperationHandler::ApplyPatch));
    let (result, output) = route_operation("verify", "DIAGNOSTICS");
    assert_eq!(result.expect("routed"), RouteOutcome::Completed(DispatchResult::with_status(1)));
    assert!(output.contains("verify diagnostics: operation not yet implemented"));
}

#[test]
fn find_references_not_implemented() {
    let (result, output) = route_operation("observe", "find-references");
    assert_eq!(result.expect("routed"), RouteOutcome::Completed(DispatchResult::with_status(1)));
    assert!(output.contains("not yet implemented"));
}

#[test]
fn unknown_operations_are_rejected_in_each_domain() {
    for (domain, operation) in [("observe", "nonexistent"), ("act", "bogus"), ("verify", "unknown")] {
        let (result, output) = route_operation(domain, operation);
        assert!(matches!(result, Err(DispatchError::UnknownOperation { .. })));
        assert!(output.is_empty());
    }
}

#[test]
fn failed_dispatch_writes_report_and_one_exit_line() {
    let handler = DispatchConnectionHandler::new("/tmp/ws", "/tmp/s.sock", "/tmp").expect("handler");
    let request = CommandRequest::parse(br#"{"command":{"domain":"act","operation":"refactor"}}"#)
        .expect("parse");
    for (outcome, status) in [
        (Err(DispatchError::internal("lock poisoned")), 2),
        (Ok(Err(DispatchError::invalid_arguments("missing flags"))), 1),
    ] {
        let mut output: Vec<u8> = Vec::new();
        let mut events: Vec<EmittedEvent> = Vec::new();
        let mut writer = ResponseWriter::new(&mut output);
        let r = handler.finish_dispatch(&request, 10, outcome, &mut writer, &mut events);
        assert!(r.is_none());
        let text = String::from_utf8(output).expect("utf8");
        let lines: Vec<&str> = text.lines().collect();
        assert_eq!(lines.len(), 2);
        assert!(lines[0].contains(r#""stream":"stderr""#));
        assert_eq!(lines[1], format!(r#"{{"kind":"exit","status":{status}}}"#));
        assert_eq!(events.len(), 1);
    }
}

#[test]
fn route_request_answers_with_one_stream_line_and_one_exit_line() {
    let handler = DispatchConnectionHandler::new("/tmp/ws", "/tmp/s.sock", "/tmp").expect("handler");
    for (line, status) in [
        (&br#"{"command":{"domain":"observe","operation":"grep"}}"#[..], 1),
        (&br#"{"command":{"domain":"bogus","operation":"grep"}}"#[..], 1),
        (&br#"{"command":{"domain":"act","operation":"refactor"}}"#[..], 1),
    ] {
        let request = CommandRequest::parse(line).expect("parse");
        let mut output: Vec<u8> = Vec::new();
        let mut events: Vec<EmittedEvent> = Vec::new();
        let mut writer = ResponseWriter::new(&mut output);
        assert!(handler.route_request(&request, 10, &mut writer, &mut events).is_none());
        let text = String::from_utf8(output).expect("utf8");
        let lines: Vec<&str> = text.lines().collect();
        assert_eq!(lines.len(), 2);
        assert!(lines[0].starts_with(r#"{"kind":"stream","stream":"stderr""#));
        assert_eq!(lines[1], format!(r#"{{"kind":"exit","status":{status}}}"#));
    }
    let request = CommandRequest::parse(br#"{"command":{"domain":"act","operation":"apply-patch"}}"#)
        .expect("parse");
    let mut output: Vec<u8> = Vec::new();
    let mut events: Vec<EmittedEvent> = Vec::new();
    let mut writer = ResponseWriter::new(&mut output);
    assert_eq!(
        handler.route_request(&request, 10, &mut writer, &mut events),
        Some(OperationHandler::ApplyPatch)
    );
    assert!(output.is_empty());
    assert!(events.is_empty());
}
