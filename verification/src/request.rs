//! Request deserialization for the dispatch loop.
//!
//! A request line is a JSON object of the shape
//! `{"command":{"domain":..,"operation":..},"arguments":[..],"patch":..}`;
//! `arguments` defaults to an empty list and `patch` to absent. The JSON text
//! is read by `serde_json` (see [`crate::json`]); this module checks the
//! document against the request schema.

use vstd::prelude::*;

use crate::errors::DispatchError;
use crate::json::{
    JsonValue, find_member, json_document, object_member, parse_json_document,
};
use crate::text::{is_ascii_whitespace_byte, string_views, trim_spec, trim_str};

verus! {

/// Command identification within a request.
#[derive(Debug)]
pub struct CommandDescriptor {
    /// The command domain (for example `observe`, `act`, `verify`).
    pub domain: String,
    /// The specific operation within the domain.
    pub operation: String,
}

/// Parsed command request from a client.
#[derive(Debug)]
pub struct CommandRequest {
    /// Command identification (domain and operation).
    pub command: CommandDescriptor,
    /// Additional arguments passed to the operation handler.
    pub arguments: Vec<String>,
    /// Optional patch payload for `act apply-patch`.
    pub patch: Option<String>,
}

/// The request as plain text values.
pub struct RequestModel {
    pub domain: Seq<char>,
    pub operation: Seq<char>,
    pub arguments: Seq<Seq<char>>,
    pub patch: Option<Seq<char>>,
}

pub open spec fn option_string_view(o: Option<String>) -> Option<Seq<char>> {
    match o {
        Some(s) => Some(s@),
        None => None,
    }
}

impl View for CommandRequest {
    type V = RequestModel;

    open spec fn view(&self) -> RequestModel {
        RequestModel {
            domain: self.command.domain@,
            operation: self.command.operation@,
            arguments: string_views(self.arguments@),
            patch: option_string_view(self.patch),
        }
    }
}

/// Start of the run of ASCII whitespace that ends `b`.
pub open spec fn trailing_ascii_ws_start(b: Seq<u8>) -> int
    decreases b.len(),
{
    if b.len() == 0 {
        0
    } else if is_ascii_whitespace_byte(b.last()) {
        trailing_ascii_ws_start(b.drop_last())
    } else {
        b.len() as int
    }
}

/// The line without its trailing ASCII whitespace (newline included).
pub open spec fn trim_trailing_ascii_ws(b: Seq<u8>) -> Seq<u8> {
    b.subrange(0, trailing_ascii_ws_start(b))
}

/// The text of a JSON string value.
pub open spec fn json_text(v: JsonValue) -> Option<Seq<char>> {
    match v {
        JsonValue::Str(s) => Some(s@),
        _ => None,
    }
}

/// Reads a required string field of an object.
pub open spec fn decode_string_field(members: Seq<(String, JsonValue)>, name: Seq<char>) -> Result<
    Seq<char>,
    Seq<char>,
> {
    match object_member(members, name) {
        None => Err("missing field `"@ + name + "`"@),
        Some(v) => match json_text(v) {
            Some(t) => Ok(t),
            None => Err("invalid type: expected a string for `"@ + name + "`"@),
        },
    }
}

/// Reads the `command` field: an object with string `domain` and `operation`.
pub open spec fn decode_command(members: Seq<(String, JsonValue)>) -> Result<
    (Seq<char>, Seq<char>),
    Seq<char>,
> {
    match object_member(members, "command"@) {
        None => Err("missing field `command`"@),
        Some(JsonValue::Object(fields)) => match decode_string_field(fields@, "domain"@) {
            Err(m) => Err(m),
            Ok(domain) => match decode_string_field(fields@, "operation"@) {
                Err(m) => Err(m),
                Ok(operation) => Ok((domain, operation)),
            },
        },
        Some(_) => Err("invalid type: expected an object for `command`"@),
    }
}

/// Reads the optional `arguments` field: a list of strings, empty when absent.
pub open spec fn decode_arguments(members: Seq<(String, JsonValue)>) -> Result<
    Seq<Seq<char>>,
    Seq<char>,
> {
    match object_member(members, "arguments"@) {
        None => Ok(Seq::empty()),
        Some(JsonValue::Array(items)) => if forall|i: int|
            0 <= i < items@.len() ==> (#[trigger] json_text(items@[i])) is Some {
            Ok(items@.map_values(|v: JsonValue| json_text(v)->0))
        } else {
            Err("invalid type: expected a list of strings for `arguments`"@)
        },
        Some(_) => Err("invalid type: expected a list of strings for `arguments`"@),
    }
}

/// Reads the optional `patch` field: a string, absent when missing or null.
pub open spec fn decode_patch(members: Seq<(String, JsonValue)>) -> Result<
    Option<Seq<char>>,
    Seq<char>,
> {
    match object_member(members, "patch"@) {
        None => Ok(None),
        Some(JsonValue::Null) => Ok(None),
        Some(JsonValue::Str(s)) => Ok(Some(s@)),
        Some(_) => Err("invalid type: expected a string for `patch`"@),
    }
}

/// Reads a request from a JSON document, or says why it does not match the schema.
pub open spec fn decode_request(doc: JsonValue) -> Result<RequestModel, Seq<char>> {
    match doc {
        JsonValue::Object(members) => match decode_command(members@) {
            Err(m) => Err(m),
            Ok((domain, operation)) => match decode_arguments(members@) {
                Err(m) => Err(m),
                Ok(arguments) => match decode_patch(members@) {
                    Err(m) => Err(m),
                    Ok(patch) => Ok(RequestModel { domain, operation, arguments, patch }),
                },
            },
        },
        _ => Err("invalid type: expected a request object"@),
    }
}

/// What parsing a request line yields: the request, or the message of the
/// malformed-JSONL error.
pub open spec fn parse_request_spec(line: Seq<u8>) -> Result<RequestModel, Seq<char>> {
    let trimmed = trim_trailing_ascii_ws(line);
    if trimmed.len() == 0 {
        Err("empty request line"@)
    } else {
        match json_document(trimmed) {
            Err(m) => Err(m),
            Ok(doc) => decode_request(doc),
        }
    }
}

proof fn lemma_trailing_ascii_ws_start(b: Seq<u8>)
    ensures
        0 <= trailing_ascii_ws_start(b) <= b.len(),
        forall|i: int|
            trailing_ascii_ws_start(b) <= i < b.len() ==> is_ascii_whitespace_byte(#[trigger] b[i]),
        trailing_ascii_ws_start(b) > 0 ==> !is_ascii_whitespace_byte(
            b[trailing_ascii_ws_start(b) - 1],
        ),
    decreases b.len(),
{
    if b.len() > 0 && is_ascii_whitespace_byte(b.last()) {
        lemma_trailing_ascii_ws_start(b.drop_last());
        assert forall|i: int|
            trailing_ascii_ws_start(b) <= i < b.len() implies is_ascii_whitespace_byte(
            #[trigger] b[i],
        ) by {
            if i < b.len() - 1 {
                assert(b.drop_last()[i] == b[i]);
            }
        }
    }
}

proof fn lemma_trailing_ascii_ws_unique(b: Seq<u8>, k: int)
    requires
        0 <= k <= b.len(),
        forall|i: int| k <= i < b.len() ==> is_ascii_whitespace_byte(#[trigger] b[i]),
        k > 0 ==> !is_ascii_whitespace_byte(b[k - 1]),
    ensures
        trailing_ascii_ws_start(b) == k,
    decreases b.len(),
{
    if k < b.len() {
        assert(is_ascii_whitespace_byte(b.last()));
        assert forall|i: int| k <= i < b.len() - 1 implies is_ascii_whitespace_byte(
            #[trigger] b.drop_last()[i],
        ) by {
            assert(b.drop_last()[i] == b[i]);
        }
        lemma_trailing_ascii_ws_unique(b.drop_last(), k);
    }
}

fn is_ascii_whitespace(b: u8) -> (r: bool)
    ensures
        r == is_ascii_whitespace_byte(b),
{
    b == 0x20 || b == 0x09 || b == 0x0A || b == 0x0C || b == 0x0D
}

/// Trims trailing ASCII whitespace from a byte slice.
pub fn trim_trailing_whitespace(bytes: &[u8]) -> (r: &[u8])
    ensures
        r@ == trim_trailing_ascii_ws(bytes@),
{
    let mut end = bytes.len();
    while end > 0 && is_ascii_whitespace(bytes[end - 1])
        invariant
            end <= bytes@.len(),
            forall|i: int| end <= i < bytes@.len() ==> is_ascii_whitespace_byte(#[trigger] bytes@[i]),
        decreases end,
    {
        end = end - 1;
    }
    proof {
        lemma_trailing_ascii_ws_unique(bytes@, end as int);
    }
    &bytes[0..end]
}

fn string_field(members: &Vec<(String, JsonValue)>, name: &str) -> (r: Result<String, String>)
    ensures
        match r {
            Ok(t) => decode_string_field(members@, name@) == Ok::<Seq<char>, Seq<char>>(t@),
            Err(m) => decode_string_field(members@, name@) == Err::<Seq<char>, Seq<char>>(m@),
        },
{
    match find_member(members, name) {
        None => {
            let mut m = crate::text::concat2("missing field `", name);
            m.append("`");
            Err(m)
        },
        Some(JsonValue::Str(s)) => Ok(s.clone()),
        Some(_) => {
            let mut m = crate::text::concat2("invalid type: expected a string for `", name);
            m.append("`");
            Err(m)
        },
    }
}

fn command_fields(members: &Vec<(String, JsonValue)>) -> (r: Result<(String, String), String>)
    ensures
        match r {
            Ok((d, o)) => decode_command(members@) == Ok::<(Seq<char>, Seq<char>), Seq<char>>(
                (d@, o@),
            ),
            Err(m) => decode_command(members@) == Err::<(Seq<char>, Seq<char>), Seq<char>>(m@),
        },
{
    match find_member(members, "command") {
        None => Err(String::from_str("missing field `command`")),
        Some(JsonValue::Object(fields)) => {
            let domain = string_field(fields, "domain")?;
            let operation = string_field(fields, "operation")?;
            Ok((domain, operation))
        },
        Some(_) => Err(String::from_str("invalid type: expected an object for `command`")),
    }
}

fn argument_list(members: &Vec<(String, JsonValue)>) -> (r: Result<Vec<String>, String>)
    ensures
        match r {
            Ok(a) => decode_arguments(members@) == Ok::<Seq<Seq<char>>, Seq<char>>(
                string_views(a@),
            ),
            Err(m) => decode_arguments(members@) == Err::<Seq<Seq<char>>, Seq<char>>(m@),
        },
{
    match find_member(members, "arguments") {
        None => {
            let a: Vec<String> = Vec::new();
            assert(string_views(a@) =~= Seq::<Seq<char>>::empty());
            Ok(a)
        },
        Some(JsonValue::Array(items)) => {
            let mut out: Vec<String> = Vec::new();
            let mut i: usize = 0;
            while i < items.len()
                invariant
                    object_member(members@, "arguments"@) == Some(JsonValue::Array(*items)),
                    i <= items.len(),
                    out@.len() == i,
                    forall|j: int| 0 <= j < i ==> json_text(#[trigger] items@[j]) == Some(out@[j]@),
                decreases items.len() - i,
            {
                match &items[i] {
                    JsonValue::Str(s) => {
                        out.push(s.clone());
                    },
                    _ => {
                        assert(json_text(items@[i as int]) is None);
                        assert(!(forall|j: int|
                            0 <= j < items@.len() ==> (#[trigger] json_text(items@[j])) is Some));
                        return Err(
                            String::from_str(
                                "invalid type: expected a list of strings for `arguments`",
                            ),
                        );
                    },
                }
                i = i + 1;
            }
            assert(string_views(out@) =~= items@.map_values(|v: JsonValue| json_text(v)->0));
            Ok(out)
        },
        Some(_) => Err(
            String::from_str("invalid type: expected a list of strings for `arguments`"),
        ),
    }
}

fn patch_field(members: &Vec<(String, JsonValue)>) -> (r: Result<Option<String>, String>)
    ensures
        match r {
            Ok(p) => decode_patch(members@) == Ok::<Option<Seq<char>>, Seq<char>>(
                option_string_view(p),
            ),
            Err(m) => decode_patch(members@) == Err::<Option<Seq<char>>, Seq<char>>(m@),
        },
{
    match find_member(members, "patch") {
        None => Ok(None),
        Some(JsonValue::Null) => Ok(None),
        Some(JsonValue::Str(s)) => Ok(Some(s.clone())),
        Some(_) => Err(String::from_str("invalid type: expected a string for `patch`")),
    }
}

fn decode_document(doc: &JsonValue) -> (r: Result<CommandRequest, String>)
    ensures
        match r {
            Ok(req) => decode_request(*doc) == Ok::<RequestModel, Seq<char>>(req@),
            Err(m) => decode_request(*doc) == Err::<RequestModel, Seq<char>>(m@),
        },
{
    match doc {
        JsonValue::Object(members) => {
            let (domain, operation) = command_fields(members)?;
            let arguments = argument_list(members)?;
            let patch = patch_field(members)?;
            Ok(CommandRequest { command: CommandDescriptor { domain, operation }, arguments, patch })
        },
        _ => Err(String::from_str("invalid type: expected a request object")),
    }
}

impl CommandRequest {
    /// Parses a JSONL line into a command request.
    ///
    /// Trailing whitespace (including the newline delimiter) is trimmed before
    /// parsing. An empty line, text that is not JSON, and JSON that does not
    /// match the request schema are all `MalformedJsonl` errors.
    pub fn parse(line: &[u8]) -> (r: Result<Self, DispatchError>)
        ensures
            match r {
                Ok(req) => parse_request_spec(line@) == Ok::<RequestModel, Seq<char>>(req@),
                Err(e) => e matches DispatchError::MalformedJsonl { message }
                    && parse_request_spec(line@) == Err::<RequestModel, Seq<char>>(message@),
            },
    {
        let trimmed = trim_trailing_whitespace(line);
        if trimmed.len() == 0 {
            return Err(DispatchError::malformed("empty request line"));
        }
        match parse_json_document(trimmed) {
            Err(message) => Err(DispatchError::MalformedJsonl { message }),
            Ok(doc) => match decode_document(&doc) {
                Ok(req) => Ok(req),
                Err(message) => Err(DispatchError::MalformedJsonl { message }),
            },
        }
    }

    /// Validates that required fields are present and non-empty.
    ///
    /// Returns `InvalidStructure` if the domain or operation is empty or
    /// contains only whitespace.
    pub fn validate(&self) -> (r: Result<(), DispatchError>)
        ensures
            trim_spec(self@.domain).len() == 0 ==> (r matches Err(
                DispatchError::InvalidStructure { message },
            ) && message@ == "domain field is empty"@),
            trim_spec(self@.domain).len() > 0 && trim_spec(self@.operation).len() == 0 ==> (r matches Err(
                DispatchError::InvalidStructure { message },
            ) && message@ == "operation field is empty"@),
            trim_spec(self@.domain).len() > 0 && trim_spec(self@.operation).len() > 0 ==> r is Ok,
    {
        if trim_str(self.command.domain.as_str()).is_empty() {
            return Err(DispatchError::invalid_structure("domain field is empty"));
        }
        if trim_str(self.command.operation.as_str()).is_empty() {
            return Err(DispatchError::invalid_structure("operation field is empty"));
        }
        Ok(())
    }

    /// Returns the normalised domain (trimmed).
    pub fn domain(&self) -> (r: &str)
        ensures
            r@ == trim_spec(self@.domain),
    {
        trim_str(self.command.domain.as_str())
    }

    /// Returns the normalised operation (trimmed).
    pub fn operation(&self) -> (r: &str)
        ensures
            r@ == trim_spec(self@.operation),
    {
        trim_str(self.command.operation.as_str())
    }

    /// Returns the patch payload, if provided.
    pub fn patch(&self) -> (r: Option<&str>)
        ensures
            match r {
                Some(p) => self.patch matches Some(q) && p@ == q@,
                None => self.patch is None,
            },
    {
        match &self.patch {
            Some(p) => Some(p.as_str()),
            None => None,
        }
    }
}

/// Trailing ASCII whitespace (the newline delimiter among it) never changes
/// what a request line parses to.
pub proof fn lemma_trailing_whitespace_ignored(line: Seq<u8>, ws: Seq<u8>)
    requires
        forall|i: int| 0 <= i < ws.len() ==> is_ascii_whitespace_byte(#[trigger] ws[i]),
    ensures
        parse_request_spec(line + ws) == parse_request_spec(line),
{
    let k = trailing_ascii_ws_start(line);
    lemma_trailing_ascii_ws_start(line);
    let b = line + ws;
    assert forall|i: int| k <= i < b.len() implies is_ascii_whitespace_byte(#[trigger] b[i]) by {
        if i < line.len() {
            assert(b[i] == line[i]);
        } else {
            assert(b[i] == ws[i - line.len()]);
        }
    }
    if k > 0 {
        assert(b[k - 1] == line[k - 1]);
    }
    lemma_trailing_ascii_ws_unique(b, k);
    assert(trim_trailing_ascii_ws(b) =~= trim_trailing_ascii_ws(line));
}

} // verus!
