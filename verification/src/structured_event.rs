//! Structured event payloads for dispatch logging.
//!
//! The dispatch handler describes notable states (a request being
//! dispatched, a rejected request, a failed dispatch) as structured events.
//! Request bodies, patches, source text, environment snapshots and full
//! payloads are never copied into an event's payload: a present value is
//! replaced by a fixed redaction marker.

use vstd::prelude::*;

use crate::errors::DispatchError;
use crate::json::{JsonValue, json_quoted, json_string_literal};
use crate::num::{decimal_digits, format_usize};

verus! {

/// Name of the health snapshot file inside the runtime directory.
pub open spec fn health_snapshot_name() -> Seq<char> {
    "weaverd.health"@
}

/// Metadata fields attached to a structured dispatch event.
#[derive(Debug)]
pub struct StructuredEventMetadata {
    pub domain: Option<String>,
    pub operation: Option<String>,
    pub size: Option<usize>,
    pub max_size: Option<usize>,
}

/// Structured event payload assembled by the dispatch handler.
#[derive(Debug)]
pub struct StructuredDispatchEvent {
    pub event: &'static str,
    pub endpoint: String,
    pub runtime_dir: String,
    pub metadata: StructuredEventMetadata,
    pub patch: Option<String>,
    pub body: Option<String>,
    pub source: Option<String>,
    pub env: Option<String>,
    pub full_payload: Option<String>,
}

/// What a structured event holds, as text. Sensitive fields appear only by
/// whether they are present.
pub struct EventModel {
    pub event: Seq<char>,
    pub endpoint: Seq<char>,
    pub runtime_dir: Seq<char>,
    pub domain: Option<Seq<char>>,
    pub operation: Option<Seq<char>>,
    pub size: Option<usize>,
    pub max_size: Option<usize>,
    pub has_patch: bool,
    pub has_body: bool,
    pub has_source: bool,
    pub has_env: bool,
    pub has_full_payload: bool,
}

impl View for StructuredDispatchEvent {
    type V = EventModel;

    open spec fn view(&self) -> EventModel {
        EventModel {
            event: self.event@,
            endpoint: self.endpoint@,
            runtime_dir: self.runtime_dir@,
            domain: opt_view(self.metadata.domain),
            operation: opt_view(self.metadata.operation),
            size: self.metadata.size,
            max_size: self.metadata.max_size,
            has_patch: self.patch is Some,
            has_body: self.body is Some,
            has_source: self.source is Some,
            has_env: self.env is Some,
            has_full_payload: self.full_payload is Some,
        }
    }
}

/// The model of an event without sensitive fields.
pub open spec fn plain_event(
    event: Seq<char>,
    endpoint: Seq<char>,
    runtime_dir: Seq<char>,
    domain: Option<Seq<char>>,
    operation: Option<Seq<char>>,
    size: Option<usize>,
    max_size: Option<usize>,
) -> EventModel {
    EventModel {
        event,
        endpoint,
        runtime_dir,
        domain,
        operation,
        size,
        max_size,
        has_patch: false,
        has_body: false,
        has_source: false,
        has_env: false,
        has_full_payload: false,
    }
}

pub open spec fn opt_view(o: Option<String>) -> Option<Seq<char>> {
    match o {
        Some(s) => Some(s@),
        None => None,
    }
}

/// A payload field value: text or a count.
pub enum FieldValue {
    Text(Seq<char>),
    Count(nat),
}

/// `Path::join` of a file name onto a directory (Unix separators).
pub open spec fn path_join(dir: Seq<char>, name: Seq<char>) -> Seq<char> {
    if dir.len() == 0 || dir.last() == '/' {
        dir + name
    } else {
        dir + "/"@ + name
    }
}

pub open spec fn push_text(
    fields: Seq<(Seq<char>, FieldValue)>,
    key: Seq<char>,
    value: Option<Seq<char>>,
) -> Seq<(Seq<char>, FieldValue)> {
    match value {
        Some(t) => fields.push((key, FieldValue::Text(t))),
        None => fields,
    }
}

pub open spec fn push_count(
    fields: Seq<(Seq<char>, FieldValue)>,
    key: Seq<char>,
    value: Option<usize>,
) -> Seq<(Seq<char>, FieldValue)> {
    match value {
        Some(n) => fields.push((key, FieldValue::Count(n as nat))),
        None => fields,
    }
}

/// The redaction marker for a present sensitive value.
pub open spec fn redacted(present: bool) -> Option<Seq<char>> {
    if present {
        Some("<redacted>"@)
    } else {
        None
    }
}

/// The payload fields of an event, in the key order of a JSON object map
/// (byte-wise by key).
pub open spec fn event_fields(e: EventModel) -> Seq<(Seq<char>, FieldValue)> {
    let f0 = Seq::<(Seq<char>, FieldValue)>::empty();
    let f1 = push_text(f0, "body"@, redacted(e.has_body));
    let f2 = push_text(f1, "domain"@, e.domain);
    let f3 = f2.push(("endpoint"@, FieldValue::Text(e.endpoint)));
    let f4 = push_text(f3, "env"@, redacted(e.has_env));
    let f5 = f4.push(("event"@, FieldValue::Text(e.event)));
    let f6 = push_text(f5, "fullPayload"@, redacted(e.has_full_payload));
    let f7 = push_count(f6, "max_size"@, e.max_size);
    let f8 = push_text(f7, "operation"@, e.operation);
    let f9 = push_text(f8, "patch"@, redacted(e.has_patch));
    let f10 = f9.push(("runtime_dir"@, FieldValue::Text(e.runtime_dir)));
    let f11 = push_count(f10, "size"@, e.size);
    let f12 = push_text(f11, "source"@, redacted(e.has_source));
    f12.push(
        (
            "weaverd.health"@,
            FieldValue::Text(path_join(e.runtime_dir, health_snapshot_name())),
        ),
    )
}

/// One `"key":value` member of the payload text.
pub open spec fn field_text(field: (Seq<char>, FieldValue)) -> Seq<char> {
    json_quoted(field.0) + ":"@ + match field.1 {
        FieldValue::Text(t) => json_quoted(t),
        FieldValue::Count(n) => decimal_digits(n),
    }
}

/// Members joined by commas.
pub open spec fn fields_text(fields: Seq<(Seq<char>, FieldValue)>) -> Seq<char>
    decreases fields.len(),
{
    if fields.len() == 0 {
        Seq::empty()
    } else if fields.len() == 1 {
        field_text(fields[0])
    } else {
        fields_text(fields.drop_last()) + ","@ + field_text(fields.last())
    }
}

/// The payload as compact JSON text.
pub open spec fn event_text(e: EventModel) -> Seq<char> {
    "{"@ + fields_text(event_fields(e)) + "}"@
}

/// Whether a JSON value carries exactly a field's value.
pub open spec fn json_holds(v: JsonValue, f: FieldValue) -> bool {
    match f {
        FieldValue::Text(t) => v matches JsonValue::Str(s) && s@ == t,
        FieldValue::Count(n) => v matches JsonValue::Number(d) && d@ == decimal_digits(n),
    }
}

/// Exec form of a payload field value.
enum FieldEntry {
    Text(String),
    Count(usize),
}

impl FieldEntry {
    spec fn spec_value(&self) -> FieldValue {
        match self {
            FieldEntry::Text(s) => FieldValue::Text(s@),
            FieldEntry::Count(n) => FieldValue::Count(*n as nat),
        }
    }
}

spec fn entries_view(v: Seq<(String, FieldEntry)>) -> Seq<(Seq<char>, FieldValue)> {
    v.map_values(|p: (String, FieldEntry)| (p.0@, p.1.spec_value()))
}

fn add_text(
    fields: &mut Vec<(String, FieldEntry)>,
    key: &str,
    value: &Option<String>,
    hide: bool,
)
    ensures
        entries_view(final(fields)@) == push_text(
            entries_view(old(fields)@),
            key@,
            if hide {
                redacted(value is Some)
            } else {
                opt_view(*value)
            },
        ),
{
    match value {
        Some(v) => {
            let text = if hide {
                String::from_str("<redacted>")
            } else {
                v.clone()
            };
            fields.push((key.to_owned(), FieldEntry::Text(text)));
            assert(entries_view(fields@) =~= entries_view(old(fields)@).push(
                (key@, FieldValue::Text(text@)),
            ));
        },
        None => {},
    }
}

fn add_count(fields: &mut Vec<(String, FieldEntry)>, key: &str, value: Option<usize>)
    ensures
        entries_view(final(fields)@) == push_count(entries_view(old(fields)@), key@, value),
{
    match value {
        Some(n) => {
            fields.push((key.to_owned(), FieldEntry::Count(n)));
            assert(entries_view(fields@) =~= entries_view(old(fields)@).push(
                (key@, FieldValue::Count(n as nat)),
            ));
        },
        None => {},
    }
}

fn add_fixed(fields: &mut Vec<(String, FieldEntry)>, key: &str, value: String)
    ensures
        entries_view(final(fields)@) == entries_view(old(fields)@).push(
            (key@, FieldValue::Text(value@)),
        ),
{
    fields.push((key.to_owned(), FieldEntry::Text(value)));
    assert(entries_view(fields@) =~= entries_view(old(fields)@).push(
        (key@, FieldValue::Text(value@)),
    ));
}

/// `Path::join` of a file name onto a directory (Unix separators).
pub fn join_path(dir: &str, name: &str) -> (r: String)
    ensures
        r@ == path_join(dir@, name@),
{
    let n = dir.unicode_len();
    let mut r = dir.to_owned();
    if n == 0 || dir.get_char(n - 1) == '/' {
        r.append(name);
    } else {
        r.append("/");
        r.append(name);
    }
    r
}

impl StructuredEventMetadata {
    /// Metadata without any field.
    pub fn none() -> (m: Self)
        ensures
            m.domain is None && m.operation is None && m.size is None && m.max_size is None,
    {
        StructuredEventMetadata { domain: None, operation: None, size: None, max_size: None }
    }

    /// Metadata naming a domain and an operation.
    pub fn new(domain: &str, operation: &str) -> (m: Self)
        ensures
            opt_view(m.domain) == Some(domain@),
            opt_view(m.operation) == Some(operation@),
            m.size is None && m.max_size is None,
    {
        StructuredEventMetadata {
            domain: Some(domain.to_owned()),
            operation: Some(operation.to_owned()),
            size: None,
            max_size: None,
        }
    }

    /// Adds the request size.
    pub fn with_size(self, size: usize) -> (m: Self)
        ensures
            m.size == Some(size),
            m.domain == self.domain && m.operation == self.operation && m.max_size
                == self.max_size,
    {
        StructuredEventMetadata { size: Some(size), ..self }
    }

    /// Adds the size limit.
    pub fn with_max_size(self, max_size: usize) -> (m: Self)
        ensures
            m.max_size == Some(max_size),
            m.domain == self.domain && m.operation == self.operation && m.size == self.size,
    {
        StructuredEventMetadata { max_size: Some(max_size), ..self }
    }
}

impl StructuredDispatchEvent {
    /// An event without sensitive fields.
    pub fn new(
        event: &'static str,
        endpoint: &str,
        runtime_dir: &str,
        metadata: StructuredEventMetadata,
    ) -> (e: Self)
        ensures
            e.event == event,
            e.endpoint@ == endpoint@,
            e.runtime_dir@ == runtime_dir@,
            e.metadata == metadata,
            e.patch is None && e.body is None && e.source is None && e.env is None
                && e.full_payload is None,
    {
        StructuredDispatchEvent {
            event,
            endpoint: endpoint.to_owned(),
            runtime_dir: runtime_dir.to_owned(),
            metadata,
            patch: None,
            body: None,
            source: None,
            env: None,
            full_payload: None,
        }
    }

    fn field_entries(&self) -> (v: Vec<(String, FieldEntry)>)
        ensures
            entries_view(v@) == event_fields(self@),
    {
        let mut v: Vec<(String, FieldEntry)> = Vec::new();
        assert(entries_view(v@) =~= Seq::<(Seq<char>, FieldValue)>::empty());
        add_text(&mut v, "body", &self.body, true);
        add_text(&mut v, "domain", &self.metadata.domain, false);
        add_fixed(&mut v, "endpoint", self.endpoint.clone());
        add_text(&mut v, "env", &self.env, true);
        add_fixed(&mut v, "event", self.event.to_owned());
        add_text(&mut v, "fullPayload", &self.full_payload, true);
        add_count(&mut v, "max_size", self.metadata.max_size);
        add_text(&mut v, "operation", &self.metadata.operation, false);
        add_text(&mut v, "patch", &self.patch, true);
        add_fixed(&mut v, "runtime_dir", self.runtime_dir.clone());
        add_count(&mut v, "size", self.metadata.size);
        add_text(&mut v, "source", &self.source, true);
        let health = join_path(self.runtime_dir.as_str(), "weaverd.health");
        add_fixed(&mut v, "weaverd.health", health);
        v
    }
}

/// The event reported for a read failure.
pub open spec fn read_error_model(error: DispatchError, endpoint: Seq<char>, runtime_dir: Seq<char>) -> EventModel {
    match error {
        DispatchError::RequestTooLarge { size, max_size } => plain_event(
            "request_too_large"@,
            endpoint,
            runtime_dir,
            None,
            None,
            Some(size),
            Some(max_size),
        ),
        _ => plain_event("request_rejected"@, endpoint, runtime_dir, None, None, None, None),
    }
}

/// Maps a read failure to the structured event the handler reports.
pub fn read_error_event(error: &DispatchError, endpoint: &str, runtime_dir: &str) -> (e:
    StructuredDispatchEvent)
    ensures
        e@ == read_error_model(*error, endpoint@, runtime_dir@),
{
    match error {
        DispatchError::RequestTooLarge { size, max_size } => StructuredDispatchEvent::new(
            "request_too_large",
            endpoint,
            runtime_dir,
            StructuredEventMetadata::none().with_size(*size).with_max_size(*max_size),
        ),
        _ => StructuredDispatchEvent::new(
            "request_rejected",
            endpoint,
            runtime_dir,
            StructuredEventMetadata::none(),
        ),
    }
}

/// Serializes a structured event into a JSON object with sensitive fields
/// redacted.
pub fn serialize_structured_event(event: &StructuredDispatchEvent) -> (v: JsonValue)
    ensures
        v matches JsonValue::Object(members) && members@.len() == event_fields(event@).len()
            && forall|i: int|
            0 <= i < members@.len() ==> (#[trigger] members@[i]).0@ == event_fields(event@)[i].0
                && json_holds(members@[i].1, event_fields(event@)[i].1),
{
    let entries = event.field_entries();
    let mut members: Vec<(String, JsonValue)> = Vec::new();
    let mut i: usize = 0;
    while i < entries.len()
        invariant
            i <= entries.len(),
            entries_view(entries@) == event_fields(event@),
            members@.len() == i,
            forall|j: int|
                0 <= j < i ==> (#[trigger] members@[j]).0@ == event_fields(event@)[j].0
                    && json_holds(members@[j].1, event_fields(event@)[j].1),
        decreases entries.len() - i,
    {
        let key = entries[i].0.clone();
        let value = match &entries[i].1 {
            FieldEntry::Text(t) => JsonValue::Str(t.clone()),
            FieldEntry::Count(n) => JsonValue::Number(format_usize(*n)),
        };
        assert(entries_view(entries@)[i as int] == (entries@[i as int].0@, entries@[
            i as int
        ].1.spec_value()));
        members.push((key, value));
        i = i + 1;
    }
    JsonValue::Object(members)
}

/// The event payload as compact JSON text.
pub fn format_structured_event(event: &StructuredDispatchEvent) -> (s: String)
    ensures
        s@ == event_text(event@),
{
    let entries = event.field_entries();
    let ghost fields = event_fields(event@);
    let mut s = String::from_str("{");
    let mut i: usize = 0;
    while i < entries.len()
        invariant
            i <= entries.len(),
            entries_view(entries@) == fields,
            fields == event_fields(event@),
            s@ == "{"@ + fields_text(fields.subrange(0, i as int)),
        decreases entries.len() - i,
    {
        assert(fields[i as int] == (entries@[i as int].0@, entries@[i as int].1.spec_value()));
        let ghost before = s@;
        if i > 0 {
            s.append(",");
        }
        let key = json_string_literal(entries[i].0.as_str());
        s.append(key.as_str());
        s.append(":");
        match &entries[i].1 {
            FieldEntry::Text(t) => {
                let q = json_string_literal(t.as_str());
                s.append(q.as_str());
            },
            FieldEntry::Count(n) => {
                let d = format_usize(*n);
                s.append(d.as_str());
            },
        }
        proof {
            let pre = fields.subrange(0, i as int);
            let post = fields.subrange(0, i + 1);
            assert(post.drop_last() =~= pre);
            assert(post.last() == fields[i as int]);
            if i == 0 {
                assert(pre.len() == 0);
                assert(fields_text(post) == field_text(post[0]));
            }
        }
        i = i + 1;
    }
    assert(fields.subrange(0, entries.len() as int) =~= fields);
    s.append("}");
    s
}

/// Redaction depends only on which sensitive values are present, never on
/// what they hold: the payload text is a function of the event's view, and
/// the view keeps of each sensitive field only whether it is present.
pub proof fn lemma_redaction_hides_sensitive_values(
    a: StructuredDispatchEvent,
    b: StructuredDispatchEvent,
)
    requires
        a.event@ == b.event@,
        a.endpoint@ == b.endpoint@,
        a.runtime_dir@ == b.runtime_dir@,
        opt_view(a.metadata.domain) == opt_view(b.metadata.domain),
        opt_view(a.metadata.operation) == opt_view(b.metadata.operation),
        a.metadata.size == b.metadata.size,
        a.metadata.max_size == b.metadata.max_size,
        a.patch is Some == b.patch is Some,
        a.body is Some == b.body is Some,
        a.source is Some == b.source is Some,
        a.env is Some == b.env is Some,
        a.full_payload is Some == b.full_payload is Some,
    ensures
        event_text(a@) == event_text(b@),
{
    assert(a@ == b@);
}

} // verus!
