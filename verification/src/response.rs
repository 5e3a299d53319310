//! Response serialization for the dispatch loop.
//!
//! Each daemon message is one JSON object on its own line (JSONL). The client
//! reads lines until it receives an `exit` message.

use vstd::prelude::*;
use vstd::utf8::encode_utf8;

use crate::errors::{DispatchError, error_text, exit_status_spec};
use crate::json::{json_escape, json_escape_char, json_quoted, json_string_literal};
use crate::num::{format_i32, signed_decimal};

verus! {

/// Target stream for output messages.
#[derive(Debug, Clone, Copy, PartialEq, Eq, Structural)]
pub enum StreamTarget {
    /// Standard error stream.
    Stderr,
}

/// Response messages sent to clients.
#[derive(Debug)]
pub enum DaemonMessage {
    /// Streamed output data directed to a client stream.
    Stream {
        /// Target stream on the client side.
        stream: StreamTarget,
        /// Text payload to write.
        data: String,
    },
    /// Terminal message signalling completion with an exit status.
    Exit {
        /// Exit status code (0 for success, non-zero for failure).
        status: i32,
    },
}

/// The JSON object for a stderr stream message carrying `data`.
pub open spec fn stderr_json(data: Seq<char>) -> Seq<char> {
    "{\"kind\":\"stream\",\"stream\":\"stderr\",\"data\":"@ + json_quoted(data) + "}"@
}

/// The JSON object for an exit message.
pub open spec fn exit_json(status: i32) -> Seq<char> {
    "{\"kind\":\"exit\",\"status\":"@ + signed_decimal(status as int) + "}"@
}

/// The JSON object for a message: `{"kind":"stream","stream":"stderr","data":..}`
/// or `{"kind":"exit","status":..}`.
pub open spec fn message_json(m: DaemonMessage) -> Seq<char> {
    match m {
        DaemonMessage::Stream { stream, data } => stderr_json(data@),
        DaemonMessage::Exit { status } => exit_json(status),
    }
}

/// A message as one JSONL line.
pub open spec fn message_line(m: DaemonMessage) -> Seq<char> {
    message_json(m) + "\n"@
}

/// The stderr text written for an error: `error: <message>` and a newline.
pub open spec fn error_report(e: DispatchError) -> Seq<char> {
    "error: "@ + error_text(e) + "\n"@
}

/// A byte stream that responses are written to.
pub trait ResponseSink {
    /// Everything written to the sink so far.
    spec fn sent(&self) -> Seq<u8>;

    /// Whether writing to the sink cannot fail, as with an in-memory buffer.
    spec fn reliable(&self) -> bool;

    /// Appends bytes to the stream. A reliable sink always takes them.
    fn send(&mut self, bytes: &[u8]) -> (r: Result<(), DispatchError>)
        ensures
            r is Ok ==> final(self).sent() == old(self).sent() + bytes@,
            old(self).reliable() ==> r is Ok,
            final(self).reliable() == old(self).reliable(),
    ;

    /// Flushes buffered bytes; what was sent is unchanged. A reliable sink
    /// always succeeds.
    fn flush(&mut self) -> (r: Result<(), DispatchError>)
        ensures
            final(self).sent() == old(self).sent(),
            old(self).reliable() ==> r is Ok,
            final(self).reliable() == old(self).reliable(),
    ;
}

impl ResponseSink for Vec<u8> {
    open spec fn sent(&self) -> Seq<u8> {
        self@
    }

    open spec fn reliable(&self) -> bool {
        true
    }

    fn send(&mut self, bytes: &[u8]) -> (r: Result<(), DispatchError>) {
        let mut i: usize = 0;
        let ghost start = self@;
        while i < bytes.len()
            invariant
                i <= bytes@.len(),
                self@ == start + bytes@.subrange(0, i as int),
            decreases bytes.len() - i,
        {
            self.push(bytes[i]);
            i = i + 1;
            assert(self@ =~= start + bytes@.subrange(0, i as int));
        }
        assert(bytes@.subrange(0, bytes@.len() as int) =~= bytes@);
        Ok(())
    }

    fn flush(&mut self) -> (r: Result<(), DispatchError>) {
        Ok(())
    }
}

impl<'a, S: ResponseSink> ResponseSink for &'a mut S {
    open spec fn sent(&self) -> Seq<u8> {
        (**self).sent()
    }

    open spec fn reliable(&self) -> bool {
        (**self).reliable()
    }

    fn send(&mut self, bytes: &[u8]) -> (r: Result<(), DispatchError>) {
        (**self).send(bytes)
    }

    fn flush(&mut self) -> (r: Result<(), DispatchError>) {
        (**self).flush()
    }
}

impl DaemonMessage {
    /// Creates a stderr stream message.
    pub fn stderr(data: &str) -> (m: Self)
        ensures
            m matches DaemonMessage::Stream { stream, data: d } && stream == StreamTarget::Stderr
                && d@ == data@,
    {
        DaemonMessage::Stream { stream: StreamTarget::Stderr, data: data.to_owned() }
    }

    /// Creates an exit message with the given status code.
    pub fn exit(status: i32) -> (m: Self)
        ensures
            m == (DaemonMessage::Exit { status }),
    {
        DaemonMessage::Exit { status }
    }

    /// The message as one JSONL line, or the serializer's error message.
    pub fn to_json_line(&self) -> (line: String)
        ensures
            line@ == message_line(*self),
    {
        match self {
            DaemonMessage::Stream { stream: _, data } => {
                let quoted = json_string_literal(data.as_str());
                let mut line = String::from_str(
                    "{\"kind\":\"stream\",\"stream\":\"stderr\",\"data\":",
                );
                line.append(quoted.as_str());
                line.append("}");
                line.append("\n");
                line
            },
            DaemonMessage::Exit { status } => {
                let digits = format_i32(*status);
                let mut line = String::from_str("{\"kind\":\"exit\",\"status\":");
                line.append(digits.as_str());
                line.append("}");
                line.append("\n");
                line
            },
        }
    }
}

/// Writer that serializes daemon messages to a stream.
pub struct ResponseWriter<W> {
    writer: W,
}

impl<W: ResponseSink> ResponseWriter<W> {
    /// Everything written through this writer's stream so far.
    pub closed spec fn sent(&self) -> Seq<u8> {
        self.writer.sent()
    }

    /// Whether the wrapped stream cannot fail.
    pub closed spec fn reliable(&self) -> bool {
        self.writer.reliable()
    }

    /// Creates a new response writer wrapping the given output stream.
    pub fn new(writer: W) -> (w: Self)
        ensures
            w.sent() == writer.sent(),
            w.reliable() == writer.reliable(),
    {
        ResponseWriter { writer }
    }

    /// Returns the wrapped stream.
    pub fn into_inner(self) -> (w: W)
        ensures
            w.sent() == self.sent(),
            w.reliable() == self.reliable(),
    {
        self.writer
    }

    /// Writes a daemon message as a JSONL line.
    pub fn write_message(&mut self, message: &DaemonMessage) -> (r: Result<(), DispatchError>)
        ensures
            r is Ok ==> final(self).sent() == old(self).sent() + encode_utf8(
                message_line(*message),
            ),
            old(self).reliable() ==> r is Ok,
            final(self).reliable() == old(self).reliable(),
    {
        let line = message.to_json_line();
        self.writer.send(line.as_str().as_bytes())
    }

    /// Writes a stream message to stderr.
    pub fn write_stderr(&mut self, data: &str) -> (r: Result<(), DispatchError>)
        ensures
            r is Ok ==> final(self).sent() == old(self).sent() + encode_utf8(
                stderr_json(data@) + "\n"@,
            ),
            old(self).reliable() ==> r is Ok,
            final(self).reliable() == old(self).reliable(),
    {
        let message = DaemonMessage::stderr(data);
        self.write_message(&message)
    }

    /// Writes an exit message and flushes the stream.
    pub fn write_exit(&mut self, status: i32) -> (r: Result<(), DispatchError>)
        ensures
            r is Ok ==> final(self).sent() == old(self).sent() + encode_utf8(
                exit_json(status) + "\n"@,
            ),
            old(self).reliable() ==> r is Ok,
            final(self).reliable() == old(self).reliable(),
    {
        self.write_message(&DaemonMessage::exit(status))?;
        self.writer.flush()
    }

    /// Writes an error's message to stderr followed by an exit message with
    /// the error's status code.
    pub fn write_error(&mut self, error: &DispatchError) -> (r: Result<(), DispatchError>)
        ensures
            r is Ok ==> final(self).sent() == old(self).sent() + encode_utf8(
                stderr_json(error_report(*error)) + "\n"@,
            ) + encode_utf8(exit_json(exit_status_spec(*error)) + "\n"@),
            old(self).reliable() ==> r is Ok,
            final(self).reliable() == old(self).reliable(),
    {
        let text = error.to_message();
        let mut report = String::from_str("error: ");
        report.append(text.as_str());
        report.append("\n");
        self.write_stderr(report.as_str())?;
        self.write_exit(error.exit_status())
    }
}

/// Text without a line feed.
pub open spec fn no_newline(s: Seq<char>) -> bool {
    forall|i: int| 0 <= i < s.len() ==> s[i] != '\n'
}

proof fn lemma_no_newline_concat(a: Seq<char>, b: Seq<char>)
    requires
        no_newline(a),
        no_newline(b),
    ensures
        no_newline(a + b),
{
    assert forall|i: int| 0 <= i < (a + b).len() implies (a + b)[i] != '\n' by {
        if i < a.len() {
            assert((a + b)[i] == a[i]);
        } else {
            assert((a + b)[i] == b[i - a.len()]);
        }
    }
}

/// Escaped JSON text never holds a raw line feed.
proof fn lemma_escape_no_newline(s: Seq<char>)
    ensures
        no_newline(json_escape(s)),
    decreases s.len(),
{
    if s.len() > 0 {
        lemma_escape_no_newline(s.drop_last());
        let c = s.last();
        let e = json_escape_char(c);
        assert(no_newline(e)) by {
            let u = c as u32;
            if u < 0x20 && c != '"' && c != '\\' && u != 0x08 && u != 0x09 && u != 0x0A && u
                != 0x0C && u != 0x0D {
                assert(u / 16 < 2);
                assert(u % 16 < 16);
            }
        }
        lemma_no_newline_concat(json_escape(s.drop_last()), e);
    }
}

/// Decimal text never holds a line feed.
proof fn lemma_decimal_no_newline(n: int)
    ensures
        no_newline(signed_decimal(n)),
{
    if n < 0 {
        crate::num::lemma_decimal_digits_value((-n) as nat);
        let d = crate::num::decimal_digits((-n) as nat);
        assert forall|i: int| 0 <= i < d.len() implies d[i] != '\n' by {
            assert(crate::num::is_digit(d[i]));
        }
        lemma_no_newline_concat(seq!['-'], d);
    } else {
        crate::num::lemma_decimal_digits_value(n as nat);
        let d = crate::num::decimal_digits(n as nat);
        assert forall|i: int| 0 <= i < d.len() implies d[i] != '\n' by {
            assert(crate::num::is_digit(d[i]));
        }
    }
}

/// Every daemon message is written as exactly one line: its text ends with a
/// line feed and holds no other.
pub proof fn lemma_message_is_one_line(m: DaemonMessage)
    ensures
        message_line(m).len() > 0,
        message_line(m).last() == '\n',
        no_newline(message_json(m)),
        message_line(m) == message_json(m) + "\n"@,
{
    reveal_strlit("\n");
    reveal_strlit("{\"kind\":\"stream\",\"stream\":\"stderr\",\"data\":");
    reveal_strlit("{\"kind\":\"exit\",\"status\":");
    reveal_strlit("}");
    match m {
        DaemonMessage::Stream { stream, data } => {
            lemma_escape_no_newline(data@);
            let head = "{\"kind\":\"stream\",\"stream\":\"stderr\",\"data\":"@;
            assert(no_newline(head));
            assert(no_newline(seq!['"']));
            lemma_no_newline_concat(seq!['"'], json_escape(data@));
            lemma_no_newline_concat(seq!['"'] + json_escape(data@), seq!['"']);
            lemma_no_newline_concat(head, json_quoted(data@));
            assert(no_newline("}"@));
            lemma_no_newline_concat(head + json_quoted(data@), "}"@);
        },
        DaemonMessage::Exit { status } => {
            lemma_decimal_no_newline(status as int);
            let head = "{\"kind\":\"exit\",\"status\":"@;
            assert(no_newline(head));
            lemma_no_newline_concat(head, signed_decimal(status as int));
            assert(no_newline("}"@));
            lemma_no_newline_concat(head + signed_decimal(status as int), "}"@);
        },
    }
}

} // verus!
