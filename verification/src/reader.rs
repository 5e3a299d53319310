//! Bounded request-line reading used by the dispatch handler.
//!
//! A request is one line of at most [`MAX_REQUEST_BYTES`] bytes, newline
//! included. The reader stops at the first newline; a line cut short by the
//! end of the stream is still returned, and a stream that ends before any
//! byte arrives yields no request.

use vstd::prelude::*;

use crate::errors::DispatchError;

verus! {

/// Maximum size of a single request line in bytes (1 MiB, to accommodate
/// apply-patch payloads).
pub const MAX_REQUEST_BYTES: usize = 1048576;

/// Bytes read per call on the underlying stream.
pub const READ_CHUNK_BYTES: usize = 1024;

/// A stream that request bytes are read from.
pub trait ChunkSource {
    /// The bytes the stream will still deliver before it ends.
    spec fn pending(&self) -> Seq<u8>;

    /// Whether reading from the stream cannot fail, as with bytes in memory.
    spec fn reliable(&self) -> bool;

    /// Reads at most `max` bytes (retrying on interrupts). An empty result
    /// means the stream has ended. A reliable stream always reads.
    fn read_chunk(&mut self, max: usize) -> (r: Result<Vec<u8>, DispatchError>)
        requires
            max > 0,
        ensures
            old(self).reliable() ==> r is Ok,
            final(self).reliable() == old(self).reliable(),
            r matches Ok(bytes) ==> {
                &&& bytes@.len() <= max
                &&& bytes@.len() <= old(self).pending().len()
                &&& bytes@ == old(self).pending().subrange(0, bytes@.len() as int)
                &&& final(self).pending() == old(self).pending().subrange(
                    bytes@.len() as int,
                    old(self).pending().len() as int,
                )
                &&& (bytes@.len() == 0 <==> old(self).pending().len() == 0)
            },
            r matches Err(e) ==> e is Io,
    ;
}

/// An in-memory byte stream.
pub struct ByteStream {
    bytes: Vec<u8>,
    position: usize,
}

impl ByteStream {
    pub closed spec fn remaining(&self) -> Seq<u8> {
        if self.position <= self.bytes@.len() {
            self.bytes@.subrange(self.position as int, self.bytes@.len() as int)
        } else {
            Seq::empty()
        }
    }

    pub closed spec fn well_formed(&self) -> bool {
        self.position <= self.bytes@.len()
    }

    /// A stream that delivers `bytes` and then ends.
    pub fn new(bytes: Vec<u8>) -> (s: Self)
        ensures
            s.remaining() == bytes@,
            s.well_formed(),
    {
        let s = ByteStream { bytes, position: 0 };
        assert(s.bytes@.subrange(0, s.bytes@.len() as int) =~= s.bytes@);
        s
    }
}

impl ChunkSource for ByteStream {
    open spec fn pending(&self) -> Seq<u8> {
        self.remaining()
    }

    open spec fn reliable(&self) -> bool {
        true
    }

    fn read_chunk(&mut self, max: usize) -> (r: Result<Vec<u8>, DispatchError>) {
        let mut out: Vec<u8> = Vec::new();
        if self.position > self.bytes.len() {
            self.position = self.bytes.len();
        }
        let ghost start = self.remaining();
        let ghost p0 = self.position;
        while out.len() < max && self.position < self.bytes.len()
            invariant
                p0 <= self.position <= self.bytes@.len(),
                out@.len() == self.position - p0,
                out@.len() <= max,
                start == self.bytes@.subrange(p0 as int, self.bytes@.len() as int),
                out@ == start.subrange(0, out@.len() as int),
            decreases self.bytes@.len() - self.position,
        {
            out.push(self.bytes[self.position]);
            self.position = self.position + 1;
        }
        assert(self.remaining() =~= start.subrange(out@.len() as int, start.len() as int));
        Ok(out)
    }
}

/// The request line in `pending`: everything up to and including the first
/// newline, or all of it when there is no newline.
pub open spec fn line_end(pending: Seq<u8>) -> int
    decreases pending.len(),
{
    if pending.len() == 0 {
        0
    } else if pending[0] == 0x0Au8 {
        1
    } else {
        1 + line_end(pending.drop_first())
    }
}

pub open spec fn request_line(pending: Seq<u8>) -> Seq<u8> {
    pending.subrange(0, line_end(pending))
}

pub proof fn lemma_line_end(p: Seq<u8>)
    ensures
        0 <= line_end(p) <= p.len(),
        p.len() > 0 ==> line_end(p) > 0,
        forall|i: int| 0 <= i < line_end(p) - 1 ==> p[i] != 0x0Au8,
        line_end(p) < p.len() ==> p[line_end(p) - 1] == 0x0Au8,
        line_end(p) == p.len() && p.len() > 0 && p[p.len() - 1] != 0x0Au8 ==> forall|i: int|
            0 <= i < p.len() ==> p[i] != 0x0Au8,
    decreases p.len(),
{
    if p.len() > 0 && p[0] != 0x0Au8 {
        lemma_line_end(p.drop_first());
        assert forall|i: int| 0 <= i < line_end(p) - 1 implies p[i] != 0x0Au8 by {
            if i > 0 {
                assert(p[i] == p.drop_first()[i - 1]);
            }
        }
        if line_end(p) < p.len() {
            assert(p[line_end(p) - 1] == p.drop_first()[line_end(p) - 2]);
        }
        if line_end(p) == p.len() && p[p.len() - 1] != 0x0Au8 {
            assert forall|i: int| 0 <= i < p.len() implies p[i] != 0x0Au8 by {
                if i > 0 {
                    assert(p[i] == p.drop_first()[i - 1]);
                    if i < p.len() - 1 {
                    } else {
                    }
                }
            }
        }
    }
}

/// Whether the first newline of `p`, if any, lies within its first `n` bytes,
/// and where the line ends then.
proof fn lemma_line_end_prefix(p: Seq<u8>, n: int)
    requires
        0 <= n <= p.len(),
        forall|i: int| 0 <= i < n ==> p[i] != 0x0Au8,
    ensures
        line_end(p) >= n,
        line_end(p) == n + line_end(p.subrange(n, p.len() as int)),
    decreases n,
{
    if n > 0 {
        assert(p[0] != 0x0Au8);
        assert forall|i: int| 0 <= i < n - 1 implies p.drop_first()[i] != 0x0Au8 by {
            assert(p.drop_first()[i] == p[i + 1]);
        }
        lemma_line_end_prefix(p.drop_first(), n - 1);
        assert(p.drop_first().subrange(n - 1, p.drop_first().len() as int) =~= p.subrange(
            n,
            p.len() as int,
        ));
    } else {
        lemma_line_end(p);
        assert(p.subrange(0, p.len() as int) =~= p);
    }
}

/// The line of a prefix ends where the line of the whole does, unless the
/// prefix is cut before it.
pub proof fn lemma_line_end_of_prefix(q: Seq<u8>, n: int)
    requires
        0 <= n <= q.len(),
    ensures
        line_end(q) <= n ==> line_end(q.subrange(0, n)) == line_end(q),
        line_end(q) > n ==> line_end(q.subrange(0, n)) == n,
    decreases n,
{
    lemma_line_end(q);
    if n > 0 {
        let pre = q.subrange(0, n);
        assert(pre[0] == q[0]);
        if q[0] != 0x0Au8 {
            assert(pre.drop_first() =~= q.drop_first().subrange(0, n - 1));
            lemma_line_end_of_prefix(q.drop_first(), n - 1);
        }
    }
}

/// Enforces the maximum request size limit.
pub fn enforce_limit(size: usize) -> (r: Result<(), DispatchError>)
    ensures
        size <= MAX_REQUEST_BYTES ==> r is Ok,
        size > MAX_REQUEST_BYTES ==> r == Err::<(), DispatchError>(
            DispatchError::RequestTooLarge { size, max_size: MAX_REQUEST_BYTES },
        ),
{
    if size > MAX_REQUEST_BYTES {
        return Err(DispatchError::request_too_large(size, MAX_REQUEST_BYTES));
    }
    Ok(())
}

/// Index of the first newline in `chunk`, if any.
fn newline_position(chunk: &[u8]) -> (r: Option<usize>)
    ensures
        match r {
            Some(k) => k < chunk@.len() && chunk@[k as int] == 0x0Au8 && forall|i: int|
                0 <= i < k ==> chunk@[i] != 0x0Au8,
            None => forall|i: int| 0 <= i < chunk@.len() ==> chunk@[i] != 0x0Au8,
        },
{
    let mut i: usize = 0;
    while i < chunk.len()
        invariant
            i <= chunk@.len(),
            forall|j: int| 0 <= j < i ==> chunk@[j] != 0x0Au8,
        decreases chunk.len() - i,
    {
        if chunk[i] == 0x0A {
            return Some(i);
        }
        i = i + 1;
    }
    None
}

/// Appends a chunk to the request buffer, stopping after its first newline.
///
/// Returns whether the line is complete, or `RequestTooLarge` once the buffer
/// exceeds the limit.
pub fn append_request_chunk(buffer: &mut Vec<u8>, chunk: &[u8]) -> (r: Result<bool, DispatchError>)
    ensures
        ({
            let taken = line_end(chunk@);
            let complete = taken > 0 && chunk@[taken - 1] == 0x0Au8;
            &&& final(buffer)@ == old(buffer)@ + chunk@.subrange(0, taken)
            &&& final(buffer)@.len() <= MAX_REQUEST_BYTES ==> r == Ok::<bool, DispatchError>(complete)
            &&& final(buffer)@.len() > MAX_REQUEST_BYTES ==> r == Err::<bool, DispatchError>(
                DispatchError::RequestTooLarge {
                    size: final(buffer)@.len() as usize,
                    max_size: MAX_REQUEST_BYTES,
                },
            )
        }),
{
    proof {
        lemma_line_end(chunk@);
    }
    let pos = newline_position(chunk);
    match pos {
        None => {
            proof {
                lemma_line_end_prefix(chunk@, chunk@.len() as int);
                assert(chunk@.subrange(chunk@.len() as int, chunk@.len() as int).len() == 0);
                assert(chunk@.subrange(0, chunk@.len() as int) =~= chunk@);
            }
            let mut i: usize = 0;
            let ghost b0 = buffer@;
            while i < chunk.len()
                invariant
                    i <= chunk@.len(),
                    buffer@ == b0 + chunk@.subrange(0, i as int),
                decreases chunk.len() - i,
            {
                buffer.push(chunk[i]);
                i = i + 1;
                assert(buffer@ =~= b0 + chunk@.subrange(0, i as int));
            }
            enforce_limit(buffer.len())?;
            Ok(false)
        },
        Some(k) => {
            proof {
                lemma_line_end_prefix(chunk@, k as int);
                let rest = chunk@.subrange(k as int, chunk@.len() as int);
                assert(rest[0] == 0x0Au8);
                assert(line_end(rest) == 1);
            }
            let mut i: usize = 0;
            let ghost b0 = buffer@;
            while i <= k
                invariant
                    i <= k + 1,
                    k < chunk@.len(),
                    buffer@ == b0 + chunk@.subrange(0, i as int),
                decreases k + 1 - i,
            {
                buffer.push(chunk[i]);
                i = i + 1;
                assert(buffer@ =~= b0 + chunk@.subrange(0, i as int));
            }
            enforce_limit(buffer.len())?;
            Ok(true)
        },
    }
}

/// Returns the buffered line, or nothing when no byte arrived.
pub fn finish_request_line(buffer: Vec<u8>) -> (r: Option<Vec<u8>>)
    ensures
        buffer@.len() == 0 ==> r is None,
        buffer@.len() > 0 ==> r == Some(buffer),
{
    if buffer.len() == 0 {
        None
    } else {
        Some(buffer)
    }
}

/// The message logged when reading a request fails.
pub fn read_error_message(error: &DispatchError) -> (r: &'static str)
    ensures
        error is RequestTooLarge ==> r@ == "request rejected: size exceeded"@,
        !(error is RequestTooLarge) ==> r@ == "failed to read request"@,
{
    match error {
        DispatchError::RequestTooLarge { .. } => "request rejected: size exceeded",
        _ => "failed to read request",
    }
}

} // verus!

verus! {

/// Reads a bounded JSONL request line from the stream.
///
/// Returns `Ok(None)` if the stream ends without any byte, `Ok(Some(line))`
/// when a complete line (or the bytes before the end of the stream) arrived,
/// and `RequestTooLarge` once more than [`MAX_REQUEST_BYTES`] bytes of the
/// line were read. Read failures are passed on.
pub fn read_request_line<S: ChunkSource>(stream: &mut S) -> (r: Result<Option<Vec<u8>>, DispatchError>)
    ensures
        ({
            let p = old(stream).pending();
            &&& r matches Ok(None) ==> p.len() == 0
            &&& r matches Ok(Some(line)) ==> line@ == request_line(p) && 0 < line@.len()
                <= MAX_REQUEST_BYTES
            &&& line_end(p) > MAX_REQUEST_BYTES ==> !(r is Ok)
            &&& r matches Err(DispatchError::RequestTooLarge { size, max_size }) ==> max_size
                == MAX_REQUEST_BYTES && MAX_REQUEST_BYTES < size <= line_end(p)
            &&& r matches Err(e) ==> e is Io || e is RequestTooLarge
        }),
        old(stream).reliable() ==> ({
            let p = old(stream).pending();
            if line_end(p) > MAX_REQUEST_BYTES {
                r matches Err(DispatchError::RequestTooLarge { .. })
            } else if p.len() == 0 {
                r matches Ok(None)
            } else {
                r matches Ok(Some(line)) && line@ == request_line(p)
            }
        }),
{
    let ghost p = stream.pending();
    let mut buffer: Vec<u8> = Vec::new();
    proof {
        lemma_line_end(p);
        assert(p.subrange(0, p.len() as int) =~= p);
    }
    loop
        invariant
            p == old(stream).pending(),
            stream.reliable() == old(stream).reliable(),
            buffer@.len() <= MAX_REQUEST_BYTES,
            buffer@.len() <= p.len(),
            buffer@ == p.subrange(0, buffer@.len() as int),
            stream.pending() == p.subrange(buffer@.len() as int, p.len() as int),
            forall|i: int| 0 <= i < buffer@.len() ==> p[i] != 0x0Au8,
        decreases stream.pending().len(),
    {
        let ghost b = buffer@.len() as int;
        proof {
            lemma_line_end_prefix(p, b);
        }
        let chunk = match stream.read_chunk(READ_CHUNK_BYTES) {
            Ok(chunk) => chunk,
            Err(error) => {
                return Err(error);
            },
        };
        let ghost rest = p.subrange(b, p.len() as int);
        if chunk.len() == 0 {
            proof {
                assert(rest.len() == 0);
                lemma_line_end(rest);
                assert(buffer@ =~= p.subrange(0, line_end(p)));
            }
            return Ok(finish_request_line(buffer));
        }
        proof {
            lemma_line_end_of_prefix(rest, chunk@.len() as int);
            lemma_line_end(chunk@);
            lemma_line_end(rest);
        }
        let complete = append_request_chunk(&mut buffer, chunk.as_slice());
        match complete {
            Err(e) => {
                return Err(e);
            },
            Ok(true) => {
                proof {
                    assert(buffer@ =~= p.subrange(0, line_end(p)));
                }
                return Ok(Some(buffer));
            },
            Ok(false) => {
                proof {
                    assert(buffer@ =~= p.subrange(0, buffer@.len() as int));
                    assert forall|i: int| 0 <= i < buffer@.len() implies p[i] != 0x0Au8 by {
                        if i >= b {
                            assert(p[i] == chunk@[i - b]);
                        }
                    }
                }
            },
        }
    }
}

} // verus!
