//! Newline framed input: the worker's bounded response lines and the daemon's
//! request lines. The caller reads buffered bytes and hands each buffer here; the
//! framer says how many bytes it consumed and whether a line is complete.

use vstd::prelude::*;

use crate::daemon_protocol::MAX_DAEMON_REQUEST_LINE_BYTES;

verus! {

/// The position of the first newline in a buffer.
pub open spec fn newline_at(b: Seq<u8>) -> Option<int> {
    if exists|i: int| 0 <= i < b.len() && b[i] == 10u8 {
        Some(choose|i: int| 0 <= i < b.len() && b[i] == 10u8 && forall|k: int| 0 <= k < i ==> b[k] != 10u8)
    } else {
        None
    }
}

fn find_newline(b: &[u8]) -> (r: Option<usize>)
    ensures
        match r {
            Some(i) => i < b@.len() && b@[i as int] == 10u8 && forall|k: int| 0 <= k < i ==> b@[k] != 10u8,
            None => forall|k: int| 0 <= k < b@.len() ==> b@[k] != 10u8,
        },
{
    let mut i: usize = 0;
    while i < b.len()
        invariant
            i <= b@.len(),
            forall|k: int| 0 <= k < i ==> b@[k] != 10u8,
        decreases b@.len() - i,
    {
        if b[i] == 10u8 {
            return Some(i);
        }
        i = i + 1;
    }
    None
}

fn append(out: &mut Vec<u8>, b: &[u8], n: usize)
    requires
        n <= b@.len(),
    ensures
        final(out)@ == old(out)@ + b@.take(n as int),
{
    let ghost start = out@;
    let mut i: usize = 0;
    while i < n
        invariant
            i <= n <= b@.len(),
            out@ == start + b@.take(i as int),
        decreases n - i,
    {
        out.push(b[i]);
        assert(b@.take(i + 1) =~= b@.take(i as int).push(b@[i as int]));
        i = i + 1;
    }
}

// ---------------------------------------------------------------------------
// Worker response lines.

/// Why a worker line could not be read.
#[derive(Clone, Copy, Debug, PartialEq, Eq, Structural)]
pub enum LineFailure {
    /// The worker closed its output before a complete line.
    UnexpectedEof,
    /// The line exceeds the byte limit.
    TooLong,
}

/// One worker line being read.
pub struct BoundedLine {
    pub output: Vec<u8>,
}

/// The line without one trailing carriage return.
pub open spec fn without_cr(s: Seq<u8>) -> Seq<u8> {
    if s.len() > 0 && s.last() == 13u8 {
        s.drop_last()
    } else {
        s
    }
}

impl BoundedLine {
    /// Starts an empty line.
    pub fn new() -> (r: Self)
        ensures
            r.output@.len() == 0,
    {
        BoundedLine { output: Vec::new() }
    }

    /// Takes the next buffered bytes (empty at the end of input): returns how many
    /// bytes were consumed and, when the line ended, the line without its newline
    /// and one trailing carriage return, or the failure. A line longer than
    /// `max_bytes` fails as soon as that is known.
    pub fn feed(&mut self, available: &[u8], max_bytes: usize) -> (r: (usize, Option<Result<Vec<u8>, LineFailure>>))
        ensures
            available@.len() == 0 ==> r == (0usize, Some(Err::<Vec<u8>, LineFailure>(LineFailure::UnexpectedEof))),
            available@.len() > 0 ==> match newline_at(available@) {
                Some(i) => if old(self).output@.len() + i > max_bytes {
                    r.0 == 0 && r.1 == Some(Err::<Vec<u8>, LineFailure>(LineFailure::TooLong))
                } else {
                    r.0 == i + 1 && (r.1 matches Some(Ok(line)) && line@ == without_cr(
                        old(self).output@ + available@.take(i),
                    ))
                },
                None => if old(self).output@.len() + available@.len() > max_bytes {
                    r.0 == 0 && r.1 == Some(Err::<Vec<u8>, LineFailure>(LineFailure::TooLong))
                } else {
                    r.0 == available@.len() && r.1 is None && final(self).output@ == old(self).output@ + available@
                },
            },
    {
        if available.len() == 0 {
            return (0, Some(Err(LineFailure::UnexpectedEof)));
        }
        let found = find_newline(available);
        proof {
            if let Some(i) = found {
                assert(available@[i as int] == 10u8);
                let j = choose|j: int| 0 <= j < available@.len() && available@[j] == 10u8 && forall|k: int| 0 <= k < j ==> available@[k] != 10u8;
                assert(j == i) by {
                    if j < i {
                        assert(available@[j] != 10u8);
                    }
                    if i < j {
                        assert(available@[i as int] != 10u8);
                    }
                }
            }
        }
        match found {
            Some(newline) => {
                if self.output.len() > max_bytes || newline > max_bytes - self.output.len() {
                    return (0, Some(Err(LineFailure::TooLong)));
                }
                append(&mut self.output, available, newline);
                let mut line: Vec<u8> = Vec::new();
                std::mem::swap(&mut line, &mut self.output);
                let n = line.len();
                if n > 0 && line[n - 1] == 13u8 {
                    line.pop();
                }
                (newline + 1, Some(Ok(line)))
            },
            None => {
                if self.output.len() > max_bytes || available.len() > max_bytes - self.output.len() {
                    return (0, Some(Err(LineFailure::TooLong)));
                }
                append(&mut self.output, available, available.len());
                assert(available@.take(available@.len() as int) =~= available@);
                (available.len(), None)
            },
        }
    }
}

// ---------------------------------------------------------------------------
// Daemon request lines.

/// The outcome of reading one daemon request line.
pub enum LineRead {
    /// The input ended before any byte of a new line.
    Eof,
    /// A complete line without its newline.
    Line(Vec<u8>),
    /// The line exceeded the request limit; its remaining bytes were skipped.
    TooLong,
}

/// One daemon request line being read.
pub struct RequestLine {
    pub line: Vec<u8>,
    pub too_long: bool,
}

/// Whether a line read reports exactly a line with given bytes, a long line, or the end.
pub open spec fn reads_as(r: LineRead, too_long: bool, line: Seq<u8>, at_end: bool) -> bool {
    if too_long {
        r is TooLong
    } else if at_end && line.len() == 0 {
        r is Eof
    } else {
        r matches LineRead::Line(l) && l@ == line
    }
}

impl RequestLine {
    /// Starts an empty line.
    pub fn new() -> (r: Self)
        ensures
            r.line@.len() == 0,
            !r.too_long,
    {
        RequestLine { line: Vec::new(), too_long: false }
    }

    /// Takes the next buffered bytes (empty at the end of input): returns how many
    /// bytes were consumed and, when the line ended, what was read. Once a line
    /// exceeds the request limit its bytes are skipped up to its newline.
    pub fn feed(&mut self, buffer: &[u8]) -> (r: (usize, Option<LineRead>))
        ensures
            buffer@.len() == 0 ==> r.0 == 0 && (r.1 matches Some(x) && reads_as(x, old(self).too_long, old(self).line@, true)),
            buffer@.len() > 0 ==> {
                let content = match newline_at(buffer@) {
                    Some(i) => i,
                    None => buffer@.len() as int,
                };
                let over = old(self).too_long || old(self).line@.len() + content > MAX_DAEMON_REQUEST_LINE_BYTES;
                let kept = if over { old(self).line@ } else { old(self).line@ + buffer@.take(content) };
                match newline_at(buffer@) {
                    Some(i) => r.0 == i + 1 && (r.1 matches Some(x) && reads_as(x, over, kept, false)),
                    None => r.0 == buffer@.len() && r.1 is None && final(self).too_long == over && final(self).line@ == kept,
                }
            },
    {
        if buffer.len() == 0 {
            let mut line: Vec<u8> = Vec::new();
            std::mem::swap(&mut line, &mut self.line);
            if self.too_long {
                return (0, Some(LineRead::TooLong));
            }
            if line.len() == 0 {
                return (0, Some(LineRead::Eof));
            }
            return (0, Some(LineRead::Line(line)));
        }
        let found = find_newline(buffer);
        proof {
            if let Some(i) = found {
                let j = choose|j: int| 0 <= j < buffer@.len() && buffer@[j] == 10u8 && forall|k: int| 0 <= k < j ==> buffer@[k] != 10u8;
                assert(j == i) by {
                    if j < i {
                        assert(buffer@[j] != 10u8);
                    }
                    if i < j {
                        assert(buffer@[i as int] != 10u8);
                    }
                }
            }
        }
        let content = match found {
            Some(i) => i,
            None => buffer.len(),
        };
        if !self.too_long {
            if self.line.len() > MAX_DAEMON_REQUEST_LINE_BYTES || content > MAX_DAEMON_REQUEST_LINE_BYTES - self.line.len() {
                self.too_long = true;
            } else {
                append(&mut self.line, buffer, content);
            }
        }
        match found {
            Some(i) => {
                let mut line: Vec<u8> = Vec::new();
            std::mem::swap(&mut line, &mut self.line);
                let long = self.too_long;
                self.too_long = false;
                if long {
                    (i + 1, Some(LineRead::TooLong))
                } else {
                    (i + 1, Some(LineRead::Line(line)))
                }
            },
            None => {
                assert(buffer@.take(buffer@.len() as int) =~= buffer@);
                (buffer.len(), None)
            },
        }
    }
}

} // verus!
