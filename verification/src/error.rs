//! Stable errors returned by renderer implementations.

use vstd::prelude::*;

use crate::text::{chars_of, is_control, push_char, spec_is_control};

verus! {

/// Machine readable render failure categories.
#[derive(Clone, Copy, Debug, PartialEq, Eq, Hash, Structural)]
#[non_exhaustive]
pub enum RenderErrorCode {
    /// The request does not satisfy the public contract.
    InvalidRequest,
    /// Input exceeded a configured resource bound.
    InputLimitExceeded,
    /// Output exceeded a configured resource bound.
    OutputLimitExceeded,
    /// The renderer rejected the math syntax.
    InvalidTex,
    /// The worker protocol was malformed or incompatible.
    Protocol,
    /// No usable renderer worker is available.
    WorkerUnavailable,
    /// Rendering exceeded its deadline.
    Timeout,
    /// The bounded render queue is full.
    QueueFull,
    /// Work was cancelled because its result is no longer relevant.
    Cancelled,
    /// Generated output violated a safety policy.
    UnsafeOutput,
    /// Rendering failed without a more specific public category.
    RenderFailed,
}

/// A source free error safe to show in diagnostics.
#[derive(Clone, Debug, PartialEq, Eq)]
pub struct RenderError {
    /// Machine readable category.
    pub code: RenderErrorCode,
    /// Stable public explanation that excludes equation source.
    pub message: String,
    /// Whether retrying on a healthy worker may succeed.
    pub retryable: bool,
    /// Optional byte position reported by the renderer.
    pub position: Option<usize>,
}

/// A message with every control character replaced by U+FFFD.
pub open spec fn sanitized(message: Seq<char>) -> Seq<char> {
    message.map_values(|c: char| if spec_is_control(c) { '\u{fffd}' } else { c })
}

/// Replaces every control character of a message by U+FFFD.
pub fn sanitize_message(message: &str) -> (r: String)
    ensures
        r@ == sanitized(message@),
{
    let chars = chars_of(message);
    let mut r = String::new();
    let mut i: usize = 0;
    while i < chars.len()
        invariant
            i <= chars@.len(),
            chars@ == message@,
            r@ == sanitized(message@.take(i as int)),
        decreases chars@.len() - i,
    {
        let c = chars[i];
        if is_control(c) {
            push_char(&mut r, '\u{fffd}');
        } else {
            push_char(&mut r, c);
        }
        assert(sanitized(message@.take(i + 1)) =~= sanitized(message@.take(i as int)).push(
            if spec_is_control(c) { '\u{fffd}' } else { c },
        ));
        i = i + 1;
    }
    assert(message@.take(chars@.len() as int) =~= message@);
    r
}

impl RenderError {
    /// Creates an error without a source position; control characters of the
    /// message are replaced.
    pub fn new(code: RenderErrorCode, message: &str, retryable: bool) -> (r: Self)
        ensures
            r.code == code,
            r.message@ == sanitized(message@),
            r.retryable == retryable,
            r.position is None,
    {
        RenderError { code, message: sanitize_message(message), retryable, position: None }
    }

    /// Adds a byte position to an error.
    pub fn with_position(self, position: usize) -> (r: Self)
        ensures
            r.code == self.code,
            r.message == self.message,
            r.retryable == self.retryable,
            r.position == Some(position),
    {
        let mut r = self;
        r.position = Some(position);
        r
    }
}

} // verus!
