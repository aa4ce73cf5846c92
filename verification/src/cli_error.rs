//! Stable source free command errors and exit statuses.

use vstd::prelude::*;

use crate::error::{RenderError, RenderErrorCode, sanitize_message, sanitized};

verus! {

/// The category of a command failure, which decides the exit status.
#[derive(Clone, Copy, Debug, PartialEq, Eq, Structural)]
pub enum CliErrorKind {
    Usage,
    Worker,
    Render,
    Output,
    Internal,
}

impl CliErrorKind {
    /// The process exit status of the category.
    pub fn exit_code(self) -> (r: i32)
        ensures
            r == match self {
                CliErrorKind::Usage => 2i32,
                CliErrorKind::Worker => 3i32,
                CliErrorKind::Render => 4i32,
                CliErrorKind::Output => 5i32,
                CliErrorKind::Internal => 6i32,
            },
    {
        match self {
            CliErrorKind::Usage => 2,
            CliErrorKind::Worker => 3,
            CliErrorKind::Render => 4,
            CliErrorKind::Output => 5,
            CliErrorKind::Internal => 6,
        }
    }
}

/// A command failure with a message safe to print.
#[derive(Clone, Debug, PartialEq, Eq)]
pub struct CliError {
    kind: CliErrorKind,
    message: String,
}

/// The command failure category of a render error.
pub open spec fn kind_of_render(code: RenderErrorCode) -> CliErrorKind {
    match code {
        RenderErrorCode::InvalidRequest | RenderErrorCode::InputLimitExceeded => CliErrorKind::Usage,
        RenderErrorCode::Protocol | RenderErrorCode::WorkerUnavailable | RenderErrorCode::Timeout => CliErrorKind::Worker,
        _ => CliErrorKind::Render,
    }
}

impl CliError {
    /// The category of the failure.
    pub closed spec fn spec_kind(&self) -> CliErrorKind {
        self.kind
    }

    /// The printed message.
    pub closed spec fn spec_message(&self) -> Seq<char> {
        self.message@
    }

    /// Creates a failure; control characters of the message are replaced by U+FFFD.
    pub fn new(kind: CliErrorKind, message: &str) -> (r: Self)
        ensures
            r.spec_kind() == kind,
            r.spec_message() == sanitized(message@),
    {
        CliError { kind, message: sanitize_message(message) }
    }

    /// The category of the failure.
    pub fn kind(&self) -> (r: CliErrorKind)
        ensures
            r == self.spec_kind(),
    {
        self.kind
    }

    /// The printed message.
    pub fn message(&self) -> (r: &str)
        ensures
            r@ == self.spec_message(),
    {
        self.message.as_str()
    }

    /// The command failure reporting a render error.
    pub fn from_render(error: RenderError) -> (r: Self)
        ensures
            r.spec_kind() == kind_of_render(error.code),
            r.spec_message() == sanitized(error.message@),
    {
        let kind = match error.code {
            RenderErrorCode::InvalidRequest | RenderErrorCode::InputLimitExceeded => CliErrorKind::Usage,
            RenderErrorCode::Protocol | RenderErrorCode::WorkerUnavailable | RenderErrorCode::Timeout => {
                CliErrorKind::Worker
            },
            _ => CliErrorKind::Render,
        };
        Self::new(kind, error.message.as_str())
    }
}

} // verus!
