//! Failures of a Codex stream.
use vstd::prelude::*;
use crate::views;

verus! {

/// Where a failure comes from.
#[derive(Debug, Clone, Copy, PartialEq, Eq, Structural)]
pub enum CodexErrorKind {
    /// The service reported it.
    Api,
    /// What came over the wire was no valid JSON.
    Protocol,
    /// Anything else: connecting, closing, timeouts, cancellation.
    Other,
}

/// A failure of a stream.
pub struct CodexStreamError {
    pub message: String,
    pub code: Option<String>,
    pub kind: CodexErrorKind,
}

#[verifier::ext_equal]
pub struct CodexErrorView {
    pub message: Seq<char>,
    pub code: Option<Seq<char>>,
    pub kind: CodexErrorKind,
}

impl View for CodexStreamError {
    type V = CodexErrorView;

    open spec fn view(&self) -> CodexErrorView {
        CodexErrorView { message: self.message@, code: views::opt(self.code), kind: self.kind }
    }
}

/// A failure that the service did not report.
pub open spec fn other_error(message: Seq<char>) -> CodexErrorView {
    CodexErrorView { message, code: None, kind: CodexErrorKind::Other }
}

/// A failure that the service reported.
pub open spec fn api_error(message: Seq<char>, code: Option<Seq<char>>) -> CodexErrorView {
    CodexErrorView { message, code, kind: CodexErrorKind::Api }
}

/// A failure to read what came over the wire.
pub open spec fn protocol_error(message: Seq<char>) -> CodexErrorView {
    CodexErrorView { message, code: None, kind: CodexErrorKind::Protocol }
}

impl CodexStreamError {
    pub fn other(message: String) -> (r: CodexStreamError)
        ensures
            r@ == other_error(message@),
    {
        CodexStreamError { message, code: None, kind: CodexErrorKind::Other }
    }

    pub fn api(message: String, code: Option<String>) -> (r: CodexStreamError)
        ensures
            r@ == api_error(message@, views::opt(code)),
    {
        CodexStreamError { message, code, kind: CodexErrorKind::Api }
    }

    pub fn protocol(message: String) -> (r: CodexStreamError)
        ensures
            r@ == protocol_error(message@),
    {
        CodexStreamError { message, code: None, kind: CodexErrorKind::Protocol }
    }
}

/// A failure keeps its message, and a failure that the service reported its code too; each is of
/// its own kind.
pub proof fn law_failure_keeps_its_message(message: Seq<char>, code: Option<Seq<char>>)
    ensures
        other_error(message).message == message,
        other_error(message).code is None,
        other_error(message).kind is Other,
        api_error(message, code).message == message,
        api_error(message, code).code == code,
        api_error(message, code).kind is Api,
        protocol_error(message).message == message,
        protocol_error(message).code is None,
        protocol_error(message).kind is Protocol,
{
}

} // verus!
