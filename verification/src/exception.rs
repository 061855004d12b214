//! The failures a statement can end with.

use vstd::prelude::*;

verus! {

/// The observable kinds of failure.
#[derive(Clone, Copy, Debug, PartialEq, Eq, Structural)]
pub enum ErrorKind {
    /// An invariant of the engine was violated.
    Internal,
    /// The table engine lacks a capability that the plan asks for.
    TableEngineNotSupported,
    /// The statement cannot be handled as written.
    BadArguments,
    /// MERGE INTO: several source rows matched one target row.
    UnresolvableConflict,
}

/// What a failure says: its kind and its text.
pub struct Failure {
    pub kind: ErrorKind,
    pub text: Seq<char>,
}

/// The failure of kind `kind` with the text `text`.
pub open spec fn failure(kind: ErrorKind, text: Seq<char>) -> Failure {
    Failure { kind, text }
}

/// A failure with its message.
#[derive(Debug)]
pub enum ErrorCode {
    Internal(String),
    TableEngineNotSupported(String),
    BadArguments(String),
    UnresolvableConflict(String),
}

impl View for ErrorCode {
    type V = Failure;

    open spec fn view(&self) -> Failure {
        Failure { kind: self.spec_kind(), text: self.spec_message() }
    }
}

impl ErrorCode {
    /// The kind of this failure.
    pub open spec fn spec_kind(&self) -> ErrorKind {
        match self {
            ErrorCode::Internal(_) => ErrorKind::Internal,
            ErrorCode::TableEngineNotSupported(_) => ErrorKind::TableEngineNotSupported,
            ErrorCode::BadArguments(_) => ErrorKind::BadArguments,
            ErrorCode::UnresolvableConflict(_) => ErrorKind::UnresolvableConflict,
        }
    }

    /// The text of this failure.
    pub open spec fn spec_message(&self) -> Seq<char> {
        match self {
            ErrorCode::Internal(m) => m@,
            ErrorCode::TableEngineNotSupported(m) => m@,
            ErrorCode::BadArguments(m) => m@,
            ErrorCode::UnresolvableConflict(m) => m@,
        }
    }

    #[verifier::when_used_as_spec(spec_kind)]
    pub fn kind(&self) -> (k: ErrorKind)
        ensures
            k == self.spec_kind(),
    {
        match self {
            ErrorCode::Internal(_) => ErrorKind::Internal,
            ErrorCode::TableEngineNotSupported(_) => ErrorKind::TableEngineNotSupported,
            ErrorCode::BadArguments(_) => ErrorKind::BadArguments,
            ErrorCode::UnresolvableConflict(_) => ErrorKind::UnresolvableConflict,
        }
    }

    /// This failure with `msg` put in front of its text, on a line of its
    /// own.
    pub fn add_message(self, msg: &str) -> (e: ErrorCode)
        ensures
            e.kind() == self.kind(),
            e.spec_message() == msg@ + "\n"@ + self.spec_message(),
    {
        match self {
            ErrorCode::Internal(m) => ErrorCode::Internal(prefixed(msg, &m)),
            ErrorCode::TableEngineNotSupported(m) => ErrorCode::TableEngineNotSupported(
                prefixed(msg, &m),
            ),
            ErrorCode::BadArguments(m) => ErrorCode::BadArguments(prefixed(msg, &m)),
            ErrorCode::UnresolvableConflict(m) => ErrorCode::UnresolvableConflict(
                prefixed(msg, &m),
            ),
        }
    }

    /// A failure that says what this one says.
    pub fn duplicate(&self) -> (e: ErrorCode)
        ensures
            e@ == self@,
    {
        match self {
            ErrorCode::Internal(m) => ErrorCode::Internal(m.clone()),
            ErrorCode::TableEngineNotSupported(m) => ErrorCode::TableEngineNotSupported(m.clone()),
            ErrorCode::BadArguments(m) => ErrorCode::BadArguments(m.clone()),
            ErrorCode::UnresolvableConflict(m) => ErrorCode::UnresolvableConflict(m.clone()),
        }
    }

    pub fn message(&self) -> (m: String)
        ensures
            m@ == self.spec_message(),
    {
        match self {
            ErrorCode::Internal(m) => m.clone(),
            ErrorCode::TableEngineNotSupported(m) => m.clone(),
            ErrorCode::BadArguments(m) => m.clone(),
            ErrorCode::UnresolvableConflict(m) => m.clone(),
        }
    }
}

/// `msg`, a line break, and `text`.
fn prefixed(msg: &str, text: &String) -> (r: String)
    ensures
        r@ == msg@ + "\n"@ + text@,
{
    String::from_str(msg).concat("\n").concat(text.as_str())
}

} // verus!
