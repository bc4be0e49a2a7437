//! The library's error type.
use vstd::prelude::*;

verus! {

/// Errors reported by the library.
#[derive(Debug)]
pub enum IsolateError {
    /// Input rejected by validation.
    Validation(String),
    /// Configuration does not allow the operation.
    Config(String),
    /// Process or resource management failure.
    Process(String),
    /// Strategy-level refusal (for example, a blocked strategy).
    Strategy(String),
    /// A referenced item does not exist.
    NotFound(String),
    /// The operation needs administrator privileges.
    RequiresAdmin,
}

/// The kind of an [`IsolateError`].
#[derive(Debug)]
pub enum ErrorKind {
    Validation,
    Config,
    Process,
    Strategy,
    NotFound,
    RequiresAdmin,
}

impl View for IsolateError {
    type V = (ErrorKind, Seq<char>);

    open spec fn view(&self) -> (ErrorKind, Seq<char>) {
        match self {
            IsolateError::Validation(m) => (ErrorKind::Validation, m@),
            IsolateError::Config(m) => (ErrorKind::Config, m@),
            IsolateError::Process(m) => (ErrorKind::Process, m@),
            IsolateError::Strategy(m) => (ErrorKind::Strategy, m@),
            IsolateError::NotFound(m) => (ErrorKind::NotFound, m@),
            IsolateError::RequiresAdmin => (ErrorKind::RequiresAdmin, "Administrator privileges required"@),
        }
    }
}

impl IsolateError {
    /// The error's message.
    pub fn to_string(&self) -> (r: String)
        ensures
            r@ == self@.1,
    {
        match self {
            IsolateError::Validation(m) => m.clone(),
            IsolateError::Config(m) => m.clone(),
            IsolateError::Process(m) => m.clone(),
            IsolateError::Strategy(m) => m.clone(),
            IsolateError::NotFound(m) => m.clone(),
            IsolateError::RequiresAdmin => crate::text::owned("Administrator privileges required"),
        }
    }
}

} // verus!
