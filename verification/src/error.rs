//! Errors reported back to the requester.

use vstd::prelude::*;

verus! {

/// The kind of an error.
#[derive(Clone, Copy, Debug, PartialEq, Eq, Structural)]
pub enum PadreErrorKind {
    GenericError,
    RequestSyntaxError,
    DebuggerError,
    ProcessSpawnError,
}

/// An error with a short message for the user and a longer one for
/// debugging.
#[derive(Clone, Debug)]
pub struct PadreError {
    kind: PadreErrorKind,
    msg: String,
    debug: String,
}

/// The model of an error: its kind, message and debugging text.
pub struct ErrorView {
    pub kind: PadreErrorKind,
    pub msg: Seq<char>,
    pub debug: Seq<char>,
}

impl View for PadreError {
    type V = ErrorView;

    closed spec fn view(&self) -> ErrorView {
        ErrorView { kind: self.kind, msg: self.msg@, debug: self.debug@ }
    }
}

impl PadreError {
    /// A generic error with the given message and debugging text.
    pub fn new(msg: String, debug: String) -> (r: PadreError)
        ensures
            r@ == (ErrorView { kind: PadreErrorKind::GenericError, msg: msg@, debug: debug@ }),
    {
        PadreError { kind: PadreErrorKind::GenericError, msg, debug }
    }

    /// An error of the given kind.
    pub fn with_kind(kind: PadreErrorKind, msg: String, debug: String) -> (r: PadreError)
        ensures
            r@ == (ErrorView { kind, msg: msg@, debug: debug@ }),
    {
        PadreError { kind, msg, debug }
    }

    /// The kind of the error.
    pub fn get_kind(&self) -> (r: PadreErrorKind)
        ensures
            r == self@.kind,
    {
        self.kind
    }

    /// The message for the user.
    pub fn get_error_string(&self) -> (r: &str)
        ensures
            r@ == self@.msg,
    {
        self.msg.as_str()
    }

    /// The debugging text.
    pub fn get_debug_string(&self) -> (r: &str)
        ensures
            r@ == self@.debug,
    {
        self.debug.as_str()
    }

    /// The debugging text.
    pub fn get_debug_info(&self) -> (r: &str)
        ensures
            r@ == self@.debug,
    {
        self.debug.as_str()
    }
}

/// An error about the request with the given id (0 where no id could be
/// read).
#[derive(Clone, Debug)]
pub struct PadreErrorWithId {
    padre_error: PadreError,
    id: u64,
}

/// The model of an error about a request.
pub struct ErrorWithIdView {
    pub id: u64,
    pub error: ErrorView,
}

impl View for PadreErrorWithId {
    type V = ErrorWithIdView;

    closed spec fn view(&self) -> ErrorWithIdView {
        ErrorWithIdView { id: self.id, error: self.padre_error@ }
    }
}

/// The model of an error about request `id`.
pub open spec fn error_with_id(kind: PadreErrorKind, id: u64, msg: Seq<char>, debug: Seq<char>) -> ErrorWithIdView {
    ErrorWithIdView { id, error: ErrorView { kind, msg, debug } }
}

impl PadreErrorWithId {
    /// An error of the given kind about request `id`.
    pub fn new(kind: PadreErrorKind, id: u64, error_string: String, debug_string: String) -> (r: PadreErrorWithId)
        ensures
            r@ == error_with_id(kind, id, error_string@, debug_string@),
    {
        PadreErrorWithId { id, padre_error: PadreError::with_kind(kind, error_string, debug_string) }
    }

    /// The error for a failure to read from the connection itself, of
    /// which `err` is the text: about no request (id 0), of the generic
    /// kind, with the message `Generic error` and the text after it.
    pub fn generic(err: &str) -> (r: PadreErrorWithId)
        ensures
            r@ == error_with_id(PadreErrorKind::GenericError, 0, "Generic error"@, "Generic error "@ + err@),
    {
        let mut debug = String::from_str("Generic error ");
        debug.append(err);
        PadreErrorWithId::new(PadreErrorKind::GenericError, 0, String::from_str("Generic error"), debug)
    }

    /// The id of the request.
    pub fn get_id(&self) -> (r: u64)
        ensures
            r == self@.id,
    {
        self.id
    }

    /// The kind of the error.
    pub fn get_kind(&self) -> (r: PadreErrorKind)
        ensures
            r == self@.error.kind,
    {
        self.padre_error.get_kind()
    }

    /// The message for the user.
    pub fn get_error_string(&self) -> (r: &str)
        ensures
            r@ == self@.error.msg,
    {
        self.padre_error.get_error_string()
    }

    /// The debugging text.
    pub fn get_debug_string(&self) -> (r: &str)
        ensures
            r@ == self@.error.debug,
    {
        self.padre_error.get_debug_string()
    }
}

} // verus!
