//! Errors of the sandbox lifecycle.

use vstd::prelude::*;

verus! {

/// What kind of error a lifecycle operation ended in.
#[derive(Clone, Copy, Debug, PartialEq, Eq, Structural)]
pub enum MxcErrorCode {
    /// Something that the backend relies on failed.
    BackendError,
    /// A sandbox id is not of the backend's form.
    MalformedId,
    /// The session is running already.
    AlreadyStarted,
    /// The session is not running.
    NotStarted,
    /// There is no running session to stop.
    AlreadyStopped,
}

/// An error with its kind and a message for people.
#[derive(Debug)]
pub struct MxcError {
    pub code: MxcErrorCode,
    pub message: String,
}

impl MxcError {
    /// Whether the error is of kind `code` and says `message`.
    pub open spec fn says(self, code: MxcErrorCode, message: Seq<char>) -> bool {
        self.code == code && self.message@ == message
    }

    /// A failure of something that the backend relies on.
    pub fn backend_error(message: String) -> (r: MxcError)
        ensures
            r.says(MxcErrorCode::BackendError, message@),
    {
        MxcError { code: MxcErrorCode::BackendError, message }
    }

    /// A sandbox id of the wrong form.
    pub fn malformed_id(message: String) -> (r: MxcError)
        ensures
            r.says(MxcErrorCode::MalformedId, message@),
    {
        MxcError { code: MxcErrorCode::MalformedId, message }
    }

    /// A session that is running already.
    pub fn already_started(message: String) -> (r: MxcError)
        ensures
            r.says(MxcErrorCode::AlreadyStarted, message@),
    {
        MxcError { code: MxcErrorCode::AlreadyStarted, message }
    }

    /// A session that is not running.
    pub fn not_started(message: String) -> (r: MxcError)
        ensures
            r.says(MxcErrorCode::NotStarted, message@),
    {
        MxcError { code: MxcErrorCode::NotStarted, message }
    }

    /// A session that was stopped before.
    pub fn already_stopped(message: String) -> (r: MxcError)
        ensures
            r.says(MxcErrorCode::AlreadyStopped, message@),
    {
        MxcError { code: MxcErrorCode::AlreadyStopped, message }
    }
}

/// An error that says something is of that kind and has just those words.
pub proof fn error_says_what_it_holds(e: MxcError, code: MxcErrorCode, message: Seq<char>)
    ensures
        e.says(code, message) <==> e.code == code && e.message@ == message,
{
}

} // verus!
