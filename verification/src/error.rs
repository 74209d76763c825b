//! What can go wrong, and how it is told.
use vstd::prelude::*;

use crate::text;

verus! {

/// An error of the agent. `Windows`, `Io` and `Serialization` hold what the failing facility
/// said.
#[derive(Debug)]
pub enum Error {
    Windows(String),
    Io(String),
    Protocol(String),
    JobNotFound(u32),
    JobExists(u32),
    InvalidStateTransition(String),
    AuthorizationFailed(String),
    ProcessLaunchFailed(String),
    Serialization(String),
    Service(String),
}

/// An error with its text as a sequence of characters.
pub enum ErrorView {
    Windows(Seq<char>),
    Io(Seq<char>),
    Protocol(Seq<char>),
    JobNotFound(u32),
    JobExists(u32),
    InvalidStateTransition(Seq<char>),
    AuthorizationFailed(Seq<char>),
    ProcessLaunchFailed(Seq<char>),
    Serialization(Seq<char>),
    Service(Seq<char>),
}

impl View for Error {
    type V = ErrorView;

    open spec fn view(&self) -> ErrorView {
        match self {
            Error::Windows(m) => ErrorView::Windows(m@),
            Error::Io(m) => ErrorView::Io(m@),
            Error::Protocol(m) => ErrorView::Protocol(m@),
            Error::JobNotFound(id) => ErrorView::JobNotFound(*id),
            Error::JobExists(id) => ErrorView::JobExists(*id),
            Error::InvalidStateTransition(m) => ErrorView::InvalidStateTransition(m@),
            Error::AuthorizationFailed(m) => ErrorView::AuthorizationFailed(m@),
            Error::ProcessLaunchFailed(m) => ErrorView::ProcessLaunchFailed(m@),
            Error::Serialization(m) => ErrorView::Serialization(m@),
            Error::Service(m) => ErrorView::Service(m@),
        }
    }
}

/// The text that an error is shown as.
pub open spec fn error_text(e: ErrorView) -> Seq<char> {
    match e {
        ErrorView::Windows(m) => "Windows error: "@ + m,
        ErrorView::Io(m) => "IO error: "@ + m,
        ErrorView::Protocol(m) => "Protocol error: "@ + m,
        ErrorView::JobNotFound(id) => "Job not found: "@ + text::decimal(id as nat),
        ErrorView::JobExists(id) => "Job already exists: "@ + text::decimal(id as nat),
        ErrorView::InvalidStateTransition(m) => "Invalid state transition: "@ + m,
        ErrorView::AuthorizationFailed(m) => "Authorization failed: "@ + m,
        ErrorView::ProcessLaunchFailed(m) => "Process launch failed: "@ + m,
        ErrorView::Serialization(m) => "Serialization error: "@ + m,
        ErrorView::Service(m) => "Service error: "@ + m,
    }
}

impl Error {
    /// The text that the error is shown as.
    pub fn message(&self) -> (s: String)
        ensures
            s@ == error_text(self@),
    {
        match self {
            Error::Windows(m) => text::joined("Windows error: ", m.as_str()),
            Error::Io(m) => text::joined("IO error: ", m.as_str()),
            Error::Protocol(m) => text::joined("Protocol error: ", m.as_str()),
            Error::JobNotFound(id) => text::joined(
                "Job not found: ",
                text::decimal_text(*id as u64).as_str(),
            ),
            Error::JobExists(id) => text::joined(
                "Job already exists: ",
                text::decimal_text(*id as u64).as_str(),
            ),
            Error::InvalidStateTransition(m) => text::joined("Invalid state transition: ", m.as_str()),
            Error::AuthorizationFailed(m) => text::joined("Authorization failed: ", m.as_str()),
            Error::ProcessLaunchFailed(m) => text::joined("Process launch failed: ", m.as_str()),
            Error::Serialization(m) => text::joined("Serialization error: ", m.as_str()),
            Error::Service(m) => text::joined("Service error: ", m.as_str()),
        }
    }
}

/// What may fail with an `Error`.
pub type Result<T> = std::result::Result<T, Error>;

/// An error is shown as what kind of error it is, a colon, and all that is known of it: the text that
/// came with it, however long, or the id of the job.
pub proof fn law_error_texts(m: Seq<char>, id: u32)
    ensures
        error_text(ErrorView::Windows(m)) == "Windows error"@ + ": "@ + m,
        error_text(ErrorView::Io(m)) == "IO error"@ + ": "@ + m,
        error_text(ErrorView::Protocol(m)) == "Protocol error"@ + ": "@ + m,
        error_text(ErrorView::JobNotFound(id)) == "Job not found"@ + ": "@ + text::decimal(
            id as nat,
        ),
        error_text(ErrorView::JobExists(id)) == "Job already exists"@ + ": "@ + text::decimal(
            id as nat,
        ),
        error_text(ErrorView::InvalidStateTransition(m)) == "Invalid state transition"@ + ": "@ + m,
        error_text(ErrorView::AuthorizationFailed(m)) == "Authorization failed"@ + ": "@ + m,
        error_text(ErrorView::ProcessLaunchFailed(m)) == "Process launch failed"@ + ": "@ + m,
        error_text(ErrorView::Serialization(m)) == "Serialization error"@ + ": "@ + m,
        error_text(ErrorView::Service(m)) == "Service error"@ + ": "@ + m,
{
    reveal_strlit(": ");
    reveal_strlit("Windows error");
    reveal_strlit("Windows error: ");
    reveal_strlit("IO error");
    reveal_strlit("IO error: ");
    reveal_strlit("Protocol error");
    reveal_strlit("Protocol error: ");
    reveal_strlit("Job not found");
    reveal_strlit("Job not found: ");
    reveal_strlit("Job already exists");
    reveal_strlit("Job already exists: ");
    reveal_strlit("Invalid state transition");
    reveal_strlit("Invalid state transition: ");
    reveal_strlit("Authorization failed");
    reveal_strlit("Authorization failed: ");
    reveal_strlit("Process launch failed");
    reveal_strlit("Process launch failed: ");
    reveal_strlit("Serialization error");
    reveal_strlit("Serialization error: ");
    reveal_strlit("Service error");
    reveal_strlit("Service error: ");
    assert("Windows error: "@ =~= "Windows error"@ + ": "@);
    assert("IO error: "@ =~= "IO error"@ + ": "@);
    assert("Protocol error: "@ =~= "Protocol error"@ + ": "@);
    assert("Job not found: "@ =~= "Job not found"@ + ": "@);
    assert("Job already exists: "@ =~= "Job already exists"@ + ": "@);
    assert("Invalid state transition: "@ =~= "Invalid state transition"@ + ": "@);
    assert("Authorization failed: "@ =~= "Authorization failed"@ + ": "@);
    assert("Process launch failed: "@ =~= "Process launch failed"@ + ": "@);
    assert("Serialization error: "@ =~= "Serialization error"@ + ": "@);
    assert("Service error: "@ =~= "Service error"@ + ": "@);
}

} // verus!
