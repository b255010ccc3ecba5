//! The transport-neutral backend contract: what every messaging channel
//! (mailbox polling or chat events) exchanges with the control loop.

use vstd::prelude::*;

use crate::encoder::MimeKind;
use crate::runner::CommandInfo;
use crate::text::str_eq;

verus! {

broadcast use vstd::string::group_string_axioms;

/// Failure taxonomy of a backend operation.
///
/// `Initialization`, `Authorization` and `Server` carry a human-readable
/// reason. Initialization and authorization failures abort backend
/// construction and are never retried; server failures during polling are
/// transient and retried; send failures get exactly one retry.
#[derive(Debug)]
pub enum BackendError {
    Initialization(String),
    Authorization(String),
    Server(String),
    SendFailure,
    ReceiveFailure,
    Unknown(String),
}

impl BackendError {
    /// The human-readable message of each error.
    pub open spec fn describe_text(self) -> Seq<char> {
        match self {
            BackendError::Initialization(r) => "Initialization error: "@ + r@,
            BackendError::Authorization(r) => "Authorization error: "@ + r@,
            BackendError::Server(r) => "Server error: "@ + r@,
            BackendError::SendFailure => "Send error"@,
            BackendError::ReceiveFailure => "Receive error"@,
            BackendError::Unknown(r) => "Error: "@ + r@,
        }
    }

    /// Renders the error for logging.
    pub fn describe(&self) -> (r: String)
        ensures
            r@ == self.describe_text(),
    {
        match self {
            BackendError::Initialization(reason) => {
                let mut s = String::from_str("Initialization error: ");
                s.append(reason.as_str());
                s
            },
            BackendError::Authorization(reason) => {
                let mut s = String::from_str("Authorization error: ");
                s.append(reason.as_str());
                s
            },
            BackendError::Server(reason) => {
                let mut s = String::from_str("Server error: ");
                s.append(reason.as_str());
                s
            },
            BackendError::SendFailure => String::from_str("Send error"),
            BackendError::ReceiveFailure => String::from_str("Receive error"),
            BackendError::Unknown(reason) => {
                let mut s = String::from_str("Error: ");
                s.append(reason.as_str());
                s
            },
        }
    }
}

/// Error returned when a backend name is not recognized.
pub struct ParseError;

/// An outbound message: raw text, a command result, or an attachment with
/// its media type, file name and bytes.
pub enum Sendable {
    Raw(String),
    CommandInfo(CommandInfo),
    Image(MimeKind, String, Vec<u8>),
    File(MimeKind, String, Vec<u8>),
}

/// A classified control reply: the remote operator's instruction.
pub enum BackendCommand {
    Rerun,
    Done,
    Cat,
    Unknown(String),
}

/// The mathematical value of a [`BackendCommand`]: the unknown text is a
/// character sequence.
pub enum SpecCommand {
    Rerun,
    Done,
    Cat,
    Unknown(Seq<char>),
}

impl View for BackendCommand {
    type V = SpecCommand;

    open spec fn view(&self) -> SpecCommand {
        match self {
            BackendCommand::Rerun => SpecCommand::Rerun,
            BackendCommand::Done => SpecCommand::Done,
            BackendCommand::Cat => SpecCommand::Cat,
            BackendCommand::Unknown(s) => SpecCommand::Unknown(s@),
        }
    }
}

/// The transports a backend can be built over.
pub enum BackendList {
    Email,
    Matrix,
}

impl Clone for BackendList {
    fn clone(&self) -> (r: Self)
        ensures
            r == *self,
    {
        match self {
            BackendList::Email => BackendList::Email,
            BackendList::Matrix => BackendList::Matrix,
        }
    }
}

impl BackendList {
    /// Selects a backend by name: exactly `"email"` and `"matrix"` are known.
    pub fn from_str(s: &str) -> (r: Result<BackendList, ParseError>)
        ensures
            s@ == "email"@ ==> r == Ok::<BackendList, ParseError>(BackendList::Email),
            s@ == "matrix"@ ==> r == Ok::<BackendList, ParseError>(BackendList::Matrix),
            s@ != "email"@ && s@ != "matrix"@ ==> r == Err::<BackendList, ParseError>(ParseError),
    {
        proof {
            reveal_strlit("email");
            reveal_strlit("matrix");
            assert("email"@.len() == 5);
            assert("matrix"@.len() == 6);
        }
        if str_eq(s, "email") {
            Ok(BackendList::Email)
        } else if str_eq(s, "matrix") {
            Ok(BackendList::Matrix)
        } else {
            Err(ParseError)
        }
    }
}

} // verus!
