//! What can go wrong in one probe cycle.

use vstd::prelude::*;
use vstd::string::StringExecFns;

verus! {

/// The failure of a probe cycle. Each variant holds the text that came
/// with it: the database's message, or the mode name that was not
/// recognized.
#[derive(Clone, Debug, PartialEq, Eq)]
pub enum ServerError {
    /// No transaction could be opened on the probe session.
    Connection(String),
    /// The probed statement itself failed.
    StatementExecution(String),
    /// The catalog query on the inspector session failed.
    Inspection(String),
    /// A catalog row named a lock mode that is none of the eight.
    LockModeParse(String),
    /// The probe transaction could not be rolled back.
    Rollback(String),
}

/// A failure, as mathematical values.
pub enum Fault {
    Connection(Seq<char>),
    StatementExecution(Seq<char>),
    Inspection(Seq<char>),
    LockModeParse(Seq<char>),
    Rollback(Seq<char>),
}

impl Fault {
    /// The text that the failure holds.
    pub open spec fn detail(self) -> Seq<char> {
        match self {
            Fault::Connection(text) => text,
            Fault::StatementExecution(text) => text,
            Fault::Inspection(text) => text,
            Fault::LockModeParse(text) => text,
            Fault::Rollback(text) => text,
        }
    }

    /// The message shown for the failure: the database's own text, or for
    /// an unrecognized mode `invalid lock type` and the mode's text.
    pub open spec fn message(self) -> Seq<char> {
        match self {
            Fault::LockModeParse(text) => "invalid lock type "@ + text,
            _ => self.detail(),
        }
    }

    /// The name of the kind of failure.
    pub open spec fn kind(self) -> Seq<char> {
        match self {
            Fault::Connection(_) => "ConnectionFailure"@,
            Fault::StatementExecution(_) => "StatementExecutionFailure"@,
            Fault::Inspection(_) => "InspectionFailure"@,
            Fault::LockModeParse(_) => "LockModeParseFailure"@,
            Fault::Rollback(_) => "RollbackFailure"@,
        }
    }
}

impl View for ServerError {
    type V = Fault;

    open spec fn view(&self) -> Fault {
        match self {
            ServerError::Connection(text) => Fault::Connection(text@),
            ServerError::StatementExecution(text) => Fault::StatementExecution(text@),
            ServerError::Inspection(text) => Fault::Inspection(text@),
            ServerError::LockModeParse(text) => Fault::LockModeParse(text@),
            ServerError::Rollback(text) => Fault::Rollback(text@),
        }
    }
}

impl ServerError {
    /// The status code with which a failure is answered over HTTP: every
    /// kind is an internal server error.
    pub fn status_code(&self) -> (code: u16)
        ensures
            code == 500,
    {
        500
    }

    /// The name of the kind of failure.
    pub fn kind(&self) -> (name: &'static str)
        ensures
            name@ == self@.kind(),
    {
        match self {
            ServerError::Connection(_) => "ConnectionFailure",
            ServerError::StatementExecution(_) => "StatementExecutionFailure",
            ServerError::Inspection(_) => "InspectionFailure",
            ServerError::LockModeParse(_) => "LockModeParseFailure",
            ServerError::Rollback(_) => "RollbackFailure",
        }
    }

    /// The message shown for the failure.
    pub fn to_string(&self) -> (message: String)
        ensures
            message@ == self@.message(),
    {
        match self {
            ServerError::Connection(text) => text.clone(),
            ServerError::StatementExecution(text) => text.clone(),
            ServerError::Inspection(text) => text.clone(),
            ServerError::Rollback(text) => text.clone(),
            ServerError::LockModeParse(text) => {
                let mut message = "invalid lock type ".to_owned();
                message.append(text.as_str());
                message
            },
        }
    }
}

} // verus!
