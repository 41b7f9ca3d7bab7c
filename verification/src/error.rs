//! What can go wrong in running a room or joining one.

use vstd::prelude::*;
use vstd::string::StringExecFns;

verus! {

/// Why a command failed.
#[derive(Debug, PartialEq, Eq)]
pub enum AppError {
    /// The store failed; the text is the store's own account of it.
    PdbError(String),
    /// Reading or writing failed; the text is the system's own account of it.
    IoError(String),
    AlreadyExistingId,
    DataNotFound,
    AuthFailure,
    ConnectionRefused,
    NotExistingId,
    InvalidArgument,
    InvalidCommand,
}

impl AppError {
    /// The text shown for this error.
    pub open spec fn spec_message(self) -> Seq<char> {
        match self {
            AppError::PdbError(text) => text@,
            AppError::IoError(text) => text@,
            AppError::AlreadyExistingId => "This id already exists."@,
            AppError::DataNotFound => "Data not found in database."@,
            AppError::AuthFailure => "Authorization failure."@,
            AppError::ConnectionRefused => "Connection refused"@,
            AppError::NotExistingId => "No such room"@,
            AppError::InvalidArgument => "Invalid argument"@,
            AppError::InvalidCommand => "Invalid command."@,
        }
    }

    /// The text shown for this error.
    pub fn to_string(&self) -> (r: String)
        ensures
            r@ == self.spec_message(),
    {
        match self {
            AppError::PdbError(text) => text.clone(),
            AppError::IoError(text) => text.clone(),
            AppError::AlreadyExistingId => String::from_str("This id already exists."),
            AppError::DataNotFound => String::from_str("Data not found in database."),
            AppError::AuthFailure => String::from_str("Authorization failure."),
            AppError::ConnectionRefused => String::from_str("Connection refused"),
            AppError::NotExistingId => String::from_str("No such room"),
            AppError::InvalidArgument => String::from_str("Invalid argument"),
            AppError::InvalidCommand => String::from_str("Invalid command."),
        }
    }

    /// Whether the error is a fault of the machinery, to be logged, rather
    /// than an answer to the user, to be printed.
    pub fn is_fault(&self) -> (r: bool)
        ensures
            r == (self is PdbError || self is IoError),
    {
        match self {
            AppError::PdbError(_) => true,
            AppError::IoError(_) => true,
            _ => false,
        }
    }
}

} // verus!
