//! The errors that the claimer reports to the user interface.

use vstd::prelude::*;
use vstd::string::*;

verus! {

/// An error of the application.
#[derive(Debug, PartialEq, Eq)]
pub enum AppError {
    /// An input or output operation failed; the text is what the operating
    /// system said about it.
    IoError(String),
    /// Anything else, in words meant for the user.
    GeneralError(String),
}

pub type AppResult<T> = Result<T, AppError>;

impl AppError {
    /// The text that the user interface receives for the error: the bare
    /// text that the error carries.
    pub open spec fn message_text(self) -> Seq<char> {
        match self {
            AppError::IoError(text) => text@,
            AppError::GeneralError(text) => text@,
        }
    }

    /// The text that describes the error in a log: an I/O error is marked as
    /// such, any other error stands for itself.
    pub open spec fn display_text(self) -> Seq<char> {
        match self {
            AppError::IoError(text) => "Rust std::io Error: "@ + text@,
            AppError::GeneralError(text) => text@,
        }
    }

    /// The text to hand to the user interface.
    pub fn message(&self) -> (text: String)
        ensures
            text@ == self.message_text(),
    {
        match self {
            AppError::IoError(text) => text.clone(),
            AppError::GeneralError(text) => text.clone(),
        }
    }

    /// The text that describes the error in a log.
    pub fn to_string(&self) -> (text: String)
        ensures
            text@ == self.display_text(),
    {
        match self {
            AppError::IoError(text) => String::from_str("Rust std::io Error: ").concat(
                text.as_str(),
            ),
            AppError::GeneralError(text) => text.clone(),
        }
    }
}

} // verus!
