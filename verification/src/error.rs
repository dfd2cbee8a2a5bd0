//! The errors that dispatching a tool can raise.

use vstd::prelude::*;

verus! {

/// A typed error of the tool layer.
#[derive(Debug)]
pub enum Error {
    /// A tool could not be dispatched; `message` says why.
    ToolExecution {
        /// The id that the caller asked for.
        tool_id: String,
        /// The reason.
        message: String,
    },
    /// The caller's input lacks something that the operation needs.
    InvalidInput(String),
}

/// The mathematical value of an [`Error`].
pub ghost enum ErrorView {
    ToolExecution { tool_id: Seq<char>, message: Seq<char> },
    InvalidInput(Seq<char>),
}

impl View for Error {
    type V = ErrorView;

    open spec fn view(&self) -> ErrorView {
        match *self {
            Error::ToolExecution { tool_id, message } => ErrorView::ToolExecution {
                tool_id: tool_id@,
                message: message@,
            },
            Error::InvalidInput(message) => ErrorView::InvalidInput(message@),
        }
    }
}

impl Error {
    /// The error for a tool that could not be dispatched.
    pub fn tool_execution(tool_id: &str, message: String) -> (res: Error)
        ensures
            res@ == (ErrorView::ToolExecution { tool_id: tool_id@, message: message@ }),
    {
        Error::ToolExecution { tool_id: tool_id.to_owned(), message }
    }
}

} // verus!
