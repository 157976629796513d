//! The failures that end a command.

use vstd::prelude::*;
use crate::text::{flattened, joined, signed_numeral};
use crate::text;

verus! {

/// A failure that ends the command it occurs in; none of them is retried.
#[derive(Clone, Debug, PartialEq, Eq)]
pub enum Error {
    /// No configuration file stands at `path`.
    ConfigNotFound { path: String },
    /// The file at `path` is there but could not be read.
    ConfigUnreadable { path: String, reason: String },
    /// The file at `path` was read but does not hold a valid configuration.
    ConfigMalformed { path: String, reason: String },
    /// The registry holds no project of this name.
    ProjectNotRegistered { name: String },
    /// The multiplexer, called with `arguments`, ended with a failure that is not
    /// one of the expected idle states.
    MultiplexerUnavailable { arguments: Vec<String>, code: Option<i32>, stderr: String },
}

/// What an [`Error`] holds, as plain text.
pub enum ErrorModel {
    ConfigNotFound { path: Seq<char> },
    ConfigUnreadable { path: Seq<char>, reason: Seq<char> },
    ConfigMalformed { path: Seq<char>, reason: Seq<char> },
    ProjectNotRegistered { name: Seq<char> },
    MultiplexerUnavailable { arguments: Seq<Seq<char>>, code: Option<i32>, stderr: Seq<char> },
}

impl View for Error {
    type V = ErrorModel;

    open spec fn view(&self) -> ErrorModel {
        match *self {
            Error::ConfigNotFound { path } => ErrorModel::ConfigNotFound { path: path@ },
            Error::ConfigUnreadable { path, reason } => ErrorModel::ConfigUnreadable {
                path: path@,
                reason: reason@,
            },
            Error::ConfigMalformed { path, reason } => ErrorModel::ConfigMalformed {
                path: path@,
                reason: reason@,
            },
            Error::ProjectNotRegistered { name } => ErrorModel::ProjectNotRegistered { name: name@ },
            Error::MultiplexerUnavailable { arguments, code, stderr } => {
                ErrorModel::MultiplexerUnavailable {
                    arguments: arguments.deep_view(),
                    code,
                    stderr: stderr@,
                }
            },
        }
    }
}

/// How an exit status is written in a diagnostic: its number, or `unknown` where the
/// process ended without one.
pub open spec fn status_text(code: Option<i32>) -> Seq<char> {
    match code {
        Some(n) => signed_numeral(n as int),
        None => "unknown"@,
    }
}

impl ErrorModel {
    /// The diagnostic before line breaks are taken out of it.
    pub open spec fn detail(self) -> Seq<char> {
        match self {
            ErrorModel::ConfigNotFound { path } => "Config is not a file: \""@ + path + "\""@,
            ErrorModel::ConfigUnreadable { path, reason } => "Failed to read: \""@ + path + "\": "@
                + reason,
            ErrorModel::ConfigMalformed { path, reason } => "Failed to parse: \""@ + path + "\": "@
                + reason,
            ErrorModel::ProjectNotRegistered { name } => "No project called: "@ + name,
            ErrorModel::MultiplexerUnavailable { arguments, code, stderr } => {
                "Failed to execute: tmux "@ + joined(arguments, " "@) + " (Status: "@ + status_text(
                    code,
                ) + "): "@ + stderr
            },
        }
    }

    /// The diagnostic that is shown to the user: the detail on a single line.
    pub open spec fn message(self) -> Seq<char> {
        flattened(self.detail())
    }
}

impl Error {
    /// The single-line diagnostic for this failure.
    pub fn message(&self) -> (line: String)
        ensures
            line@ == self@.message(),
            !line@.contains('\n'),
            !self@.detail().contains('\n') ==> line@ == self@.detail(),
    {
        let mut detail = String::new();
        match self {
            Error::ConfigNotFound { path } => {
                detail.append("Config is not a file: \"");
                detail.append(path.as_str());
                detail.append("\"");
            },
            Error::ConfigUnreadable { path, reason } => {
                detail.append("Failed to read: \"");
                detail.append(path.as_str());
                detail.append("\": ");
                detail.append(reason.as_str());
            },
            Error::ConfigMalformed { path, reason } => {
                detail.append("Failed to parse: \"");
                detail.append(path.as_str());
                detail.append("\": ");
                detail.append(reason.as_str());
            },
            Error::ProjectNotRegistered { name } => {
                detail.append("No project called: ");
                detail.append(name.as_str());
            },
            Error::MultiplexerUnavailable { arguments, code, stderr } => {
                detail.append("Failed to execute: tmux ");
                let command = text::join(arguments, " ");
                detail.append(command.as_str());
                detail.append(" (Status: ");
                match code {
                    Some(n) => {
                        let number = text::signed_decimal(*n as i64);
                        detail.append(number.as_str());
                    },
                    None => {
                        detail.append("unknown");
                    },
                }
                detail.append("): ");
                detail.append(stderr.as_str());
            },
        }
        assert(detail@ =~= self@.detail());
        text::flatten(detail.as_str())
    }
}

} // verus!
