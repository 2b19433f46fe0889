//! The ways in which a run can fail. Each of them ends the run.

use vstd::prelude::*;
use vstd::string::StringExecFns;

verus! {

/// Why a run was given up.
#[derive(Debug, Clone, PartialEq, Eq)]
pub enum Error {
    /// A type identifier that the catalog does not hold, with no default class to fall back
    /// on. Holds the identifier.
    UnknownType(String),
    /// The configuration is malformed. Holds what is wrong with it.
    Configuration(String),
    /// A template could not be rendered against the data given to it.
    TemplateRender { template: String, reason: String },
    /// The rendering engine could not be started. Holds the reason.
    SubprocessSpawn(String),
    /// The rendering engine exited with a failure. Holds what it wrote to standard error.
    SubprocessFailure(String),
}

/// An [`Error`] with its strings as sequences of characters.
pub enum ErrorView {
    UnknownType(Seq<char>),
    Configuration(Seq<char>),
    TemplateRender { template: Seq<char>, reason: Seq<char> },
    SubprocessSpawn(Seq<char>),
    SubprocessFailure(Seq<char>),
}

impl View for Error {
    type V = ErrorView;

    open spec fn view(&self) -> ErrorView {
        match *self {
            Error::UnknownType(name) => ErrorView::UnknownType(name@),
            Error::Configuration(what) => ErrorView::Configuration(what@),
            Error::TemplateRender { template, reason } => ErrorView::TemplateRender {
                template: template@,
                reason: reason@,
            },
            Error::SubprocessSpawn(reason) => ErrorView::SubprocessSpawn(reason@),
            Error::SubprocessFailure(stderr) => ErrorView::SubprocessFailure(stderr@),
        }
    }
}

/// The text that [`Error::message`] gives for an error.
pub open spec fn message_of(error: ErrorView) -> Seq<char> {
    match error {
        ErrorView::UnknownType(name) => "Unknown type "@ + name,
        ErrorView::Configuration(what) => what,
        ErrorView::TemplateRender { template, reason } => "Failed to render template "@
            + template + ": "@ + reason,
        ErrorView::SubprocessSpawn(reason) => "Failed to spawn Typst as a child process! "@
            + reason,
        ErrorView::SubprocessFailure(stderr) => stderr,
    }
}

/// A result with its text and its error as values of the model.
pub open spec fn text_result(result: Result<String, Error>) -> Result<Seq<char>, ErrorView> {
    match result {
        Ok(text) => Ok(text@),
        Err(error) => Err(error@),
    }
}

/// The model of an error, where there is one.
pub open spec fn optional_error(error: Option<Error>) -> Option<ErrorView> {
    match error {
        Some(error) => Some(error@),
        None => None,
    }
}

impl Error {
    /// A copy of the error.
    pub fn duplicate(&self) -> (copy: Error)
        ensures
            copy@ == self@,
    {
        match self {
            Error::UnknownType(name) => Error::UnknownType(name.clone()),
            Error::Configuration(what) => Error::Configuration(what.clone()),
            Error::TemplateRender { template, reason } => Error::TemplateRender {
                template: template.clone(),
                reason: reason.clone(),
            },
            Error::SubprocessSpawn(reason) => Error::SubprocessSpawn(reason.clone()),
            Error::SubprocessFailure(stderr) => Error::SubprocessFailure(stderr.clone()),
        }
    }

    /// The error in words. What a failed engine wrote to standard error is given as it
    /// came.
    pub fn message(&self) -> (text: String)
        ensures
            text@ == message_of(self@),
    {
        match self {
            Error::UnknownType(name) => String::from_str("Unknown type ").concat(name.as_str()),
            Error::Configuration(what) => what.clone(),
            Error::TemplateRender { template, reason } => String::from_str(
                "Failed to render template ",
            ).concat(template.as_str()).concat(": ").concat(reason.as_str()),
            Error::SubprocessSpawn(reason) => String::from_str(
                "Failed to spawn Typst as a child process! ",
            ).concat(reason.as_str()),
            Error::SubprocessFailure(stderr) => stderr.clone(),
        }
    }
}

} // verus!
