//! Why a command failed.

use vstd::prelude::*;

use crate::mtp::error::{Error, ErrorView};

verus! {

/// What kind of failure a command met.
#[derive(Debug, Clone, Copy, PartialEq, Eq, Structural)]
pub enum CliErrorKind {
    NoDevice,
    AmbiguousSelection,
    RemotePath,
    Transfer,
    Other,
}

/// A failed command.
#[derive(Debug)]
pub enum CliError {
    /// A failure of the command's own.
    Plain { kind: CliErrorKind, message: String },
    /// A device operation that failed, and what it was for.
    Device { context: String, source: Error },
}

/// A [`CliError`] with its texts as sequences of characters.
pub enum CliErrorView {
    Plain { kind: CliErrorKind, message: Seq<char> },
    Device { context: Seq<char>, source: ErrorView },
}

impl View for CliError {
    type V = CliErrorView;

    open spec fn view(&self) -> CliErrorView {
        match self {
            CliError::Plain { kind, message } => CliErrorView::Plain {
                kind: *kind,
                message: message@,
            },
            CliError::Device { context, source } => CliErrorView::Device {
                context: context@,
                source: source@,
            },
        }
    }
}

/// A command's result with its error as a view.
pub open spec fn cli_outcome<T>(r: Result<T, CliError>) -> Result<T, CliErrorView> {
    match r {
        Ok(v) => Ok(v),
        Err(e) => Err(e@),
    }
}

impl CliError {
    /// A failure of the command's own.
    pub fn new(kind: CliErrorKind, message: &str) -> (r: Self)
        ensures
            r@ == (CliErrorView::Plain { kind, message: message@ }),
    {
        CliError::Plain { kind, message: message.to_owned() }
    }

    /// A device operation that failed.
    pub fn from_mtp(context: &str, source: Error) -> (r: Self)
        ensures
            r@ == (CliErrorView::Device { context: context@, source: source@ }),
    {
        CliError::Device { context: context.to_owned(), source }
    }
}

} // verus!
