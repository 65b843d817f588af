//! What can go wrong in a session.

use vstd::prelude::*;
use vstd::string::StringExecFns;

verus! {

/// Why a listing item cannot be deleted.
#[derive(Clone, Copy, Debug, PartialEq, Eq, Structural)]
pub enum Reason {
    /// It is a file that this session did not create.
    NotCreated,
    /// It is a folder.
    Folder,
    /// It is a way out, not an entry of the directory.
    Action,
}

/// An error of the session.
#[derive(Debug)]
pub enum Error {
    /// The key has fewer than five bytes.
    InvalidKey,
    /// The selected item may not be deleted.
    NotDeletable(Reason),
    /// The host could not do what it was asked; the text is the host's.
    Filesystem(String),
}

/// An error as plain values.
pub enum ErrorView {
    InvalidKey,
    NotDeletable(Reason),
    Filesystem(Seq<char>),
}

impl View for Error {
    type V = ErrorView;

    open spec fn view(&self) -> ErrorView {
        match self {
            Error::InvalidKey => ErrorView::InvalidKey,
            Error::NotDeletable(reason) => ErrorView::NotDeletable(*reason),
            Error::Filesystem(text) => ErrorView::Filesystem(text@),
        }
    }
}

/// The text that the status line shows for an error.
pub open spec fn message_of(error: ErrorView) -> Seq<char> {
    match error {
        ErrorView::InvalidKey => "Invalid key"@,
        ErrorView::NotDeletable(Reason::NotCreated) =>
            "Cannot delete the entity not created in the current session"@,
        ErrorView::NotDeletable(Reason::Folder) => "Cannot delete the folder entity"@,
        ErrorView::NotDeletable(Reason::Action) => "Cannot delete the action entity"@,
        ErrorView::Filesystem(text) => text,
    }
}

impl Error {
    /// The text that the status line shows for this error.
    pub fn message(&self) -> (text: String)
        ensures
            text@ == message_of(self@),
    {
        match self {
            Error::InvalidKey => String::from_str("Invalid key"),
            Error::NotDeletable(Reason::NotCreated) => String::from_str(
                "Cannot delete the entity not created in the current session",
            ),
            Error::NotDeletable(Reason::Folder) => String::from_str(
                "Cannot delete the folder entity",
            ),
            Error::NotDeletable(Reason::Action) => String::from_str(
                "Cannot delete the action entity",
            ),
            Error::Filesystem(text) => text.clone(),
        }
    }
}

impl Clone for Error {
    fn clone(&self) -> (r: Error)
        ensures
            r@ == self@,
    {
        match self {
            Error::InvalidKey => Error::InvalidKey,
            Error::NotDeletable(reason) => Error::NotDeletable(*reason),
            Error::Filesystem(text) => Error::Filesystem(text.clone()),
        }
    }
}

impl PartialEq for Error {
    fn eq(&self, other: &Error) -> (r: bool) {
        match (self, other) {
            (Error::InvalidKey, Error::InvalidKey) => true,
            (Error::NotDeletable(a), Error::NotDeletable(b)) => *a == *b,
            (Error::Filesystem(a), Error::Filesystem(b)) => *a == *b,
            _ => false,
        }
    }
}

impl vstd::std_specs::cmp::PartialEqSpecImpl for Error {
    open spec fn obeys_eq_spec() -> bool {
        true
    }

    open spec fn eq_spec(&self, other: &Error) -> bool {
        self@ == other@
    }
}

} // verus!
