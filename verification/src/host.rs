//! What the library asks of its host, and what the host answers.
//!
//! The library never touches the file system. Where an operation needs it,
//! the library hands out a request and remembers it; the host carries the
//! request out and hands the reply to `resume`.

use crate::entity::{entries_view, DirEntry, DirEntryView, Respond, RespondView};
use crate::path::{Path, PathView};
use vstd::prelude::*;

verus! {

/// Something for the host to do to the file system.
#[derive(Debug)]
pub enum Request {
    /// Read the file; answered by its content.
    Read(Path),
    /// Find the entries of the directory, for the manager to move there;
    /// answered by the entries.
    List(Path),
    /// Find the entries of the directory where the manager stands, for it to
    /// show them afresh; answered by the entries.
    Refresh(Path),
    /// Create the file with the given content, or replace its content.
    Write(Path, Vec<u8>),
    /// Remove the file.
    Remove(Path),
}

/// A request as plain values.
pub enum RequestView {
    Read(PathView),
    List(PathView),
    Refresh(PathView),
    Write(PathView, Seq<u8>),
    Remove(PathView),
}

impl View for Request {
    type V = RequestView;

    open spec fn view(&self) -> RequestView {
        match self {
            Request::Read(path) => RequestView::Read(path@),
            Request::List(path) => RequestView::List(path@),
            Request::Refresh(path) => RequestView::Refresh(path@),
            Request::Write(path, data) => RequestView::Write(path@, data@),
            Request::Remove(path) => RequestView::Remove(path@),
        }
    }
}

impl Clone for Request {
    fn clone(&self) -> (r: Request)
        ensures
            r@ == self@,
    {
        match self {
            Request::Read(path) => Request::Read(path.clone()),
            Request::List(path) => Request::List(path.clone()),
            Request::Refresh(path) => Request::Refresh(path.clone()),
            Request::Write(path, data) => Request::Write(
                path.clone(),
                vstd::slice::slice_to_vec(data.as_slice()),
            ),
            Request::Remove(path) => Request::Remove(path.clone()),
        }
    }
}

/// An optional request as plain values.
pub open spec fn asked_view(asked: Option<Request>) -> Option<RequestView> {
    match asked {
        Some(request) => Some(request@),
        None => None,
    }
}

/// What the host reports of a request.
#[derive(Debug)]
pub enum Reply {
    /// The request failed; the text says how.
    Failed(String),
    /// The content of the file read.
    Content(Vec<u8>),
    /// The entries of the directory listed.
    Entries(Vec<DirEntry>),
    /// The file is written, or removed.
    Done,
}

/// A reply as plain values.
pub enum ReplyView {
    Failed(Seq<char>),
    Content(Seq<u8>),
    Entries(Seq<DirEntryView>),
    Done,
}

impl View for Reply {
    type V = ReplyView;

    open spec fn view(&self) -> ReplyView {
        match self {
            Reply::Failed(text) => ReplyView::Failed(text@),
            Reply::Content(data) => ReplyView::Content(data@),
            Reply::Entries(files) => ReplyView::Entries(entries_view(files@)),
            Reply::Done => ReplyView::Done,
        }
    }
}

/// How far an operation has come.
#[derive(Debug)]
pub enum Progress {
    /// It is complete, and this is what it gave.
    Finished(Respond),
    /// It goes on once the host has answered this request.
    Pending(Request),
}

/// Progress as plain values.
pub enum ProgressView {
    Finished(RespondView),
    Pending(RequestView),
}

impl View for Progress {
    type V = ProgressView;

    open spec fn view(&self) -> ProgressView {
        match self {
            Progress::Finished(respond) => ProgressView::Finished(respond@),
            Progress::Pending(request) => ProgressView::Pending(request@),
        }
    }
}

/// Whether a reply is of the kind that the request is answered by. A failure
/// answers every request.
pub open spec fn answers(request: RequestView, reply: ReplyView) -> bool {
    match (request, reply) {
        (_, ReplyView::Failed(_)) => true,
        (RequestView::Read(_), ReplyView::Content(_)) => true,
        (RequestView::List(_), ReplyView::Entries(_)) => true,
        (RequestView::Refresh(_), ReplyView::Entries(_)) => true,
        (RequestView::Write(_, _), ReplyView::Done) => true,
        (RequestView::Remove(_), ReplyView::Done) => true,
        _ => false,
    }
}

/// The text of the error that a reply of the wrong kind is met with.
pub open spec fn mismatch_text() -> Seq<char> {
    "The reply does not answer the request"@
}

} // verus!
