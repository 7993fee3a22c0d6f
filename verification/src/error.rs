//! The failure that a request ends in, and what the caller gets to see of it.

use vstd::prelude::*;

verus! {

/// Where a request failed.
#[derive(Clone, Copy, Debug, PartialEq, Eq, Structural)]
pub enum Failure {
    /// No token could be had from the pool.
    TokenUnavailable,
    /// The upstream call failed, or its answer could not be read.
    Upstream,
    /// The renderer failed on one expression.
    Renderer,
    /// An event arrived that the request was not waiting for.
    OutOfTurn,
}

/// A failed request: the kind of failure, and the detail that goes to the log
/// and never to the caller.
#[derive(Clone, Debug, PartialEq)]
pub struct Error {
    pub kind: Failure,
    pub detail: String,
}

/// A failure as contracts speak of it: its kind and the text of its detail.
pub ghost struct ErrorView {
    pub kind: Failure,
    pub detail: Seq<char>,
}

impl View for Error {
    type V = ErrorView;

    open spec fn view(&self) -> ErrorView {
        ErrorView { kind: self.kind, detail: self.detail@ }
    }
}

/// The status code of every failed request.
pub const FAILURE_STATUS: u16 = 500;

/// The text that the caller of a failed request reads.
pub open spec fn public_text() -> Seq<char> {
    "Something went wrong"@
}

impl Error {
    pub fn new(kind: Failure, detail: String) -> (out: Error)
        ensures
            out.kind == kind,
            out.detail == detail,
    {
        Error { kind, detail }
    }

    /// The status code sent to the caller: the same for every failure.
    pub fn status(&self) -> (code: u16)
        ensures
            code == FAILURE_STATUS,
    {
        FAILURE_STATUS
    }

    /// The body sent to the caller: a fixed text that holds nothing of the
    /// failure's detail.
    pub fn public_message(&self) -> (text: &'static str)
        ensures
            text@ == public_text(),
    {
        "Something went wrong"
    }

    pub fn duplicate(&self) -> (out: Error)
        ensures
            out == *self,
    {
        Error { kind: self.kind, detail: self.detail.clone() }
    }

    /// The line for the log: the failure's full detail.
    pub fn log_line(&self) -> (line: String)
        ensures
            line@ == self.detail@,
    {
        self.detail.clone()
    }
}

} // verus!
