//! The failures that a board operation can end in.
use vstd::prelude::*;

verus! {

/// What went wrong with a request.
#[derive(Debug, PartialEq, Eq)]
pub enum RequestError {
    /// No key was presented, or it grants nothing.
    Unauthorized,
    /// A key was presented but its tier is too low.
    Forbidden,
    /// The board name is empty once trimmed.
    InvalidBoardName(String),
    /// A board of that name exists already.
    BoardAlreadyExists(String),
    /// No board has that name.
    NoSuchBoard(String),
    /// The backing store failed.
    Sql(String),
}

/// A `RequestError` with its texts as character sequences; the store's own
/// message is left out.
pub enum ErrorView {
    Unauthorized,
    Forbidden,
    InvalidBoardName(Seq<char>),
    BoardAlreadyExists(Seq<char>),
    NoSuchBoard(Seq<char>),
    StoreFailure,
}

impl View for RequestError {
    type V = ErrorView;

    open spec fn view(&self) -> ErrorView {
        match self {
            RequestError::Unauthorized => ErrorView::Unauthorized,
            RequestError::Forbidden => ErrorView::Forbidden,
            RequestError::InvalidBoardName(n) => ErrorView::InvalidBoardName(n@),
            RequestError::BoardAlreadyExists(n) => ErrorView::BoardAlreadyExists(n@),
            RequestError::NoSuchBoard(n) => ErrorView::NoSuchBoard(n@),
            RequestError::Sql(_) => ErrorView::StoreFailure,
        }
    }
}

/// The HTTP status that each kind of failure is reported with.
pub open spec fn status_of(e: ErrorView) -> u16 {
    match e {
        ErrorView::Unauthorized => 401,
        ErrorView::Forbidden => 403,
        ErrorView::InvalidBoardName(_) => 400,
        ErrorView::BoardAlreadyExists(_) => 409,
        ErrorView::NoSuchBoard(_) => 404,
        ErrorView::StoreFailure => 500,
    }
}

/// Views a `Result` with no value.
pub open spec fn unit_result(r: Result<(), RequestError>) -> Result<(), ErrorView> {
    match r {
        Ok(()) => Ok(()),
        Err(e) => Err(e@),
    }
}

impl RequestError {
    /// The HTTP status of this failure.
    pub fn status(&self) -> (r: u16)
        ensures
            r == status_of(self@),
    {
        match self {
            RequestError::Unauthorized => 401,
            RequestError::Forbidden => 403,
            RequestError::InvalidBoardName(_) => 400,
            RequestError::BoardAlreadyExists(_) => 409,
            RequestError::NoSuchBoard(_) => 404,
            RequestError::Sql(_) => 500,
        }
    }
}

} // verus!
