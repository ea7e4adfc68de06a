use vstd::prelude::*;

verus! {

/// A request from a client: read one key, or write one key.
#[derive(Debug, Clone, PartialEq, Eq)]
pub enum Request {
    Get(String),
    Put(String, String),
}

/// The answer to one request: a message on success, a description on failure.
#[derive(Debug, Clone, PartialEq, Eq)]
pub enum Response {
    Success(String),
    Failure(String),
}

/// What a `Request` holds, as character sequences.
pub enum RequestView {
    Get(Seq<char>),
    Put(Seq<char>, Seq<char>),
}

/// What a `Response` holds, as character sequences.
pub enum ResponseView {
    Success(Seq<char>),
    Failure(Seq<char>),
}

impl View for Request {
    type V = RequestView;

    open spec fn view(&self) -> RequestView {
        match self {
            Request::Get(k) => RequestView::Get(k@),
            Request::Put(k, v) => RequestView::Put(k@, v@),
        }
    }
}

impl View for Response {
    type V = ResponseView;

    open spec fn view(&self) -> ResponseView {
        match self {
            Response::Success(m) => ResponseView::Success(m@),
            Response::Failure(m) => ResponseView::Failure(m@),
        }
    }
}

/// Why bytes could not be read as a message.
#[derive(Debug, Clone, Copy, PartialEq, Eq, Structural)]
pub enum CodecError {
    /// The bytes are not one request of the accepted shapes.
    MalformedRequest,
    /// The bytes are not one response of the accepted shapes.
    MalformedResponse,
}

} // verus!
