use vstd::prelude::*;

verus! {

/// The error kinds of the engine. Each text variant carries a message
/// for the caller.
#[derive(Debug)]
pub enum HelixError {
    Configuration(String),
    Authentication,
    Authorization,
    Storage(String),
    Query(String),
    Plugin(String),
    Telemetry(String),
    Internal(String),
}

/// The mathematical value of a `HelixError`: its kind and the characters
/// of its message.
pub enum ErrorView {
    Configuration(Seq<char>),
    Authentication,
    Authorization,
    Storage(Seq<char>),
    Query(Seq<char>),
    Plugin(Seq<char>),
    Telemetry(Seq<char>),
    Internal(Seq<char>),
}

impl View for HelixError {
    type V = ErrorView;

    open spec fn view(&self) -> ErrorView {
        match self {
            HelixError::Configuration(m) => ErrorView::Configuration(m@),
            HelixError::Authentication => ErrorView::Authentication,
            HelixError::Authorization => ErrorView::Authorization,
            HelixError::Storage(m) => ErrorView::Storage(m@),
            HelixError::Query(m) => ErrorView::Query(m@),
            HelixError::Plugin(m) => ErrorView::Plugin(m@),
            HelixError::Telemetry(m) => ErrorView::Telemetry(m@),
            HelixError::Internal(m) => ErrorView::Internal(m@),
        }
    }
}

pub type HelixResult<T> = Result<T, HelixError>;

/// The HTTP status that a transport reports for an error of this kind.
pub open spec fn status_of(e: ErrorView) -> u16 {
    match e {
        ErrorView::Configuration(_) => 400,
        ErrorView::Authentication => 401,
        ErrorView::Authorization => 403,
        ErrorView::Storage(_) => 500,
        ErrorView::Query(_) => 400,
        ErrorView::Plugin(_) => 502,
        ErrorView::Telemetry(_) => 500,
        ErrorView::Internal(_) => 500,
    }
}

impl HelixError {
    /// The numeric HTTP status code of this error.
    pub fn status_code(&self) -> (r: u16)
        ensures
            r == status_of(self@),
    {
        match self {
            HelixError::Configuration(_) => 400,
            HelixError::Authentication => 401,
            HelixError::Authorization => 403,
            HelixError::Storage(_) => 500,
            HelixError::Query(_) => 400,
            HelixError::Plugin(_) => 502,
            HelixError::Telemetry(_) => 500,
            HelixError::Internal(_) => 500,
        }
    }
}

} // verus!
