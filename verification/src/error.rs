//! The error taxonomy shared by every component of the library.

use vstd::prelude::*;

verus! {

/// Ghost mirror of [`FlomError`]: each variant carries the view of its
/// diagnostic message.
pub enum FlomErrorView {
    UnsupportedInput(Seq<char>),
    InvalidInput(Seq<char>),
    Config(Seq<char>),
    Network(Seq<char>),
    Api(Seq<char>),
    Parse(Seq<char>),
}

/// A typed failure. Every variant carries enough detail (offending URL,
/// offending target string, upstream status and body) to diagnose the
/// failure without re-running.
#[derive(Debug)]
pub enum FlomError {
    /// A well-formed request the service legitimately cannot satisfy.
    UnsupportedInput(String),
    /// A malformed URL or an unrecognized target string.
    InvalidInput(String),
    /// A configuration value could not be read, parsed or written.
    Config(String),
    /// A transport-level failure (DNS, TLS, timeout, connection reset).
    Network(String),
    /// A non-success HTTP status; the raw response body is preserved.
    Api(String),
    /// A success status whose body did not match the expected schema.
    Parse(String),
}

impl View for FlomError {
    type V = FlomErrorView;

    open spec fn view(&self) -> FlomErrorView {
        match self {
            FlomError::UnsupportedInput(m) => FlomErrorView::UnsupportedInput(m@),
            FlomError::InvalidInput(m) => FlomErrorView::InvalidInput(m@),
            FlomError::Config(m) => FlomErrorView::Config(m@),
            FlomError::Network(m) => FlomErrorView::Network(m@),
            FlomError::Api(m) => FlomErrorView::Api(m@),
            FlomError::Parse(m) => FlomErrorView::Parse(m@),
        }
    }
}

pub type FlomResult<T> = Result<T, FlomError>;

} // verus!
