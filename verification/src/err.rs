use vstd::prelude::*;

verus! {

/// How a request failed before any body could be decoded.
#[derive(Debug, PartialEq, Eq)]
pub enum HttpFailure {
    /// The server answered, with a status outside the success class.
    Status(u16),
    /// No answer arrived; the text is the transport's own description.
    Transport(String),
}

/// Everything that can go wrong in this crate.
#[derive(Debug, PartialEq, Eq)]
pub enum Error {
    /// The transport failed or the server refused the request.
    Http(HttpFailure),
    /// A body did not have the expected JSON shape; the text says why.
    Json(String),
    /// A URL could not be parsed or joined.
    UrlParse(url::ParseError),
    /// The service index offers none of the resource types asked for; the text
    /// lists them.
    UnsupportedOperation(String),
    /// The text is not a version range; it is carried unchanged.
    InvalidVersionRange(String),
}

pub type Result<T> = std::result::Result<T, Error>;

impl From<url::ParseError> for Error {
    fn from(e: url::ParseError) -> (r: Error) {
        Error::UrlParse(e)
    }
}

impl vstd::std_specs::convert::FromSpecImpl<url::ParseError> for Error {
    open spec fn obeys_from_spec() -> bool {
        true
    }

    open spec fn from_spec(e: url::ParseError) -> Error {
        Error::UrlParse(e)
    }
}

/// `url::ParseError`, carried as an opaque value.
#[verifier::external_type_specification]
#[verifier::external_body]
pub struct ExUrlParseError(url::ParseError);

} // verus!
