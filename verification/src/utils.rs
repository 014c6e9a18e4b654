use vstd::prelude::*;
use vstd::std_specs::convert::FromSpecImpl;

verus! {

/// Selects the elements whose `id` attribute is exactly the wrapped value.
#[derive(Copy, Clone, Debug, PartialEq)]
pub struct Id<T>(pub T);

impl<'a> Id<&'a str> {
    /// Decides the selection from the value of an element's `id` attribute,
    /// `None` standing for an element that has no such attribute.
    pub fn matches(&self, id: Option<&str>) -> (hit: bool)
        ensures
            hit == (id matches Some(text) && text@ == self.0@),
    {
        match id {
            Some(text) => crate::text::same_text(text, self.0),
            None => false,
        }
    }
}

/// `std::io::Error`, carried through as an opaque value.
#[verifier::external_type_specification]
#[verifier::external_body]
pub struct ExIoError(std::io::Error);

/// `reqwest::Error`, carried through as an opaque value.
#[verifier::external_type_specification]
#[verifier::external_body]
pub struct ExReqwestError(reqwest::Error);

/// `url::ParseError`, carried through as an opaque value.
#[verifier::external_type_specification]
#[verifier::external_body]
pub struct ExUrlParseError(url::ParseError);

/// Why a crawl stopped early, tagged with the collaborator that failed.
#[derive(Debug)]
pub enum SpiderError {
    /// The bytes of a fetched page could not be read as a document.
    Io(std::io::Error),
    /// The transport could not deliver a page.
    Reqwest(reqwest::Error),
    /// A URL could not be parsed.
    Parse(url::ParseError),
}

impl From<std::io::Error> for SpiderError {
    fn from(err: std::io::Error) -> (tagged: SpiderError) {
        SpiderError::Io(err)
    }
}

impl FromSpecImpl<std::io::Error> for SpiderError {
    open spec fn obeys_from_spec() -> bool {
        true
    }

    open spec fn from_spec(err: std::io::Error) -> SpiderError {
        SpiderError::Io(err)
    }
}

impl From<reqwest::Error> for SpiderError {
    fn from(err: reqwest::Error) -> (tagged: SpiderError) {
        SpiderError::Reqwest(err)
    }
}

impl FromSpecImpl<reqwest::Error> for SpiderError {
    open spec fn obeys_from_spec() -> bool {
        true
    }

    open spec fn from_spec(err: reqwest::Error) -> SpiderError {
        SpiderError::Reqwest(err)
    }
}

impl From<url::ParseError> for SpiderError {
    fn from(err: url::ParseError) -> (tagged: SpiderError) {
        SpiderError::Parse(err)
    }
}

impl FromSpecImpl<url::ParseError> for SpiderError {
    open spec fn obeys_from_spec() -> bool {
        true
    }

    open spec fn from_spec(err: url::ParseError) -> SpiderError {
        SpiderError::Parse(err)
    }
}

} // verus!
