//! The errors of statistics retrieval.
use vstd::prelude::*;

verus! {

/// The parser's own error type for malformed addresses.
#[verifier::external_type_specification]
#[verifier::external_body]
pub struct ExParseError(url::ParseError);

/// Why statistics could not be had.
#[derive(Debug)]
pub enum PiholeError {
    /// A request could not be carried out; holds the transport's message.
    NetworkError(String),
    /// The host, once given a scheme, is not a well-formed address.
    InvalidUrl(url::ParseError),
    /// No endpoint gave a body that reads as statistics.
    JsonError(String),
    /// The host string is empty or unusable.
    InvalidHost(String),
    /// A server answered with a status outside the success range.
    ServerError { status: u16 },
    /// A well-formed answer breaks a sanity rule.
    ValidationError { reason: String },
}

} // verus!
