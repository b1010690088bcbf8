//! The engine's error taxonomy.
//!
//! Every failure of resolving, rendering, encoding or decoding is reported
//! through [`EndpointError`]; the engine never retries and never returns a
//! partial result.  Contracts speak of errors through the ghost model
//! [`ErrModel`], in which textual payloads are character sequences.

use vstd::prelude::*;

verus! {

/// Ghost model of an [`EndpointError`]: the same taxonomy with textual
/// payloads as character sequences.
pub enum ErrModel {
    /// No template in the version table applies to the negotiated version.
    UnsupportedVersion,
    /// A placeholder of the path template has no matching non-empty path
    /// field; the payload is the placeholder name.
    MissingPathField(Seq<char>),
    /// A non-optional header field is absent from the wire response; the
    /// payload is the header name.
    MissingHeader(Seq<char>),
    /// A present header value cannot be parsed as the field's type; the
    /// payloads are the header name and the raw value.
    HeaderParseError(Seq<char>, Seq<char>),
    /// A field value cannot be represented as a valid header text; the
    /// payload is the header name.
    HeaderEncodeError(Seq<char>),
    /// The response body is not a structurally valid document.  This is
    /// the structured-body codec collaborator's failure; the engine
    /// itself handles only raw or empty bodies and never produces it.
    BodyDecodeError,
    /// An opaque resource identifier handed to a convenience constructor
    /// cannot be decomposed into authority and path components.
    IdentifierParseError,
}

/// An error of the marshaling engine.  See [`ErrModel`] for the meaning of
/// each variant; payload strings carry the field or header name and, for
/// parse failures, the raw value.
#[derive(Clone, Debug, PartialEq, Eq)]
pub enum EndpointError {
    /// No template in the version table applies to the negotiated version.
    UnsupportedVersion,
    /// A placeholder has no matching non-empty path field.
    MissingPathField(String),
    /// A non-optional header field is absent from the wire response.
    MissingHeader(String),
    /// A present header value cannot be parsed; holds the header name and
    /// the raw value.
    HeaderParseError(String, String),
    /// A field value cannot be represented as a valid header text.
    HeaderEncodeError(String),
    /// The response body is not a structurally valid document.
    BodyDecodeError,
    /// An opaque resource identifier cannot be decomposed.
    IdentifierParseError,
}

impl View for EndpointError {
    type V = ErrModel;

    open spec fn view(&self) -> ErrModel {
        match self {
            EndpointError::UnsupportedVersion => ErrModel::UnsupportedVersion,
            EndpointError::MissingPathField(n) => ErrModel::MissingPathField(n@),
            EndpointError::MissingHeader(n) => ErrModel::MissingHeader(n@),
            EndpointError::HeaderParseError(n, v) => ErrModel::HeaderParseError(n@, v@),
            EndpointError::HeaderEncodeError(n) => ErrModel::HeaderEncodeError(n@),
            EndpointError::BodyDecodeError => ErrModel::BodyDecodeError,
            EndpointError::IdentifierParseError => ErrModel::IdentifierParseError,
        }
    }
}

} // verus!
