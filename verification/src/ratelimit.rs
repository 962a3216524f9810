//! Errors of the ratelimiter: what went wrong while reading rate-limit
//! headers from a response.

use vstd::prelude::*;
use vstd::string::StringExecFns;

verus! {

/// The kind of ratelimit error that occurred.
pub enum RatelimitErrorType {
    /// No headers are present on the response.
    NoHeaders,
    /// An expected header is missing.
    HeaderMissing { name: String },
    /// A header's value is not UTF-8 text.
    HeaderNotUtf8 { name: String, value: Vec<u8> },
    /// A header should hold a boolean but does not.
    ParsingBoolText { name: String, text: String },
    /// A header should hold a decimal number but does not.
    ParsingFloatText { name: String, text: String },
    /// A header should hold an integer but does not.
    ParsingIntText { name: String, text: String },
}

/// An error while reading rate-limit headers. The underlying error, when
/// there is one, is carried as its rendered text.
pub struct RatelimitError {
    pub kind: RatelimitErrorType,
    pub source: Option<String>,
}

impl RatelimitError {
    /// Immutable reference to the type of error that occurred.
    pub fn kind(&self) -> (r: &RatelimitErrorType)
        ensures
            r == &self.kind,
    {
        &self.kind
    }

    /// Consume the error, returning the source error text if there is any.
    pub fn into_source(self) -> (r: Option<String>)
        ensures
            r == self.source,
    {
        self.source
    }

    /// Consume the error, returning the owned error type and the source
    /// error text.
    pub fn into_parts(self) -> (r: (RatelimitErrorType, Option<String>))
        ensures
            r == (self.kind, self.source),
    {
        (self.kind, self.source)
    }

    /// An error for a missing header; it has no underlying source.
    pub fn header_missing(name: String) -> (r: Self)
        ensures
            r.kind == (RatelimitErrorType::HeaderMissing { name }),
            r.source is None,
    {
        RatelimitError { kind: RatelimitErrorType::HeaderMissing { name }, source: None }
    }

    /// An error for a header that is not UTF-8 text, carrying the decoder's
    /// rendered error as the source.
    pub fn header_not_utf8(name: String, value: Vec<u8>, source: String) -> (r: Self)
        ensures
            r.kind == (RatelimitErrorType::HeaderNotUtf8 { name, value }),
            r.source == Some(source),
    {
        RatelimitError {
            kind: RatelimitErrorType::HeaderNotUtf8 { name, value },
            source: Some(source),
        }
    }

    /// A human-readable description of the error.
    pub fn message(&self) -> (r: String)
        ensures
            r@ == spec_message(self.kind),
    {
        match &self.kind {
            RatelimitErrorType::NoHeaders => {
                let mut out = String::new();
                out.append("No headers are present");
                out
            },
            RatelimitErrorType::HeaderMissing { name } => {
                let mut out = String::new();
                out.append("At least one header, \"");
                out.append(name.as_str());
                out.append("\", is missing");
                out
            },
            RatelimitErrorType::HeaderNotUtf8 { name, value: _ } => {
                let mut out = String::new();
                out.append("The header \"");
                out.append(name.as_str());
                out.append("\" has invalid text encoding");
                out
            },
            RatelimitErrorType::ParsingBoolText { name, text } => {
                let mut out = String::new();
                out.append("The header \"");
                out.append(name.as_str());
                out.append("\" should be a bool but isn't: \"");
                out.append(text.as_str());
                out.append("\"");
                out
            },
            RatelimitErrorType::ParsingFloatText { name, text } => {
                let mut out = String::new();
                out.append("The header \"");
                out.append(name.as_str());
                out.append("\" should be a float but isn't: \"");
                out.append(text.as_str());
                out.append("\"");
                out
            },
            RatelimitErrorType::ParsingIntText { name, text } => {
                let mut out = String::new();
                out.append("The header \"");
                out.append(name.as_str());
                out.append("\" should be an integer but isn't: \"");
                out.append(text.as_str());
                out.append("\"");
                out
            },
        }
    }
}

/// The description text of each error kind.
pub open spec fn spec_message(kind: RatelimitErrorType) -> Seq<char> {
    match kind {
        RatelimitErrorType::NoHeaders => "No headers are present"@,
        RatelimitErrorType::HeaderMissing { name } => "At least one header, \""@ + name@
            + "\", is missing"@,
        RatelimitErrorType::HeaderNotUtf8 { name, value } => "The header \""@ + name@
            + "\" has invalid text encoding"@,
        RatelimitErrorType::ParsingBoolText { name, text } => "The header \""@ + name@
            + "\" should be a bool but isn't: \""@ + text@ + "\""@,
        RatelimitErrorType::ParsingFloatText { name, text } => "The header \""@ + name@
            + "\" should be a float but isn't: \""@ + text@ + "\""@,
        RatelimitErrorType::ParsingIntText { name, text } => "The header \""@ + name@
            + "\" should be an integer but isn't: \""@ + text@ + "\""@,
    }
}

} // verus!
