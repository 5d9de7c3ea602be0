//! The harness's error type.

use vstd::prelude::*;

verus! {

/// An error raised while driving an engine or loading catalog material.
#[derive(Debug, Clone)]
pub enum Error {
    /// The operation is not supported by this engine.
    Unsupported,
    /// XML parsing failed.
    ParseError(String),
    /// XPath evaluation failed.
    XPathError(String),
    /// XQuery evaluation failed.
    XQueryError(String),
    /// XSLT transformation failed.
    XsltError(String),
    /// XSD validation failed.
    XsdError(String),
    /// Reading a file failed.
    IoError(String),
    /// Any other engine-level fault.
    EngineError(String),
}

/// The rendering of each error, as the reports and reasons print it.
pub open spec fn error_msg_spec(e: Error) -> Seq<char> {
    match e {
        Error::Unsupported => "Operation not supported by this engine"@,
        Error::ParseError(m) => "XML parsing error: "@ + m@,
        Error::XPathError(m) => "XPath evaluation error: "@ + m@,
        Error::XQueryError(m) => "XQuery evaluation error: "@ + m@,
        Error::XsltError(m) => "XSLT transformation error: "@ + m@,
        Error::XsdError(m) => "XSD validation error: "@ + m@,
        Error::IoError(m) => "IO error: "@ + m@,
        Error::EngineError(m) => "Engine error: "@ + m@,
    }
}

impl Error {
    /// The human-readable message of this error.
    pub fn message(&self) -> (r: String)
        ensures
            r@ == error_msg_spec(*self),
    {
        match self {
            Error::Unsupported => "Operation not supported by this engine".to_owned(),
            Error::ParseError(m) => prefixed("XML parsing error: ", m),
            Error::XPathError(m) => prefixed("XPath evaluation error: ", m),
            Error::XQueryError(m) => prefixed("XQuery evaluation error: ", m),
            Error::XsltError(m) => prefixed("XSLT transformation error: ", m),
            Error::XsdError(m) => prefixed("XSD validation error: ", m),
            Error::IoError(m) => prefixed("IO error: ", m),
            Error::EngineError(m) => prefixed("Engine error: ", m),
        }
    }
}

/// `prefix` followed by `rest`, as one string.
pub fn prefixed(prefix: &str, rest: &String) -> (r: String)
    ensures
        r@ == prefix@ + rest@,
{
    let mut r = prefix.to_owned();
    r.append(rest.as_str());
    r
}

} // verus!
