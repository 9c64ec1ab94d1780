//! The proxy's error taxonomy: startup and parse failures, I/O failures and
//! upstream request failures. A failure that arises outside the library (a
//! socket error, a bad configuration file, an upstream HTTP error) is carried
//! as its rendered description; the caller that saw the failure converts it
//! at the boundary.

use vstd::prelude::*;

verus! {

/// The ways a port number inside a route definition can fail to parse as an
/// unsigned 16-bit integer.
#[derive(Clone, Copy, Debug, PartialEq, Eq, Structural)]
pub enum IntParseError {
    /// The text between `:` and `/` was empty.
    Empty,
    /// A character that is not a decimal digit stood where a digit must.
    InvalidDigit,
    /// The digits name a number above the largest 16-bit port.
    PosOverflow,
}

/// A failure while forwarding one request to a backend.
#[derive(Debug)]
pub enum ProxyError {
    RequestFailed(String),
    /// No configured route's local path prefixes the request path; the
    /// request fails on its own, and the connection and its siblings live on.
    NoMatch,
}

/// A failure of the underlying socket or file system.
#[derive(Debug)]
pub enum IoError {
    StdIo(String),
}

/// A failure to understand configuration text.
#[derive(Debug)]
pub enum ParseError {
    ParseInt(IntParseError),
    ProxyDefinition,
    FileConfig(String),
}

/// The library's one error type: every failure is an I/O failure, a parse
/// failure or an upstream-request failure.
#[derive(Debug)]
pub enum Error {
    IoError(IoError),
    ParseError(ParseError),
    ProxyError(ProxyError),
}

/// What `message` reports for each way a port number can fail to parse.
pub open spec fn int_parse_error_text(e: IntParseError) -> Seq<char> {
    match e {
        IntParseError::Empty => "cannot parse integer from empty string"@,
        IntParseError::InvalidDigit => "invalid digit found in string"@,
        IntParseError::PosOverflow => "number too large to fit in target type"@,
    }
}

impl IntParseError {
    /// A human-readable description of the parse failure.
    pub fn message(&self) -> (r: String)
        ensures
            r@ == int_parse_error_text(*self),
    {
        match self {
            IntParseError::Empty => String::from_str("cannot parse integer from empty string"),
            IntParseError::InvalidDigit => String::from_str("invalid digit found in string"),
            IntParseError::PosOverflow => String::from_str("number too large to fit in target type"),
        }
    }
}

/// What `message` reports for a forwarding failure.
pub open spec fn proxy_error_text(e: ProxyError) -> Seq<char> {
    match e {
        ProxyError::RequestFailed(cause) => "Request failed: "@ + cause@,
        ProxyError::NoMatch => "No matching proxy for the request path."@,
    }
}

impl ProxyError {
    /// A human-readable description of the forwarding failure.
    pub fn message(&self) -> (r: String)
        ensures
            r@ == proxy_error_text(*self),
    {
        match self {
            ProxyError::RequestFailed(cause) => {
                String::from_str("Request failed: ").concat(cause.as_str())
            },
            ProxyError::NoMatch => String::from_str("No matching proxy for the request path."),
        }
    }
}

/// What `message` reports for an I/O failure.
pub open spec fn io_error_text(e: IoError) -> Seq<char> {
    match e {
        IoError::StdIo(cause) => "Standard IO error: "@ + cause@,
    }
}

impl IoError {
    /// A human-readable description of the I/O failure.
    pub fn message(&self) -> (r: String)
        ensures
            r@ == io_error_text(*self),
    {
        match self {
            IoError::StdIo(cause) => {
                String::from_str("Standard IO error: ").concat(cause.as_str())
            },
        }
    }
}

/// What `message` reports for a configuration parse failure.
pub open spec fn parse_error_text(e: ParseError) -> Seq<char> {
    match e {
        ParseError::ParseInt(k) => "Parse int error: "@ + int_parse_error_text(k),
        ParseError::ProxyDefinition => "Unable to parse proxy definition."@,
        ParseError::FileConfig(cause) => "Unable to parse config from config file: "@ + cause@,
    }
}

impl ParseError {
    /// A human-readable description of the parse failure.
    pub fn message(&self) -> (r: String)
        ensures
            r@ == parse_error_text(*self),
    {
        match self {
            ParseError::ParseInt(k) => {
                String::from_str("Parse int error: ").concat(k.message().as_str())
            },
            ParseError::ProxyDefinition => String::from_str("Unable to parse proxy definition."),
            ParseError::FileConfig(cause) => {
                String::from_str("Unable to parse config from config file: ").concat(cause.as_str())
            },
        }
    }
}

/// What `message` reports for a failure, prefixed with its class.
pub open spec fn error_text(e: Error) -> Seq<char> {
    match e {
        Error::IoError(inner) => "IO error: "@ + io_error_text(inner),
        Error::ParseError(inner) => "Parse error: "@ + parse_error_text(inner),
        Error::ProxyError(inner) => "Proxy error: "@ + proxy_error_text(inner),
    }
}

impl Error {
    /// A human-readable description of the failure, prefixed with its class.
    pub fn message(&self) -> (r: String)
        ensures
            r@ == error_text(*self),
    {
        match self {
            Error::IoError(e) => String::from_str("IO error: ").concat(e.message().as_str()),
            Error::ParseError(e) => String::from_str("Parse error: ").concat(e.message().as_str()),
            Error::ProxyError(e) => String::from_str("Proxy error: ").concat(e.message().as_str()),
        }
    }
}

impl From<IntParseError> for Error {
    /// Wraps an integer-parse failure as a configuration parse error.
    fn from(value: IntParseError) -> (r: Error) {
        Error::ParseError(ParseError::ParseInt(value))
    }
}

impl vstd::std_specs::convert::FromSpecImpl<IntParseError> for Error {
    open spec fn obeys_from_spec() -> bool {
        true
    }

    open spec fn from_spec(value: IntParseError) -> Error {
        Error::ParseError(ParseError::ParseInt(value))
    }
}

} // verus!
