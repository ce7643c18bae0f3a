//! The errors of the server core.

use crate::address::{colon_hex, decimal, push_decimal, MacAddress};
use vstd::prelude::*;
use vstd::string::StringExecFns;

verus! {

/// The error of `serde_yaml`, carried as it is.
#[verifier::external_type_specification]
#[verifier::external_body]
pub struct ExYamlError(serde_yaml::Error);

/// The error of `tera`, carried as it is.
#[verifier::external_type_specification]
#[verifier::external_body]
pub struct ExTeraError(tera::Error);

/// The error of `url::Url::parse`, carried as it is.
#[verifier::external_type_specification]
#[verifier::external_body]
pub struct ExUrlError(url::ParseError);

/// The error of a header name that is not valid, carried as it is.
#[verifier::external_type_specification]
#[verifier::external_body]
pub struct ExInvalidHeaderName(reqwest::header::InvalidHeaderName);

/// The error of a header value that is not valid, carried as it is.
#[verifier::external_type_specification]
#[verifier::external_body]
pub struct ExInvalidHeaderValue(reqwest::header::InvalidHeaderValue);

/// What is wrong with an option that a response needs.
#[derive(Clone, Copy, Debug, PartialEq, Eq, Structural)]
pub enum OptionError {
    /// No option with this tag is in the set.
    Missing(u8),
    /// The option with this tag holds a value of another shape.
    WrongShape(u8),
}

impl OptionError {
    /// What the error says.
    pub open spec fn text(self) -> Seq<char> {
        match self {
            OptionError::Missing(tag) => "option "@ + decimal(tag) + " is missing"@,
            OptionError::WrongShape(tag) => "option "@ + decimal(tag) + " has another type"@,
        }
    }

    /// The message of the error.
    pub fn message(&self) -> (r: String)
        ensures
            r@ == self.text(),
    {
        let mut out = "option ".to_string();
        match self {
            OptionError::Missing(tag) => {
                push_decimal(&mut out, *tag);
                out.append(" is missing");
            },
            OptionError::WrongShape(tag) => {
                push_decimal(&mut out, *tag);
                out.append(" has another type");
            },
        }
        out
    }
}

/// Why handling a packet, a source or a configuration failed.
#[derive(Debug)]
pub enum DhcpError {
    SerdeYamlError(serde_yaml::Error),
    SourceKindUnknown,
    SerdeErrorString(String),
    TeraError(tera::Error),
    UrlError(url::ParseError),
    InvalidHeaderName(reqwest::header::InvalidHeaderName),
    InvalidHeaderValue(reqwest::header::InvalidHeaderValue),
    TooManyHeaders,
    ClientIpAddressMissing(MacAddress),
    DhcpLibError(OptionError),
    CustomRestTypeError,
    ConfigFileNotFound,
}

pub type DhcpResult<T> = Result<T, DhcpError>;


impl DhcpError {
    /// The message of the error, as a log line shows it.
    pub fn message(&self) -> (r: String)
        ensures
            self is SourceKindUnknown ==> r@ == "Source unknown"@,
            self is CustomRestTypeError ==> r@ == "Custom option type error"@,
            self is ConfigFileNotFound ==> r@ == "no config file found"@,
            self is TooManyHeaders ==> r@ == "too many headers"@,
            self matches DhcpError::SerdeErrorString(text) ==> r@ == text@,
            self matches DhcpError::ClientIpAddressMissing(mac) ==> r@ == colon_hex(mac.bytes()),
            self matches DhcpError::DhcpLibError(e) ==> r@ == e.text(),
    {
        match self {
            DhcpError::SerdeYamlError(e) => e.to_string(),
            DhcpError::SourceKindUnknown => "Source unknown".to_string(),
            DhcpError::SerdeErrorString(text) => text.clone(),
            DhcpError::TeraError(e) => e.to_string(),
            DhcpError::UrlError(e) => e.to_string(),
            DhcpError::InvalidHeaderName(e) => e.to_string(),
            DhcpError::InvalidHeaderValue(e) => e.to_string(),
            DhcpError::TooManyHeaders => "too many headers".to_string(),
            DhcpError::ClientIpAddressMissing(mac) => mac.text(),
            DhcpError::DhcpLibError(e) => e.message(),
            DhcpError::CustomRestTypeError => "Custom option type error".to_string(),
            DhcpError::ConfigFileNotFound => "no config file found".to_string(),
        }
    }
}

} // verus!
