//! The library's closed set of failures.
use vstd::prelude::*;

verus! {

/// A failure of one step; each variant carries the message of its cause.
#[derive(Clone, Debug, PartialEq, Eq)]
pub enum Error {
    /// The whois lookup of a domain failed.
    WhoisError(String),
    /// Reading or writing a file failed.
    IoError(String),
    /// A stored document could not be read or written.
    SerdeError(String),
    /// A date-time value is malformed.
    ChronoFormatParseError(String),
    /// A whois answer holds no expiry field.
    CanFindWhoisField,
    /// The configuration is missing or invalid.
    ConfigError(String),
    /// An email could not be composed.
    LettreEmailError(String),
    /// An email could not be delivered.
    LettreSmtpError(String),
}

pub open spec fn missing_field_text() -> Seq<char> {
    "Can't find whois field"@
}

impl Error {
    /// The text a report shows for this failure.
    pub open spec fn message_spec(&self) -> Seq<char> {
        match self {
            Error::WhoisError(m) => m@,
            Error::IoError(m) => m@,
            Error::SerdeError(m) => m@,
            Error::ChronoFormatParseError(m) => m@,
            Error::CanFindWhoisField => missing_field_text(),
            Error::ConfigError(m) => m@,
            Error::LettreEmailError(m) => m@,
            Error::LettreSmtpError(m) => m@,
        }
    }

    /// A variant-by-variant copy.
    pub fn duplicate(&self) -> (r: Error)
        ensures
            r == *self,
    {
        match self {
            Error::WhoisError(m) => Error::WhoisError(m.clone()),
            Error::IoError(m) => Error::IoError(m.clone()),
            Error::SerdeError(m) => Error::SerdeError(m.clone()),
            Error::ChronoFormatParseError(m) => Error::ChronoFormatParseError(m.clone()),
            Error::CanFindWhoisField => Error::CanFindWhoisField,
            Error::ConfigError(m) => Error::ConfigError(m.clone()),
            Error::LettreEmailError(m) => Error::LettreEmailError(m.clone()),
            Error::LettreSmtpError(m) => Error::LettreSmtpError(m.clone()),
        }
    }

    pub fn message(&self) -> (r: String)
        ensures
            r@ == self.message_spec(),
    {
        match self {
            Error::WhoisError(m) => m.clone(),
            Error::IoError(m) => m.clone(),
            Error::SerdeError(m) => m.clone(),
            Error::ChronoFormatParseError(m) => m.clone(),
            Error::CanFindWhoisField => "Can't find whois field".to_owned(),
            Error::ConfigError(m) => m.clone(),
            Error::LettreEmailError(m) => m.clone(),
            Error::LettreSmtpError(m) => m.clone(),
        }
    }
}

} // verus!
