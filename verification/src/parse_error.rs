//! Errors of the book parsers.
use vstd::prelude::*;
use crate::numfmt::{decimal, u64_to_string};

verus! {

/// Errors that can occur during book parsing.
#[derive(Debug)]
pub enum ParseError {
    InvalidEpub(String),
    InvalidZip(String),
    InvalidXml(String),
    DrmProtected,
    IoError(String),
    UnsupportedEncoding(String),
    FileTooLarge { size: u64, max: u64 },
    EmptyContent,
}

/// The text of `s` followed by that of `t`.
pub fn concat_str(s: &str, t: &str) -> (r: String)
    ensures
        r@ == s@ + t@,
{
    let mut r = String::from_str(s);
    r.append(t);
    r
}

/// The human-readable message of a parse error.
pub open spec fn parse_error_message(e: ParseError) -> Seq<char> {
    match e {
        ParseError::InvalidEpub(s) => "Invalid EPUB file: "@ + s@,
        ParseError::InvalidZip(s) => "Invalid ZIP archive: "@ + s@,
        ParseError::InvalidXml(s) => "Invalid XML content: "@ + s@,
        ParseError::DrmProtected => "DRM-protected content detected"@,
        ParseError::IoError(s) => "I/O error: "@ + s@,
        ParseError::UnsupportedEncoding(s) => "Unsupported encoding: "@ + s@,
        ParseError::FileTooLarge { size, max } => "File too large: "@ + decimal(size as nat)
            + " bytes (max: "@ + decimal(max as nat) + " bytes)"@,
        ParseError::EmptyContent => "Empty content"@,
    }
}

impl ParseError {
    /// The error's message, as its `Display` form reads.
    pub fn message(&self) -> (m: String)
        ensures
            m@ == parse_error_message(*self),
    {
        match self {
            ParseError::InvalidEpub(s) => concat_str("Invalid EPUB file: ", s.as_str()),
            ParseError::InvalidZip(s) => concat_str("Invalid ZIP archive: ", s.as_str()),
            ParseError::InvalidXml(s) => concat_str("Invalid XML content: ", s.as_str()),
            ParseError::DrmProtected => String::from_str("DRM-protected content detected"),
            ParseError::IoError(s) => concat_str("I/O error: ", s.as_str()),
            ParseError::UnsupportedEncoding(s) => concat_str("Unsupported encoding: ", s.as_str()),
            ParseError::FileTooLarge { size, max } => {
                let mut m = String::from_str("File too large: ");
                let a = u64_to_string(*size);
                m.append(a.as_str());
                m.append(" bytes (max: ");
                let b = u64_to_string(*max);
                m.append(b.as_str());
                m.append(" bytes)");
                m
            },
            ParseError::EmptyContent => String::from_str("Empty content"),
        }
    }
}

} // verus!
