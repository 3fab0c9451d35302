//! Errors of the server.
use vstd::prelude::*;
use vstd::string::*;

verus! {

/// What can go wrong while answering a request.
#[derive(Debug)]
pub enum Error {
    HttpParsing,
    HttpMethod,
    NoSuchFile,
    Forbidden,
    FileError(String),
    PaddingError,
    Write,
    Read,
}

/// The message that describes each error. The message of `FileError` does not name
/// the file: its format takes the literal `0` as argument.
pub open spec fn error_message(e: Error) -> Seq<char> {
    match e {
        Error::HttpParsing => "Http parsing failed"@,
        Error::HttpMethod => "Only GET supported"@,
        Error::NoSuchFile => "No such file"@,
        Error::Forbidden => "This resource requires admin privilege"@,
        Error::FileError(_) => "Problem with file 0"@,
        Error::PaddingError => "Padding Error"@,
        Error::Write => "Error writing hex string"@,
        Error::Read => "Error reading stream"@,
    }
}

impl Error {
    /// The message that describes the error.
    pub fn message(&self) -> (r: String)
        ensures
            r@ == error_message(*self),
    {
        match self {
            Error::HttpParsing => String::from_str("Http parsing failed"),
            Error::HttpMethod => String::from_str("Only GET supported"),
            Error::NoSuchFile => String::from_str("No such file"),
            Error::Forbidden => String::from_str("This resource requires admin privilege"),
            Error::FileError(_) => String::from_str("Problem with file 0"),
            Error::PaddingError => String::from_str("Padding Error"),
            Error::Write => String::from_str("Error writing hex string"),
            Error::Read => String::from_str("Error reading stream"),
        }
    }
}

} // verus!
