//! The ways in which loading the dictionary fails.

use crate::schema::XmlFailure;
use vstd::prelude::*;

verus! {

/// `std::io::Error`, taken as it is: nothing inside it is looked at.
#[verifier::external_type_specification]
#[verifier::external_body]
pub struct ExIoError(std::io::Error);

/// A failure of the dictionary pipeline, by kind.
#[derive(Debug)]
pub enum Error {
    /// An operation on a file or a stream failed; `operation` names it.
    Io { source: std::io::Error, operation: String },
    /// The document is malformed or departs from the schema.
    Xml(XmlFailure),
    /// The clock is inconsistent: a file was modified after the present.
    Time,
    /// The dataset could not be fetched.
    Network,
    /// No directory for the application's data could be determined.
    ProjectDir,
    /// A failure of no known kind.
    Unknown,
}

impl Error {
    /// The failure of the operation `op` with the cause `source`.
    pub fn from_io(op: &str, source: std::io::Error) -> (e: Error)
        ensures
            e matches Error::Io { source: s, operation } && s == source && operation@ == op@,
    {
        Error::Io { source, operation: op.to_owned() }
    }
}

impl Default for Error {
    fn default() -> (e: Error)
        ensures
            e is Unknown,
    {
        Error::Unknown
    }
}

} // verus!
