//! What the library refuses, and in which words.
use vstd::prelude::*;

verus! {

#[derive(Clone, Copy, Debug, PartialEq, Eq, Structural)]
pub enum Error {
    /// The configuration names no path.
    EmptyFilePath,
    /// The path names no file.
    EmptyFileName,
    /// The gzip encoder failed.
    Compression,
    /// The sink does not hold its file.
    NoFileHandle,
}

impl Error {
    pub open spec fn spec_message(self) -> Seq<char> {
        match self {
            Error::EmptyFilePath => "file_path cannot be empty"@,
            Error::EmptyFileName => "log_file_name cannot be empty"@,
            Error::Compression => "could not compress the log file"@,
            Error::NoFileHandle => "could not get file handle"@,
        }
    }

    /// The words in which the error is reported.
    pub fn message(&self) -> (text: String)
        ensures
            text@ == self.spec_message(),
    {
        match self {
            Error::EmptyFilePath => "file_path cannot be empty".to_owned(),
            Error::EmptyFileName => "log_file_name cannot be empty".to_owned(),
            Error::Compression => "could not compress the log file".to_owned(),
            Error::NoFileHandle => "could not get file handle".to_owned(),
        }
    }
}

} // verus!
