//! The store's error type: an I/O failure or a serialization failure,
//! each carrying a descriptive message.

use vstd::prelude::*;

verus! {

/// The kind of an [`Error`]: a file operation failed, or encoding/decoding
/// a snapshot failed.
#[derive(Debug)]
pub enum ErrorType {
    /// I/O error when reading, writing or renaming the backing file.
    Io,
    /// An error while serializing or deserializing the dataset.
    Serialization,
}

#[derive(Debug)]
pub(crate) enum ErrorCode {
    Io(String),
    Serialization(String),
}

/// An error returned by the store's operations.
#[derive(Debug)]
pub struct Error {
    err_code: ErrorCode,
}

impl Error {
    /// True when this error reports an I/O failure.
    pub closed spec fn is_io(self) -> bool {
        self.err_code is Io
    }

    /// True when this error reports a serialization failure.
    pub closed spec fn is_serialization(self) -> bool {
        self.err_code is Serialization
    }

    /// The message text carried by this error.
    pub closed spec fn message_view(self) -> Seq<char> {
        match self.err_code {
            ErrorCode::Io(m) => m@,
            ErrorCode::Serialization(m) => m@,
        }
    }

    pub(crate) fn new(err_code: ErrorCode) -> (e: Error)
        ensures
            e.is_io() == (err_code is Io),
            e.is_serialization() == (err_code is Serialization),
            e.message_view() == (match err_code {
                ErrorCode::Io(m) => m@,
                ErrorCode::Serialization(m) => m@,
            }),
    {
        Error { err_code }
    }

    /// An I/O error carrying `message`, for callers that perform the file
    /// steps of a dump or load themselves.
    pub fn io_error(message: String) -> (e: Error)
        ensures
            e.is_io(),
            !e.is_serialization(),
            e.message_view() == message@,
    {
        Error { err_code: ErrorCode::Io(message) }
    }

    /// A serialization error carrying `message`, for callers that encode
    /// typed values themselves.
    pub fn serialization_error(message: String) -> (e: Error)
        ensures
            e.is_serialization(),
            !e.is_io(),
            e.message_view() == message@,
    {
        Error { err_code: ErrorCode::Serialization(message) }
    }

    /// The kind of this error.
    pub fn get_type(&self) -> (t: ErrorType)
        ensures
            (t is Io) == self.is_io(),
            (t is Serialization) == self.is_serialization(),
    {
        match self.err_code {
            ErrorCode::Io(_) => ErrorType::Io,
            ErrorCode::Serialization(_) => ErrorType::Serialization,
        }
    }

    /// The error's message text, for callers that want to show it.
    pub fn message(&self) -> (m: &str)
        ensures
            m@ == self.message_view(),
    {
        match &self.err_code {
            ErrorCode::Io(m) => m.as_str(),
            ErrorCode::Serialization(m) => m.as_str(),
        }
    }
}

} // verus!
