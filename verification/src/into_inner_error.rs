//! Error returned when a consuming writer conversion cannot finish.
use std::io;

use vstd::prelude::*;

verus! {

/// Error returned when a consuming writer conversion cannot finish.
///
/// The value keeps both the I/O error and the writer it came from so callers
/// can inspect pending state, repair a transient output failure and retry.
#[derive(Debug)]
pub struct IntoInnerError<T> {
    error: io::Error,
    writer: T,
}

impl<T> IntoInnerError<T> {
    /// The retained I/O error.
    pub closed spec fn error_spec(&self) -> io::Error {
        self.error
    }

    /// The retained writer.
    pub closed spec fn writer_spec(&self) -> T {
        self.writer
    }

    /// Creates a recoverable consuming-conversion error.
    pub fn new(error: io::Error, writer: T) -> (result: Self)
        ensures
            result.error_spec() == error,
            result.writer_spec() == writer,
    {
        IntoInnerError { error, writer }
    }

    /// Returns the I/O error that prevented conversion.
    pub fn error(&self) -> (error: &io::Error)
        ensures
            *error == self.error_spec(),
    {
        &self.error
    }

    /// Returns the retained writer.
    pub fn writer(&self) -> (writer: &T)
        ensures
            *writer == self.writer_spec(),
    {
        &self.writer
    }

    /// Returns a mutable reference to the retained writer.
    pub fn writer_mut(&mut self) -> (writer: &mut T)
        ensures
            *writer == old(self).writer_spec(),
            final(self).writer_spec() == *final(writer),
            final(self).error_spec() == old(self).error_spec(),
    {
        &mut self.writer
    }

    /// Consumes this value and returns the retained writer.
    pub fn into_writer(self) -> (writer: T)
        ensures
            writer == self.writer_spec(),
    {
        self.writer
    }

    /// Consumes this value and returns the I/O error.
    pub fn into_error(self) -> (error: io::Error)
        ensures
            error == self.error_spec(),
    {
        self.error
    }

    /// Consumes this value and returns `(error, writer)`.
    pub fn into_parts(self) -> (parts: (io::Error, T))
        ensures
            parts.0 == self.error_spec(),
            parts.1 == self.writer_spec(),
    {
        (self.error, self.writer)
    }
}

} // verus!
