//! The I/O error type of the text adapters and the errors they raise.
use std::collections::TryReserveError;
use std::io;

use encoding_rs::Encoding;
use vstd::prelude::*;

verus! {

/// `std::io::Error`, carried through the library as an opaque value.
#[verifier::external_type_specification]
#[verifier::external_body]
pub struct ExIoError(io::Error);

/// An error the text adapters raise themselves, before it is reported as
/// an I/O error by [`into_io_error`].
#[derive(Clone, Copy, Debug)]
pub enum TextError {
    /// Appending one more character would pass the limit of
    /// `max_append_len` UTF-8 bytes; reported as `InvalidData`.
    AppendLimit { max_append_len: usize },
    /// The strict policy refused input that was not valid in `encoding`;
    /// reported as `InvalidData`.
    InvalidEncodedInput { encoding: &'static Encoding },
    /// The strict policy refused text that `encoding` cannot represent;
    /// reported as `InvalidInput`.
    UnencodableText { encoding: &'static Encoding },
}

/// Returns an `InvalidData` error reporting that appending more text would
/// pass `max_append_len` UTF-8 bytes (`io::Error::new`). Nothing about the
/// error's contents is stated.
#[verifier::external_body]
fn text_append_limit_error(max_append_len: usize) -> io::Error {
    io::Error::new(
        io::ErrorKind::InvalidData,
        format!("text exceeds the append limit of {max_append_len} bytes"),
    )
}

/// An `InvalidData` error naming `encoding` (`Encoding::name`,
/// `io::Error::new`); nothing about the error's contents is stated.
#[verifier::external_body]
fn invalid_encoded_input(encoding: &'static Encoding) -> io::Error {
    io::Error::new(io::ErrorKind::InvalidData, format!("input is not valid {}", encoding.name()))
}

/// An `InvalidInput` error naming `encoding` (`Encoding::name`,
/// `io::Error::new`); nothing about the error's contents is stated.
#[verifier::external_body]
fn unencodable_text(encoding: &'static Encoding) -> io::Error {
    io::Error::new(io::ErrorKind::InvalidInput, format!("text cannot be encoded as {}", encoding.name()))
}

/// Reports `error` as an I/O error of the kind its variant names.
pub fn into_io_error(error: TextError) -> io::Error {
    match error {
        TextError::AppendLimit { max_append_len } => text_append_limit_error(max_append_len),
        TextError::InvalidEncodedInput { encoding } => invalid_encoded_input(encoding),
        TextError::UnencodableText { encoding } => unencodable_text(encoding),
    }
}

/// Converts an allocation failure into an `OutOfMemory` I/O error
/// (`io::Error::from`). Nothing about the error's contents is stated.
#[verifier::external_body]
pub(crate) fn allocation_error_to_io(error: TryReserveError) -> io::Error {
    io::Error::from(error)
}

} // verus!
