//! Text adapters over byte encodings implemented by `encoding_rs`.
use std::io;

use encoding_rs::Encoding;
use vstd::prelude::*;

use crate::coding_error_policy::CodingErrorPolicy;
use crate::io_error::{TextError, into_io_error};
use crate::line_ending_set::LineEndingSet;
use crate::line_scan::line_len;
use crate::string_text_reader::StringTextReader;
use crate::traits::{
    TextLineRead,
    TextRead,
};

verus! {

/// `encoding_rs::Encoding`, carried as an opaque value.
#[verifier::external_type_specification]
#[verifier::external_body]
pub struct ExEncoding(Encoding);

/// What `Encoding::decode` gives for `bytes`: the decoded text, and whether
/// malformed sequences were replaced.
pub uninterp spec fn encoding_decode(encoding: Encoding, bytes: Seq<u8>) -> (Seq<char>, bool);

/// What `Encoding::encode` gives for `text`: the encoded bytes, and whether
/// unmappable characters were replaced.
pub uninterp spec fn encoding_encode(encoding: Encoding, text: Seq<char>) -> (Seq<u8>, bool);

/// Decodes `bytes` with `encoding` (`Encoding::decode`), returning the text
/// and whether malformed input was replaced; the result is named by
/// [`encoding_decode`].
#[verifier::external_body]
fn decode_with(encoding: &'static Encoding, bytes: &[u8]) -> (decoded: (String, bool))
    ensures
        (decoded.0@, decoded.1) == encoding_decode(*encoding, bytes@),
{
    let (text, _, had_errors) = encoding.decode(bytes);
    (text.into_owned(), had_errors)
}

/// Encodes `text` with `encoding` (`Encoding::encode`), returning the bytes
/// and whether unmappable characters were replaced; the result is named by
/// [`encoding_encode`].
#[verifier::external_body]
fn encode_with(encoding: &'static Encoding, text: &str) -> (encoded: (Vec<u8>, bool))
    ensures
        (encoded.0@, encoded.1) == encoding_encode(*encoding, text@),
{
    let (bytes, _, had_errors) = encoding.encode(text);
    (bytes.into_owned(), had_errors)
}

/// Applies `policy` to text decoded with `encoding`: text in which
/// malformed input was replaced is refused under the strict policy (an
/// `InvalidData` error once reported), and kept otherwise.
pub fn check_decoded(text: String, had_errors: bool, encoding: &'static Encoding, policy: CodingErrorPolicy) -> (result:
    Result<String, TextError>)
    ensures
        result.is_ok() == !(had_errors && policy == CodingErrorPolicy::Strict),
        result matches Ok(kept) ==> kept@ == text@,
        result is Err ==> result == Err::<String, TextError>(TextError::InvalidEncodedInput { encoding }),
{
    if had_errors && policy == CodingErrorPolicy::Strict {
        return Err(TextError::InvalidEncodedInput { encoding });
    }
    Ok(text)
}

/// Applies `policy` to bytes encoded with `encoding`: bytes in which
/// unmappable text was replaced are refused under the strict policy (an
/// `InvalidInput` error once reported), and kept otherwise.
pub fn check_encoded(bytes: Vec<u8>, had_errors: bool, encoding: &'static Encoding, policy: CodingErrorPolicy) -> (result:
    Result<Vec<u8>, TextError>)
    ensures
        result.is_ok() == !(had_errors && policy == CodingErrorPolicy::Strict),
        result matches Ok(kept) ==> kept@ == bytes@,
        result is Err ==> result == Err::<Vec<u8>, TextError>(TextError::UnencodableText { encoding }),
{
    if had_errors && policy == CodingErrorPolicy::Strict {
        return Err(TextError::UnencodableText { encoding });
    }
    Ok(bytes)
}

/// Decodes `bytes` with `encoding`; under the strict policy, input that
/// needed replacement is rejected (an `InvalidData` error once reported).
pub fn decode_bytes(bytes: &[u8], encoding: &'static Encoding, policy: CodingErrorPolicy) -> (result: Result<String, TextError>)
    ensures
        result is Err ==> result == Err::<String, TextError>(TextError::InvalidEncodedInput { encoding }),
        result.is_ok() == !(encoding_decode(*encoding, bytes@).1 && policy == CodingErrorPolicy::Strict),
        result matches Ok(text) ==> text@ == encoding_decode(*encoding, bytes@).0,
{
    let (text, had_errors) = decode_with(encoding, bytes);
    check_decoded(text, had_errors, encoding, policy)
}

/// Encodes `text` with `encoding`; under the strict policy, text that
/// needed replacement is rejected (an `InvalidInput` error once reported).
pub fn encode_text(text: &str, encoding: &'static Encoding, policy: CodingErrorPolicy) -> (result: Result<Vec<u8>, TextError>)
    ensures
        result is Err ==> result == Err::<Vec<u8>, TextError>(TextError::UnencodableText { encoding }),
        result.is_ok() == !(encoding_encode(*encoding, text@).1 && policy == CodingErrorPolicy::Strict),
        result matches Ok(bytes) ==> bytes@ == encoding_encode(*encoding, text@).0,
{
    let (bytes, had_errors) = encode_with(encoding, text);
    check_encoded(bytes, had_errors, encoding, policy)
}

/// Text reader over input decoded up front with an `encoding_rs` encoding.
#[derive(Debug)]
pub struct EncodedTextReader {
    inner: StringTextReader,
}

impl EncodedTextReader {
    /// The reader over the decoded text.
    pub closed spec fn reader(&self) -> StringTextReader {
        self.inner
    }

    /// Decodes `bytes` with `encoding` and creates a reader over the text;
    /// under the strict policy, malformed input is an `InvalidData` error.
    pub fn from_bytes(bytes: &[u8], encoding: &'static Encoding, policy: CodingErrorPolicy) -> (result: io::Result<Self>)
        ensures
            result.is_ok() == !(encoding_decode(*encoding, bytes@).1 && policy
                == CodingErrorPolicy::Strict),
            result matches Ok(reader) ==> reader.reader().stream() == encoding_decode(
                *encoding,
                bytes@,
            ).0 && reader.reader().index() == 0 && reader.reader().endings()
                == LineEndingSet::all_spec(),
    {
        match decode_bytes(bytes, encoding, policy) {
            Ok(text) => Ok(EncodedTextReader { inner: StringTextReader::new(text) }),
            Err(error) => Err(into_io_error(error)),
        }
    }

    /// Returns the reader over the decoded text.
    pub fn into_inner(self) -> (reader: StringTextReader)
        ensures
            reader == self.reader(),
    {
        self.inner
    }

    /// Reads the next character.
    fn next_char(&mut self) -> (ch: Option<char>)
        ensures
            old(self).reader().stream().len() > 0 ==> ch == Some(old(self).reader().stream()[0])
                && final(self).reader().stream() == old(self).reader().stream().drop_first(),
            old(self).reader().stream().len() == 0 ==> ch.is_none() && final(self).reader().stream()
                == old(self).reader().stream(),
    {
        match TextRead::read_char(&mut self.inner) {
            Ok(ch) => ch,
            Err(_) => None,
        }
    }

    /// Reads up to `max` characters into `output`.
    fn next_chars(&mut self, output: &mut Vec<char>, max: usize) -> (count: usize)
        ensures
            count == if max < old(self).reader().stream().len() {
                max as int
            } else {
                old(self).reader().stream().len() as int
            },
            final(output)@ == old(output)@ + old(self).reader().stream().take(count as int),
            final(self).reader().stream() == old(self).reader().stream().skip(count as int),
    {
        match TextRead::read_chars(&mut self.inner, output, max) {
            Ok(count) => count,
            Err(_) => 0,
        }
    }

    /// Appends all remaining text to `output`.
    fn rest_to_string(&mut self, output: &mut String) -> (count: usize)
        ensures
            count == old(self).reader().stream().len(),
            final(output)@ == old(output)@ + old(self).reader().stream(),
            final(self).reader().stream().len() == 0,
    {
        match TextRead::read_to_string(&mut self.inner, output) {
            Ok(count) => count,
            Err(_) => 0,
        }
    }

    /// Appends the next line, its terminator included, to `output`.
    fn next_line(&mut self, output: &mut String) -> (read: bool)
        ensures
            read == (old(self).reader().stream().len() > 0),
            final(output)@ == old(output)@ + old(self).reader().stream().take(
                line_len(old(self).reader().stream(), old(self).reader().endings()),
            ),
            final(self).reader().stream() == old(self).reader().stream().skip(
                line_len(old(self).reader().stream(), old(self).reader().endings()),
            ),
    {
        match TextLineRead::read_line(&mut self.inner, output) {
            Ok(read) => read,
            Err(_) => false,
        }
    }
}

impl TextRead for EncodedTextReader {
    type Error = io::Error;

    fn read_char(&mut self) -> (outcome: Result<Option<char>, Self::Error>)
        ensures
            old(self).reader().stream().len() > 0 ==> outcome == Ok::<Option<char>, io::Error>(Some(old(self).reader().stream()[0])) && final(self).reader().stream()
                == old(self).reader().stream().drop_first(),
            old(self).reader().stream().len() == 0 ==> outcome == Ok::<Option<char>, io::Error>(None) && final(self).reader().stream() == old(self).reader().stream(),
    {
        Ok(EncodedTextReader::next_char(self))
    }

    fn read_chars(&mut self, output: &mut Vec<char>, max: usize) -> (outcome: Result<usize, Self::Error>)
        ensures
            ({
                let count: int = if max < old(self).reader().stream().len() {
                    max as int
                } else {
                    old(self).reader().stream().len() as int
                };
                &&& outcome == Ok::<usize, io::Error>(count as usize)
                &&& final(output)@ == old(output)@ + old(self).reader().stream().take(count)
                &&& final(self).reader().stream() == old(self).reader().stream().skip(count)
            }),
    {
        Ok(EncodedTextReader::next_chars(self, output, max))
    }

    fn read_to_string(&mut self, output: &mut String) -> (outcome: Result<usize, Self::Error>)
        ensures
            (outcome matches Ok(count) && count == old(self).reader().stream().len()),
            final(output)@ == old(output)@ + old(self).reader().stream(),
            final(self).reader().stream().len() == 0,
    {
        Ok(EncodedTextReader::rest_to_string(self, output))
    }
}

impl TextLineRead for EncodedTextReader {
    fn read_line(&mut self, output: &mut String) -> (outcome: Result<bool, Self::Error>)
        ensures
            outcome == Ok::<bool, io::Error>(old(self).reader().stream().len() > 0),
            final(output)@ == old(output)@ + old(self).reader().stream().take(line_len(old(self).reader().stream(), old(self).reader().endings())),
            final(self).reader().stream() == old(self).reader().stream().skip(line_len(old(self).reader().stream(), old(self).reader().endings())),
    {
        Ok(EncodedTextReader::next_line(self, output))
    }
}

} // verus!
