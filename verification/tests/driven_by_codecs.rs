use std::io::{self, Cursor};

use qubit_codec::{TranscodeDecodeInput, TranscodeStatus, Transcoder};
use qubit_codec_text::{
    CharsetDecodeError, CharsetDecodePolicy, CharsetDecoder, CharsetEncodeError, CharsetEncoder, Utf8Codec,
};
use qubit_io_text::decoded_buffer::{DecodeStatus, DecodedBuffer, FillAction};
use qubit_io_text::line_scan::{LineScanner, ScanOutcome};
use qubit_io_text::string_decode::{ensure_char_capacity, initial_char_capacity, DecodeRun, StringDecodeError};
use qubit_io_text::string_encode::{ensure_owned_capacity, fill_char_chunk, map_capacity_bound, EncodeRun};
use qubit_io_text::LineEndingSet;

fn status(status: TranscodeStatus) -> DecodeStatus {
    match status {
        TranscodeStatus::Complete => DecodeStatus::Complete,
        TranscodeStatus::NeedInput { required } => DecodeStatus::NeedInput { required: required.get() },
        TranscodeStatus::NeedOutput { required } => DecodeStatus::NeedOutput { required: required.get() },
    }
}

fn to_io<E: std::error::Error + Send + Sync + 'static>(error: E) -> io::Error {
    io::Error::new(io::ErrorKind::InvalidData, error)
}

struct Reader {
    input: TranscodeDecodeInput<Cursor<Vec<u8>>>,
    decoder: CharsetDecoder<Utf8Codec>,
    buffer: DecodedBuffer,
    scratch: Vec<char>,
}

impl Reader {
    fn new(bytes: &[u8], capacity: usize) -> Self {
        let buffer = DecodedBuffer::new(capacity);
        Reader {
            input: TranscodeDecodeInput::with_capacity(Cursor::new(bytes.to_vec()), buffer.capacity()),
            decoder: CharsetDecoder::with_policy(Utf8Codec, CharsetDecodePolicy::report()),
            buffer,
            scratch: Vec::new(),
        }
    }

    fn fill(&mut self) -> io::Result<bool> {
        let mut action = self.buffer.fill_action();
        loop {
            action = match action {
                FillAction::Ready => return Ok(true),
                FillAction::End => return Ok(false),
                FillAction::Start => {
                    let required = self.decoder.max_reset_output_len().map_err(to_io)?;
                    self.buffer.reserve(required);
                    self.scratch.resize(self.buffer.capacity(), '\0');
                    let written = self.input.reset(&mut self.decoder, &mut to_io, &mut self.scratch, 0, required)?;
                    self.buffer.on_started(&self.scratch[..written]);
                    self.buffer.fill_action()
                }
                FillAction::Transcode { capacity } => {
                    self.scratch.resize(capacity, '\0');
                    match self.input.transcode_step(&mut self.decoder, &mut to_io, &mut self.scratch, 0, capacity)? {
                        None => self.buffer.at_input_end(),
                        Some(progress) => {
                            self.buffer.on_transcoded(&self.scratch[..progress.written()], status(progress.status()))
                        }
                    }
                }
                FillAction::Refill { required } => {
                    let filled = self.input.fill_until(required)?;
                    self.buffer.after_refill(filled)
                }
                FillAction::TranscodeEof { capacity } => {
                    self.scratch.resize(capacity, '\0');
                    let progress =
                        self.input.transcode_eof_step(&mut self.decoder, &mut to_io, &mut self.scratch, 0, capacity)?;
                    self.buffer
                        .on_eof_transcoded(&self.scratch[..progress.written()], status(progress.status()))
                        .map_err(|_| io::Error::from(io::ErrorKind::InvalidData))?
                }
                FillAction::Finish => {
                    let bound = self.decoder.max_finish_output_len().map_err(to_io)?;
                    let count = self.buffer.finish_count(bound);
                    self.scratch.resize(count, '\0');
                    let written = self.input.finish(&mut self.decoder, &mut to_io, &mut self.scratch, 0, count)?;
                    self.buffer.on_finished(&self.scratch[..written])
                }
            };
        }
    }

    fn read_char(&mut self) -> io::Result<Option<char>> {
        if let Some(ch) = self.buffer.take_pending() {
            return Ok(Some(ch));
        }
        if !self.fill()? {
            return Ok(None);
        }
        Ok(Some(self.buffer.next_buffered()))
    }

    fn read_to_string(&mut self) -> io::Result<String> {
        let mut text = String::new();
        while self.fill()? {
            self.buffer.take_all_buffered(&mut text);
        }
        Ok(text)
    }

    fn read_line(&mut self, output: &mut String) -> io::Result<bool> {
        let mut scanner = LineScanner::new(self.buffer.line_endings());
        let mut read = false;
        loop {
            let next = self.read_char()?;
            let had = next.is_some();
            match scanner.step(next, output) {
                ScanOutcome::Continue => read = true,
                ScanOutcome::Done => return Ok(read || had),
                ScanOutcome::DoneUnread(ch) => {
                    self.buffer.set_pending(Some(ch));
                    return Ok(true);
                }
            }
        }
    }
}

#[test]
fn buffered_decoding_reads_hello() {
    let mut reader = Reader::new("hello".as_bytes(), 8192);
    assert_eq!("hello", reader.read_to_string().unwrap());
}

#[test]
fn buffered_decoding_splits_multibyte_across_refills() {
    let text = "a\u{4e2d}\u{6587}b\u{1f600}c";
    let mut reader = Reader::new(text.as_bytes(), 4);
    let mut chars = String::new();
    while let Some(ch) = reader.read_char().unwrap() {
        chars.push(ch);
    }
    assert_eq!(text, chars);
}

#[test]
fn buffered_decoding_reports_truncated_input() {
    let mut reader = Reader::new(b"ok\xe4\xb8", 4);
    assert_eq!(Some('o'), reader.read_char().unwrap());
    assert_eq!(Some('k'), reader.read_char().unwrap());
    assert!(reader.read_char().is_err());
}

#[test]
fn buffered_decoding_reads_lines() {
    let mut reader = Reader::new("one\r\ntwo\rthree\n".as_bytes(), 4);
    let mut lines = Vec::new();
    loop {
        let mut line = String::new();
        if !reader.read_line(&mut line).unwrap() {
            break;
        }
        lines.push(line);
    }
    assert_eq!(vec!["one\r\n", "two\r", "three\n"], lines);
    let mut reader = Reader::new("a\rb\r\n".as_bytes(), 4);
    reader.buffer = DecodedBuffer::new(4).with_line_endings(LineEndingSet::lf());
    let mut line = String::new();
    assert!(reader.read_line(&mut line).unwrap());
    assert_eq!("a\rb\r\n", line);
}

fn decode_string(input: &[u8], input_index: usize, output: &mut String) -> Result<(), CharsetDecodeError> {
    let mut decoder = CharsetDecoder::with_policy(Utf8Codec, CharsetDecodePolicy::report());
    let charset = decoder.charset();
    let fail = |error: StringDecodeError| {
        CharsetDecodeError::new(charset, qubit_codec_text::CharsetDecodeErrorKind::OutputLengthOverflow, match error {
            StringDecodeError::IncompleteSequence { input_index, .. } => input_index,
            StringDecodeError::InvalidInputIndex { input_index, .. } => input_index,
            StringDecodeError::OutputLengthOverflow => usize::MAX,
        })
    };
    let map = |error| CharsetDecodeError::from_transcode_error(charset, error);
    let mut run = DecodeRun::begin(output, input.len(), input_index).map_err(fail)?;
    let result = (|| {
        let capacity = initial_char_capacity(decoder.max_reset_output_len().ok()).map_err(fail)?;
        let mut chars = Vec::new();
        ensure_char_capacity(&mut chars, capacity).map_err(fail)?;
        let written = decoder.reset(chars.as_mut_slice(), 0).map_err(map)?;
        run.after_reset(output, &chars[..written]).map_err(fail)?;
        loop {
            let progress = decoder.transcode(input, run.cursor(), chars.as_mut_slice(), 0).map_err(map)?;
            let more = run
                .after_transcode(output, &mut chars, progress.written(), progress.read(), status(progress.status()))
                .map_err(fail)?;
            if !more {
                break;
            }
        }
        run.finish_capacity(&mut chars, decoder.max_finish_output_len().ok()).map_err(fail)?;
        let written = decoder.finish(chars.as_mut_slice(), 0).map_err(map)?;
        run.after_finish(output, &chars[..written]).map_err(fail)
    })();
    if result.is_err() {
        run.abort(output);
    }
    result
}

#[test]
fn string_decoding_appends_decoded_text() {
    let mut output = String::from(">");
    decode_string("xy\u{e9}\u{1f600}".as_bytes(), 1, &mut output).unwrap();
    assert_eq!(">y\u{e9}\u{1f600}", output);
}

#[test]
fn string_decoding_restores_output_on_error() {
    let mut output = String::from(">");
    let error = decode_string(b"ab\xe4\xb8", 0, &mut output).unwrap_err();
    assert_eq!(2, error.index());
    assert_eq!(">", output);
    let mut output = String::from("kept");
    assert!(decode_string(b"ab", 3, &mut output).is_err());
    assert_eq!("kept", output);
}

fn encode_string(input: &str) -> Result<Vec<u8>, CharsetEncodeError> {
    let mut encoder = CharsetEncoder::new(Utf8Codec);
    let charset = encoder.charset();
    let fail = |_| CharsetEncodeError::new(charset, qubit_codec_text::CharsetEncodeErrorKind::OutputLengthOverflow, usize::MAX);
    let map = |error| CharsetEncodeError::from_transcode_error(charset, error);
    let mut output: Vec<u8> = Vec::new();
    let reset = map_capacity_bound(encoder.max_reset_output_len().ok()).map_err(fail)?;
    ensure_owned_capacity(&mut output, 0, reset, 0).map_err(fail)?;
    let mut run = EncodeRun::new(0);
    let written = encoder.reset(output.as_mut_slice(), 0).map_err(map)?;
    run.advance_output(written);
    let (mut position, mut index) = (0, 0);
    let mut chunk = Vec::new();
    loop {
        let len = fill_char_chunk(input, &mut position, &mut index, &mut chunk);
        if len == 0 {
            break;
        }
        let required = map_capacity_bound(encoder.max_transcode_output_len(len).ok()).map_err(fail)?;
        ensure_owned_capacity(&mut output, run.output_cursor, required, 0).map_err(fail)?;
        let progress = encoder.transcode(&chunk, 0, output.as_mut_slice(), run.output_cursor).map_err(map)?;
        run.advance_output(progress.written());
        run.advance_input(progress.read());
    }
    let finish = map_capacity_bound(encoder.max_finish_output_len().ok()).map_err(fail)?;
    ensure_owned_capacity(&mut output, run.output_cursor, finish, 0).map_err(fail)?;
    let written = encoder.finish(output.as_mut_slice(), run.output_cursor).map_err(map)?;
    run.advance_output(written);
    output.truncate(run.output_cursor);
    Ok(output)
}

#[test]
fn string_encoding_produces_utf8() {
    let long: String = std::iter::repeat("\u{e9}a").take(300).collect();
    assert_eq!(long.as_bytes(), encode_string(&long).unwrap().as_slice());
    assert_eq!(b"".to_vec(), encode_string("").unwrap());
}
