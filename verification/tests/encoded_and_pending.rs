use qubit_io_text::encoded_text::{check_decoded, check_encoded, decode_bytes, encode_text};
use qubit_io_text::io_error::into_io_error;
use qubit_io_text::pending_chars::PendingChars;
use qubit_io_text::{CodingErrorPolicy, EncodedTextReader, IntoInnerError, TextLineRead, TextRead};

#[test]
fn pending_chars_hand_back_first() {
    let mut pending = PendingChars::new();
    pending.hand_back('z');
    pending.hand_back('y');
    pending.hand_back('x');
    assert_eq!(Some('x'), pending.pop());
    pending.hand_back('w');
    let mut chars = Vec::new();
    assert_eq!(2, pending.drain_chars(&mut chars, 2));
    assert_eq!(vec!['w', 'y'], chars);
    let mut rest = String::new();
    assert_eq!(1, pending.drain_string(&mut rest));
    assert_eq!("z", rest);
    assert_eq!(0, pending.drain_chars(&mut chars, 2));
    assert_eq!(None, pending.pop());
}

#[test]
fn strict_decoding_rejects_malformed_bytes() {
    assert_eq!("h\u{e9}", decode_bytes(b"h\xc3\xa9", encoding_rs::UTF_8, CodingErrorPolicy::Strict).unwrap());
    let error = decode_bytes(b"h\xff", encoding_rs::UTF_8, CodingErrorPolicy::Strict).unwrap_err();
    assert_eq!(std::io::ErrorKind::InvalidData, into_io_error(error).kind());
    assert_eq!("h\u{fffd}", decode_bytes(b"h\xff", encoding_rs::UTF_8, CodingErrorPolicy::Replace).unwrap());
}

#[test]
fn strict_encoding_rejects_unmappable_text() {
    assert_eq!(vec![0x68, 0xe9], encode_text("h\u{e9}", encoding_rs::WINDOWS_1252, CodingErrorPolicy::Strict).unwrap());
    let error = encode_text("\u{4e2d}", encoding_rs::WINDOWS_1252, CodingErrorPolicy::Strict).unwrap_err();
    assert_eq!(std::io::ErrorKind::InvalidInput, into_io_error(error).kind());
    assert_eq!(b"&#20013;".to_vec(), encode_text("\u{4e2d}", encoding_rs::WINDOWS_1252, CodingErrorPolicy::Replace).unwrap());
}

#[test]
fn encoded_reader_reads_decoded_lines() {
    let mut reader = EncodedTextReader::from_bytes(b"a\xe9\r\nb", encoding_rs::WINDOWS_1252, CodingErrorPolicy::Strict).unwrap();
    let mut line = String::new();
    assert!(reader.read_line(&mut line).unwrap());
    assert_eq!("a\u{e9}\r\n", line);
    assert_eq!(Some('b'), reader.read_char().unwrap());
    assert_eq!(None, reader.read_char().unwrap());
    assert!(EncodedTextReader::from_bytes(b"\xff", encoding_rs::UTF_8, CodingErrorPolicy::Strict).is_err());
    assert_eq!(CodingErrorPolicy::Strict, CodingErrorPolicy::default());
}

#[test]
fn into_inner_error_parts() {
    let error = IntoInnerError::new(std::io::Error::other("boom"), vec![1u8]);
    assert_eq!("boom", error.error().to_string());
    assert_eq!(&vec![1u8], error.writer());
    let (io_error, writer) = error.into_parts();
    assert_eq!(std::io::ErrorKind::Other, io_error.kind());
    assert_eq!(vec![1u8], writer);
}

#[test]
fn coding_policy_applies_to_results() {
    assert_eq!("x\u{fffd}", check_decoded("x\u{fffd}".to_string(), true, encoding_rs::UTF_8, CodingErrorPolicy::Replace).unwrap());
    assert_eq!(
        std::io::ErrorKind::InvalidData,
        into_io_error(check_decoded("x\u{fffd}".to_string(), true, encoding_rs::UTF_8, CodingErrorPolicy::Strict).unwrap_err()).kind()
    );
    assert_eq!("ok", check_decoded("ok".to_string(), false, encoding_rs::UTF_8, CodingErrorPolicy::Strict).unwrap());
    assert_eq!(vec![1u8, 2], check_encoded(vec![1, 2], false, encoding_rs::UTF_8, CodingErrorPolicy::Strict).unwrap());
    assert_eq!(
        std::io::ErrorKind::InvalidInput,
        into_io_error(check_encoded(vec![63], true, encoding_rs::WINDOWS_1252, CodingErrorPolicy::Strict).unwrap_err()).kind()
    );
}
