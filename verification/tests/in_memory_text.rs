use qubit_io_text::io_error::into_io_error;
use qubit_io_text::limited_append::append_limited_char;
use qubit_io_text::string_text_writer::push_chars;
use qubit_io_text::text_cursor::{read_char_at, read_chars_at, read_line_at, read_to_string_at};
use qubit_io_text::{
    LineEnding, LineEndingSet, StrTextReader, StringCharInput, StringOutput, StringTextReader, StringTextWriter, TextLineRead,
    TextRead, TextWrite,
};

#[test]
fn str_reader_reads_chars_and_lines() {
    let mut reader = StrTextReader::new("a\u{e9}\nbc\r\nd");
    assert_eq!(Some('a'), reader.read_char().unwrap());
    assert_eq!(1, reader.position());
    let mut line = String::new();
    assert!(reader.read_line(&mut line).unwrap());
    assert_eq!("\u{e9}\n", line);
    assert_eq!(4, reader.position());
    let mut chars = Vec::new();
    assert_eq!(2, reader.read_chars(&mut chars, 2).unwrap());
    assert_eq!(vec!['b', 'c'], chars);
    let mut rest = String::new();
    assert_eq!(3, reader.read_to_string(&mut rest).unwrap());
    assert_eq!("\r\nd", rest);
    assert_eq!(None, reader.read_char().unwrap());
    assert!(!reader.read_line(&mut rest).unwrap());
}

#[test]
fn str_reader_trait_methods() {
    let mut reader = StrTextReader::new("x\ny");
    assert_eq!(Ok(Some('x')), TextRead::read_char(&mut reader));
    let mut line = String::new();
    assert_eq!(Ok(true), TextLineRead::read_line(&mut reader, &mut line));
    assert_eq!("\n", line);
}

#[test]
fn string_reader_honours_line_endings() {
    let mut reader = StringTextReader::new("a\rb\r\nc\nd".to_string());
    let mut lines = Vec::new();
    loop {
        let mut line = String::new();
        if !reader.read_line(&mut line).unwrap() {
            break;
        }
        lines.push(line);
    }
    assert_eq!(vec!["a\r", "b\r\n", "c\n", "d"], lines);

    let mut reader = StringTextReader::new("a\rb\nc".to_string()).with_line_endings(LineEndingSet::only(LineEnding::Lf));
    assert_eq!(LineEndingSet::lf(), reader.line_endings());
    let mut line = String::new();
    assert!(reader.read_line(&mut line).unwrap());
    assert_eq!("a\rb\n", line);
    assert_eq!(4, reader.position());
    assert_eq!("a\rb\nc", reader.into_inner());
}

#[test]
fn string_reader_reads_all_text() {
    let mut reader = StringTextReader::new("h\u{e9}llo".to_string());
    let mut chars = Vec::new();
    assert_eq!(2, reader.read_chars(&mut chars, 2).unwrap());
    let mut rest = String::new();
    assert_eq!(3, reader.read_to_string(&mut rest).unwrap());
    assert_eq!("llo", rest);
    assert_eq!(None, reader.read_char().unwrap());
}

#[test]
fn string_writer_appends_lines() {
    let mut text = String::from(">");
    {
        let mut writer = StringTextWriter::new(&mut text).with_line_ending(LineEnding::CrLf);
        assert_eq!(LineEnding::CrLf, writer.line_ending());
        writer.write_char('a').unwrap();
        writer.write_chars(&['b', 'c']).unwrap();
        writer.write_line("d").unwrap();
        writer.write_str("e").unwrap();
        assert_eq!(">abcd\r\ne", writer.get_ref());
    }
    assert_eq!(">abcd\r\ne", text);
}

#[test]
fn string_implements_text_write() {
    let mut text = String::new();
    TextWrite::write_line(&mut text, "one").unwrap();
    TextWrite::write_str(&mut text, "two").unwrap();
    assert_eq!(LineEnding::Lf, TextWrite::line_ending(&text));
    assert_eq!("one\ntwo", text);
}

#[test]
fn written_line_reads_back() {
    let mut text = String::new();
    {
        let mut writer = StringTextWriter::new(&mut text).with_line_ending(LineEnding::Cr);
        writer.write_line("first").unwrap();
        writer.write_str("second").unwrap();
    }
    let mut reader = StringTextReader::new(text);
    let mut line = String::new();
    assert!(reader.read_line(&mut line).unwrap());
    assert_eq!("first\r", line);
}

#[test]
fn char_input_reads_into_slice() {
    let mut input = StringCharInput::new("xy\u{e9}z".to_string());
    let mut buffer = ['-'; 5];
    assert_eq!(3, input.read_into(&mut buffer, 1, 3));
    assert_eq!(['-', 'x', 'y', '\u{e9}', '-'], buffer);
    assert_eq!(4, input.position());
    assert_eq!(1, input.read_into(&mut buffer, 0, 4));
    assert_eq!('z', buffer[0]);
    assert_eq!(0, input.read_into(&mut buffer, 0, 2));
    assert_eq!("xy\u{e9}z", input.get_ref());
    assert_eq!("xy\u{e9}z", input.into_inner());
}

#[test]
fn string_output_writes_from_slice() {
    let mut text = String::from("a");
    let mut output = StringOutput::new(&mut text);
    assert_eq!(2, output.write_from(&['b', 'c', 'd'], 1, 2).unwrap());
    assert!(output.flush().is_ok());
    assert_eq!("acd", output.get_ref());
    output.get_mut().push('!');
    assert_eq!("acd!", text);
}

#[test]
fn cursor_functions_walk_text() {
    let text = "\u{e9}a\nb";
    let mut position = 0;
    let mut index = 0;
    assert_eq!(Some('\u{e9}'), read_char_at(text, &mut position, &mut index));
    assert_eq!((2, 1), (position, index));
    let mut line = String::new();
    assert!(read_line_at(text, &mut position, &mut index, LineEndingSet::all(), &mut line));
    assert_eq!("a\n", line);
    let mut chars = Vec::new();
    assert_eq!(1, read_chars_at(text, &mut position, &mut index, &mut chars, 9));
    assert_eq!(vec!['b'], chars);
    let mut rest = String::new();
    assert_eq!(0, read_to_string_at(text, &mut position, &mut index, &mut rest));
    assert_eq!(None, read_char_at(text, &mut position, &mut index));
    assert!(!read_line_at(text, &mut position, &mut index, LineEndingSet::all(), &mut line));
}

#[test]
fn append_limited_char_restores_on_overflow() {
    let mut output = String::from("ab");
    assert!(append_limited_char(&mut output, 2, 2, '\u{e9}').is_ok());
    assert_eq!("ab\u{e9}", output);
    let error = append_limited_char(&mut output, 2, 2, 'x').unwrap_err();
    assert_eq!(std::io::ErrorKind::InvalidData, into_io_error(error).kind());
    assert_eq!("ab", output);
}

#[test]
fn push_chars_appends_in_order() {
    let mut output = String::from("0");
    push_chars(&mut output, &['1', '\u{2603}', '2']);
    assert_eq!("01\u{2603}2", output);
}

#[test]
fn str_reader_accepts_every_line_ending() {
    let mut reader = StrTextReader::new("a\rb\r\nc\nd");
    let mut lines = Vec::new();
    loop {
        let mut line = String::new();
        if !reader.read_line(&mut line).unwrap() {
            break;
        }
        lines.push(line);
    }
    assert_eq!(vec!["a\r", "b\r\n", "c\n", "d"], lines);
    let mut reader = StrTextReader::new("a\rb");
    let mut line = String::new();
    assert!(reader.read_line(&mut line).unwrap());
    assert_eq!("a\r", line);
    assert_eq!(2, reader.position());
    assert_eq!(Some('b'), reader.read_char().unwrap());
}

#[test]
fn string_reader_holds_lookahead_pending() {
    let mut reader = StringTextReader::new("a\r\nb\rc\n".to_string());
    let mut line = String::new();
    assert!(reader.read_line(&mut line).unwrap());
    assert_eq!("a\r\n", line);
    let mut line = String::new();
    assert!(reader.read_line(&mut line).unwrap());
    assert_eq!("b\r", line);
    assert_eq!(6, reader.position());
    let mut line = String::new();
    assert!(reader.read_line(&mut line).unwrap());
    assert_eq!("c\n", line);
    assert!(!reader.read_line(&mut line).unwrap());
}

#[test]
fn str_reader_mixed_reads_cover_text() {
    let text = "x\u{4e2d}y\r\nz\rlast";
    let mut reader = StrTextReader::new(text);
    let mut read = String::new();
    if let Some(ch) = reader.read_char().unwrap() {
        read.push(ch);
    }
    assert_eq!(read.len(), reader.position());
    let mut chars = Vec::new();
    assert_eq!(2, reader.read_chars(&mut chars, 2).unwrap());
    read.extend(chars.iter());
    assert_eq!(read.len(), reader.position());
    assert!(reader.read_line(&mut read).unwrap());
    assert_eq!("x\u{4e2d}y\r\n", read);
    assert_eq!(read.len(), reader.position());
    assert!(reader.read_line(&mut read).unwrap());
    assert_eq!("x\u{4e2d}y\r\nz\r", read);
    assert_eq!(4, reader.read_to_string(&mut read).unwrap());
    assert_eq!(text, read);
    assert_eq!(text.len(), reader.position());
    assert!(!reader.read_line(&mut read).unwrap());
    assert_eq!(text, read);
}

#[test]
fn string_reader_reads_keep_text() {
    let text = "a\r\nb\rc\n\u{e9}".to_string();
    let mut reader = StringTextReader::new(text.clone());
    let mut read = String::new();
    if let Some(ch) = reader.read_char().unwrap() {
        read.push(ch);
    }
    while reader.read_line(&mut read).unwrap() {}
    assert_eq!(text, read);
    assert_eq!(text, reader.into_inner());
}

#[test]
fn char_input_reads_keep_text() {
    let text = "x\u{4e2d}yz".to_string();
    let mut input = StringCharInput::new(text.clone());
    let mut buffer = ['\0'; 3];
    assert_eq!(2, input.read_into(&mut buffer, 1, 2));
    assert_eq!(['\0', 'x', '\u{4e2d}'], buffer);
    assert_eq!(4, input.position());
    assert!(text.is_char_boundary(input.position()));
    assert_eq!(2, input.read_into(&mut buffer, 0, 3));
    assert_eq!(text.len(), input.position());
    assert_eq!(text, input.into_inner());
}
