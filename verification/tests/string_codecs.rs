use qubit_io_text::decoded_buffer::DecodeStatus;
use qubit_io_text::encoder_lifecycle::{output_capacity, EncoderLifecycle, FinishAction, WriteAction, WriterClosed};
use qubit_io_text::string_decode::{
    append_chars, check_input_index, ensure_char_capacity, initial_char_capacity, DecodeRun, StringDecodeError,
};
use qubit_io_text::string_encode::{
    check_output_index, ensure_owned_capacity, fill_char_chunk, map_capacity_bound, EncodeRun, StringEncodeError,
};

#[test]
fn decode_capacity_decisions() {
    assert_eq!(Ok(256), initial_char_capacity(Some(3)));
    assert_eq!(Ok(300), initial_char_capacity(Some(300)));
    assert_eq!(Err(StringDecodeError::OutputLengthOverflow), initial_char_capacity(None));
    assert_eq!(Ok(()), check_input_index(4, 4));
    assert_eq!(
        Err(StringDecodeError::InvalidInputIndex { input_len: 4, input_index: 5 }),
        check_input_index(4, 5)
    );
    let mut chars = vec!['a'];
    assert_eq!(Ok(()), ensure_char_capacity(&mut chars, 3));
    assert_eq!(vec!['a', '\0', '\0'], chars);
    assert_eq!(Ok(()), ensure_char_capacity(&mut chars, 2));
    assert_eq!(3, chars.len());
    let mut text = String::from("x");
    assert_eq!(Ok(()), append_chars(&mut text, &['y', '\u{e9}']));
    assert_eq!("xy\u{e9}", text);
}

#[test]
fn decode_run_appends_steps() {
    let mut output = String::from("pre");
    assert!(DecodeRun::begin(&output, 3, 4).is_err());
    let mut run = DecodeRun::begin(&output, 6, 1).unwrap();
    assert_eq!(Ok(()), run.after_reset(&mut output, &['\u{feff}']));
    let mut chars = vec!['a', 'b', 'c'];
    assert_eq!(Ok(true), run.after_transcode(&mut output, &mut chars, 2, 2, DecodeStatus::NeedOutput { required: 1 }));
    assert_eq!(3, chars.len());
    assert_eq!(3, run.cursor());
    assert_eq!(3, run.output_chars());
    assert_eq!(Ok(true), run.after_transcode(&mut output, &mut chars, 0, 0, DecodeStatus::NeedOutput { required: 300 }));
    assert_eq!(300, chars.len());
    assert_eq!(Ok(false), run.after_transcode(&mut output, &mut chars, 1, 3, DecodeStatus::Complete));
    assert_eq!("pre\u{feff}aba", output);
    assert_eq!(Ok(()), run.finish_capacity(&mut chars, Some(2)));
    assert_eq!(Err(StringDecodeError::OutputLengthOverflow), run.finish_capacity(&mut chars, None));
    assert_eq!(Ok(()), run.after_finish(&mut output, &['!']));
    assert_eq!("pre\u{feff}aba!", output);
    assert_eq!(6, run.finish_error_index(false, 2));
    assert_eq!(2, run.finish_error_index(true, 2));
    run.abort(&mut output);
    assert_eq!("pre", output);
}

#[test]
fn decode_run_reports_incomplete_input() {
    let mut output = String::new();
    let mut run = DecodeRun::begin(&output, 5, 0).unwrap();
    let mut chars = vec!['z'; 4];
    assert_eq!(
        Err(StringDecodeError::IncompleteSequence { required: 2, available: 1, input_index: 4 }),
        run.after_transcode(&mut output, &mut chars, 1, 4, DecodeStatus::NeedInput { required: 2 })
    );
    assert_eq!("z", output);
    assert_eq!(usize::MAX, run.finish_error_index(false, usize::MAX));
}

#[test]
fn encode_chunks_and_bounds() {
    let text = "a\u{e9}c";
    let mut position = 0;
    let mut index = 0;
    let mut chunk = vec!['x'];
    assert_eq!(3, fill_char_chunk(text, &mut position, &mut index, &mut chunk));
    assert_eq!(vec!['a', '\u{e9}', 'c'], chunk);
    assert_eq!(0, fill_char_chunk(text, &mut position, &mut index, &mut chunk));
    let long: String = std::iter::repeat('k').take(300).collect();
    let (mut position, mut index) = (0, 0);
    assert_eq!(256, fill_char_chunk(&long, &mut position, &mut index, &mut chunk));
    assert_eq!(44, fill_char_chunk(&long, &mut position, &mut index, &mut chunk));
    assert_eq!(Ok(7), map_capacity_bound(Some(7)));
    assert_eq!(Err(StringEncodeError::OutputLengthOverflow), map_capacity_bound(None));
    assert_eq!(
        Err(StringEncodeError::InvalidOutputIndex { output_len: 2, output_index: 3 }),
        check_output_index(2, 3)
    );
}

#[test]
fn owned_capacity_grows_from_index() {
    let mut output: Vec<u8> = vec![1, 2];
    assert_eq!(Ok(()), ensure_owned_capacity(&mut output, 1, 4, 0));
    assert_eq!(vec![1, 2, 0, 0, 0], output);
    assert_eq!(Ok(()), ensure_owned_capacity(&mut output, 0, 3, 9));
    assert_eq!(5, output.len());
    assert_eq!(Err(StringEncodeError::OutputLengthOverflow), ensure_owned_capacity(&mut output, usize::MAX, 1, 0));
}

#[test]
fn encode_run_reports_small_buffer() {
    let mut run = EncodeRun::new(2);
    run.advance_output(1);
    assert_eq!(Ok(()), run.after_chunk_into(10, 3, 4, None));
    assert_eq!(6, run.output_cursor);
    assert_eq!(4, run.input_offset);
    assert_eq!(4, run.written());
    assert_eq!(9, run.chunk_error_index(false, 5));
    assert_eq!(5, run.chunk_error_index(true, 5));
    assert_eq!(
        Err(StringEncodeError::BufferTooSmall { required: 3, available: 2, output_index: 8 }),
        run.after_chunk_into(10, 2, 1, Some(3))
    );
    assert_eq!(4, run.input_offset);
}

#[test]
fn writer_lifecycle() {
    assert_eq!(8192, output_capacity(8192, Some(4)));
    assert_eq!(4, output_capacity(2, Some(4)));
    assert_eq!(1, output_capacity(0, None));
    assert_eq!(1, output_capacity(0, Some(0)));
    let mut lifecycle = EncoderLifecycle::new();
    assert!(lifecycle.needs_start());
    assert_eq!(Ok(()), lifecycle.ensure_open());
    lifecycle.mark_started();
    assert!(!lifecycle.needs_start());
    assert!(lifecycle.needs_finish());
    lifecycle.mark_finished();
    assert!(!lifecycle.needs_finish());
    assert_eq!(Err(WriterClosed::Finished), lifecycle.ensure_open());
}

#[test]
fn writer_lifecycle_actions() {
    let mut lifecycle = EncoderLifecycle::new();
    assert_eq!(WriteAction::Skip, lifecycle.write_action(true));
    assert_eq!(WriteAction::Encode { start: true }, lifecycle.write_action(false));
    assert_eq!(FinishAction::Finalize { start: true }, lifecycle.finish_action());
    lifecycle.mark_started();
    assert_eq!(WriteAction::Encode { start: false }, lifecycle.write_action(false));
    assert_eq!(FinishAction::Finalize { start: false }, lifecycle.finish_action());
    lifecycle.mark_finished();
    assert_eq!(WriteAction::Refuse, lifecycle.write_action(true));
    assert_eq!(WriteAction::Refuse, lifecycle.write_action(false));
    assert_eq!(FinishAction::FlushOnly, lifecycle.finish_action());
}
