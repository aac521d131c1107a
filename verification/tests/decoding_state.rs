use qubit_io_text::decoded_buffer::{copy_chars, DecodeStatus, DecodedBuffer, FillAction, FillError};
use qubit_io_text::{LineEnding, LineEndingSet};

#[test]
fn fresh_buffer_asks_to_start() {
    let buffer = DecodedBuffer::new(1);
    assert_eq!(4, buffer.capacity());
    assert_eq!(LineEndingSet::all(), buffer.line_endings());
    assert_eq!(FillAction::Start, buffer.fill_action());
    assert!(!buffer.has_buffered());
    let buffer = DecodedBuffer::new(64).with_line_endings(LineEndingSet::only(LineEnding::Cr));
    assert_eq!(64, buffer.capacity());
    assert_eq!(LineEndingSet::cr(), buffer.line_endings());
}

#[test]
fn start_output_is_read_first() {
    let mut buffer = DecodedBuffer::new(8);
    buffer.reserve(16);
    assert_eq!(16, buffer.capacity());
    buffer.reserve(2);
    assert_eq!(16, buffer.capacity());
    buffer.on_started(&['\u{feff}']);
    assert_eq!(FillAction::Ready, buffer.fill_action());
    assert_eq!('\u{feff}', buffer.next_buffered());
    assert_eq!(FillAction::Transcode { capacity: 16 }, buffer.fill_action());
}

#[test]
fn transcode_outcomes_choose_next_step() {
    let mut buffer = DecodedBuffer::new(8);
    buffer.on_started(&[]);
    assert_eq!(FillAction::Ready, buffer.on_transcoded(&['a', 'b'], DecodeStatus::Complete));
    assert_eq!('a', buffer.next_buffered());
    assert_eq!('b', buffer.next_buffered());
    assert_eq!(FillAction::Transcode { capacity: 8 }, buffer.on_transcoded(&[], DecodeStatus::Complete));
    assert_eq!(FillAction::Refill { required: 3 }, buffer.on_transcoded(&[], DecodeStatus::NeedInput { required: 3 }));
    assert_eq!(FillAction::Transcode { capacity: 16 }, buffer.on_transcoded(&[], DecodeStatus::NeedOutput { required: 9 }));
    assert_eq!(16, buffer.capacity());
    assert_eq!(FillAction::Transcode { capacity: 16 }, buffer.after_refill(true));
    assert_eq!(FillAction::TranscodeEof { capacity: 16 }, buffer.after_refill(false));
    assert_eq!(FillAction::TranscodeEof { capacity: 16 }, buffer.at_input_end());
}

#[test]
fn growth_saturates_at_usize_max() {
    let mut buffer = DecodedBuffer::new(usize::MAX - 1);
    buffer.on_started(&[]);
    assert_eq!(
        FillAction::Transcode { capacity: usize::MAX },
        buffer.on_transcoded(&[], DecodeStatus::NeedOutput { required: 1 })
    );
    assert_eq!(
        FillAction::Transcode { capacity: usize::MAX },
        buffer.on_transcoded(&[], DecodeStatus::NeedOutput { required: 1 })
    );
}

#[test]
fn end_of_input_outcomes() {
    let mut buffer = DecodedBuffer::new(8);
    buffer.on_started(&[]);
    assert_eq!(Ok(FillAction::Ready), buffer.on_eof_transcoded(&['\u{fffd}'], DecodeStatus::Complete));
    assert_eq!('\u{fffd}', buffer.next_buffered());
    assert_eq!(Ok(FillAction::TranscodeEof { capacity: 5 }), buffer.on_eof_transcoded(&[], DecodeStatus::NeedOutput { required: 5 }));
    assert_eq!(5, buffer.capacity());
    assert_eq!(Ok(FillAction::Finish), buffer.on_eof_transcoded(&[], DecodeStatus::Complete));
    assert_eq!(Err(FillError::InputAfterEnd), buffer.on_eof_transcoded(&[], DecodeStatus::NeedInput { required: 1 }));
}

#[test]
fn finishing_ends_the_text() {
    let mut buffer = DecodedBuffer::new(4);
    buffer.on_started(&[]);
    assert_eq!(1, buffer.finish_count(0));
    assert_eq!(6, buffer.finish_count(6));
    assert_eq!(6, buffer.capacity());
    assert_eq!(FillAction::Ready, buffer.on_finished(&['x', 'y']));
    let mut taken = Vec::new();
    assert_eq!(2, buffer.take_buffered(&mut taken, 5));
    assert_eq!(vec!['x', 'y'], taken);
    assert_eq!(FillAction::End, buffer.fill_action());
    let mut buffer = DecodedBuffer::new(4);
    buffer.on_started(&[]);
    assert_eq!(FillAction::End, buffer.on_finished(&[]));
}

#[test]
fn pending_char_is_unread_first() {
    let mut buffer = DecodedBuffer::new(4);
    buffer.on_started(&['b', 'c', 'd']);
    buffer.set_pending(Some('a'));
    let mut taken = Vec::new();
    assert_eq!(1, buffer.take_buffered(&mut taken, 1));
    assert_eq!(vec!['b'], taken);
    assert_eq!(vec!['a', 'c', 'd'], buffer.into_unread());
}

#[test]
fn take_all_buffered_appends_window() {
    let mut buffer = DecodedBuffer::new(4);
    buffer.on_started(&['h', 'i']);
    let mut text = String::from(">");
    assert_eq!(2, buffer.take_all_buffered(&mut text));
    assert_eq!(">hi", text);
    assert_eq!(None, buffer.take_pending());
    assert_eq!(0, buffer.take_all_buffered(&mut text));
}

#[test]
fn copy_chars_copies() {
    assert_eq!(vec!['q', '\u{10348}'], copy_chars(&['q', '\u{10348}']));
}

#[test]
fn finish_output_is_read_in_full() {
    let mut buffer = DecodedBuffer::new(4);
    buffer.on_started(&[]);
    assert_eq!(FillAction::Ready, buffer.on_finished(&['x', 'y', 'z']));
    let mut read = Vec::new();
    while buffer.fill_action() == FillAction::Ready {
        read.push(buffer.next_buffered());
    }
    assert_eq!(vec!['x', 'y', 'z'], read);
    assert_eq!(FillAction::End, buffer.fill_action());
}
