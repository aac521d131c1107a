use qubit_io_text::io_error::into_io_error;
use qubit_io_text::limited_line::{LimitedLineScanner, LimitedOutcome};
use qubit_io_text::line_scan::{LineScanner, ScanOutcome};
use qubit_io_text::{LineEnding, LineEndingSet};

fn scan_line(set: LineEndingSet, text: &str) -> (String, Option<char>, usize) {
    let mut scanner = LineScanner::new(set);
    let mut output = String::new();
    let mut chars = text.chars();
    let mut consumed = 0;
    loop {
        let next = chars.next();
        if next.is_some() {
            consumed += 1;
        }
        match scanner.step(next, &mut output) {
            ScanOutcome::Continue => {}
            ScanOutcome::Done => return (output, None, consumed),
            ScanOutcome::DoneUnread(ch) => return (output, Some(ch), consumed - 1),
        }
    }
}

#[test]
fn line_ending_strings() {
    assert_eq!("\n", LineEnding::Lf.as_str());
    assert_eq!("\r\n", LineEnding::CrLf.as_str());
    assert_eq!("\r", LineEnding::Cr.as_str());
    assert_eq!(LineEnding::Lf, LineEnding::default());
}

#[test]
fn line_ending_set_constants() {
    let all = LineEndingSet::all();
    assert!(all.contains(LineEnding::Lf));
    assert!(all.contains(LineEnding::CrLf));
    assert!(all.contains(LineEnding::Cr));
    assert!(LineEndingSet::none().is_empty());
    assert!(!LineEndingSet::lf().is_empty());
    assert!(LineEndingSet::lf().contains(LineEnding::Lf));
    assert!(!LineEndingSet::lf().contains(LineEnding::Cr));
    assert!(LineEndingSet::crlf().contains(LineEnding::CrLf));
    assert!(!LineEndingSet::crlf().contains(LineEnding::Lf));
    assert!(LineEndingSet::cr().contains(LineEnding::Cr));
    assert_eq!(LineEndingSet::all(), LineEndingSet::default());
}

#[test]
fn line_ending_set_with_and_without() {
    let set = LineEndingSet::only(LineEnding::Cr).with(LineEnding::Lf);
    assert!(set.contains(LineEnding::Cr));
    assert!(set.contains(LineEnding::Lf));
    assert!(!set.contains(LineEnding::CrLf));
    let set = set.without(LineEnding::Cr);
    assert_eq!(LineEndingSet::lf(), set);
    assert!(set.without(LineEnding::Lf).is_empty());
    assert_eq!(LineEndingSet::all(), LineEndingSet::none().with(LineEnding::Lf).with(LineEnding::CrLf).with(LineEnding::Cr));
}

#[test]
fn scanner_reads_lf_line() {
    assert_eq!(("ab\n".to_string(), None, 3), scan_line(LineEndingSet::all(), "ab\ncd"));
}

#[test]
fn scanner_joins_crlf() {
    assert_eq!(("ab\r\n".to_string(), None, 4), scan_line(LineEndingSet::all(), "ab\r\ncd"));
}

#[test]
fn scanner_leaves_char_after_cr_unread() {
    assert_eq!(("ab\r".to_string(), Some('c'), 3), scan_line(LineEndingSet::all(), "ab\rcd"));
}

#[test]
fn scanner_keeps_cr_inside_crlf_only_lines() {
    assert_eq!(("a\rb\r\n".to_string(), None, 5), scan_line(LineEndingSet::crlf(), "a\rb\r\nc"));
    assert_eq!(("a\rb\r".to_string(), None, 4), scan_line(LineEndingSet::crlf(), "a\rb\r"));
}

#[test]
fn scanner_reads_to_end_without_terminator() {
    assert_eq!(("a\nb".to_string(), None, 3), scan_line(LineEndingSet::cr(), "a\nb"));
    assert_eq!(("".to_string(), None, 0), scan_line(LineEndingSet::all(), ""));
}

#[test]
fn scanner_skip_matches_step() {
    let mut scanner = LineScanner::new(LineEndingSet::all());
    assert_eq!(ScanOutcome::Continue, scanner.skip(Some('x')));
    assert_eq!(ScanOutcome::Continue, scanner.skip(Some('\r')));
    assert!(scanner.after_cr);
    assert_eq!(ScanOutcome::DoneUnread('y'), scanner.skip(Some('y')));
    let mut scanner = LineScanner::new(LineEndingSet::crlf());
    assert_eq!(ScanOutcome::Continue, scanner.skip(Some('\r')));
    assert_eq!(ScanOutcome::Done, scanner.skip(Some('\n')));
}

fn limited_line(set: LineEndingSet, prefix: &str, text: &str, max: usize) -> (String, Result<LimitedOutcome, char>) {
    let mut output = prefix.to_string();
    let mut scanner = LimitedLineScanner::new(set, &output, max);
    let mut chars = text.chars();
    loop {
        let next = chars.next();
        match scanner.step(next, &mut output) {
            Ok(LimitedOutcome::Continue) => {}
            Ok(outcome) => return (output, Ok(outcome)),
            Err(error) => {
                assert_eq!(std::io::ErrorKind::InvalidData, into_io_error(error).kind());
                return (output, Err(next.unwrap()));
            }
        }
    }
}

#[test]
fn limited_line_within_limit() {
    assert_eq!((">ab\n".to_string(), Ok(LimitedOutcome::Done(true))), limited_line(LineEndingSet::all(), ">", "ab\ncd", 3));
    assert_eq!(("ab\r\n".to_string(), Ok(LimitedOutcome::Done(true))), limited_line(LineEndingSet::all(), "", "ab\r\n", 4));
    assert_eq!(("ab\r".to_string(), Ok(LimitedOutcome::DoneUnread('c'))), limited_line(LineEndingSet::all(), "", "ab\rc", 3));
    assert_eq!(("".to_string(), Ok(LimitedOutcome::Done(false))), limited_line(LineEndingSet::all(), "", "", 0));
}

#[test]
fn limited_line_refuses_overlong_line() {
    assert_eq!((">".to_string(), Err('c')), limited_line(LineEndingSet::all(), ">", "abc\n", 2));
    assert_eq!(("".to_string(), Err('\n')), limited_line(LineEndingSet::all(), "", "ab\r\n", 3));
    assert_eq!(("x".to_string(), Err('é')), limited_line(LineEndingSet::all(), "x", "aé", 2));
}

#[test]
fn scanner_hands_back_held_carriage_return() {
    let mut scanner = LineScanner::new(LineEndingSet::all());
    let mut output = String::new();
    assert_eq!(None, scanner.held_back());
    assert_eq!(ScanOutcome::Continue, scanner.step(Some('\r'), &mut output));
    assert_eq!(Some('\r'), scanner.held_back());
    assert_eq!("", output);
}

#[test]
fn line_ending_set_values() {
    assert_eq!(LineEndingSet::lf(), LineEndingSet::only(LineEnding::Lf));
    assert_eq!(LineEndingSet::crlf(), LineEndingSet::only(LineEnding::CrLf));
    assert_eq!(LineEndingSet::cr(), LineEndingSet::only(LineEnding::Cr));
    assert_eq!(LineEndingSet::all(), LineEndingSet::default());
    let set = LineEndingSet::lf();
    assert_eq!(set.with(LineEnding::Cr), set.with(LineEnding::Cr).with(LineEnding::Cr));
    assert_eq!(set.with(LineEnding::Cr).with(LineEnding::CrLf), set.with(LineEnding::CrLf).with(LineEnding::Cr));
    assert_eq!(set, set.with(LineEnding::Cr).without(LineEnding::Cr));
}
