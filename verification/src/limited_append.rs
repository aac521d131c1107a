//! Appending decoded text under a limit on the UTF-8 bytes appended.
use vstd::prelude::*;

use crate::io_error::TextError;
use crate::text_cursor::cursor_at;
use crate::utf8_text::{
    char_utf8_len,
    lemma_utf8_len_concat,
    lemma_utf8_len_push,
    lemma_utf8_len_take_mono,
    string_len,
    string_push,
    truncate_to_prefix,
    utf8_len,
    utf8_width,
};

verus! {

/// Number of characters of `text` whose UTF-8 length is `byte_len`.
pub open spec fn prefix_chars(text: Seq<char>, byte_len: int) -> int {
    choose|k: int| cursor_at(text, byte_len, k)
}

/// Whether appending `ch` to `text`, whose first `initial_len` bytes were
/// there before, keeps the appended part within `max_append_len` bytes.
pub open spec fn fits_limit(text: Seq<char>, initial_len: int, max_append_len: int, ch: char) -> bool {
    utf8_len(text) - initial_len + char_utf8_len(ch) <= max_append_len
}

/// Appends `ch` to `output` unless that makes the text appended after the
/// first `initial_len` bytes longer than `max_append_len` UTF-8 bytes; in
/// that case `output` is cut back to its first `initial_len` bytes and the
/// append limit error is returned (`InvalidData` once reported).
pub fn append_limited_char(
    output: &mut String,
    initial_len: usize,
    max_append_len: usize,
    ch: char,
) -> (result: Result<(), TextError>)
    requires
        exists|k: int| cursor_at(old(output)@, initial_len as int, k),
    ensures
        result.is_ok() == fits_limit(old(output)@, initial_len as int, max_append_len as int, ch),
        result.is_ok() ==> final(output)@ == old(output)@.push(ch),
        result.is_err() ==> final(output)@ == old(output)@.take(
            prefix_chars(old(output)@, initial_len as int),
        ) && result == Err::<(), TextError>(TextError::AppendLimit { max_append_len }),
{
    let ghost k = prefix_chars(output@, initial_len as int);
    proof {
        lemma_utf8_len_take_mono(output@, k, output@.len() as int);
        assert(output@.take(output@.len() as int) =~= output@);
    }
    let appended_len = string_len(output) - initial_len;
    let width = utf8_width(ch);
    let room = if max_append_len >= appended_len {
        max_append_len - appended_len
    } else {
        0
    };
    if width > room {
        truncate_to_prefix(output, initial_len, Ghost(k));
        return Err(TextError::AppendLimit { max_append_len });
    }
    string_push(output, ch);
    Ok(())
}

/// Appending under a limit, one character after another, to a text that
/// held `before`, with the limit counted from the end of `before`: each
/// character is taken exactly when the characters appended so far, it
/// included, fit the limit; and a refused character cuts the text back to
/// exactly `before`, whatever had been appended. So a limited read either
/// appends all it read within the limit, or leaves the output as it was.
pub proof fn lemma_limited_appends_or_restores(before: Seq<char>, added: Seq<char>, max_append_len: int, ch: char)
    ensures
        prefix_chars(before + added, utf8_len(before) as int) == before.len(),
        (before + added).take(prefix_chars(before + added, utf8_len(before) as int)) == before,
        fits_limit(before + added, utf8_len(before) as int, max_append_len, ch) <==> utf8_len(
            added.push(ch),
        ) <= max_append_len,
{
    let text = before + added;
    let b = before.len() as int;
    assert(text.take(b) =~= before);
    assert(cursor_at(text, utf8_len(before) as int, b));
    let k = prefix_chars(text, utf8_len(before) as int);
    assert(cursor_at(text, utf8_len(before) as int, k));
    if k < b {
        lemma_utf8_len_take_mono(text, k, b);
    } else if k > b {
        lemma_utf8_len_take_mono(text, b, k);
    }
    lemma_utf8_len_concat(before, added);
    lemma_utf8_len_push(added, ch);
}

} // verus!
