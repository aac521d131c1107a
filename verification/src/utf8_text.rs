//! UTF-8 lengths of character sequences, and the `String` and `str`
//! operations on them that the text adapters use.
use vstd::prelude::*;
use vstd::string::StringSliceAdditionalSpecFns;
use vstd::utf8::*;

verus! {

broadcast use vstd::utf8::group_utf8_lib;

/// Number of UTF-8 bytes needed to encode `text`.
pub open spec fn utf8_len(text: Seq<char>) -> nat {
    encode_utf8(text).len()
}

/// Number of UTF-8 bytes needed to encode `ch`.
pub open spec fn char_utf8_len(ch: char) -> nat {
    encode_scalar(ch as u32).len()
}

/// Encoding a concatenation encodes both parts one after the other.
pub proof fn lemma_encode_utf8_concat(a: Seq<char>, b: Seq<char>)
    ensures
        encode_utf8(a + b) == encode_utf8(a) + encode_utf8(b),
    decreases a.len(),
{
    if a.len() == 0 {
        assert(a + b =~= b);
        assert(encode_utf8(a) =~= Seq::<u8>::empty());
        assert(encode_utf8(a) + encode_utf8(b) =~= encode_utf8(b));
    } else {
        lemma_encode_utf8_concat(a.drop_first(), b);
        assert((a + b).drop_first() =~= a.drop_first() + b);
        assert((a + b)[0] == a[0]);
        assert(encode_utf8(a + b) =~= encode_utf8(a) + encode_utf8(b));
    }
}

/// The UTF-8 length of a concatenation is the sum of the lengths.
pub proof fn lemma_utf8_len_concat(a: Seq<char>, b: Seq<char>)
    ensures
        utf8_len(a + b) == utf8_len(a) + utf8_len(b),
{
    lemma_encode_utf8_concat(a, b);
}

/// The UTF-8 length of one character sequence.
pub proof fn lemma_utf8_len_single(ch: char)
    ensures
        utf8_len(seq![ch]) == char_utf8_len(ch),
        1 <= char_utf8_len(ch) <= 4,
{
    let s = seq![ch];
    assert(s.drop_first() =~= Seq::<char>::empty());
    assert(encode_utf8(s.drop_first()) =~= Seq::<u8>::empty());
    assert(encode_utf8(s) =~= encode_scalar(ch as u32));
}

/// Pushing one character adds its UTF-8 length.
pub proof fn lemma_utf8_len_push(a: Seq<char>, ch: char)
    ensures
        utf8_len(a.push(ch)) == utf8_len(a) + char_utf8_len(ch),
{
    lemma_utf8_len_concat(a, seq![ch]);
    lemma_utf8_len_single(ch);
    assert(a.push(ch) =~= a + seq![ch]);
}

/// The UTF-8 length of a prefix grows with the prefix.
pub proof fn lemma_utf8_len_take_mono(text: Seq<char>, i: int, j: int)
    requires
        0 <= i <= j <= text.len(),
    ensures
        utf8_len(text.take(i)) + (j - i) <= utf8_len(text.take(j)),
    decreases j - i,
{
    if i < j {
        lemma_utf8_len_take_mono(text, i, j - 1);
        assert(text.take(j) =~= text.take(j - 1).push(text[j - 1]));
        lemma_utf8_len_push(text.take(j - 1), text[j - 1]);
        lemma_utf8_len_single(text[j - 1]);
    }
}

/// The UTF-8 length of a prefix is never more than that of the whole text.
pub proof fn lemma_utf8_len_take_le(text: Seq<char>, i: int)
    requires
        0 <= i <= text.len(),
    ensures
        utf8_len(text.take(i)) <= utf8_len(text),
{
    lemma_utf8_len_take_mono(text, i, text.len() as int);
    assert(text.take(text.len() as int) =~= text);
}

/// A prefix of a text ends on a character boundary of its encoding.
pub proof fn lemma_prefix_is_char_boundary(a: Seq<char>, b: Seq<char>)
    ensures
        is_char_boundary(encode_utf8(a + b), utf8_len(a) as int),
    decreases a.len(),
{
    let bytes = encode_utf8(a + b);
    if a.len() == 0 {
        assert(encode_utf8(a) =~= Seq::<u8>::empty());
    } else {
        let ab = a + b;
        encode_utf8_first_scalar(ab);
        assert(ab.drop_first() =~= a.drop_first() + b);
        assert(pop_first_scalar(bytes) =~= encode_utf8(ab.drop_first()));
        lemma_prefix_is_char_boundary(a.drop_first(), b);
        lemma_encode_utf8_concat(a, b);
        assert(ab[0] == a[0]);
        assert(utf8_len(a) == encode_scalar(a[0] as u32).len() + utf8_len(a.drop_first()));
        lemma_utf8_len_concat(a, b);
    }
}

/// Decoding the encoding of a text gives the text back, so equal encodings
/// come from equal texts.
pub proof fn lemma_encode_utf8_injective(a: Seq<char>, b: Seq<char>)
    requires
        encode_utf8(a) == encode_utf8(b),
    ensures
        a == b,
{
    encode_utf8_decode_utf8(a);
    encode_utf8_decode_utf8(b);
}

/// Returns the number of UTF-8 bytes that encode `ch`.
pub fn utf8_width(ch: char) -> (width: usize)
    ensures
        width == char_utf8_len(ch),
        1 <= width <= 4,
{
    let v = ch as u32;
    proof {
        char_is_scalar(ch);
    }
    if v <= 0x7f {
        1
    } else if v <= 0x7ff {
        2
    } else if v <= 0xffff {
        3
    } else {
        4
    }
}

/// Appends `ch` to `text` (`String::push`).
#[verifier::external_body]
pub(crate) fn string_push(text: &mut String, ch: char)
    ensures
        final(text)@ == old(text)@.push(ch),
{
    text.push(ch);
}

/// Appends `suffix` to `text` (`String::push_str`).
#[verifier::external_body]
pub(crate) fn string_push_str(text: &mut String, suffix: &str)
    ensures
        final(text)@ == old(text)@ + suffix@,
{
    text.push_str(suffix);
}

/// Returns the length of `text` in UTF-8 bytes (`String::len`); a string
/// never holds more than `isize::MAX` bytes.
#[verifier::external_body]
pub(crate) fn string_len(text: &String) -> (len: usize)
    ensures
        len == utf8_len(text@),
        len <= isize::MAX,
{
    text.len()
}

/// Shortens `text` to its first `new_len` bytes (`String::truncate`).
#[verifier::external_body]
pub(crate) fn string_truncate(text: &mut String, new_len: usize)
    requires
        new_len <= utf8_len(old(text)@),
        is_char_boundary(encode_utf8(old(text)@), new_len as int),
    ensures
        encode_utf8(final(text)@) == encode_utf8(old(text)@).take(new_len as int),
{
    text.truncate(new_len);
}

/// Shortens `text` back to a prefix of `keep` characters whose UTF-8 length
/// is `new_len`.
pub(crate) fn truncate_to_prefix(text: &mut String, new_len: usize, Ghost(keep): Ghost<int>)
    requires
        0 <= keep <= old(text)@.len(),
        new_len == utf8_len(old(text)@.take(keep)),
    ensures
        final(text)@ == old(text)@.take(keep),
{
    let ghost t = text@;
    proof {
        assert(t =~= t.take(keep) + t.skip(keep));
        lemma_prefix_is_char_boundary(t.take(keep), t.skip(keep));
        lemma_encode_utf8_concat(t.take(keep), t.skip(keep));
        lemma_utf8_len_take_le(t, keep);
    }
    string_truncate(text, new_len);
    proof {
        let bytes = encode_utf8(t);
        assert(bytes.take(new_len as int) =~= encode_utf8(t.take(keep)));
        lemma_encode_utf8_injective(text@, t.take(keep));
    }
}

/// Returns the text of `text` from byte `position` on, which is the text
/// after its first `index` characters.
pub(crate) fn str_suffix<'a>(text: &'a str, position: usize, Ghost(index): Ghost<int>) -> (suffix: &'a str)
    requires
        0 <= index <= text@.len(),
        position == utf8_len(text@.take(index)),
    ensures
        suffix@ == text@.skip(index),
{
    let ghost t = text@;
    proof {
        assert(t =~= t.take(index) + t.skip(index));
        lemma_prefix_is_char_boundary(t.take(index), t.skip(index));
        lemma_encode_utf8_concat(t.take(index), t.skip(index));
        assert(text.spec_bytes() == encode_utf8(t));
    }
    let (_, rest) = text.split_at(position);
    proof {
        let bytes = encode_utf8(t);
        assert(bytes.subrange(position as int, bytes.len() as int) =~= encode_utf8(t.skip(index)));
        assert(rest.spec_bytes() == encode_utf8(rest@));
        lemma_encode_utf8_injective(rest@, t.skip(index));
    }
    rest
}

} // verus!
