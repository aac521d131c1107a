//! Characters read ahead by a character-input text reader.
//!
//! A character-input reader keeps here the characters it looked at ahead of
//! the caller, such as the character after a closing carriage return, and
//! delivers them before anything read later.
use std::collections::VecDeque;

use vstd::prelude::*;

use crate::utf8_text::string_push;

verus! {

/// Characters read ahead and not delivered yet, in reading order.
#[derive(Debug)]
pub struct PendingChars {
    chars: VecDeque<char>,
}

impl PendingChars {
    /// The characters held, first to be read first.
    pub closed spec fn view(&self) -> Seq<char> {
        self.chars@
    }

    /// An empty holder.
    pub fn new() -> (pending: Self)
        ensures
            pending.view() == Seq::<char>::empty(),
    {
        PendingChars { chars: VecDeque::new() }
    }

    /// Takes the first character held, if any.
    pub fn pop(&mut self) -> (ch: Option<char>)
        ensures
            old(self).view().len() == 0 ==> ch is None && final(self).view() == old(self).view(),
            old(self).view().len() > 0 ==> ch == Some(old(self).view()[0]) && final(self).view()
                == old(self).view().drop_first(),
    {
        let ch = self.chars.pop_front();
        proof {
            if ch is Some {
                assert(self.chars@ =~= old(self).chars@.drop_first());
            }
        }
        ch
    }

    /// Moves up to `max` held characters to the end of `output` and returns
    /// how many were moved.
    pub fn drain_chars(&mut self, output: &mut Vec<char>, max: usize) -> (count: usize)
        ensures
            count == if old(self).view().len() <= max {
                old(self).view().len()
            } else {
                max as nat
            },
            final(output)@ == old(output)@ + old(self).view().take(count as int),
            final(self).view() == old(self).view().skip(count as int),
    {
        let total = self.chars.len();
        let mut count: usize = 0;
        while count < max
            invariant
                total == old(self).view().len(),
                count <= max,
                count <= old(self).view().len(),
                self.view() == old(self).view().skip(count as int),
                output@ == old(output)@ + old(self).view().take(count as int),
            ensures
                count <= max,
                count == max || count == old(self).view().len(),
                self.view() == old(self).view().skip(count as int),
                output@ == old(output)@ + old(self).view().take(count as int),
            decreases max - count,
        {
            match self.pop() {
                None => {
                    assert(old(self).view().skip(count as int).len() == 0);
                    break;
                },
                Some(ch) => {
                    output.push(ch);
                    count += 1;
                    assert(old(self).view().take(count as int) =~= old(self).view().take(
                        count - 1,
                    ).push(ch));
                    assert(self.view() =~= old(self).view().skip(count as int));
                },
            }
        }
        count
    }

    /// Appends every held character to `output` and returns how many were
    /// appended.
    pub fn drain_string(&mut self, output: &mut String) -> (count: usize)
        ensures
            count == old(self).view().len(),
            final(output)@ == old(output)@ + old(self).view(),
            final(self).view() == Seq::<char>::empty(),
    {
        let total = self.chars.len();
        let mut count: usize = 0;
        loop
            invariant_except_break
                total == old(self).view().len(),
                count <= old(self).view().len(),
                self.view() == old(self).view().skip(count as int),
                output@ == old(output)@ + old(self).view().take(count as int),
            ensures
                count == old(self).view().len(),
                self.view() == Seq::<char>::empty(),
                output@ == old(output)@ + old(self).view(),
            decreases old(self).view().len() - count,
        {
            match self.pop() {
                None => {
                    assert(old(self).view().take(count as int) =~= old(self).view());
                    break;
                },
                Some(ch) => {
                    string_push(output, ch);
                    count += 1;
                    assert(old(self).view().take(count as int) =~= old(self).view().take(
                        count - 1,
                    ).push(ch));
                    assert(self.view() =~= old(self).view().skip(count as int));
                },
            }
        }
        count
    }

    /// Hands `ch` back to be read before the characters held.
    pub fn hand_back(&mut self, ch: char)
        ensures
            final(self).view() == seq![ch] + old(self).view(),
    {
        self.chars.push_front(ch);
    }
}

} // verus!
