//! Line endings written by text writers.
use vstd::prelude::*;

verus! {

/// Line ending used by text writers when writing a complete line.
#[derive(Clone, Copy, Debug, Eq, Hash, PartialEq, Structural)]
pub enum LineEnding {
    /// Unix line ending, `\n`.
    Lf,
    /// Windows line ending, `\r\n`.
    CrLf,
    /// Classic Mac OS line ending, `\r`.
    Cr,
}

/// The characters that make up `line_ending`.
pub open spec fn line_ending_chars(line_ending: LineEnding) -> Seq<char> {
    match line_ending {
        LineEnding::Lf => seq!['\n'],
        LineEnding::CrLf => seq!['\r', '\n'],
        LineEnding::Cr => seq!['\r'],
    }
}

impl LineEnding {
    /// Returns the string representation of this line ending.
    pub fn as_str(self) -> (text: &'static str)
        ensures
            text@ == line_ending_chars(self),
    {
        match self {
            LineEnding::Lf => {
                proof {
                    reveal_strlit("\n");
                }
                "\n"
            },
            LineEnding::CrLf => {
                proof {
                    reveal_strlit("\r\n");
                }
                "\r\n"
            },
            LineEnding::Cr => {
                proof {
                    reveal_strlit("\r");
                }
                "\r"
            },
        }
    }
}

impl Default for LineEnding {
    /// The default line ending is LF.
    fn default() -> (line_ending: Self)
        ensures
            line_ending == LineEnding::Lf,
    {
        LineEnding::Lf
    }
}

} // verus!
