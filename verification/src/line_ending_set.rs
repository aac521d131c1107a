//! Configurable sets of line endings accepted by text readers.
use vstd::prelude::*;

use crate::line_ending::LineEnding;

verus! {

/// Bit that stands for `line_ending` in a [`LineEndingSet`].
pub open spec fn line_ending_bit(line_ending: LineEnding) -> u8 {
    match line_ending {
        LineEnding::Lf => 1u8,
        LineEnding::CrLf => 2u8,
        LineEnding::Cr => 4u8,
    }
}

/// A set of line endings accepted by text readers.
///
/// The default set accepts LF, CRLF and CR. When both CRLF and CR are
/// enabled, a CRLF sequence is consumed as one line ending.
#[derive(Clone, Copy, Debug, Eq, Hash, PartialEq, Structural)]
pub struct LineEndingSet(u8);

/// Bit facts about the constant sets.
proof fn lemma_constant_bits()
    by (bit_vector)
    ensures
        0u8 & 1u8 == 0 && 0u8 & 2u8 == 0 && 0u8 & 4u8 == 0 && 0u8 & 0xf8u8 == 0,
        1u8 & 1u8 != 0 && 1u8 & 2u8 == 0 && 1u8 & 4u8 == 0 && 1u8 & 0xf8u8 == 0,
        2u8 & 1u8 == 0 && 2u8 & 2u8 != 0 && 2u8 & 4u8 == 0 && 2u8 & 0xf8u8 == 0,
        4u8 & 1u8 == 0 && 4u8 & 2u8 == 0 && 4u8 & 4u8 != 0 && 4u8 & 0xf8u8 == 0,
        7u8 & 1u8 != 0 && 7u8 & 2u8 != 0 && 7u8 & 4u8 != 0 && 7u8 & 0xf8u8 == 0,
{
}

/// Setting one bit leaves the other line-ending bits as they were.
proof fn lemma_or_bit(bits: u8, bit: u8, m: u8)
    by (bit_vector)
    requires
        bit == 1u8 || bit == 2u8 || bit == 4u8,
        m == 1u8 || m == 2u8 || m == 4u8,
    ensures
        ((bits | bit) & m != 0) == ((bits & m != 0) || bit == m),
{
}

/// Clearing one bit leaves the other line-ending bits as they were.
proof fn lemma_and_not_bit(bits: u8, bit: u8, m: u8)
    by (bit_vector)
    requires
        bit == 1u8 || bit == 2u8 || bit == 4u8,
        m == 1u8 || m == 2u8 || m == 4u8,
    ensures
        ((bits & !bit) & m != 0) == ((bits & m != 0) && bit != m),
{
}

impl LineEndingSet {
    /// The bits of this set; only the three low bits are ever set.
    pub closed spec fn bits(self) -> u8 {
        self.0
    }

    /// Whether this set accepts `line_ending`.
    pub open spec fn accepts(self, line_ending: LineEnding) -> bool {
        self.bits() & line_ending_bit(line_ending) != 0
    }

    /// Only the three bits that stand for line endings may be set; every
    /// set the library makes keeps this.
    #[verifier::type_invariant]
    pub open spec fn wf(self) -> bool {
        self.bits() & 0xf8u8 == 0
    }

    /// Whether `self` and `other` accept the same line endings.
    pub open spec fn same_endings(self, other: Self) -> bool {
        forall|e: LineEnding| self.accepts(e) == other.accepts(e)
    }

    /// The set accepting LF line endings only.
    pub closed spec fn lf_spec() -> Self {
        LineEndingSet(1)
    }

    /// The set accepting CRLF line endings only.
    pub closed spec fn crlf_spec() -> Self {
        LineEndingSet(2)
    }

    /// The set accepting CR line endings only.
    pub closed spec fn cr_spec() -> Self {
        LineEndingSet(4)
    }

    /// The set accepting every line ending.
    pub closed spec fn all_spec() -> Self {
        LineEndingSet(7)
    }

    /// The set accepting no line ending.
    pub closed spec fn none_spec() -> Self {
        LineEndingSet(0)
    }

    /// What the constant sets accept.
    pub proof fn lemma_constant_sets()
        ensures
            Self::lf_spec().wf() && Self::lf_spec().accepts(LineEnding::Lf) && !Self::lf_spec().accepts(
                LineEnding::CrLf,
            ) && !Self::lf_spec().accepts(LineEnding::Cr),
            Self::crlf_spec().wf() && !Self::crlf_spec().accepts(LineEnding::Lf)
                && Self::crlf_spec().accepts(LineEnding::CrLf) && !Self::crlf_spec().accepts(
                LineEnding::Cr,
            ),
            Self::cr_spec().wf() && !Self::cr_spec().accepts(LineEnding::Lf) && !Self::cr_spec().accepts(
                LineEnding::CrLf,
            ) && Self::cr_spec().accepts(LineEnding::Cr),
            Self::all_spec().wf() && Self::all_spec().accepts(LineEnding::Lf)
                && Self::all_spec().accepts(LineEnding::CrLf) && Self::all_spec().accepts(
                LineEnding::Cr,
            ),
            Self::none_spec().wf() && Self::none_spec().is_empty_spec(),
    {
        lemma_constant_bits();
    }

    /// A set accepting LF line endings only.
    pub fn lf() -> (set: Self)
        ensures
            set == Self::lf_spec(),
            set.wf(),
            set.accepts(LineEnding::Lf),
            !set.accepts(LineEnding::CrLf),
            !set.accepts(LineEnding::Cr),
    {
        proof {
            lemma_constant_bits();
        }
        LineEndingSet(1)
    }

    /// A set accepting CRLF line endings only.
    pub fn crlf() -> (set: Self)
        ensures
            set == Self::crlf_spec(),
            set.wf(),
            !set.accepts(LineEnding::Lf),
            set.accepts(LineEnding::CrLf),
            !set.accepts(LineEnding::Cr),
    {
        proof {
            lemma_constant_bits();
        }
        LineEndingSet(2)
    }

    /// A set accepting CR line endings only.
    pub fn cr() -> (set: Self)
        ensures
            set == Self::cr_spec(),
            set.wf(),
            !set.accepts(LineEnding::Lf),
            !set.accepts(LineEnding::CrLf),
            set.accepts(LineEnding::Cr),
    {
        proof {
            lemma_constant_bits();
        }
        LineEndingSet(4)
    }

    /// A set accepting LF, CRLF and CR line endings.
    pub fn all() -> (set: Self)
        ensures
            set == Self::all_spec(),
            set.wf(),
            set.accepts(LineEnding::Lf),
            set.accepts(LineEnding::CrLf),
            set.accepts(LineEnding::Cr),
    {
        proof {
            lemma_constant_bits();
        }
        LineEndingSet(7)
    }

    /// A set accepting no line ending.
    pub fn none() -> (set: Self)
        ensures
            set == Self::none_spec(),
            set.wf(),
            set.is_empty_spec(),
            !set.accepts(LineEnding::Lf),
            !set.accepts(LineEnding::CrLf),
            !set.accepts(LineEnding::Cr),
    {
        proof {
            lemma_constant_bits();
        }
        LineEndingSet(0)
    }

    /// This set with `line_ending` added.
    pub closed spec fn with_spec(self, line_ending: LineEnding) -> Self {
        LineEndingSet(self.0 | line_ending_bit(line_ending))
    }

    /// This set with `line_ending` removed.
    pub closed spec fn without_spec(self, line_ending: LineEnding) -> Self {
        LineEndingSet(self.0 & !line_ending_bit(line_ending))
    }

    /// The set accepting `line_ending` only.
    pub open spec fn only_spec(line_ending: LineEnding) -> Self {
        match line_ending {
            LineEnding::Lf => Self::lf_spec(),
            LineEnding::CrLf => Self::crlf_spec(),
            LineEnding::Cr => Self::cr_spec(),
        }
    }

    /// Whether this set accepts no line ending.
    pub open spec fn is_empty_spec(self) -> bool {
        !self.accepts(LineEnding::Lf) && !self.accepts(LineEnding::CrLf)
            && !self.accepts(LineEnding::Cr)
    }

    /// Creates a set accepting one line ending.
    pub fn only(line_ending: LineEnding) -> (set: Self)
        ensures
            set == Self::only_spec(line_ending),
            set.wf(),
            forall|e: LineEnding| #[trigger] set.accepts(e) == (e == line_ending),
    {
        match line_ending {
            LineEnding::Lf => Self::lf(),
            LineEnding::CrLf => Self::crlf(),
            LineEnding::Cr => Self::cr(),
        }
    }

    /// Returns whether this set accepts `line_ending`.
    pub fn contains(self, line_ending: LineEnding) -> (accepted: bool)
        ensures
            accepted == self.accepts(line_ending),
    {
        let bits = self.0;
        match line_ending {
            LineEnding::Lf => bits & 1 != 0,
            LineEnding::CrLf => bits & 2 != 0,
            LineEnding::Cr => bits & 4 != 0,
        }
    }

    /// Adds one line ending to this set.
    pub fn with(self, line_ending: LineEnding) -> (set: Self)
        ensures
            set == self.with_spec(line_ending),
            set.wf(),
            forall|e: LineEnding| #[trigger] set.accepts(e) == (self.accepts(e) || e == line_ending),
    {
        let bits = self.0;
        let bit: u8 = match line_ending {
            LineEnding::Lf => 1,
            LineEnding::CrLf => 2,
            LineEnding::Cr => 4,
        };
        proof {
            use_type_invariant(&self);
        }
        assert((bits & 0xf8u8 == 0) ==> ((bits | bit) & 0xf8u8 == 0)) by (bit_vector)
            requires
                bit == 1u8 || bit == 2u8 || bit == 4u8,
        ;
        let set = LineEndingSet(bits | bit);
        assert(bit == line_ending_bit(line_ending));
        assert(forall|e: LineEnding| (line_ending_bit(e) == bit) == (e == line_ending));
        assert forall|e: LineEnding| #[trigger] set.accepts(e) == (self.accepts(e) || e == line_ending) by {
            lemma_or_bit(bits, bit, line_ending_bit(e));
        }
        set
    }

    /// Removes one line ending from this set.
    pub fn without(self, line_ending: LineEnding) -> (set: Self)
        ensures
            set == self.without_spec(line_ending),
            set.wf(),
            forall|e: LineEnding| #[trigger] set.accepts(e) == (self.accepts(e) && e != line_ending),
    {
        let bits = self.0;
        let bit: u8 = match line_ending {
            LineEnding::Lf => 1,
            LineEnding::CrLf => 2,
            LineEnding::Cr => 4,
        };
        proof {
            use_type_invariant(&self);
        }
        assert((bits & 0xf8u8 == 0) ==> ((bits & !bit) & 0xf8u8 == 0)) by (bit_vector);
        let set = LineEndingSet(bits & !bit);
        assert(bit == line_ending_bit(line_ending));
        assert(forall|e: LineEnding| (line_ending_bit(e) == bit) == (e == line_ending));
        assert forall|e: LineEnding| #[trigger] set.accepts(e) == (self.accepts(e) && e != line_ending) by {
            lemma_and_not_bit(bits, bit, line_ending_bit(e));
        }
        set
    }

    /// Returns whether this set accepts no line endings.
    pub fn is_empty(self) -> (empty: bool)
        ensures
            empty == self.is_empty_spec(),
    {
        proof {
            use_type_invariant(&self);
        }
        let bits = self.0;
        assert((bits & 0xf8u8 == 0) ==> ((bits == 0u8) == (bits & 1u8 == 0 && bits & 2u8 == 0 && bits
            & 4u8 == 0))) by (bit_vector);
        bits == 0
    }
}

impl Default for LineEndingSet {
    /// The default set accepts every line ending.
    fn default() -> (set: Self)
        ensures
            set == LineEndingSet::all_spec(),
            set.wf(),
            set.accepts(LineEnding::Lf),
            set.accepts(LineEnding::CrLf),
            set.accepts(LineEnding::Cr),
    {
        proof {
            LineEndingSet::lemma_constant_sets();
        }
        Self::all()
    }
}

/// A well-formed set is determined by the line endings it accepts.
pub proof fn lemma_set_determined_by_endings(a: LineEndingSet, b: LineEndingSet)
    requires
        a.wf(),
        b.wf(),
        a.same_endings(b),
    ensures
        a == b,
{
    let x = a.bits();
    let y = b.bits();
    assert(a.accepts(LineEnding::Lf) == b.accepts(LineEnding::Lf));
    assert(a.accepts(LineEnding::CrLf) == b.accepts(LineEnding::CrLf));
    assert(a.accepts(LineEnding::Cr) == b.accepts(LineEnding::Cr));
    assert(x == y) by (bit_vector)
        requires
            x & 0xf8u8 == 0,
            y & 0xf8u8 == 0,
            (x & 1u8 != 0) == (y & 1u8 != 0),
            (x & 2u8 != 0) == (y & 2u8 != 0),
            (x & 4u8 != 0) == (y & 4u8 != 0),
    ;
}

/// Adding a line ending twice adds it once, and adding two line endings
/// gives the same set in either order.
pub proof fn lemma_with_idempotent_and_commutative(s: LineEndingSet, a: LineEnding, b: LineEnding)
    ensures
        s.with_spec(a).with_spec(a) == s.with_spec(a),
        s.with_spec(a).with_spec(b) == s.with_spec(b).with_spec(a),
{
    let x = s.bits();
    let p = line_ending_bit(a);
    let q = line_ending_bit(b);
    assert((x | p) | p == x | p) by (bit_vector);
    assert((x | p) | q == (x | q) | p) by (bit_vector);
}

/// Removing a line ending that was just added to a set lacking it gives
/// the set back.
pub proof fn lemma_with_then_without(s: LineEndingSet, a: LineEnding)
    requires
        !s.accepts(a),
    ensures
        s.with_spec(a).without_spec(a) == s,
{
    let x = s.bits();
    let p = line_ending_bit(a);
    assert(p == 1u8 || p == 2u8 || p == 4u8);
    assert((x | p) & !p == x) by (bit_vector)
        requires
            x & p == 0,
    ;
}

} // verus!
