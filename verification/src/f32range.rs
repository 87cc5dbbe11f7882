//! Running minimum/maximum tracker for a stream of IEEE 754 single-precision
//! samples.
//!
//! The simulation stores every concentration as the 32-bit pattern of an IEEE
//! 754 single-precision value (what `to_bits` yields on the driver's side);
//! this module never touches hardware floats. Samples are compared in the
//! IEEE 754 total order on those patterns, which agrees with the numeric
//! order on every non-NaN value apart from placing the negative zero strictly
//! below the positive one. A NaN sample leaves the tracker unchanged, just as
//! the running `min`/`max` of the floats would ignore it, so the bounds are
//! never NaN patterns unless the tracker started from one.

use vstd::prelude::*;

verus! {

/// Pattern of positive infinity.
pub const CODE_POS_INF: u32 = 0x7F80_0000;

/// Pattern of negative infinity.
pub const CODE_NEG_INF: u32 = 0xFF80_0000;

/// Rank of a pattern in the IEEE 754 total order: patterns with the sign bit
/// set (negative values) are mapped below the others, reversed, so that ranks
/// compare as the encoded values do.
pub open spec fn code_rank(c: u32) -> int {
    if c >= 0x8000_0000 {
        0xFFFF_FFFF - c
    } else {
        c + 0x8000_0000
    }
}

/// `a` is at or below `b` in the total order on patterns.
pub open spec fn code_le(a: u32, b: u32) -> bool {
    code_rank(a) <= code_rank(b)
}

/// The magnitude bits of a pattern: the pattern with its sign bit cleared.
pub open spec fn code_magnitude(c: u32) -> int {
    if c >= 0x8000_0000 {
        c - 0x8000_0000
    } else {
        c as int
    }
}

/// Patterns of NaN values: the magnitude bits exceed those of infinity.
pub open spec fn nan_code(c: u32) -> bool {
    code_magnitude(c) > CODE_POS_INF
}

/// A non-NaN pattern ranks between the two infinities in the total order.
pub proof fn lemma_non_nan_ranks_between_infinities(c: u32)
    requires
        !nan_code(c),
    ensures
        code_le(CODE_NEG_INF, c),
        code_le(c, CODE_POS_INF),
{
}

/// The lower of two patterns in the total order.
pub open spec fn min_code(a: u32, b: u32) -> u32 {
    if code_le(a, b) {
        a
    } else {
        b
    }
}

/// The higher of two patterns in the total order.
pub open spec fn max_code(a: u32, b: u32) -> u32 {
    if code_le(b, a) {
        a
    } else {
        b
    }
}

/// Rank of a pattern, as a machine integer.
fn rank(c: u32) -> (r: u32)
    ensures
        r == code_rank(c),
{
    if c >= 0x8000_0000 {
        0xFFFF_FFFF - c
    } else {
        c + 0x8000_0000
    }
}

/// Running minimum and maximum of the samples folded in so far.
#[derive(Debug, Clone, Copy, PartialEq, Eq, Structural)]
pub struct F32Range {
    /// Pattern of the least sample seen, in the total order.
    pub low: u32,
    /// Pattern of the greatest sample seen, in the total order.
    pub high: u32,
}

/// The degenerate range `[0, 0]`, installed on grids that hold at least one
/// cell before any sample is folded in.
pub open spec fn zero_range() -> F32Range {
    F32Range { low: 0, high: 0 }
}

/// The empty range: positive infinity above negative infinity, so that the
/// first sample folded in becomes both bounds.
pub open spec fn empty_range() -> F32Range {
    F32Range { low: CODE_POS_INF, high: CODE_NEG_INF }
}

/// The range `t` reaches after folding in the sample `v`: a NaN sample
/// leaves it unchanged — the running `min`/`max` of the floats ignore NaN —
/// and any other sample widens the bounds under the total order.
pub open spec fn expand_spec(t: F32Range, v: u32) -> F32Range {
    if nan_code(v) {
        t
    } else {
        F32Range { low: min_code(t.low, v), high: max_code(t.high, v) }
    }
}

/// The range an empty tracker reaches after folding in every element of `s`,
/// in order.
pub open spec fn fold_range(s: Seq<u32>) -> F32Range
    decreases s.len(),
{
    if s.len() == 0 {
        empty_range()
    } else {
        expand_spec(fold_range(s.drop_last()), s.last())
    }
}

/// Law: folding a stream of non-NaN samples into an empty tracker leaves
/// `low` at the least and `high` at the greatest element of the stream, in
/// the total order, and both bounds are elements of the stream. On non-NaN
/// patterns the total order is the numeric order, so the bounds are the true
/// minimum and maximum of the encoded values.
pub proof fn lemma_fold_range_extremes(s: Seq<u32>)
    requires
        s.len() > 0,
        forall|i: int| 0 <= i < s.len() ==> !nan_code(#[trigger] s[i]),
    ensures
        s.contains(fold_range(s).low),
        s.contains(fold_range(s).high),
        forall|i: int| 0 <= i < s.len() ==> code_le(fold_range(s).low, #[trigger] s[i]),
        forall|i: int| 0 <= i < s.len() ==> code_le(#[trigger] s[i], fold_range(s).high),
    decreases s.len(),
{
    let r = fold_range(s);
    let v = s.last();
    assert(s.contains(v)) by {
        assert(s[s.len() - 1] == v);
    }
    assert(!nan_code(v)) by {
        assert(s[s.len() - 1] == v);
    }
    if s.len() == 1 {
        // The single sample ranks at or below positive infinity and at or
        // above negative infinity, so it becomes both bounds: the ranks are
        // injective, so a sample that ties with an infinity is that infinity.
        assert(s.drop_last().len() == 0);
        assert(fold_range(s.drop_last()) == empty_range());
        assert(r == expand_spec(empty_range(), v));
        lemma_non_nan_ranks_between_infinities(v);
        assert(code_le(CODE_POS_INF, v) ==> v == CODE_POS_INF);
        assert(code_le(v, CODE_NEG_INF) ==> v == CODE_NEG_INF);
        assert(r.low == v && r.high == v);
    } else {
        let dl = s.drop_last();
        lemma_fold_range_extremes(dl);
        let t = fold_range(dl);
        assert forall|w: u32| dl.contains(w) implies s.contains(w) by {
            let i = choose|i: int| 0 <= i < dl.len() && dl[i] == w;
            assert(s[i] == w);
        }
        assert forall|i: int| 0 <= i < s.len() implies code_le(r.low, #[trigger] s[i]) && code_le(
            s[i],
            r.high,
        ) by {
            if i < s.len() - 1 {
                assert(dl[i] == s[i]);
            }
        }
    }
}

impl F32Range {
    /// Tracker holding the degenerate range `[0, 0]`.
    pub fn zero() -> (r: Self)
        ensures
            r == zero_range(),
    {
        F32Range { low: 0, high: 0 }
    }

    /// Tracker holding the empty range.
    pub fn empty() -> (r: Self)
        ensures
            r == empty_range(),
    {
        F32Range { low: CODE_POS_INF, high: CODE_NEG_INF }
    }

    /// Folds one sample into the running range: `low` keeps the minimum and
    /// `high` the maximum, in the total order on patterns. A NaN sample is
    /// ignored, as the running `min`/`max` of the floats would ignore it.
    pub fn expand(&mut self, v: u32)
        ensures
            *final(self) == expand_spec(*old(self), v),
    {
        let magnitude = if v >= 0x8000_0000 {
            v - 0x8000_0000
        } else {
            v
        };
        if magnitude > CODE_POS_INF {
            return ;
        }
        let rv = rank(v);
        if rv < rank(self.low) {
            self.low = v;
        }
        if rv > rank(self.high) {
            self.high = v;
        }
    }
}

} // verus!
