use vstd::prelude::*;

verus! {

/// Which side of the zero line a value lies on.
#[derive(Clone, Copy, Debug, PartialEq, Eq, Structural)]
pub enum Sign {
    Negative,
    Zero,
    Positive,
}

/// The signal of one tick of a [`Cross`], given the side of zero that the
/// compared difference lay on before and lies on now: `1` when it moves from
/// at-or-below zero to above, `-1` when it moves from at-or-above zero to
/// below, `0` otherwise.
pub open spec fn cross_signal(last: Sign, current: Sign) -> int {
    if last != Sign::Positive && current == Sign::Positive {
        1
    } else if last != Sign::Negative && current == Sign::Negative {
        -1
    } else {
        0
    }
}

/// Side of zero of the difference before tick `i`, for a detector that
/// started with `last` and was then fed `signs`.
pub open spec fn sign_before(last: Sign, signs: Seq<Sign>, i: int) -> Sign {
    if i == 0 {
        last
    } else {
        signs[i - 1]
    }
}

/// Signals, in order, of a detector that starts with `last` and is fed `signs`.
pub open spec fn signals(last: Sign, signs: Seq<Sign>) -> Seq<int> {
    Seq::new(signs.len(), |i: int| cross_signal(sign_before(last, signs, i), signs[i]))
}

/// Every signal is `-1`, `0` or `1`.
pub proof fn lemma_signals_bounded(last: Sign, signs: Seq<Sign>)
    ensures
        signals(last, signs).len() == signs.len(),
        forall|i: int|
            0 <= i < signs.len() ==> {
                let g = #[trigger] signals(last, signs)[i];
                g == -1 || g == 0 || g == 1
            },
{
}

/// On a tick where the difference rises strictly above zero from at or below
/// it, the signal is `1`; where it falls strictly below zero from at or above
/// it, `-1`.
pub proof fn lemma_zero_line(last: Sign, signs: Seq<Sign>, i: int)
    requires
        0 <= i < signs.len(),
    ensures
        sign_before(last, signs, i) != Sign::Positive && signs[i] == Sign::Positive
            ==> signals(last, signs)[i] == 1,
        sign_before(last, signs, i) != Sign::Negative && signs[i] == Sign::Negative
            ==> signals(last, signs)[i] == -1,
{
}

/// Zero-crossing detector: remembers on which side of zero the last
/// difference lay, and signals when a new difference crosses over.
///
/// A difference of exactly zero counts as "not yet crossed" in both
/// directions, so a move from zero to either side is a crossing.
#[derive(Clone, Copy, Debug, PartialEq, Eq, Structural)]
pub struct Cross {
    pub last: Sign,
}

impl Cross {
    /// A detector in the neutral state: as if the last difference were zero.
    pub fn new() -> (r: Cross)
        ensures
            r.last == Sign::Zero,
    {
        Cross { last: Sign::Zero }
    }

    /// Feeds the side of zero of the next difference and returns the signal.
    pub fn next(&mut self, current: Sign) -> (r: i8)
        ensures
            r == cross_signal(old(self).last, current),
            final(self).last == current,
            -1 <= r <= 1,
    {
        let last = self.last;
        self.last = current;
        match (last, current) {
            (Sign::Zero, Sign::Positive) | (Sign::Negative, Sign::Positive) => 1,
            (Sign::Zero, Sign::Negative) | (Sign::Positive, Sign::Negative) => -1,
            _ => 0,
        }
    }
}

impl Default for Cross {
    fn default() -> (r: Cross)
        ensures
            r.last == Sign::Zero,
    {
        Cross::new()
    }
}

} // verus!
