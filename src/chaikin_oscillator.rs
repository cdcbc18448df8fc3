use vstd::prelude::*;

use crate::cross::{cross_signal, sign_before, signals, Cross, Sign};
use crate::ma::{describes, MaKind, PeriodType, MA, PERIOD_MAX};

verus! {

broadcast use vstd::string::is_ascii_spec_bytes;

/// Name of the indicator.
pub const NAME: &'static str = "ChaikinOscillator";

/// Errors of configuring the oscillator.
#[derive(Clone, Debug, PartialEq, Eq)]
pub enum Error {
    /// The configuration breaks one of its invariants.
    InvalidConfiguration,
    /// The named parameter is unknown, or its value is no descriptor:
    /// the name and the raw value.
    ParameterParseError(String, String),
}

/// Name of the short smoothing parameter.
pub open spec fn ma1_name() -> Seq<char> {
    seq!['m', 'a', '1']
}

/// Name of the long smoothing parameter.
pub open spec fn ma2_name() -> Seq<char> {
    seq!['m', 'a', '2']
}

/// Chaikin oscillator: the difference of a short and a long moving average
/// of the accumulation/distribution index, with a signal on each crossing
/// of the zero line.
#[derive(Clone, Copy, Debug, PartialEq, Eq, Structural)]
pub struct ChaikinOscillator {
    /// Short smoothing of the index; its period lies in `[1; ma2's period)`.
    pub ma1: MA,
    /// Long smoothing of the index; its period lies in
    /// `(ma1's period; PERIOD_MAX)`.
    pub ma2: MA,
    /// Window of the index; `0` for an index over the whole history.
    pub window: PeriodType,
}

impl ChaikinOscillator {
    /// The configuration's invariants: both smoothings of one family, and
    /// `0 < period(ma1) < period(ma2) < PERIOD_MAX`.
    pub open spec fn valid(&self) -> bool {
        &&& self.ma1.kind == self.ma2.kind
        &&& 0 < self.ma1.period
        &&& self.ma1.period < self.ma2.period
        &&& self.ma2.period < PERIOD_MAX
    }

    /// Whether the configuration meets its invariants.
    pub fn validate(&self) -> (r: bool)
        ensures
            r == self.valid(),
    {
        self.ma1.is_similar_to(&self.ma2) && self.ma1.ma_period() > 0 && self.ma1.ma_period()
            < self.ma2.ma_period() && self.ma2.ma_period() < PERIOD_MAX
    }

    /// Builds a live instance in the neutral state; fails when the
    /// configuration breaks one of its invariants.
    pub fn init(self) -> (r: Result<ChaikinOscillatorInstance, Error>)
        ensures
            r is Ok <==> self.valid(),
            match r {
                Ok(i) => i.cfg() == self && i.last_sign() == Sign::Zero,
                Err(e) => e == Error::InvalidConfiguration,
            },
    {
        if !self.validate() {
            return Err(Error::InvalidConfiguration);
        }
        let cfg = self;
        Ok(ChaikinOscillatorInstance { cfg, cross_over: Cross::new() })
    }

    /// Sets the parameter `name`, one of `ma1` and `ma2`, to the descriptor
    /// written in `value`. On an unknown name or a value that is no
    /// descriptor, fails and leaves the configuration as it was. The
    /// invariants are not checked here, only by [`ChaikinOscillator::init`].
    pub fn set(&mut self, name: &str, value: String) -> (r: Result<(), Error>)
        ensures
            r is Ok <==> ((name@ == ma1_name() || name@ == ma2_name()) && exists|m: MA|
                describes(value@, m)),
            match r {
                Ok(_) => if name@ == ma1_name() {
                    describes(value@, final(self).ma1) && final(self).ma2 == old(self).ma2
                        && final(self).window == old(self).window
                } else {
                    describes(value@, final(self).ma2) && final(self).ma1 == old(self).ma1
                        && final(self).window == old(self).window
                },
                Err(e) => *final(self) == *old(self) && match e {
                    Error::ParameterParseError(n, v) => n@ == name@ && v@ == value@,
                    _ => false,
                },
            },
    {
        let which = parameter_index(name);
        if which == 0 {
            return Err(Error::ParameterParseError(name.to_owned(), value));
        }
        match MA::parse(value.as_str()) {
            None => Err(Error::ParameterParseError(name.to_owned(), value)),
            Some(m) => {
                if which == 1 {
                    self.ma1 = m;
                } else {
                    self.ma2 = m;
                }
                Ok(())
            },
        }
    }

    /// Number of values and of signals in each output: one of each.
    pub fn size(&self) -> (r: (u8, u8))
        ensures
            r == (1u8, 1u8),
    {
        (1, 1)
    }
}

impl Default for ChaikinOscillator {
    /// `EMA(3)` over `EMA(10)` of a windowless index.
    fn default() -> (r: ChaikinOscillator)
        ensures
            r.ma1 == (MA { kind: MaKind::EMA, period: 3 }),
            r.ma2 == (MA { kind: MaKind::EMA, period: 10 }),
            r.window == 0,
    {
        ChaikinOscillator {
            ma1: MA::new(MaKind::EMA, 3),
            ma2: MA::new(MaKind::EMA, 10),
            window: 0,
        }
    }
}

/// Instances built from one configuration are equal, and so give equal
/// signals for equal runs of values.
pub proof fn lemma_init_deterministic(
    c: ChaikinOscillator,
    a: ChaikinOscillatorInstance,
    b: ChaikinOscillatorInstance,
    values: Seq<Sign>,
)
    requires
        a.cfg() == c && a.last_sign() == Sign::Zero,
        b.cfg() == c && b.last_sign() == Sign::Zero,
    ensures
        a == b,
        signals(a.last_sign(), values) == signals(b.last_sign(), values),
{
    ChaikinOscillatorInstance::lemma_state(a, b);
}

/// Which parameter `name` is: `1` for `ma1`, `2` for `ma2`, `0` for none.
fn parameter_index(name: &str) -> (r: u8)
    ensures
        r == 1 <==> name@ == ma1_name(),
        r == 2 <==> name@ == ma2_name(),
        r == 0 <==> (name@ != ma1_name() && name@ != ma2_name()),
{
    if !name.is_ascii() {
        return 0;
    }
    let b = name.as_bytes();
    assert(b@.len() == name@.len());
    if b.len() != 3 {
        return 0;
    }
    proof {
        assert(b@[0] == name@[0] as u8 && b@[1] == name@[1] as u8 && b@[2] == name@[2] as u8);
        crate::ma::lemma_ascii_byte(name@[0]);
        crate::ma::lemma_ascii_byte(name@[1]);
        crate::ma::lemma_ascii_byte(name@[2]);
    }
    let r: u8 = if b[0] != 109u8 || b[1] != 97u8 {
        0
    } else if b[2] == 49u8 {
        1
    } else if b[2] == 50u8 {
        2
    } else {
        0
    };
    proof {
        if r != 0 {
            assert(name@ =~= if r == 1 { ma1_name() } else { ma2_name() });
        }
    }
    r
}

/// A live Chaikin oscillator: its configuration and the state of its
/// zero-line crossing detector.
#[derive(Clone, Debug)]
pub struct ChaikinOscillatorInstance {
    cfg: ChaikinOscillator,
    cross_over: Cross,
}

impl ChaikinOscillatorInstance {
    /// The configuration that the instance was built from.
    pub closed spec fn cfg(&self) -> ChaikinOscillator {
        self.cfg
    }

    /// On which side of zero the last oscillator value lay.
    pub closed spec fn last_sign(&self) -> Sign {
        self.cross_over.last
    }

    /// An instance is its configuration and its last side of zero.
    pub proof fn lemma_state(a: ChaikinOscillatorInstance, b: ChaikinOscillatorInstance)
        requires
            a.cfg() == b.cfg(),
            a.last_sign() == b.last_sign(),
        ensures
            a == b,
    {
    }

    /// The configuration that the instance was built from.
    pub fn config(&self) -> (r: &ChaikinOscillator)
        ensures
            *r == self.cfg(),
    {
        &self.cfg
    }

    /// Takes the side of zero of the next oscillator value (the short
    /// smoothing less the long one) and returns the tick's signal: `1` when
    /// the value rises above zero from at or below it, `-1` when it falls
    /// below zero from at or above it, `0` otherwise.
    pub fn next(&mut self, value: Sign) -> (r: i8)
        ensures
            r == cross_signal(old(self).last_sign(), value),
            final(self).last_sign() == value,
            final(self).cfg() == old(self).cfg(),
            -1 <= r <= 1,
    {
        self.cross_over.next(value)
    }

    /// Feeds the sides of zero of a run of oscillator values, in order, and
    /// returns their signals.
    pub fn over(&mut self, values: &Vec<Sign>) -> (r: Vec<i8>)
        ensures
            r@.len() == values@.len(),
            forall|i: int|
                0 <= i < values@.len() ==> #[trigger] r@[i] as int == signals(
                    old(self).last_sign(),
                    values@,
                )[i],
            final(self).last_sign() == sign_before(
                old(self).last_sign(),
                values@,
                values@.len() as int,
            ),
            final(self).cfg() == old(self).cfg(),
    {
        let mut r: Vec<i8> = Vec::new();
        let mut i: usize = 0;
        while i < values.len()
            invariant
                i <= values@.len(),
                r@.len() == i,
                forall|k: int|
                    0 <= k < i ==> #[trigger] r@[k] as int == signals(
                        old(self).last_sign(),
                        values@,
                    )[k],
                self.last_sign() == sign_before(old(self).last_sign(), values@, i as int),
                self.cfg() == old(self).cfg(),
            decreases values@.len() - i,
        {
            let g = self.next(values[i]);
            r.push(g);
            i = i + 1;
        }
        r
    }
}

} // verus!
