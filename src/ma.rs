use vstd::prelude::*;

verus! {

/// Integer type of smoothing periods and window sizes.
pub type PeriodType = u8;

/// Largest value of [`PeriodType`]; reserved, so no valid period reaches it.
pub const PERIOD_MAX: PeriodType = 255;

/// Family of a moving average.
#[derive(Clone, Copy, Debug, PartialEq, Eq, Structural)]
pub enum MaKind {
    SMA,
    WMA,
    HMA,
    RMA,
    EMA,
    DMA,
    DEMA,
    TMA,
    TEMA,
    WSMA,
    SMM,
    SWMA,
    TRIMA,
    LSMA,
}

/// Descriptor of a moving average: its family and its period.
#[derive(Clone, Copy, Debug, PartialEq, Eq, Structural)]
pub struct MA {
    pub kind: MaKind,
    pub period: PeriodType,
}

/// Name of a family, as it stands in the text of a descriptor.
pub open spec fn kind_name(k: MaKind) -> Seq<char> {
    match k {
        MaKind::SMA => seq!['S', 'M', 'A'],
        MaKind::WMA => seq!['W', 'M', 'A'],
        MaKind::HMA => seq!['H', 'M', 'A'],
        MaKind::RMA => seq!['R', 'M', 'A'],
        MaKind::EMA => seq!['E', 'M', 'A'],
        MaKind::DMA => seq!['D', 'M', 'A'],
        MaKind::DEMA => seq!['D', 'E', 'M', 'A'],
        MaKind::TMA => seq!['T', 'M', 'A'],
        MaKind::TEMA => seq!['T', 'E', 'M', 'A'],
        MaKind::WSMA => seq!['W', 'S', 'M', 'A'],
        MaKind::SMM => seq!['S', 'M', 'M'],
        MaKind::SWMA => seq!['S', 'W', 'M', 'A'],
        MaKind::TRIMA => seq!['T', 'R', 'I', 'M', 'A'],
        MaKind::LSMA => seq!['L', 'S', 'M', 'A'],
    }
}

pub open spec fn is_digit(c: char) -> bool {
    '0' <= c <= '9'
}

/// Value of a sequence of decimal digits, most significant first.
pub open spec fn decimal_value(d: Seq<char>) -> nat
    decreases d.len(),
{
    if d.len() == 0 {
        0
    } else {
        decimal_value(d.drop_last()) * 10 + (d.last() as int - '0' as int) as nat
    }
}

/// `s` is the text of `m`: the family's name, `(`, the period in one or more
/// decimal digits (leading zeros allowed), and `)`; as in `EMA(5)`.
pub open spec fn describes(s: Seq<char>, m: MA) -> bool {
    let n = kind_name(m.kind).len() as int;
    let digits = s.subrange(n + 1, s.len() - 1);
    &&& s.len() >= n + 3
    &&& s.subrange(0, n) == kind_name(m.kind)
    &&& s[n] == '('
    &&& s[s.len() - 1] == ')'
    &&& forall|i: int| 0 <= i < digits.len() ==> is_digit(#[trigger] digits[i])
    &&& decimal_value(digits) == m.period
}

/// Appending digits never lowers a decimal value.
proof fn lemma_decimal_value_grows(a: Seq<char>, b: Seq<char>)
    requires
        forall|i: int| 0 <= i < b.len() ==> is_digit(#[trigger] b[i]),
    ensures
        decimal_value(a) <= decimal_value(a + b),
    decreases b.len(),
{
    if b.len() > 0 {
        assert((a + b).drop_last() =~= a + b.drop_last());
        lemma_decimal_value_grows(a, b.drop_last());
    }
}

/// A family's name never holds `(`.
proof fn lemma_name_has_no_paren(k: MaKind, j: int)
    requires
        0 <= j < kind_name(k).len(),
    ensures
        kind_name(k)[j] != '(',
        '\0' <= kind_name(k)[j] <= '\u{7f}',
{
}

/// The text of a descriptor is made of ASCII characters only.
proof fn lemma_describes_ascii(s: Seq<char>, m: MA)
    requires
        describes(s, m),
    ensures
        vstd::utf8::is_ascii_chars(s),
{
    let n = kind_name(m.kind).len() as int;
    let digits = s.subrange(n + 1, s.len() - 1);
    assert forall|i: int| 0 <= i < s.len() implies '\0' <= #[trigger] s[i] <= '\u{7f}' by {
        if i < n {
            assert(s[i] == s.subrange(0, n)[i]);
            lemma_name_has_no_paren(m.kind, i);
        } else if n < i < s.len() - 1 {
            assert(s[i] == digits[i - n - 1]);
        }
    }
}

/// Two descriptors with the same text are the same.
pub proof fn lemma_describes_unique(s: Seq<char>, m1: MA, m2: MA)
    requires
        describes(s, m1),
        describes(s, m2),
    ensures
        m1 == m2,
{
    let n1 = kind_name(m1.kind).len() as int;
    let n2 = kind_name(m2.kind).len() as int;
    if n1 < n2 {
        assert(s.subrange(0, n2)[n1] == s[n1]);
        lemma_name_has_no_paren(m2.kind, n1);
    } else if n2 < n1 {
        assert(s.subrange(0, n1)[n2] == s[n2]);
        lemma_name_has_no_paren(m1.kind, n2);
    }
    assert(n1 == n2);
    assert(kind_name(m1.kind) == kind_name(m2.kind));
}

/// An ASCII character and its byte have the same code.
pub(crate) proof fn lemma_ascii_byte(c: char)
    requires
        '\0' <= c <= '\u{7f}',
    ensures
        c as u8 as int == c as int,
{
}

/// Where `s` describes `m`, the first `(` of `s` ends the family's name.
proof fn lemma_first_paren(s: Seq<char>, m: MA, p: int)
    requires
        describes(s, m),
        0 <= p < s.len(),
        s[p] == '(',
        forall|j: int| 0 <= j < p ==> s[j] != '(',
    ensures
        p == kind_name(m.kind).len(),
{
    let n = kind_name(m.kind).len() as int;
    if p < n {
        assert(s.subrange(0, n)[p] == s[p]);
        lemma_name_has_no_paren(m.kind, p);
    }
}

/// Reads the family whose name is the first `p` characters of `s`, given
/// `b`, the bytes of the ASCII text `s`.
fn kind_from_name(s: Ghost<Seq<char>>, b: &[u8], p: usize) -> (r: Option<MaKind>)
    requires
        p <= b@.len(),
        b@.len() == s@.len(),
        forall|i: int| 0 <= i < b@.len() ==> #[trigger] b@[i] == s@[i] as u8,
        vstd::utf8::is_ascii_chars(s@),
    ensures
        match r {
            Some(k) => s@.subrange(0, p as int) == kind_name(k),
            None => forall|k: MaKind| s@.subrange(0, p as int) != kind_name(k),
        },
{
    let ghost name = s@.subrange(0, p as int);
    proof {
        assert forall|i: int| 0 <= i < p implies #[trigger] name[i] as u8 == b@[i] by {
            assert(s@[i] == name[i]);
        }
    }
    let r = if p == 3 {
        match (b[0], b[1], b[2]) {
                (83u8, 77u8, 65u8) => Some(MaKind::SMA),
                (87u8, 77u8, 65u8) => Some(MaKind::WMA),
                (72u8, 77u8, 65u8) => Some(MaKind::HMA),
                (82u8, 77u8, 65u8) => Some(MaKind::RMA),
                (69u8, 77u8, 65u8) => Some(MaKind::EMA),
                (68u8, 77u8, 65u8) => Some(MaKind::DMA),
                (84u8, 77u8, 65u8) => Some(MaKind::TMA),
                (83u8, 77u8, 77u8) => Some(MaKind::SMM),
            _ => None,
        }
    } else if p == 4 {
        match (b[0], b[1], b[2], b[3]) {
                (68u8, 69u8, 77u8, 65u8) => Some(MaKind::DEMA),
                (84u8, 69u8, 77u8, 65u8) => Some(MaKind::TEMA),
                (87u8, 83u8, 77u8, 65u8) => Some(MaKind::WSMA),
                (83u8, 87u8, 77u8, 65u8) => Some(MaKind::SWMA),
                (76u8, 83u8, 77u8, 65u8) => Some(MaKind::LSMA),
            _ => None,
        }
    } else if p == 5 {
        match (b[0], b[1], b[2], b[3], b[4]) {
                (84u8, 82u8, 73u8, 77u8, 65u8) => Some(MaKind::TRIMA),
            _ => None,
        }
    } else {
        None
    };
    proof {
        match r {
            Some(k) => {
                assert(name =~= kind_name(k));
            },
            None => {
                assert forall|k: MaKind| name != kind_name(k) by {
                    if name == kind_name(k) {
                        let kn = kind_name(k);
                        match k {
                            MaKind::SMA => assert(kn.len() == 3),
                            MaKind::WMA => assert(kn.len() == 3),
                            MaKind::HMA => assert(kn.len() == 3),
                            MaKind::RMA => assert(kn.len() == 3),
                            MaKind::EMA => assert(kn.len() == 3),
                            MaKind::DMA => assert(kn.len() == 3),
                            MaKind::DEMA => assert(kn.len() == 4),
                            MaKind::TMA => assert(kn.len() == 3),
                            MaKind::TEMA => assert(kn.len() == 4),
                            MaKind::WSMA => assert(kn.len() == 4),
                            MaKind::SMM => assert(kn.len() == 3),
                            MaKind::SWMA => assert(kn.len() == 4),
                            MaKind::TRIMA => assert(kn.len() == 5),
                            MaKind::LSMA => assert(kn.len() == 4),
                        }
                        assert(b@[0] == kn[0] as u8 && b@[1] == kn[1] as u8 && b@[2] == kn[2] as u8);
                        if p > 3 {
                            assert(b@[3] == kn[3] as u8);
                        }
                        if p > 4 {
                            assert(b@[4] == kn[4] as u8);
                        }
                    }
                }
            },
        }
    }
    r
}

impl MA {
    pub fn new(kind: MaKind, period: PeriodType) -> (r: MA)
        ensures
            r.kind == kind,
            r.period == period,
    {
        MA { kind, period }
    }

    /// Reads a descriptor from its text, such as `EMA(5)`: a family's name,
    /// `(`, the period in decimal digits, `)`. `None` where the text is of no
    /// descriptor, or its period does not fit in [`PeriodType`].
    pub fn parse(s: &str) -> (r: Option<MA>)
        ensures
            match r {
                Some(m) => describes(s@, m),
                None => forall|m: MA| !describes(s@, m),
            },
    {
        broadcast use vstd::string::is_ascii_spec_bytes;

        if !s.is_ascii() {
            proof {
                assert forall|m: MA| !describes(s@, m) by {
                    if describes(s@, m) {
                        lemma_describes_ascii(s@, m);
                    }
                }
            }
            return None;
        }
        let b = s.as_bytes();
        let n = b.len();
        assert(b@.len() == s@.len());
        assert(forall|i: int| 0 <= i < n ==> b@[i] == #[trigger] s@[i] as u8);
        assert(forall|i: int| 0 <= i < n ==> '\0' <= #[trigger] s@[i] <= '\u{7f}');
        let mut p: usize = 0;
        while p < n && b[p] != 40u8
            invariant
                p <= n,
                n == b@.len(),
                n == s@.len(),
                forall|i: int| 0 <= i < n ==> b@[i] == #[trigger] s@[i] as u8,
                forall|j: int| 0 <= j < p ==> #[trigger] s@[j] != '(',
            decreases n - p,
        {
            p = p + 1;
        }
        if p == n {
            proof {
                assert forall|m: MA| !describes(s@, m) by {
                    if describes(s@, m) {
                        assert(s@[kind_name(m.kind).len() as int] == '(');
                    }
                }
            }
            return None;
        }
        proof {
            lemma_ascii_byte(s@[p as int]);
            assert(s@[p as int] == '(');
        }
        if n - p < 3 || b[n - 1] != 41u8 {
            proof {
                assert forall|m: MA| !describes(s@, m) by {
                    if describes(s@, m) {
                        lemma_first_paren(s@, m, p as int);
                    }
                }
            }
            return None;
        }
        let kind = match kind_from_name(Ghost(s@), b, p) {
            Some(k) => k,
            None => {
                proof {
                    assert forall|m: MA| !describes(s@, m) by {
                        if describes(s@, m) {
                            lemma_first_paren(s@, m, p as int);
                        }
                    }
                }
                return None;
            },
        };
        let ghost digits = s@.subrange(p + 1, n - 1);
        let mut v: u32 = 0;
        let mut i: usize = p + 1;
        while i < n - 1
            invariant
                p + 3 <= n,
                p + 1 <= i <= n - 1,
                n == b@.len(),
                n == s@.len(),
                digits == s@.subrange(p + 1, n - 1),
                forall|k: int| 0 <= k < n ==> b@[k] == #[trigger] s@[k] as u8,
                forall|k: int| 0 <= k < n ==> '\0' <= #[trigger] s@[k] <= '\u{7f}',
                forall|k: int| p + 1 <= k < i ==> is_digit(#[trigger] s@[k]),
                v == decimal_value(s@.subrange(p + 1, i as int)),
                v <= 255,
                s@[p as int] == '(',
                forall|j: int| 0 <= j < p ==> #[trigger] s@[j] != '(',
            decreases n - 1 - i,
        {
            let c = b[i];
            proof {
                lemma_ascii_byte(s@[i as int]);
            }
            if c < 48u8 || c > 57u8 {
                proof {
                    assert forall|m: MA| !describes(s@, m) by {
                        if describes(s@, m) {
                            lemma_first_paren(s@, m, p as int);
                            assert(digits[i - p - 1] == s@[i as int]);
                        }
                    }
                }
                return None;
            }
            proof {
                assert(s@.subrange(p + 1, i + 1).drop_last() =~= s@.subrange(p + 1, i as int));
            }
            v = v * 10 + (c - 48u8) as u32;
            if v > 255 {
                proof {
                    assert forall|m: MA| !describes(s@, m) by {
                        if describes(s@, m) {
                            lemma_first_paren(s@, m, p as int);
                            let rest = s@.subrange(i + 1, n - 1);
                            assert(digits =~= s@.subrange(p + 1, i + 1) + rest);
                            assert forall|k: int| 0 <= k < rest.len() implies is_digit(#[trigger] rest[k]) by {
                                assert(rest[k] == digits[k + i + 1 - p - 1]);
                            }
                            lemma_decimal_value_grows(s@.subrange(p + 1, i + 1), rest);
                        }
                    }
                }
                return None;
            }
            i = i + 1;
        }
        let r = MA { kind, period: v as u8 };
        proof {
            assert(digits =~= s@.subrange(p + 1, i as int));
            assert forall|k: int| 0 <= k < digits.len() implies is_digit(#[trigger] digits[k]) by {
                assert(digits[k] == s@[k + p + 1]);
            }
        }
        Some(r)
    }

    /// Period of the moving average.
    pub fn ma_period(&self) -> (r: PeriodType)
        ensures
            r == self.period,
    {
        self.period
    }

    /// Whether two descriptors belong to the same family (their periods may
    /// differ).
    pub fn is_similar_to(&self, other: &MA) -> (r: bool)
        ensures
            r == (self.kind == other.kind),
    {
        self.kind == other.kind
    }
}

} // verus!
