//! Non-negative decimal cost values and their parsing.
//!
//! A roster's two cost totals (power level and points) are decimal numerals
//! such as `"37.5"`. A value is kept exactly as written: a mantissa (the
//! digits with the point removed) and a scale (how many digits stand after
//! the point), so `37.5` is mantissa `375` at scale `1`. A string parses
//! when it is a nonempty run of digits, optionally split by a single point
//! with at least one digit on each side, and its mantissa fits the
//! mantissa field; everything else is rejected and the caller falls back
//! to the prior total.

use vstd::prelude::*;

verus! {

/// A non-negative decimal numeral: the value `mantissa / 10^scale`.
#[derive(Clone, Copy, Debug, PartialEq, Eq, Structural)]
pub struct Decimal {
    pub mantissa: u64,
    pub scale: u32,
}

impl Decimal {
    /// The value zero, as a numeral of scale zero.
    pub open spec fn spec_zero() -> Decimal {
        Decimal { mantissa: 0, scale: 0 }
    }

    /// The value zero, the default for a cost total that was never set.
    pub fn zero() -> (r: Decimal)
        ensures
            r == Decimal::spec_zero(),
    {
        Decimal { mantissa: 0, scale: 0 }
    }
}

/// Whether `c` is a decimal digit.
pub open spec fn is_digit(c: char) -> bool {
    '0' as u32 <= c as u32 && c as u32 <= '9' as u32
}

/// The numeric value of the digit `c`.
pub open spec fn digit_val(c: char) -> nat
    recommends
        is_digit(c),
{
    (c as u32 - '0' as u32) as nat
}

/// Whether every character of `s` is a decimal digit.
pub open spec fn all_digits(s: Seq<char>) -> bool {
    forall|i: int| 0 <= i < s.len() ==> is_digit(s[i])
}

/// The number that a run of digits denotes, most significant digit first.
pub open spec fn digits_value(s: Seq<char>) -> nat
    recommends
        all_digits(s),
    decreases s.len(),
{
    if s.len() == 0 {
        0
    } else {
        digits_value(s.drop_last()) * 10 + digit_val(s.last())
    }
}

/// Whether `s` reads as digits, a single point at position `k`, and digits
/// again, with at least one digit on each side of the point.
pub open spec fn dot_split_at(s: Seq<char>, k: int) -> bool {
    &&& 1 <= k
    &&& k + 1 < s.len()
    &&& s[k] == '.'
    &&& all_digits(s.subrange(0, k))
    &&& all_digits(s.subrange(k + 1, s.len() as int))
}

/// Whether `s` has the shape of a decimal numeral: digits only, or digits
/// split once by a point.
pub open spec fn decimal_shape(s: Seq<char>) -> bool {
    ||| (s.len() > 0 && all_digits(s))
    ||| (exists|k: int| dot_split_at(s, k))
}

/// The digits of the numeral `s`, with the point (if any) removed.
pub open spec fn dec_digits(s: Seq<char>) -> Seq<char>
    recommends
        decimal_shape(s),
{
    if all_digits(s) {
        s
    } else {
        let k = choose|k: int| dot_split_at(s, k);
        s.subrange(0, k) + s.subrange(k + 1, s.len() as int)
    }
}

/// The mantissa that the numeral `s` denotes.
pub open spec fn dec_mantissa(s: Seq<char>) -> nat
    recommends
        decimal_shape(s),
{
    digits_value(dec_digits(s))
}

/// The scale of the numeral `s`: how many digits stand after the point.
pub open spec fn dec_scale(s: Seq<char>) -> nat
    recommends
        decimal_shape(s),
{
    if all_digits(s) {
        0
    } else {
        let k = choose|k: int| dot_split_at(s, k);
        (s.len() - k - 1) as nat
    }
}

/// Whether `s` parses as a cost value: it has the shape of a decimal
/// numeral and its mantissa and scale fit their fields.
pub open spec fn dec_parses(s: Seq<char>) -> bool {
    &&& decimal_shape(s)
    &&& dec_mantissa(s) <= u64::MAX
    &&& dec_scale(s) <= u32::MAX
}

/// What parsing `s` returns: the numeral's value when `s` parses, and
/// nothing otherwise.
pub open spec fn spec_parse_decimal(s: Seq<char>) -> Option<Decimal> {
    if dec_parses(s) {
        Some(Decimal { mantissa: dec_mantissa(s) as u64, scale: dec_scale(s) as u32 })
    } else {
        None
    }
}

proof fn lemma_digits_value_push(t: Seq<char>, c: char)
    ensures
        digits_value(t.push(c)) == digits_value(t) * 10 + digit_val(c),
{
    assert(t.push(c).drop_last() =~= t);
    assert(t.push(c).last() == c);
}

proof fn lemma_digits_value_prefix(t: Seq<char>, m: int)
    requires
        0 <= m <= t.len(),
    ensures
        digits_value(t.subrange(0, m)) <= digits_value(t),
    decreases t.len() - m,
{
    if m == t.len() {
        assert(t.subrange(0, m) =~= t);
    } else {
        assert(t.subrange(0, m + 1) =~= t.subrange(0, m).push(t[m]));
        lemma_digits_value_push(t.subrange(0, m), t[m]);
        lemma_digits_value_prefix(t, m + 1);
    }
}

proof fn lemma_split_other_digit(s: Seq<char>, k: int, i: int)
    requires
        dot_split_at(s, k),
        0 <= i < s.len(),
        i != k,
    ensures
        is_digit(s[i]),
{
    if i < k {
        assert(s.subrange(0, k)[i] == s[i]);
    } else {
        assert(s.subrange(k + 1, s.len() as int)[i - (k + 1)] == s[i]);
    }
}

proof fn lemma_dot_split_unique(s: Seq<char>, k1: int, k2: int)
    requires
        dot_split_at(s, k1),
        dot_split_at(s, k2),
    ensures
        k1 == k2,
{
    if k1 != k2 {
        lemma_split_other_digit(s, k1, k2);
        assert(s[k2] == '.');
    }
}

proof fn lemma_no_shape_bad_char(s: Seq<char>, i: int)
    requires
        0 <= i < s.len(),
        !is_digit(s[i]),
        s[i] != '.',
    ensures
        !decimal_shape(s),
{
    assert forall|k: int| !#[trigger] dot_split_at(s, k) by {
        if dot_split_at(s, k) {
            if i == k {
                assert(s[i] == '.');
            } else {
                lemma_split_other_digit(s, k, i);
            }
            assert(false);
        }
    }
}

proof fn lemma_no_shape_bad_dot(s: Seq<char>, i: int)
    requires
        0 <= i < s.len(),
        s[i] == '.',
        i == 0 || i + 1 == s.len() || (exists|j: int| 0 <= j < i && s[j] == '.'),
    ensures
        !decimal_shape(s),
{
    assert(!is_digit('.'));
    assert forall|k: int| !#[trigger] dot_split_at(s, k) by {
        if dot_split_at(s, k) {
            if i != k {
                lemma_split_other_digit(s, k, i);
            }
            assert(i == k);
            if i == 0 || i + 1 == s.len() {
                assert(false);
            } else {
                let j = choose|j: int| 0 <= j < i && s[j] == '.';
                lemma_split_other_digit(s, k, j);
                assert(false);
            }
        }
    }
}

spec fn scan_dot_ok(s: Seq<char>, i: int, dot: Option<usize>) -> bool {
    match dot {
        None => all_digits(s.subrange(0, i)),
        Some(k) => {
            &&& 1 <= k < i
            &&& k + 1 < s.len()
            &&& s[k as int] == '.'
            &&& all_digits(s.subrange(0, k as int))
            &&& all_digits(s.subrange(k as int + 1, i))
        },
    }
}

spec fn scanned_digits(s: Seq<char>, i: int, dot: Option<usize>) -> Seq<char> {
    match dot {
        None => s.subrange(0, i),
        Some(k) => s.subrange(0, k as int) + s.subrange(k as int + 1, i),
    }
}

proof fn lemma_scanned_prefix(s: Seq<char>, i: int, dot: Option<usize>)
    requires
        decimal_shape(s),
        0 <= i < s.len(),
        scan_dot_ok(s, i, dot),
        is_digit(s[i]),
    ensures
        scanned_digits(s, i, dot).push(s[i]) == dec_digits(s).subrange(
            0,
            scanned_digits(s, i, dot).len() + 1 as int,
        ),
        scanned_digits(s, i, dot).len() + 1 <= dec_digits(s).len(),
{
    match dot {
        None => {
            if all_digits(s) {
                assert(scanned_digits(s, i, dot).push(s[i]) =~= dec_digits(s).subrange(0, i + 1));
            } else {
                let k = choose|k: int| dot_split_at(s, k);
                assert(s[k] == '.');
                assert(!is_digit('.'));
                if k < i {
                    assert(s.subrange(0, i)[k] == s[k]);
                    assert(false);
                }
                assert(i < k);
                assert(scanned_digits(s, i, dot).push(s[i]) =~= dec_digits(s).subrange(0, i + 1));
            }
        },
        Some(k0) => {
            assert(s[k0 as int] == '.');
            assert(!is_digit('.'));
            assert(!all_digits(s));
            let k = choose|k: int| dot_split_at(s, k);
            assert(dot_split_at(s, k));
            if k != k0 as int {
                lemma_split_other_digit(s, k, k0 as int);
                assert(false);
            }
            assert(scanned_digits(s, i, dot).push(s[i]) =~= dec_digits(s).subrange(
                0,
                scanned_digits(s, i, dot).len() + 1 as int,
            ));
        },
    }
}

/// Parses `s` as a non-negative decimal cost value. Returns the numeral's
/// value exactly when `s` is a nonempty run of digits, optionally split
/// once by a point with digits on both sides, whose mantissa fits; any
/// other string is rejected.
pub fn parse_decimal(s: &str) -> (r: Option<Decimal>)
    ensures
        r == spec_parse_decimal(s@),
{
    let n = s.unicode_len();
    if n == 0 {
        proof {
            assert forall|k: int| !#[trigger] dot_split_at(s@, k) by {}
        }
        return None;
    }
    let mut i: usize = 0;
    let mut dot: Option<usize> = None;
    let mut mant: u64 = 0;
    proof {
        assert(s@.subrange(0, 0) =~= Seq::<char>::empty());
    }
    while i < n
        invariant
            n == s@.len(),
            0 <= i <= n,
            scan_dot_ok(s@, i as int, dot),
            mant as nat == digits_value(scanned_digits(s@, i as int, dot)),
        decreases n - i,
    {
        let c = s.get_char(i);
        let v = c as u32;
        if v >= '0' as u32 && v <= '9' as u32 {
            let d = (v - '0' as u32) as u64;
            let step = match mant.checked_mul(10) {
                Some(m) => m.checked_add(d),
                None => None,
            };
            match step {
                Some(m2) => {
                    proof {
                        match dot {
                            None => {
                                assert(scanned_digits(s@, i as int + 1, dot) =~= scanned_digits(
                                    s@,
                                    i as int,
                                    dot,
                                ).push(s@[i as int]));
                                assert(s@.subrange(0, i as int + 1) =~= s@.subrange(
                                    0,
                                    i as int,
                                ).push(s@[i as int]));
                            },
                            Some(k) => {
                                assert(scanned_digits(s@, i as int + 1, dot) =~= scanned_digits(
                                    s@,
                                    i as int,
                                    dot,
                                ).push(s@[i as int]));
                                assert(s@.subrange(k as int + 1, i as int + 1) =~= s@.subrange(
                                    k as int + 1,
                                    i as int,
                                ).push(s@[i as int]));
                            },
                        }
                        lemma_digits_value_push(scanned_digits(s@, i as int, dot), s@[i as int]);
                    }
                    mant = m2;
                },
                None => {
                    proof {
                        if decimal_shape(s@) {
                            lemma_scanned_prefix(s@, i as int, dot);
                            lemma_digits_value_push(scanned_digits(s@, i as int, dot), s@[i as int]);
                            lemma_digits_value_prefix(
                                dec_digits(s@),
                                scanned_digits(s@, i as int, dot).len() + 1 as int,
                            );
                            assert(dec_mantissa(s@) > u64::MAX);
                        }
                    }
                    return None;
                },
            }
        } else if c == '.' {
            let at_end = i + 1 == n;
            if dot.is_some() || i == 0 || at_end {
                proof {
                    if dot is Some {
                        let k = dot->0;
                        assert(s@[k as int] == '.');
                    }
                    lemma_no_shape_bad_dot(s@, i as int);
                }
                return None;
            }
            dot = Some(i);
            proof {
                assert(s@.subrange(i as int + 1, i as int + 1) =~= Seq::<char>::empty());
                assert(scanned_digits(s@, i as int + 1, dot) =~= s@.subrange(0, i as int));
            }
        } else {
            proof {
                lemma_no_shape_bad_char(s@, i as int);
            }
            return None;
        }
        i = i + 1;
    }
    match dot {
        None => {
            proof {
                assert(s@.subrange(0, n as int) =~= s@);
                assert(scanned_digits(s@, n as int, dot) =~= s@);
                assert(dec_digits(s@) == s@);
            }
            Some(Decimal { mantissa: mant, scale: 0 })
        },
        Some(k) => {
            proof {
                assert(s@[k as int] == '.');
                assert(!is_digit('.'));
                assert(!all_digits(s@));
                assert(dot_split_at(s@, k as int)) by {
                    assert(s@.subrange(k as int + 1, n as int) =~= s@.subrange(
                        k as int + 1,
                        s@.len() as int,
                    ));
                }
                let kc = choose|j: int| dot_split_at(s@, j);
                lemma_dot_split_unique(s@, kc, k as int);
                assert(dec_digits(s@) == scanned_digits(s@, n as int, dot));
            }
            let frac_len = n - k - 1;
            if frac_len > u32::MAX as usize {
                return None;
            }
            Some(Decimal { mantissa: mant, scale: frac_len as u32 })
        },
    }
}

} // verus!

