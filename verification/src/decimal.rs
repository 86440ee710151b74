//! Fixed-point decimals and their wire form.
//!
//! Order quantities, prices and balances are exact fixed-point values: a
//! sign, whole units, and a sub-unit part in billionths.  The wire carries
//! them as ASCII decimal strings with exactly nine fraction digits — never
//! through a binary floating-point intermediate, which could silently
//! alter a traded quantity or price.  Marshaling and unmarshaling are
//! exact inverses: no representation drift is possible.

use vstd::prelude::*;
use crate::errors::MarshalError;

verus! {

/// One more than the largest sub-unit part: the number of billionths in
/// one unit, and the count of fraction digits on the wire is its number
/// of zeros.
pub const BILLION: u32 = 1_000_000_000;

/// An exact fixed-point decimal: `(-1)^negative * (units + nanos / 10^9)`.
/// Each value has exactly one well-formed representation.
#[derive(Clone, Copy, Debug, PartialEq, Eq, Structural)]
pub struct Decimal {
    /// Whether the value is below zero.  Zero is never negative.
    pub negative: bool,
    /// Whole units of the value's magnitude.
    pub units: u64,
    /// Sub-unit part of the magnitude, in billionths of a unit.
    pub nanos: u32,
}

impl Decimal {
    /// Well-formedness: the sub-unit part is below one unit, and zero is
    /// not negative (so each value has one representation).
    pub open spec fn wf(self) -> bool {
        &&& self.nanos < BILLION
        &&& self.negative ==> self.units > 0 || self.nanos > 0
    }

    /// Whether the value is strictly above zero.
    pub open spec fn spec_is_positive(self) -> bool {
        !self.negative && (self.units > 0 || self.nanos > 0)
    }

    /// Whether the value is a whole number of units.
    pub open spec fn spec_is_integral(self) -> bool {
        self.nanos == 0
    }

    /// Whether the value is strictly above zero.
    pub fn is_positive(&self) -> (r: bool)
        ensures
            r == self.spec_is_positive(),
    {
        !self.negative && (self.units > 0 || self.nanos > 0)
    }

    /// Whether the value is a whole number of units.
    pub fn is_integral(&self) -> (r: bool)
        ensures
            r == self.spec_is_integral(),
    {
        self.nanos == 0
    }
}

/// Whether a byte is an ASCII decimal digit.
pub open spec fn is_digit(c: u8) -> bool {
    48 <= c <= 57
}

/// Whether every byte of a sequence is an ASCII decimal digit.
pub open spec fn all_digits(s: Seq<u8>) -> bool {
    forall|i: int| 0 <= i < s.len() ==> is_digit(#[trigger] s[i])
}

/// Ten to the `k`.
pub open spec fn pow10(k: nat) -> nat
    decreases k,
{
    if k == 0 {
        1
    } else {
        10 * pow10((k - 1) as nat)
    }
}

/// The ASCII digits of `n` without leading zeros; empty for zero.
pub open spec fn spec_digits(n: nat) -> Seq<u8>
    decreases n,
{
    if n == 0 {
        Seq::empty()
    } else {
        spec_digits(n / 10).push((48 + n % 10) as u8)
    }
}

/// The ASCII digits of `n` as written: `"0"` for zero, no leading zeros
/// otherwise.
pub open spec fn spec_uint_str(n: nat) -> Seq<u8> {
    if n == 0 {
        seq![48u8]
    } else {
        spec_digits(n)
    }
}

/// The ASCII digits of `n` left-padded with zeros to `width` places.
pub open spec fn spec_padded(n: nat, width: nat) -> Seq<u8> {
    Seq::new((width - spec_digits(n).len()) as nat, |i: int| 48u8) + spec_digits(n)
}

/// The numeric value of a sequence of ASCII digits.
pub open spec fn digits_value(s: Seq<u8>) -> nat
    decreases s.len(),
{
    if s.len() == 0 {
        0
    } else {
        digits_value(s.drop_last()) * 10 + (s.last() - 48) as nat
    }
}

/// The wire form of a decimal: optional minus sign, the units without
/// leading zeros, a dot, and exactly nine fraction digits.
pub open spec fn spec_decimal_str(d: Decimal) -> Seq<u8> {
    (if d.negative {
        seq![45u8]
    } else {
        Seq::empty()
    }) + spec_uint_str(d.units as nat) + seq![46u8] + spec_padded(d.nanos as nat, 9)
}

/// Basic facts about the digits of `n`: they are digits, they have no
/// leading zero, their value is `n`, and their count brackets `n`
/// between powers of ten.
pub proof fn lemma_digits(n: nat)
    ensures
        all_digits(spec_digits(n)),
        digits_value(spec_digits(n)) == n,
        n > 0 ==> spec_digits(n).len() >= 1 && spec_digits(n)[0] != 48,
        n < pow10(spec_digits(n).len()),
        n > 0 ==> n >= pow10((spec_digits(n).len() - 1) as nat),
    decreases n,
{
    if n > 0 {
        lemma_digits(n / 10);
        let s = spec_digits(n);
        let t = spec_digits(n / 10);
        assert(s == t.push((48 + n % 10) as u8));
        assert(s.drop_last() =~= t);
        assert forall|i: int| 0 <= i < s.len() implies is_digit(#[trigger] s[i]) by {
            if i < t.len() {
                assert(s[i] == t[i]);
            }
        }
        if n / 10 > 0 {
            assert(s[0] == t[0]);
            assert(pow10(s.len()) == 10 * pow10(t.len()));
            assert(n == (n / 10) * 10 + n % 10);
            assert(n < pow10(s.len())) by {
                assert(n / 10 + 1 <= pow10(t.len()));
                assert((n / 10 + 1) * 10 <= pow10(t.len()) * 10) by (nonlinear_arith)
                    requires
                        n / 10 + 1 <= pow10(t.len()),
                ;
            }
            assert(n >= pow10((s.len() - 1) as nat)) by {
                assert(n / 10 >= pow10((t.len() - 1) as nat));
                assert(n >= (n / 10) * 10);
                assert((n / 10) * 10 >= pow10((t.len() - 1) as nat) * 10) by (nonlinear_arith)
                    requires
                        n / 10 >= pow10((t.len() - 1) as nat),
                ;
            }
        } else {
            assert(s =~= seq![(48 + n % 10) as u8]);
            assert(n < 10);
            assert(n % 10 == n);
            assert(s[0] == 48 + n);
            assert(pow10(1) == 10);
            assert(pow10(0) == 1);
        }
    }
}

/// A digit sequence's value is below ten to its length.
pub proof fn lemma_digits_value_upper(s: Seq<u8>)
    requires
        all_digits(s),
    ensures
        digits_value(s) < pow10(s.len()),
    decreases s.len(),
{
    if s.len() > 0 {
        let t = s.drop_last();
        assert(all_digits(t)) by {
            assert(forall|i: int| 0 <= i < t.len() ==> t[i] == s[i]);
        }
        lemma_digits_value_upper(t);
        assert(digits_value(t) + 1 <= pow10(t.len()));
        assert((digits_value(t) + 1) * 10 <= pow10(t.len()) * 10) by (nonlinear_arith)
            requires
                digits_value(t) + 1 <= pow10(t.len()),
        ;
        assert(pow10(s.len()) == 10 * pow10(t.len()));
    }
}

/// A digit sequence whose first digit is not zero has value at least ten
/// to one less than its length; in particular its value is positive.
pub proof fn lemma_digits_value_lower(s: Seq<u8>)
    requires
        all_digits(s),
        s.len() >= 1,
        s[0] != 48,
    ensures
        digits_value(s) >= pow10((s.len() - 1) as nat),
        digits_value(s) > 0,
    decreases s.len(),
{
    if s.len() == 1 {
        assert(digits_value(s) == (s[0] - 48) as nat);
    } else {
        let t = s.drop_last();
        assert(all_digits(t)) by {
            assert(forall|i: int| 0 <= i < t.len() ==> t[i] == s[i]);
        }
        assert(t[0] == s[0]);
        lemma_digits_value_lower(t);
        assert(digits_value(s) >= digits_value(t) * 10);
        assert(digits_value(t) * 10 >= pow10((t.len() - 1) as nat) * 10) by (nonlinear_arith)
            requires
                digits_value(t) >= pow10((t.len() - 1) as nat),
        ;
        assert(pow10((s.len() - 1) as nat) == 10 * pow10((s.len() - 2) as nat));
    }
}

/// A digit sequence of positive value and no leading zero is exactly the
/// written digits of its value.
pub proof fn lemma_canonical_digits(s: Seq<u8>)
    requires
        all_digits(s),
        s.len() >= 1,
        s[0] != 48 || s.len() == 1,
    ensures
        s == spec_uint_str(digits_value(s)),
    decreases s.len(),
{
    let v = digits_value(s);
    if s.len() == 1 {
        let c = s[0];
        assert(s.drop_last() =~= Seq::<u8>::empty());
        assert(digits_value(s.drop_last()) == 0);
        assert(s.last() == c);
        assert(v == (c - 48) as nat);
        if v == 0 {
            assert(s =~= spec_uint_str(0));
        } else {
            assert(v < 10);
            assert(v / 10 == 0 && v % 10 == v);
            assert(spec_digits(0) =~= Seq::<u8>::empty());
            assert(spec_digits(v) == spec_digits(0).push((48 + v) as u8));
            assert(spec_digits(v) =~= seq![(48 + v) as u8]);
            assert(s =~= spec_digits(v));
        }
    } else {
        let t = s.drop_last();
        let d = (s.last() - 48) as nat;
        assert(all_digits(t)) by {
            assert(forall|i: int| 0 <= i < t.len() ==> t[i] == s[i]);
        }
        assert(t[0] == s[0]);
        assert(s[0] != 48);
        lemma_digits_value_lower(t);
        let w = digits_value(t);
        assert(v == w * 10 + d);
        assert(w > 0);
        assert(v > 0);
        assert(d < 10);
        assert(v / 10 == w && v % 10 == d) by (nonlinear_arith)
            requires
                v == w * 10 + d,
                d < 10,
        ;
        lemma_canonical_digits(t);
        assert(t == spec_digits(w));
        assert(spec_digits(v) == spec_digits(w).push((48 + d) as u8));
        assert(s =~= t.push(s.last()));
        assert(s =~= spec_digits(v));
    }
}

/// Prepending a zero digit does not change a digit sequence's value.
pub proof fn lemma_leading_zero_value(s: Seq<u8>)
    requires
        s.len() >= 1,
        s[0] == 48,
    ensures
        digits_value(s) == digits_value(s.drop_first()),
    decreases s.len(),
{
    if s.len() == 1 {
        assert(s.drop_first() =~= Seq::<u8>::empty());
        assert(s.drop_last() =~= Seq::<u8>::empty());
        assert(digits_value(s) == digits_value(s.drop_last()) * 10 + (s.last() - 48) as nat);
        assert(digits_value(s.drop_last()) == 0);
        assert(s.last() == 48);
    } else {
        let t = s.drop_last();
        assert(t[0] == 48);
        lemma_leading_zero_value(t);
        let u = s.drop_first();
        assert(u.len() >= 1);
        assert(u.drop_last() =~= t.drop_first());
        assert(u.last() == s.last());
        assert(digits_value(s) == digits_value(t) * 10 + (s.last() - 48) as nat);
        assert(digits_value(u) == digits_value(u.drop_last()) * 10 + (u.last() - 48) as nat);
    }
}

/// A digit sequence of a given width is exactly the zero-padded digits of
/// its value.
pub proof fn lemma_padded_digits(s: Seq<u8>)
    requires
        all_digits(s),
    ensures
        s == spec_padded(digits_value(s), s.len()),
    decreases s.len(),
{
    let v = digits_value(s);
    lemma_digits(v);
    lemma_digits_value_upper(s);
    if s.len() == 0 {
        assert(s =~= spec_padded(v, 0));
    } else if s[0] == 48 {
        let t = s.drop_first();
        lemma_leading_zero_value(s);
        assert(all_digits(t)) by {
            assert(forall|i: int| 0 <= i < t.len() ==> t[i] == s[i + 1]);
        }
        lemma_padded_digits(t);
        assert(digits_value(t) == v);
        assert(s =~= seq![48u8] + t);
        assert(spec_padded(v, s.len()) =~= seq![48u8] + spec_padded(v, t.len())) by {
            lemma_digits_value_upper(t);
            assert(spec_digits(v).len() <= t.len()) by {
                if spec_digits(v).len() > t.len() {
                    assert(v >= pow10((spec_digits(v).len() - 1) as nat));
                    lemma_pow10_le(t.len(), (spec_digits(v).len() - 1) as nat);
                }
            }
        }
    } else {
        lemma_canonical_digits(s);
        lemma_digits_value_lower(s);
        assert(v > 0);
        assert(s == spec_digits(v));
        assert(spec_padded(v, s.len()) =~= spec_digits(v));
    }
}

/// Powers of ten are monotone.
pub proof fn lemma_pow10_le(a: nat, b: nat)
    requires
        a <= b,
    ensures
        pow10(a) <= pow10(b),
    decreases b,
{
    if a < b {
        lemma_pow10_le(a, (b - 1) as nat);
    }
}

/// The value of a digit prefix never exceeds the value of the whole.
pub proof fn lemma_digits_value_prefix(s: Seq<u8>, k: int)
    requires
        all_digits(s),
        0 <= k <= s.len(),
    ensures
        digits_value(s.take(k)) <= digits_value(s),
    decreases s.len() - k,
{
    if k < s.len() {
        lemma_digits_value_prefix(s, k + 1);
        let a = s.take(k);
        let b = s.take(k + 1);
        assert(b.drop_last() =~= a);
        assert(digits_value(b) == digits_value(a) * 10 + (b.last() - 48) as nat);
        assert(digits_value(a) <= digits_value(a) * 10) by (nonlinear_arith);
    } else {
        assert(s.take(k) =~= s);
    }
}

/// Prepending zeros does not change a digit sequence's value.
pub proof fn lemma_zeros_prefix_value(k: nat, t: Seq<u8>)
    ensures
        digits_value(Seq::new(k, |i: int| 48u8) + t) == digits_value(t),
    decreases k,
{
    if k > 0 {
        let s = Seq::new(k, |i: int| 48u8) + t;
        assert(s[0] == 48);
        lemma_leading_zero_value(s);
        assert(s.drop_first() =~= Seq::new((k - 1) as nat, |i: int| 48u8) + t);
        lemma_zeros_prefix_value((k - 1) as nat, t);
    } else {
        assert(Seq::new(0, |i: int| 48u8) + t =~= t);
    }
}

/// The exact shape of a wire decimal string: an optional minus sign, then
/// the units' digits (no leading zero unless the units are zero), a dot
/// ten places from the end, and nine fraction digits whose value is the
/// sub-unit part.
pub proof fn lemma_decimal_str_shape(d: Decimal)
    requires
        d.wf(),
    ensures
        ({
            let s = spec_decimal_str(d);
            let start: int = if d.negative {
                1int
            } else {
                0int
            };
            let l = spec_uint_str(d.units as nat).len() as int;
            &&& s.len() == start + l + 10
            &&& l >= 1
            &&& (d.negative ==> s[0] == 45)
            &&& (!d.negative ==> is_digit(s[0]))
            &&& s[start + l] == 46
            &&& start + l == s.len() - 10
            &&& s.subrange(start, start + l) == spec_uint_str(d.units as nat)
            &&& s.subrange(start + l + 1, s.len() as int) == spec_padded(d.nanos as nat, 9)
            &&& all_digits(s.subrange(start, start + l))
            &&& all_digits(s.subrange(start + l + 1, s.len() as int))
            &&& digits_value(s.subrange(start, start + l)) == d.units as nat
            &&& digits_value(s.subrange(start + l + 1, s.len() as int)) == d.nanos as nat
            &&& (s[start] == 48 ==> l == 1)
            &&& forall|i: int|
                start <= i < s.len() && i != start + l ==> is_digit(#[trigger] s[i])
        }),
{
    let s = spec_decimal_str(d);
    let start: int = if d.negative {
        1int
    } else {
        0int
    };
    let u = spec_uint_str(d.units as nat);
    let f = spec_padded(d.nanos as nat, 9);
    let l = u.len() as int;
    lemma_digits(d.units as nat);
    lemma_digits(d.nanos as nat);
    assert(pow10(9) == 1000000000) by {
        reveal_with_fuel(pow10, 10);
    }
    let dl = spec_digits(d.nanos as nat).len();
    assert(dl <= 9) by {
        if dl > 9 {
            if d.nanos > 0 {
                lemma_pow10_le(9, (dl - 1) as nat);
            }
        }
    }
    assert(f.len() == 9);
    assert(all_digits(f)) by {
        assert forall|i: int| 0 <= i < f.len() implies is_digit(#[trigger] f[i]) by {
            if i >= 9 - dl {
                assert(f[i] == spec_digits(d.nanos as nat)[i - (9 - dl)]);
            }
        }
    }
    assert(digits_value(f) == d.nanos as nat) by {
        lemma_zeros_prefix_value((9 - dl) as nat, spec_digits(d.nanos as nat));
        assert(f =~= Seq::new((9 - dl) as nat, |i: int| 48u8) + spec_digits(d.nanos as nat));
    }
    assert(all_digits(u) && digits_value(u) == d.units as nat && u.len() >= 1) by {
        if d.units == 0 {
            assert(u =~= seq![48u8]);
            assert(u.drop_last() =~= Seq::<u8>::empty());
            assert(digits_value(u) == digits_value(u.drop_last()) * 10 + (u.last() - 48) as nat);
        }
    }
    assert(s.subrange(start, start + l) =~= u);
    assert(s.subrange(start + l + 1, s.len() as int) =~= f);
    assert(s[start + l] == 46);
    if d.negative {
        assert(s[0] == 45);
    } else {
        assert(s[0] == u[0]);
    }
    assert(s[start] == u[0]);
    if s[start] == 48 {
        assert(u[0] == 48);
        if d.units > 0 {
            assert(spec_digits(d.units as nat)[0] != 48);
        }
        assert(d.units == 0);
    }
    assert forall|i: int| start <= i < s.len() && i != start + l implies is_digit(
        #[trigger] s[i],
    ) by {
        if i < start + l {
            assert(s[i] == u[i - start]);
        } else {
            assert(s[i] == f[i - (start + l + 1)]);
        }
    }
}

/// The digits of `n`, lowest first.
fn rev_digits(n: u64) -> (r: Vec<u8>)
    ensures
        r@.reverse() == spec_digits(n as nat),
        r@.len() == spec_digits(n as nat).len(),
{
    let mut tmp: Vec<u8> = Vec::new();
    let mut m: u64 = n;
    while m > 0
        invariant
            spec_digits(n as nat) == spec_digits(m as nat) + tmp@.reverse(),
        decreases m,
    {
        let digit: u8 = (m % 10) as u8;
        tmp.push(48 + digit);
        proof {
            let t0 = tmp@.drop_last();
            assert(tmp@.reverse() =~= seq![(48 + digit) as u8] + t0.reverse());
            assert(spec_digits(m as nat) == spec_digits((m as nat) / 10).push(
                (48 + (m as nat) % 10) as u8,
            ));
            assert((m / 10) as nat == (m as nat) / 10);
            assert(spec_digits(m as nat) =~= spec_digits((m / 10) as nat) + seq![
                (48 + digit) as u8,
            ]);
            assert(spec_digits(n as nat) =~= spec_digits((m / 10) as nat) + tmp@.reverse());
        }
        m = m / 10;
    }
    proof {
        assert(spec_digits(0nat) =~= Seq::<u8>::empty());
        assert(spec_digits(n as nat) =~= tmp@.reverse());
    }
    tmp
}

/// Appends the bytes of `tmp`, last first, to `out`.
fn append_reversed(out: &mut Vec<u8>, tmp: &Vec<u8>)
    ensures
        final(out)@ == old(out)@ + tmp@.reverse(),
{
    let k = tmp.len();
    let mut i: usize = 0;
    while i < k
        invariant
            k == tmp@.len(),
            0 <= i <= k,
            out@ == old(out)@ + tmp@.reverse().take(i as int),
        decreases k - i,
    {
        out.push(tmp[k - 1 - i]);
        proof {
            assert(tmp@.reverse()[i as int] == tmp@[k - 1 - i]);
            assert(old(out)@ + tmp@.reverse().take(i + 1) =~= (old(out)@ + tmp@.reverse().take(
                i as int,
            )).push(tmp@[k - 1 - i]));
        }
        i = i + 1;
    }
    proof {
        assert(tmp@.reverse().take(k as int) =~= tmp@.reverse());
    }
}

/// Appends the written digits of `n` — `"0"` for zero, no leading zeros
/// otherwise — to `out`.
fn push_uint(out: &mut Vec<u8>, n: u64)
    ensures
        final(out)@ == old(out)@ + spec_uint_str(n as nat),
{
    if n == 0 {
        out.push(48);
        proof {
            assert(out@ =~= old(out)@ + spec_uint_str(0));
        }
        return ;
    }
    let tmp = rev_digits(n);
    append_reversed(out, &tmp);
}

/// Appends the nine fraction digits of a sub-unit part to `out`.
fn push_frac(out: &mut Vec<u8>, n: u32)
    requires
        n < BILLION,
    ensures
        final(out)@ == old(out)@ + spec_padded(n as nat, 9),
{
    proof {
        lemma_digits(n as nat);
        assert(pow10(9) == 1000000000) by {
            reveal_with_fuel(pow10, 10);
        }
        assert(spec_digits(n as nat).len() <= 9) by {
            if spec_digits(n as nat).len() > 9 {
                if n > 0 {
                    lemma_pow10_le(9, (spec_digits(n as nat).len() - 1) as nat);
                }
            }
        }
    }
    let tmp = rev_digits(n as u64);
    let zeros: usize = 9 - tmp.len();
    let mut z: usize = 0;
    while z < zeros
        invariant
            0 <= z <= zeros,
            out@ == old(out)@ + Seq::new(z as nat, |i: int| 48u8),
        decreases zeros - z,
    {
        out.push(48);
        proof {
            assert(old(out)@ + Seq::new((z + 1) as nat, |i: int| 48u8) =~= (old(out)@ + Seq::new(
                z as nat,
                |i: int| 48u8,
            )).push(48u8));
        }
        z = z + 1;
    }
    append_reversed(out, &tmp);
    proof {
        assert(out@ =~= old(out)@ + spec_padded(n as nat, 9));
    }
}

/// Marshals a decimal to its wire string: optional minus sign, the units
/// without leading zeros, a dot, and exactly nine fraction digits.
/// Total, and exact: no rounding, no floating point.
pub fn to_wire_decimal(d: &Decimal) -> (r: Vec<u8>)
    requires
        d.wf(),
    ensures
        r@ == spec_decimal_str(*d),
{
    let mut out: Vec<u8> = Vec::new();
    if d.negative {
        out.push(45);
    }
    push_uint(&mut out, d.units);
    out.push(46);
    push_frac(&mut out, d.nanos);
    proof {
        assert(out@ =~= spec_decimal_str(*d));
    }
    out
}

/// No representation drift: the wire string of a well-formed decimal
/// determines it uniquely, so marshaling a value and unmarshaling the
/// result yields the identical value — `from_wire_decimal` is owed
/// `Ok(d)` on exactly the string `to_wire_decimal` writes for `d`.
pub proof fn lemma_decimal_round_trip(a: Decimal, b: Decimal)
    requires
        a.wf(),
        b.wf(),
        spec_decimal_str(a) == spec_decimal_str(b),
    ensures
        a == b,
{
    lemma_decimal_str_shape(a);
    lemma_decimal_str_shape(b);
    let s = spec_decimal_str(a);
    assert(a.negative == b.negative);
    let start: int = if a.negative {
        1int
    } else {
        0int
    };
    let la = spec_uint_str(a.units as nat).len() as int;
    let lb = spec_uint_str(b.units as nat).len() as int;
    assert(start + la == s.len() - 10);
    assert(start + lb == s.len() - 10);
    assert(a.units as nat == digits_value(s.subrange(start, start + la)));
    assert(b.units as nat == digits_value(s.subrange(start, start + lb)));
    assert(a.nanos as nat == digits_value(s.subrange(start + la + 1, s.len() as int)));
    assert(b.nanos as nat == digits_value(s.subrange(start + lb + 1, s.len() as int)));
}

/// Unmarshals a wire decimal string.  Accepts exactly the canonical wire
/// form — the form `to_wire_decimal` writes — and returns the one decimal
/// it denotes; anything else fails with `InvalidDecimal`.  Together with
/// `to_wire_decimal` this makes marshaling drift-free in both directions.
pub fn from_wire_decimal(s: &Vec<u8>) -> (r: Result<Decimal, MarshalError>)
    ensures
        r matches Ok(d) ==> d.wf() && s@ == spec_decimal_str(d),
        forall|d: Decimal|
            d.wf() && s@ == spec_decimal_str(d) ==> r == Ok::<Decimal, MarshalError>(d),
        r is Err ==> r == Err::<Decimal, MarshalError>(MarshalError::InvalidDecimal),
{
    let n = s.len();
    let neg = if n == 0 {
        false
    } else {
        s[0] == 45
    };
    let start: usize = if neg {
        1
    } else {
        0
    };
    if n < start + 11 {
        proof {
            assert forall|d: Decimal| !(d.wf() && s@ == spec_decimal_str(d)) by {
                if d.wf() && s@ == spec_decimal_str(d) {
                    lemma_decimal_str_shape(d);
                }
            }
        }
        return Err(MarshalError::InvalidDecimal);
    }
    let dot = n - 10;
    if s[dot] != 46 {
        proof {
            assert forall|d: Decimal| !(d.wf() && s@ == spec_decimal_str(d)) by {
                if d.wf() && s@ == spec_decimal_str(d) {
                    lemma_decimal_str_shape(d);
                }
            }
        }
        return Err(MarshalError::InvalidDecimal);
    }
    if s[start] == 48 && dot != start + 1 {
        proof {
            assert forall|d: Decimal| !(d.wf() && s@ == spec_decimal_str(d)) by {
                if d.wf() && s@ == spec_decimal_str(d) {
                    lemma_decimal_str_shape(d);
                }
            }
        }
        return Err(MarshalError::InvalidDecimal);
    }
    let mut units: u64 = 0;
    let mut i: usize = start;
    while i < dot
        invariant
            n == s@.len(),
            start <= i <= dot,
            dot == n - 10,
            n >= start + 11,
            neg == (n > 0 && s@[0] == 45),
            start == if neg {
                1usize
            } else {
                0usize
            },
            s@[dot as int] == 46,
            s@[start as int] == 48 ==> dot == start + 1,
            all_digits(s@.subrange(start as int, i as int)),
            units as nat == digits_value(s@.subrange(start as int, i as int)),
        decreases dot - i,
    {
        let c = s[i];
        if c < 48 || c > 57 {
            proof {
                assert forall|d: Decimal| !(d.wf() && s@ == spec_decimal_str(d)) by {
                    if d.wf() && s@ == spec_decimal_str(d) {
                        lemma_decimal_str_shape(d);
                    }
                }
            }
            return Err(MarshalError::InvalidDecimal);
        }
        let digit = (c - 48) as u64;
        if units > (u64::MAX - digit) / 10 {
            proof {
                let pre = s@.subrange(start as int, i as int);
                let post = s@.subrange(start as int, i + 1);
                assert(post.drop_last() =~= pre);
                assert(post.last() == c);
                assert(digits_value(post) == (units as nat) * 10 + digit as nat);
                assert((units as nat) * 10 + digit > u64::MAX) by {
                    assert(units >= (u64::MAX - digit) / 10 + 1);
                    assert(((u64::MAX - digit) / 10 + 1) * 10 == ((u64::MAX - digit) / 10) * 10
                        + 10);
                    assert(((u64::MAX - digit) / 10) * 10 + (u64::MAX - digit) % 10 == u64::MAX
                        - digit);
                    assert((units as nat) * 10 >= (((u64::MAX - digit) / 10 + 1) as nat) * 10) by (
                    nonlinear_arith)
                        requires
                            units as nat >= (u64::MAX - digit) / 10 + 1,
                    ;
                }
                assert forall|d: Decimal| !(d.wf() && s@ == spec_decimal_str(d)) by {
                    if d.wf() && s@ == spec_decimal_str(d) {
                        lemma_decimal_str_shape(d);
                        let intpart = s@.subrange(start as int, dot as int);
                        assert(post =~= intpart.take(i + 1 - start));
                        lemma_digits_value_prefix(intpart, i + 1 - start);
                        assert(digits_value(post) <= d.units as nat);
                    }
                }
            }
            return Err(MarshalError::InvalidDecimal);
        }
        units = units * 10 + digit;
        proof {
            let pre = s@.subrange(start as int, i as int);
            let post = s@.subrange(start as int, i + 1);
            assert(post.drop_last() =~= pre);
            assert(post.last() == c);
            assert(all_digits(post)) by {
                assert(forall|k: int| 0 <= k < pre.len() ==> post[k] == pre[k]);
            }
        }
        i = i + 1;
    }
    let mut nanos: u32 = 0;
    let mut j: usize = dot + 1;
    while j < n
        invariant
            n == s@.len(),
            dot + 1 <= j <= n,
            dot == n - 10,
            n >= start + 11,
            neg == (n > 0 && s@[0] == 45),
            start == if neg {
                1usize
            } else {
                0usize
            },
            s@[dot as int] == 46,
            s@[start as int] == 48 ==> dot == start + 1,
            all_digits(s@.subrange(start as int, dot as int)),
            units as nat == digits_value(s@.subrange(start as int, dot as int)),
            all_digits(s@.subrange(dot + 1, j as int)),
            nanos as nat == digits_value(s@.subrange(dot + 1, j as int)),
        decreases n - j,
    {
        let c = s[j];
        if c < 48 || c > 57 {
            proof {
                assert forall|d: Decimal| !(d.wf() && s@ == spec_decimal_str(d)) by {
                    if d.wf() && s@ == spec_decimal_str(d) {
                        lemma_decimal_str_shape(d);
                    }
                }
            }
            return Err(MarshalError::InvalidDecimal);
        }
        proof {
            let pre = s@.subrange(dot + 1, j as int);
            lemma_digits_value_upper(pre);
            assert(pre.len() <= 8);
            lemma_pow10_le(pre.len(), 8);
            assert(pow10(8) == 100000000) by {
                reveal_with_fuel(pow10, 9);
            }
            let post = s@.subrange(dot + 1, j + 1);
            assert(post.drop_last() =~= pre);
            assert(post.last() == c);
            assert(all_digits(post)) by {
                assert(forall|k: int| 0 <= k < pre.len() ==> post[k] == pre[k]);
            }
        }
        nanos = nanos * 10 + ((c - 48) as u32);
        j = j + 1;
    }
    if neg && units == 0 && nanos == 0 {
        proof {
            assert forall|d: Decimal| !(d.wf() && s@ == spec_decimal_str(d)) by {
                if d.wf() && s@ == spec_decimal_str(d) {
                    lemma_decimal_str_shape(d);
                    let l = spec_uint_str(d.units as nat).len() as int;
                    assert(d.negative);
                    assert(d.units as nat == digits_value(
                        s@.subrange(start as int, dot as int),
                    ));
                    assert(d.nanos as nat == digits_value(s@.subrange(dot + 1, n as int)));
                }
            }
        }
        return Err(MarshalError::InvalidDecimal);
    }
    let out = Decimal { negative: neg, units, nanos };
    proof {
        let intpart = s@.subrange(start as int, dot as int);
        let fracpart = s@.subrange(dot + 1, n as int);
        assert(fracpart.len() == 9);
        lemma_digits_value_upper(fracpart);
        assert(pow10(9) == 1000000000) by {
            reveal_with_fuel(pow10, 10);
        }
        assert(out.wf());
        assert(intpart.len() >= 1);
        assert(intpart[0] == s@[start as int]);
        if intpart[0] == 48 {
            assert(dot == start + 1);
            assert(intpart.len() == 1);
        }
        lemma_canonical_digits(intpart);
        lemma_padded_digits(fracpart);
        assert(intpart == spec_uint_str(out.units as nat));
        assert(fracpart == spec_padded(out.nanos as nat, 9));
        assert(s@ == spec_decimal_str(out)) by {
            if neg {
                assert(s@ =~= seq![45u8] + intpart + seq![46u8] + fracpart);
            } else {
                assert(s@ =~= intpart + seq![46u8] + fracpart);
                assert(Seq::<u8>::empty() + intpart + seq![46u8] + fracpart =~= intpart + seq![
                    46u8,
                ] + fracpart);
            }
        }
        assert forall|d: Decimal| d.wf() && s@ == spec_decimal_str(d) implies Ok::<
            Decimal,
            MarshalError,
        >(out) == Ok::<Decimal, MarshalError>(d) by {
            lemma_decimal_str_shape(d);
            let l = spec_uint_str(d.units as nat).len() as int;
            assert(d.negative == neg);
            assert(start as int + l == dot as int);
            assert(s@.subrange(start as int, dot as int) == spec_uint_str(d.units as nat));
            assert(d.units as nat == digits_value(intpart));
            assert(d.nanos as nat == digits_value(fracpart));
            assert(out == d);
        }
    }
    Ok(out)
}

} // verus!
