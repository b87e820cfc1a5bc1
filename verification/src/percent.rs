//! Percentages. A percentage is a finite double, held by its bits and read
//! with integer arithmetic: every comparison and every rounding here is exact.

use vstd::prelude::*;
use vstd::string::*;
use vstd::arithmetic::power2::{lemma2_to64, lemma2_to64_rest, lemma_pow2_adds, lemma_pow2_pos, lemma_pow2_strictly_increases, lemma_pow2_unfold, pow2};
use vstd::arithmetic::div_mod::{lemma_div_multiples_vanish_quotient, lemma_fundamental_div_mod, lemma_fundamental_div_mod_converse};

use crate::json::JsonNumber;
use crate::numerals::{as_double, excess, shortest, shortest_text};
use crate::text::{digits, nat_text};

verus! {

/// The bit of the sign.
pub const SIGN_UNIT: u64 = 0x8000_0000_0000_0000;

/// The lowest bit of the exponent, and the leading bit of a mantissa.
pub const EXPONENT_UNIT: u64 = 0x0010_0000_0000_0000;

/// The exponent that marks infinities and values that are no number.
pub const SPECIAL_EXPONENT: u64 = 2047;

/// A percentage: a finite double.
#[derive(Clone, Copy, Debug, PartialEq, Eq, Structural)]
pub struct Percent {
    bits: u64,
}

/// The exponent field of a double.
pub open spec fn exponent(bits: u64) -> int {
    (bits as int / 0x0010_0000_0000_0000) % 2048
}

/// The fraction field of a double.
pub open spec fn fraction(bits: u64) -> int {
    bits as int % 0x0010_0000_0000_0000
}

/// Whether the sign of a double is set.
pub open spec fn negative(bits: u64) -> bool {
    bits >= 0x8000_0000_0000_0000
}

/// The mantissa of a finite double, with its leading bit.
pub open spec fn mantissa(bits: u64) -> nat {
    if exponent(bits) == 0 {
        fraction(bits) as nat
    } else {
        (0x0010_0000_0000_0000 + fraction(bits)) as nat
    }
}

/// The power of two that a mantissa counts, from the smallest double up.
pub open spec fn scale(bits: u64) -> nat {
    if exponent(bits) == 0 {
        0
    } else {
        (exponent(bits) - 1) as nat
    }
}

/// How many of the smallest positive double make one.
pub open spec fn one() -> nat {
    pow2(1074)
}

/// The absolute value of a finite double, in multiples of the smallest
/// positive double.
pub open spec fn magnitude(bits: u64) -> nat {
    mantissa(bits) * pow2(scale(bits))
}

/// Whether the double with these bits is neither infinite nor "not a number".
pub open spec fn finite(bits: u64) -> bool {
    exponent(bits) != 2047
}

impl Percent {
    #[verifier::type_invariant]
    spec fn is_finite(self) -> bool {
        finite(self.bits)
    }

    /// The bits of the double.
    pub closed spec fn view(&self) -> u64 {
        self.bits
    }

    /// The value in multiples of the smallest positive double.
    pub open spec fn value(self) -> int {
        if negative(self@) {
            -(magnitude(self@) as int)
        } else {
            magnitude(self@) as int
        }
    }

    /// The percentage with the given bits; none for an infinity and for "not a
    /// number".
    pub fn from_bits(bits: u64) -> (percent: Option<Percent>)
        ensures
            match percent {
                Some(p) => finite(bits) && p@ == bits,
                None => !finite(bits),
            },
    {
        if (bits / EXPONENT_UNIT) % 2048 == SPECIAL_EXPONENT {
            None
        } else {
            Some(Percent { bits })
        }
    }

    /// The bits of the double.
    pub fn to_bits(self) -> (bits: u64)
        ensures
            bits == self@,
            finite(bits),
    {
        proof {
            use_type_invariant(&self);
        }
        self.bits
    }

    /// Zero.
    pub closed spec fn none_used() -> Percent {
        Percent { bits: 0 }
    }

    /// Nothing used is zero, and its bits are those of the positive zero.
    pub proof fn none_used_is_zero()
        ensures
            Percent::none_used().value() == 0,
            Percent::none_used()@ == 0,
    {
        assert(0 * pow2(0) == 0);
    }

    /// Zero.
    pub fn zero() -> (percent: Percent)
        ensures
            percent == Percent::none_used(),
            percent@ == 0,
            percent.value() == 0,
    {
        proof {
            assert(0 * pow2(0) == 0);
        }
        Percent { bits: 0 }
    }

    /// One hundred.
    pub fn hundred() -> (percent: Percent)
        ensures
            percent.value() == 100 * one(),
    {
        proof {
            lemma2_to64();
            lemma2_to64_rest();
            lemma_pow2_adds(1028, 46);
            let p = pow2(1028);
            assert(0x0019_0000_0000_0000 == 100 * 0x4000_0000_0000);
            assert(0x0019_0000_0000_0000 * p == 100 * (p * 0x4000_0000_0000)) by (nonlinear_arith);
        }
        Percent { bits: 0x4059_0000_0000_0000 }
    }

    /// Whether the value is zero, of either sign.
    pub fn is_zero(self) -> (zero: bool)
        ensures
            zero == (self.value() == 0),
    {
        proof {
            lemma_pow2_pos(scale(self.bits));
            let m = mantissa(self.bits);
            let p = pow2(scale(self.bits));
            assert(m * p == 0 <==> m == 0) by (nonlinear_arith)
                requires
                    p > 0,
            ;
        }
        let exp: u64 = (self.bits / EXPONENT_UNIT) % 2048;
        exp == 0 && self.bits % EXPONENT_UNIT == 0
    }

    /// Whether two percentages have the same value.
    pub fn same(self, other: Percent) -> (same: bool)
        ensures
            same == (self.value() == other.value()),
    {
        proof {
            use_type_invariant(&self);
            use_type_invariant(&other);
            same_magnitude(self.bits, other.bits);
        }
        if self.is_zero() {
            other.is_zero()
        } else if other.is_zero() {
            false
        } else {
            self.bits == other.bits
        }
    }

    /// Whether the value is `threshold` or more.
    pub fn at_least(self, threshold: u8) -> (reached: bool)
        ensures
            reached == (self.value() >= threshold * one()),
    {
        let bits = self.bits;
        let ghost n = threshold as nat;
        proof {
            use_type_invariant(&self);
            lemma_pow2_pos(1074);
            lemma_pow2_pos(scale(bits));
            lemma2_to64_rest();
        }
        if bits >= SIGN_UNIT {
            let zero = self.is_zero();
            proof {
                let u = one();
                assert(n * u == 0 <==> n == 0) by (nonlinear_arith)
                    requires
                        u > 0,
                ;
                assert(n * u >= 0) by (nonlinear_arith)
                    requires
                        u > 0,
                ;
            }
            return zero && threshold == 0;
        }
        if threshold == 0 {
            proof {
                assert(magnitude(bits) >= 0);
                assert(0 * one() == 0);
            }
            return true;
        }
        let exp: u64 = (bits / EXPONENT_UNIT) % 2048;
        if exp >= 1075 {
            proof {
                at_least_integers(mantissa(bits), scale(bits), n);
            }
            return true;
        }
        let m: u64 = if exp == 0 {
            bits % EXPONENT_UNIT
        } else {
            EXPONENT_UNIT + bits % EXPONENT_UNIT
        };
        let down: u64 = if exp == 0 {
            1074
        } else {
            1075 - exp
        };
        proof {
            at_least_shifted(m as nat, scale(bits), down as nat, n);
        }
        if down >= 53 {
            proof {
                if down > 53 {
                    lemma_pow2_strictly_increases(53, down as nat);
                }
                let p = pow2(down as nat);
                assert(n * p >= p) by (nonlinear_arith)
                    requires
                        n >= 1,
                        p >= 0,
                ;
            }
            return false;
        }
        let unit: u64 = power(down as u32);
        proof {
            lemma_pow2_strictly_increases(down as nat, 53);
            assert(threshold * unit <= 255 * 0x20_0000_0000_0000) by (nonlinear_arith)
                requires
                    threshold <= 255,
                    unit <= 0x20_0000_0000_0000,
            ;
        }
        m >= threshold as u64 * unit
    }
}

/// Two to the power `k`.
fn power(k: u32) -> (p: u64)
    requires
        k < 63,
    ensures
        p == pow2(k as nat),
{
    let mut p: u64 = 1;
    let mut i: u32 = 0;
    proof {
        lemma2_to64();
    }
    while i < k
        invariant
            i <= k < 63,
            p == pow2(i as nat),
        decreases k - i,
    {
        proof {
            lemma_pow2_unfold((i + 1) as nat);
            lemma2_to64();
            lemma_pow2_strictly_increases((i + 1) as nat, 64);
        }
        p = p * 2;
        i = i + 1;
    }
    p
}

/// A mantissa of at least the leading bit, counted at or above one, exceeds
/// every small number.
proof fn at_least_integers(m: nat, s: nat, n: nat)
    requires
        m >= 0x0010_0000_0000_0000,
        s >= 1074,
        n <= 255,
    ensures
        m * pow2(s) >= n * one(),
{
    if s > 1074 {
        lemma_pow2_strictly_increases(1074, s);
    }
    lemma_pow2_pos(1074);
    let a = pow2(s);
    let b = one();
    assert(m * a >= n * b) by (nonlinear_arith)
        requires
            m >= n,
            a >= b,
            b > 0,
            n >= 0,
    ;
}

/// Below one, both sides of the comparison can be counted in the mantissa's
/// own unit.
proof fn at_least_shifted(m: nat, s: nat, down: nat, n: nat)
    requires
        s + down == 1074,
    ensures
        m * pow2(s) >= n * one() <==> m >= n * pow2(down),
{
    lemma_pow2_adds(s, down);
    lemma_pow2_pos(s);
    let p = pow2(s);
    let d = pow2(down);
    assert(one() == p * d);
    assert(n * (p * d) == (n * d) * p) by (nonlinear_arith);
    let nd = n * d;
    assert(m * p >= nd * p <==> m >= nd) by (nonlinear_arith)
        requires
            p > 0,
    ;
}

/// Bits are made of sign, exponent and fraction.
proof fn bits_from_fields(a: u64)
    ensures
        a == (if negative(a) {
            0x8000_0000_0000_0000int
        } else {
            0
        }) + exponent(a) * 0x0010_0000_0000_0000 + fraction(a),
{
    let q = a as int / 0x0010_0000_0000_0000;
    assert(a as int == q * 0x0010_0000_0000_0000 + fraction(a));
    assert(0 <= q < 4096);
    if negative(a) {
        assert(q >= 2048);
        assert(q % 2048 == q - 2048);
    } else {
        assert(q < 2048);
        assert(q % 2048 == q);
    }
}

/// Two finite doubles of one magnitude have one exponent and one fraction.
proof fn equal_magnitudes(a: u64, b: u64)
    requires
        magnitude(a) == magnitude(b),
        scale(a) <= scale(b),
    ensures
        exponent(a) == exponent(b) && fraction(a) == fraction(b),
{
    let (ma, mb) = (mantissa(a), mantissa(b));
    let (sa, sb) = (scale(a), scale(b));
    lemma_pow2_pos(sa);
    let p = pow2(sa);
    if sa == sb {
        assert(ma * p == mb * p ==> ma == mb) by (nonlinear_arith)
            requires
                p > 0,
        ;
    } else {
        let d = (sb - sa) as nat;
        lemma_pow2_adds(sa, d);
        lemma_pow2_unfold(d);
        lemma_pow2_pos((d - 1) as nat);
        let q = pow2(d);
        assert(q >= 2);
        assert(mb * (p * q) == (mb * q) * p) by (nonlinear_arith);
        let mbq = mb * q;
        assert(ma * p == mbq * p ==> ma == mbq) by (nonlinear_arith)
            requires
                p > 0,
        ;
        assert(mbq >= 2 * mb) by (nonlinear_arith)
            requires
                mbq == mb * q,
                q >= 2,
                mb >= 0,
        ;
        assert(mb >= 0x0010_0000_0000_0000);
        assert(ma < 0x0020_0000_0000_0000);
    }
}

/// The value of a finite double says what its bits are, but for the sign of
/// zero.
proof fn same_magnitude(a: u64, b: u64)
    ensures
        magnitude(a) == magnitude(b) <==> exponent(a) == exponent(b) && fraction(a) == fraction(b),
        magnitude(a) == magnitude(b) && negative(a) == negative(b) ==> a == b,
{
    if magnitude(a) == magnitude(b) {
        if scale(a) <= scale(b) {
            equal_magnitudes(a, b);
        } else {
            equal_magnitudes(b, a);
        }
    }
    bits_from_fields(a);
    bits_from_fields(b);
}

// ---------------------------------------------------------------------------
// Rounding
// ---------------------------------------------------------------------------

/// The integer nearest to a magnitude, halves going up.
pub open spec fn nearest(magnitude: nat) -> nat {
    (2 * magnitude + one()) / (2 * one())
}

/// A whole number as it is shown. From where doubles skip integers on, it is
/// the shortest one that is read as the same double.
pub open spec fn shown(n: nat) -> Seq<char> {
    if n < 0x0020_0000_0000_0000 {
        digits(n)
    } else {
        digits(shortest(n))
    }
}

/// A percentage as it is shown: the nearest integer, halves going away from
/// zero, with the sign of the percentage.
pub open spec fn rounded(percent: Percent) -> Seq<char> {
    if negative(percent@) {
        seq!['-'] + shown(nearest(magnitude(percent@)))
    } else {
        shown(nearest(magnitude(percent@)))
    }
}

/// Rounding counts in the mantissa's own unit.
proof fn nearest_shifted(m: nat, s: nat, down: nat)
    requires
        s + down == 1074,
        down > 0,
    ensures
        nearest(m * pow2(s)) == (m + pow2((down - 1) as nat)) / pow2(down),
{
    lemma_pow2_adds(s, down);
    lemma_pow2_unfold(down);
    lemma_pow2_pos(s);
    lemma_pow2_pos(down);
    let p = pow2(s) as int;
    let h = pow2((down - 1) as nat) as int;
    let d = pow2(down) as int;
    assert(d == 2 * h);
    let c = 2 * p;
    assert(2 * (m * p) + p * d == c * (m + h)) by (nonlinear_arith)
        requires
            c == 2 * p,
            d == 2 * h,
    ;
    assert(2 * (p * d) == c * d) by (nonlinear_arith)
        requires
            c == 2 * p,
    ;
    lemma_div_multiples_vanish_quotient(c, m + h, d);
    assert(one() == p * d);
    assert((c * d) > 0) by (nonlinear_arith)
        requires
            c > 0,
            d > 0,
    ;
}

/// Rounding leaves an integer as it is.
proof fn nearest_integer(n: nat)
    ensures
        nearest(n * one()) == n,
{
    lemma_pow2_pos(1074);
    let u = one() as int;
    assert(2 * (n * u) + u == n * (2 * u) + u) by (nonlinear_arith);
    lemma_fundamental_div_mod_converse(2 * (n * u) + u, 2 * u, n as int, u);
}

impl Percent {
    /// The nearest integer, halves going away from zero, in decimal.
    pub fn rounded_text(self) -> (text: String)
        ensures
            text@ == rounded(self),
    {
        let bits = self.bits;
        proof {
            use_type_invariant(&self);
            lemma2_to64_rest();
        }
        let mut text = String::new();
        if bits >= SIGN_UNIT {
            text.push('-');
        }
        let exp: u64 = (bits / EXPONENT_UNIT) % 2048;
        let m: u64 = if exp == 0 {
            bits % EXPONENT_UNIT
        } else {
            EXPONENT_UNIT + bits % EXPONENT_UNIT
        };
        let whole: String;
        if exp >= 1075 {
            let up: u32 = (exp - 1075) as u32;
            proof {
                lemma_pow2_adds(1074, up as nat);
                let p = pow2(up as nat);
                let u = one();
                assert(m as nat * (u * p) == (m as nat * p) * u) by (nonlinear_arith);
                nearest_integer(m as nat * p);
            }
            if up == 0 {
                proof {
                    lemma2_to64();
                    assert(m as nat * 1 == m);
                }
                whole = nat_text(m);
            } else {
                proof {
                    let p = pow2(up as nat);
                    lemma_pow2_unfold(up as nat);
                    lemma_pow2_pos((up - 1) as nat);
                    assert(m as nat * p >= 2 * m) by (nonlinear_arith)
                        requires
                            p >= 2,
                    ;
                }
                whole = shortest_text(m, up);
            }
        } else {
            let down: u64 = if exp == 0 {
                1074
            } else {
                1075 - exp
            };
            proof {
                nearest_shifted(m as nat, scale(bits), down as nat);
            }
            if down >= 54 {
                proof {
                    if down > 54 {
                        lemma_pow2_strictly_increases(54, down as nat);
                    }
                    lemma_pow2_unfold(down as nat);
                    let n = m + pow2((down - 1) as nat);
                    assert(n < pow2(down as nat));
                    lemma_fundamental_div_mod_converse(
                        n as int,
                        pow2(down as nat) as int,
                        0,
                        n as int,
                    );
                }
                whole = nat_text(0);
            } else {
                let half: u64 = power((down - 1) as u32);
                let unit: u64 = power(down as u32);
                proof {
                    lemma_pow2_strictly_increases((down - 1) as nat, 54);
                    lemma_pow2_pos(down as nat);
                }
                let q: u64 = (m + half) / unit;
                proof {
                    lemma_pow2_unfold(down as nat);
                    let (x, y, h) = (q as int, unit as int, half as int);
                    lemma_fundamental_div_mod(m + half, y);
                    assert(x < 0x0020_0000_0000_0000) by (nonlinear_arith)
                        requires
                            y * x <= m + h,
                            y == 2 * h,
                            h >= 1,
                            m < 0x0020_0000_0000_0000,
                    ;
                }
                whole = nat_text(q);
            }
        }
        proof {
            assert(seq!['-'] + whole@ == Seq::<char>::empty().push('-') + whole@);
            assert(Seq::<char>::empty() + whole@ == whole@);
        }
        text.append(whole.as_str());
        text
    }
}

// ---------------------------------------------------------------------------
// From JSON numbers
// ---------------------------------------------------------------------------

/// The value of a JSON number as a double, in multiples of the smallest
/// positive double, and its sign; none for bits that are no finite double.
pub open spec fn number_value(number: JsonNumber) -> Option<(int, bool)> {
    match number {
        JsonNumber::PosInt(n) => Some(((as_double(n as nat) * one()) as int, false)),
        JsonNumber::NegInt(n) => if n < 0 {
            Some((-((as_double((-n) as nat) * one()) as int), true))
        } else {
            Some(((as_double(n as nat) * one()) as int, false))
        },
        JsonNumber::Float(bits) => if finite(bits) {
            Some(
                (
                    if negative(bits) {
                        -(magnitude(bits) as int)
                    } else {
                        magnitude(bits) as int
                    },
                    negative(bits),
                ),
            )
        } else {
            None
        },
    }
}

/// The percentage has the value and the sign that `number` has as a double.
pub open spec fn is_number(percent: Percent, number: JsonNumber) -> bool {
    number_value(number) == Some((percent.value(), negative(percent@)))
}

/// The percentage that a JSON number gives.
pub open spec fn number_percent(number: JsonNumber) -> Option<Percent> {
    if number_value(number) is Some {
        Some(choose|percent: Percent| is_number(percent, number))
    } else {
        None
    }
}

/// A JSON number gives one percentage.
proof fn number_gives_one(a: Percent, b: Percent, number: JsonNumber)
    requires
        is_number(a, number),
        is_number(b, number),
    ensures
        a == b,
{
    same_magnitude(a.bits, b.bits);
}

/// A finite double in a document is the percentage with the same bits; one that
/// is not finite is none.
pub proof fn double_is_its_percentage(bits: u64)
    ensures
        finite(bits) ==> (number_percent(JsonNumber::Float(bits)) matches Some(p) && p@ == bits),
        !finite(bits) ==> number_percent(JsonNumber::Float(bits)) is None,
{
    if finite(bits) {
        let kept = Percent { bits };
        let number = JsonNumber::Float(bits);
        assert(is_number(kept, number));
        number_gives_one(kept, number_percent(number)->0, number);
    }
}

/// Dividing by two and then by `p` is dividing by `2 * p`.
proof fn halve_then_divide(n: nat, p: nat)
    requires
        p > 0,
    ensures
        (n / p) / 2 == n / (2 * p),
{
    let q = n / p;
    let h = q / 2;
    let r = n - h * (2 * p);
    assert(n == q * p + n % p) by (nonlinear_arith)
        requires
            q == n / p,
            p > 0,
    ;
    assert(q == 2 * h || q == 2 * h + 1);
    let t = n % p;
    assert(0 <= t < p) by (nonlinear_arith)
        requires
            t == n % p,
            p > 0,
    ;
    assert(0 <= r < 2 * p) by (nonlinear_arith)
        requires
            n == q * p + t,
            r == n - h * (2 * p),
            q == 2 * h || q == 2 * h + 1,
            0 <= t < p,
    ;
    lemma_fundamental_div_mod_converse(n as int, (2 * p) as int, h as int, r as int);
}

/// The bits of the double nearest to `n`.
fn double_bits(n: u64) -> (bits: u64)
    requires
        n > 0,
    ensures
        finite(bits),
        !negative(bits),
        magnitude(bits) == as_double(n as nat) * one(),
{
    proof {
        lemma2_to64();
        lemma2_to64_rest();
        lemma_pow2_pos(1074);
    }
    let mut m: u64 = n;
    if n >= 2 * EXPONENT_UNIT {
        let mut k: u32 = 0;
        proof {
            assert(n as nat / pow2(0) == n);
        }
        while m >= 2 * EXPONENT_UNIT
            invariant
                n >= 2 * EXPONENT_UNIT,
                m == n as nat / pow2(k as nat),
                excess(n as nat) == k + excess(m as nat),
                k <= 11,
                m <= 0xffff_ffff_ffff_ffffnat / pow2(k as nat),
                k > 0 || m == n,
                m >= EXPONENT_UNIT,
            decreases m,
        {
            proof {
                lemma_pow2_unfold((k + 1) as nat);
                lemma_pow2_pos(k as nat);
                halve_then_divide(n as nat, pow2(k as nat));
                lemma2_to64();
                halve_then_divide(0xffff_ffff_ffff_ffff, pow2(k as nat));
                shrinks_enough(k, m);
            }
            m = m / 2;
            k = k + 1;
        }
        let unit: u64 = power(k);
        proof {
            assert(excess(m as nat) == 0);
            lemma_pow2_pos(k as nat);
        }
        let rest: u64 = n % unit;
        proof {
            lemma_pow2_strictly_increases(k as nat, 12);
        }
        if 2 * rest > unit || (2 * rest == unit && m % 2 == 1) {
            m = m + 1;
        }
        proof {
            assert(as_double(n as nat) == m * pow2(k as nat));
        }
        if m == 2 * EXPONENT_UNIT {
            let ghost full = m;
            m = EXPONENT_UNIT;
            k = k + 1;
            proof {
                lemma_pow2_unfold(k as nat);
                let p = pow2((k - 1) as nat);
                assert(full * p == m * (2 * p)) by (nonlinear_arith)
                    requires
                        full == 2 * m,
                ;
            }
        }
        let bits: u64 = (1075 + k as u64) * EXPONENT_UNIT + (m - EXPONENT_UNIT);
        proof {
            fields_of(1075 + k as int, m - EXPONENT_UNIT, bits);
            lemma_pow2_adds(1074, k as nat);
            let p = pow2(k as nat);
            let u = one();
            assert(m as nat * (u * p) == (m as nat * p) * u) by (nonlinear_arith);
        }
        return bits;
    }
    let mut down: u32 = 0;
    proof {
        assert(n as nat * 1 == n);
    }
    while m < EXPONENT_UNIT
        invariant
            0 < n < 2 * EXPONENT_UNIT,
            0 < m < 2 * EXPONENT_UNIT,
            m == n as nat * pow2(down as nat),
            down <= 52,
            m >= pow2(down as nat),
        decreases 2 * EXPONENT_UNIT - m,
    {
        proof {
            lemma_pow2_unfold((down + 1) as nat);
            lemma2_to64_rest();
            let p = pow2(down as nat);
            assert(2 * (n as nat * p) == n as nat * (2 * p)) by (nonlinear_arith);
        }
        m = m * 2;
        down = down + 1;
    }
    let bits: u64 = (1075 - down as u64) * EXPONENT_UNIT + (m - EXPONENT_UNIT);
    proof {
        fields_of(1075 - down as int, m - EXPONENT_UNIT, bits);
        assert(excess(n as nat) == 0);
        assert(n as nat / 1 == n && n as nat % 1 == 0);
        assert(as_double(n as nat) == n);
        let s = (1074 - down) as nat;
        lemma_pow2_adds(down as nat, s);
        let a = pow2(down as nat);
        let b = pow2(s);
        assert((n as nat * a) * b == n as nat * (a * b)) by (nonlinear_arith);
    }
    bits
}

/// Halving stops in time: eleven halvings bring every 64-bit number below the
/// mantissa's limit.
proof fn shrinks_enough(k: u32, m: u64)
    requires
        m >= 0x0020_0000_0000_0000,
        k <= 11,
        m <= 0xffff_ffff_ffff_ffffnat / pow2(k as nat),
    ensures
        k < 11,
{
    lemma2_to64();
    if k == 11 {
        assert(0xffff_ffff_ffff_ffffnat / 2048 == 0x001f_ffff_ffff_ffff);
    }
}

/// Bits put together from an exponent and a fraction have those fields.
proof fn fields_of(exp: int, frac: int, bits: u64)
    requires
        0 < exp < 2047,
        0 <= frac < 0x0010_0000_0000_0000,
        bits == exp * 0x0010_0000_0000_0000 + frac,
    ensures
        exponent(bits) == exp,
        fraction(bits) == frac,
        !negative(bits),
{
    lemma_fundamental_div_mod_converse(bits as int, 0x0010_0000_0000_0000, exp, frac);
}

impl Percent {
    /// The percentage that a JSON number gives, as the double nearest to it.
    pub fn from_number(number: JsonNumber) -> (percent: Option<Percent>)
        ensures
            percent == number_percent(number),
            percent matches Some(p) ==> is_number(p, number),
    {
        let percent = Percent::nearest_to(number);
        proof {
            if let Some(p) = percent {
                number_gives_one(p, number_percent(number)->0, number);
            }
        }
        percent
    }

    fn nearest_to(number: JsonNumber) -> (percent: Option<Percent>)
        ensures
            match percent {
                Some(p) => is_number(p, number),
                None => number_value(number) is None,
            },
    {
        match number {
            JsonNumber::PosInt(n) => Some(Percent::from_count(n)),
            JsonNumber::NegInt(n) => {
                if n >= 0 {
                    return Some(Percent::from_count(n as u64));
                }
                let size: u64 = if n == i64::MIN {
                    0x8000_0000_0000_0000
                } else {
                    (-n) as u64
                };
                let bits = double_bits(size);
                proof {
                    sign_set(bits);
                }
                Some(Percent { bits: SIGN_UNIT + bits })
            },
            JsonNumber::Float(bits) => Percent::from_bits(bits),
        }
    }

    /// The percentage nearest to a whole number.
    fn from_count(n: u64) -> (percent: Percent)
        ensures
            percent.value() == as_double(n as nat) * one(),
            !negative(percent@),
    {
        if n == 0 {
            proof {
                lemma2_to64();
                assert(excess(0) == 0);
                assert(0nat / pow2(0) == 0 && 0nat % pow2(0) == 0);
                assert(as_double(0) == 0 * pow2(0));
                assert(0 * one() == 0);
            }
            Percent::zero()
        } else {
            Percent { bits: double_bits(n) }
        }
    }
}

/// Setting the sign leaves the other fields alone.
proof fn sign_set(bits: u64)
    requires
        !negative(bits),
    ensures
        exponent((0x8000_0000_0000_0000 + bits) as u64) == exponent(bits),
        fraction((0x8000_0000_0000_0000 + bits) as u64) == fraction(bits),
        negative((0x8000_0000_0000_0000 + bits) as u64),
{
    let all = (0x8000_0000_0000_0000 + bits) as u64;
    let q = bits as int / 0x0010_0000_0000_0000;
    let f = fraction(bits);
    lemma_fundamental_div_mod_converse(all as int, 0x0010_0000_0000_0000, q + 2048, f);
}

} // verus!
