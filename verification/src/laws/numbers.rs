//! Laws of numbers: doubles by their bits, and what a document's number is as a
//! percentage.

use vstd::prelude::*;
use vstd::arithmetic::power2::{lemma_pow2_pos, lemma_pow2_unfold, pow2};

use crate::json::{JsonNumber, Tree};
use crate::numerals::{as_double, excess, is_shortest, nearer, reads_with, ten_to};
use crate::percent::{
    double_is_its_percentage, exponent, fraction, is_number, magnitude, negative, number_percent,
    one, shown, Percent,
};
use crate::source::{integer_member, percent_member};
use crate::text::digits;

verus! {

/// The next higher exponent doubles a value, and the next higher fraction adds
/// one unit. The sign changes neither.
pub proof fn bits_make_the_value(bits: u64)
    requires
        !negative(bits),
    ensures
        0 < exponent(bits) < 2046 ==> magnitude((bits + 0x0010_0000_0000_0000) as u64) == 2
            * magnitude(bits),
        exponent(bits) > 0 && fraction(bits) + 1 < 0x0010_0000_0000_0000 ==> magnitude(
            (bits + 1) as u64,
        ) == magnitude(bits) + pow2((exponent(bits) - 1) as nat),
        exponent(bits) == 0 ==> magnitude(bits) == fraction(bits),
        magnitude((bits + 0x8000_0000_0000_0000) as u64) == magnitude(bits),
        negative((bits + 0x8000_0000_0000_0000) as u64),
{
    let e = exponent(bits);
    let f = fraction(bits);
    let unit = 0x0010_0000_0000_0000int;
    assert(bits == e * unit + f);
    vstd::arithmetic::power2::lemma2_to64();
    if e == 0 {
        assert(f * 1 == f);
    }
    if 0 < e < 2046 {
        let up = (bits + 0x0010_0000_0000_0000) as u64;
        assert(up == (e + 1) * unit + f);
        assert(exponent(up) == e + 1 && fraction(up) == f);
        lemma_pow2_unfold(e as nat);
        let m = (unit + f) as nat;
        let p = pow2((e - 1) as nat);
        assert(m * (2 * p) == 2 * (m * p)) by (nonlinear_arith);
    }
    if e > 0 && f + 1 < unit {
        let next = (bits + 1) as u64;
        assert(next == e * unit + (f + 1));
        assert(exponent(next) == e && fraction(next) == f + 1);
        let m = (unit + f) as nat;
        let p = pow2((e - 1) as nat);
        assert((m + 1) * p == m * p + p) by (nonlinear_arith);
    }
    let minus = (bits + 0x8000_0000_0000_0000) as u64;
    assert(exponent(minus) == e && fraction(minus) == f);
    assert(magnitude(minus) == magnitude(bits));
}

/// A whole number that a double can hold is read as itself, and any other as a
/// double that is at most half a step away: a whole number of steps, which is
/// even where two doubles are equally near.
pub proof fn whole_number_is_read_nearest(n: nat)
    ensures
        n < 0x0020_0000_0000_0000 ==> as_double(n) == n,
        -(pow2(excess(n)) as int) <= 2 * (as_double(n) - n) <= pow2(excess(n)),
        exists|k: nat|
            #![trigger k * pow2(excess(n))]
            as_double(n) == k * pow2(excess(n)) && (2 * (as_double(n) - n) == pow2(excess(n)) || 2
                * (n - as_double(n)) == pow2(excess(n)) ==> k % 2 == 0),
        n < 0x0020_0000_0000_0000 ==> shown(n) == digits(n),
{
    vstd::arithmetic::power2::lemma2_to64();
    lemma_pow2_pos(excess(n));
    let u = pow2(excess(n)) as int;
    let q = n as int / u;
    vstd::arithmetic::div_mod::lemma_fundamental_div_mod(n as int, u);
    assert(u * q == q * u) by (nonlinear_arith);
    assert((q + 1) * u == q * u + u) by (nonlinear_arith);
    let k: nat = if as_double(n) == q * u {
        q as nat
    } else {
        (q + 1) as nat
    };
    assert(as_double(n) == k * pow2(excess(n)));
    if n < 0x0020_0000_0000_0000 {
        assert(u == 1);
        assert(n as int % 1 == 0);
        assert(q * 1 == n) by (nonlinear_arith)
            requires
                q == n as int / 1,
        ;
    }
}

/// The shortest number for a double is read as that double, and ends in as many
/// zeros as any other that is. Each power of ten is ten times the one before.
pub proof fn shortest_number_is_read_back(n: nat, v: nat, w: nat, zeros: nat, k: nat)
    requires
        is_shortest(n, v),
    ensures
        as_double(v) == n,
        as_double(w) == n && w % ten_to(zeros) == 0 ==> exists|z: nat|
            z >= zeros && v % #[trigger] ten_to(z) == 0,
        ten_to(0) == 1,
        ten_to(k + 1) == 10 * ten_to(k),
{
    let z = choose|z: nat| #[trigger]
        reads_with(n, v, z) && (forall|u: nat, more: nat|
            more > z ==> !#[trigger] reads_with(n, u, more)) && (forall|u: nat| #[trigger]
            reads_with(n, u, z) ==> nearer(n, v, u));
    assert(reads_with(n, v, z));
    if as_double(w) == n && w % ten_to(zeros) == 0 {
        assert(reads_with(n, w, zeros));
        assert(z >= zeros);
        assert(v % ten_to(z) == 0);
    }
}

/// The percentage that a document's number gives: a whole number is that many
/// percent, with its sign, and a double is itself.
pub proof fn number_is_that_many_percent(p: Percent, n: u64, m: i64, bits: u64)
    ensures
        is_number(p, JsonNumber::PosInt(n)) && n < 0x0020_0000_0000_0000 ==> p.value() == n * one()
            && !negative(p@),
        is_number(p, JsonNumber::NegInt(m)) && -0x0020_0000_0000_0000 < m ==> (m < 0 ==> p.value()
            == m * one() && negative(p@)),
        number_percent(JsonNumber::PosInt(n)) is Some,
        number_percent(JsonNumber::NegInt(m)) is Some,
        number_percent(JsonNumber::Float(bits)) is Some <==> exponent(bits) < 2047,
        number_percent(JsonNumber::Float(bits)) matches Some(found) ==> found@ == bits,
{
    double_is_its_percentage(bits);
    whole_number_is_read_nearest(n as nat);
    if -0x0020_0000_0000_0000 < m < 0 {
        whole_number_is_read_nearest((-m) as nat);
        let a = -m as int;
        let u = one() as int;
        assert(-(a * u) == (-a) * u) by (nonlinear_arith);
    }
}

/// A percentage and a whole number are read under their keys, and only from
/// numbers.
pub proof fn number_is_read_under_its_key(
    members: Map<Seq<char>, Tree>,
    key: Seq<char>,
    number: JsonNumber,
    other: Tree,
)
    ensures
        members.contains_key(key) && members[key] == Tree::Number(number) ==> percent_member(
            Tree::Object(members),
            key,
        ) == number_percent(number),
        members.contains_key(key) && !(members[key] is Number) ==> percent_member(
            Tree::Object(members),
            key,
        ) is None && integer_member(Tree::Object(members), key) is None,
        !members.contains_key(key) ==> percent_member(Tree::Object(members), key) is None
            && integer_member(Tree::Object(members), key) is None,
        !(other is Object) ==> percent_member(other, key) is None && integer_member(other, key)
            is None,
{
}

} // verus!
