//! Whole numbers of any size in decimal, the doubles that they are read as, and
//! the shortest number that is read as a given double.

use vstd::prelude::*;
use vstd::string::*;
use vstd::arithmetic::power2::{lemma2_to64, lemma2_to64_rest, lemma_pow2_adds, lemma_pow2_pos, lemma_pow2_strictly_increases, lemma_pow2_unfold, pow2};
use vstd::arithmetic::div_mod::{lemma_fundamental_div_mod, lemma_fundamental_div_mod_converse};

use crate::text::{digit, digit_char, digits};

verus! {

// ---------------------------------------------------------------------------
// Numbers as digits
// ---------------------------------------------------------------------------

/// Numbers of more than 64 bits, as decimal digits from the lowest up.
pub open spec fn spelled(low_first: Seq<u8>) -> nat
    decreases low_first.len(),
{
    if low_first.len() == 0 {
        0
    } else {
        low_first[0] as nat + 10 * spelled(low_first.drop_first())
    }
}

/// Every entry is a digit and the highest is not zero.
pub open spec fn digits_only(low_first: Seq<u8>) -> bool {
    &&& low_first.len() > 0
    &&& forall|i: int| 0 <= i < low_first.len() ==> #[trigger] low_first[i] < 10
    &&& low_first.last() > 0
}

proof fn spelled_push(s: Seq<u8>, d: u8)
    ensures
        spelled(s.push(d)) == spelled(s) + d * ten_to(s.len()),
    decreases s.len(),
{
    let t = s.push(d);
    if s.len() == 0 {
        assert(t.drop_first() == Seq::<u8>::empty());
        assert(spelled(t.drop_first()) == 0);
        assert(d * ten_to(0) == d) by (nonlinear_arith)
            requires
                ten_to(0) == 1,
        ;
    } else {
        assert(t.drop_first() == s.drop_first().push(d));
        spelled_push(s.drop_first(), d);
        let p = ten_to((s.len() - 1) as nat);
        assert(10 * (d * p) == d * (10 * p)) by (nonlinear_arith);
    }
}

/// Ten to the power `k`.
pub open spec fn ten_to(k: nat) -> nat
    decreases k,
{
    if k == 0 {
        1
    } else {
        10 * ten_to((k - 1) as nat)
    }
}

/// Twice a number given by its digits.
fn double(low_first: &Vec<u8>) -> (twice: Vec<u8>)
    requires
        digits_only(low_first@),
        low_first.len() < usize::MAX,
    ensures
        digits_only(twice@),
        spelled(twice@) == 2 * spelled(low_first@),
        twice.len() <= low_first.len() + 1,
{
    let mut twice: Vec<u8> = Vec::new();
    let mut carry: u8 = 0;
    let mut i: usize = 0;
    let ghost all = low_first@;
    proof {
        assert(all.take(0) == Seq::<u8>::empty());
    }
    while i < low_first.len()
        invariant
            i <= low_first.len(),
            all == low_first@,
            digits_only(all),
            twice.len() == i,
            carry <= 1,
            forall|k: int| 0 <= k < i ==> #[trigger] twice@[k] < 10,
            spelled(twice@) + carry * ten_to(i as nat) == 2 * spelled(all.take(i as int)),
            i > 0 ==> 10 * carry + twice@[i - 1] >= 2 * all[i - 1],
        decreases low_first.len() - i,
    {
        let sum: u8 = low_first[i] * 2 + carry;
        let ghost old_carry = carry;
        let ghost before = twice@;
        let low: u8 = if sum >= 10 {
            sum - 10
        } else {
            sum
        };
        carry = if sum >= 10 {
            1
        } else {
            0
        };
        proof {
            spelled_push(before, low);
            assert(all.take(i as int + 1) == all.take(i as int).push(all[i as int]));
            spelled_push(all.take(i as int), all[i as int]);
            let p = ten_to(i as nat);
            let a = all[i as int] as nat;
            assert(ten_to((i + 1) as nat) == 10 * p);
            assert(low + 10 * carry == 2 * a + old_carry);
            assert(low * p + carry * (10 * p) == 2 * (a * p) + old_carry * p) by (nonlinear_arith)
                requires
                    low + 10 * carry == 2 * a + old_carry,
            ;
        }
        twice.push(low);
        i = i + 1;
    }
    proof {
        assert(all.take(all.len() as int) == all);
    }
    if carry > 0 {
        proof {
            spelled_push(twice@, 1);
            assert(1 * ten_to(i as nat) == ten_to(i as nat));
        }
        twice.push(1);
    } else {
        proof {
            assert(0 * ten_to(i as nat) == 0);
        }
    }
    twice
}

/// The digits of `n`, which is not zero, from the lowest up.
fn low_first_digits(n: u64) -> (low_first: Vec<u8>)
    requires
        n > 0,
    ensures
        digits_only(low_first@),
        spelled(low_first@) == n,
        low_first.len() <= 20,
{
    let mut low_first: Vec<u8> = Vec::new();
    let mut rest: u64 = n;
    let ghost mut weight: nat = 1;
    proof {
        assert(rest * 1 == rest);
    }
    while rest > 0
        invariant
            spelled(low_first@) + rest * weight == n,
            weight == ten_to(low_first@.len()),
            forall|k: int| 0 <= k < low_first.len() ==> #[trigger] low_first@[k] < 10,
            low_first.len() > 0 && rest == 0 ==> low_first@.last() > 0,
            low_first.len() == 0 ==> rest > 0,
            low_first.len() <= 20,
            low_first.len() == 20 ==> rest == 0,
            rest < bound_after(low_first.len() as nat),
        decreases rest,
    {
        let low: u8 = (rest % 10) as u8;
        proof {
            spelled_push(low_first@, low);
            let q = (rest / 10) as nat;
            let r = rest as nat;
            let w = weight;
            assert(r * w == low * w + q * (10 * w)) by (nonlinear_arith)
                requires
                    r == 10 * q + low,
            ;
            weight = 10 * weight;
            bound_after_steps(low_first.len() as nat, rest);
        }
        low_first.push(low);
        rest = rest / 10;
    }
    proof {
        assert(0 * weight == 0);
    }
    low_first
}

/// What is left of a 64-bit number after taking off `k` digits stays below
/// this.
pub open spec fn bound_after(k: nat) -> nat
    decreases k,
{
    if k == 0 {
        0x1_0000_0000_0000_0000
    } else {
        (bound_after((k - 1) as nat) + 9) as nat / 10
    }
}

proof fn bound_after_steps(k: nat, rest: u64)
    requires
        rest < bound_after(k),
        k < 20,
    ensures
        rest / 10 < bound_after(k + 1),
        k == 19 ==> rest / 10 == 0,
{
    if k == 19 {
        reveal_with_fuel(bound_after, 21);
        assert(bound_after(20) == 1);
    }
}

/// Digits given from the lowest up, written out.
fn spell(low_first: &Vec<u8>) -> (text: String)
    requires
        digits_only(low_first@),
    ensures
        text@ == digits(spelled(low_first@)),
{
    let mut text = String::new();
    let mut i: usize = low_first.len();
    proof {
        assert(low_first@.skip(i as int).len() == 0);
    }
    while i > 0
        invariant
            i <= low_first.len(),
            digits_only(low_first@),
            i == low_first.len() ==> text@ == Seq::<char>::empty(),
            i < low_first.len() ==> text@ == digits(spelled(low_first@.skip(i as int))),
            i < low_first.len() ==> spelled(low_first@.skip(i as int)) > 0,
        decreases i,
    {
        i = i - 1;
        let d = low_first[i];
        let ghost here = low_first@.skip(i as int);
        proof {
            assert(here.drop_first() == low_first@.skip(i as int + 1));
            assert(here[0] == d);
            if i as int + 1 == low_first.len() {
                assert(spelled(here.drop_first()) == 0);
                assert(spelled(here) == d);
                assert(text@.push(digit(d as nat)) == seq![digit(d as nat)]);
            } else {
                let n = spelled(here);
                let up = spelled(here.drop_first());
                assert(n == d + 10 * up);
                assert(n / 10 == up && n % 10 == d);
            }
        }
        text.push(digit_char(d));
    }
    proof {
        assert(low_first@.skip(0) == low_first@);
    }
    text
}

/// The digits of `m` doubled `k` times, from the lowest up.
fn shifted(m: u64, k: u32) -> (low_first: Vec<u8>)
    requires
        m > 0,
        k <= 2000,
    ensures
        digits_only(low_first@),
        spelled(low_first@) == m as nat * pow2(k as nat),
        low_first.len() <= 20 + k,
{
    let mut low_first = low_first_digits(m);
    let mut i: u32 = 0;
    proof {
        lemma2_to64();
        assert(m as nat * 1 == m);
    }
    while i < k
        invariant
            i <= k <= 2000,
            digits_only(low_first@),
            low_first.len() <= 20 + i,
            spelled(low_first@) == m as nat * pow2(i as nat),
        decreases k - i,
    {
        let twice = double(&low_first);
        proof {
            lemma_pow2_unfold((i + 1) as nat);
            let p = pow2(i as nat);
            assert(2 * (m as nat * p) == m as nat * (2 * p)) by (nonlinear_arith);
        }
        low_first = twice;
        i = i + 1;
    }
    low_first
}

// ---------------------------------------------------------------------------
// Reading as a double
// ---------------------------------------------------------------------------

/// How many low bits of `n` a mantissa has no room for.
pub open spec fn excess(n: nat) -> nat
    decreases n,
{
    if n < 0x0020_0000_0000_0000 {
        0
    } else {
        1 + excess(n / 2)
    }
}

/// The double nearest to the integer `n`; of two that are equally near, the
/// one with the even mantissa.
pub open spec fn as_double(n: nat) -> nat {
    let unit = pow2(excess(n));
    let low = n / unit;
    let rest = n % unit;
    if 2 * rest < unit || (2 * rest == unit && low % 2 == 0) {
        low * unit
    } else {
        (low + 1) * unit
    }
}

/// What the excess of a number says of its size.
proof fn excess_range(n: nat)
    ensures
        excess(n) == 0 ==> n < 0x0020_0000_0000_0000,
        excess(n) > 0 ==> pow2(52 + excess(n)) <= n,
        n < pow2(53 + excess(n)),
    decreases n,
{
    lemma2_to64_rest();
    if n >= 0x0020_0000_0000_0000 {
        excess_range(n / 2);
        let e = excess(n / 2);
        lemma_pow2_unfold(53 + e);
        lemma_pow2_unfold(54 + e);
    }
}

/// A number in the reach of a power of two has the excess that goes with it.
proof fn excess_is(n: nat, e: nat)
    requires
        pow2(52 + e) <= n < pow2(53 + e),
    ensures
        excess(n) == e,
{
    excess_range(n);
    lemma2_to64_rest();
    let f = excess(n);
    if f < e {
        if 53 + f < 52 + e {
            lemma_pow2_strictly_increases(53 + f, 52 + e);
        }
    } else if f > e {
        if 53 + e < 52 + f {
            lemma_pow2_strictly_increases(53 + e, 52 + f);
        }
    }
}

/// A number below a power of two is read as no more than that power.
proof fn double_below(n: nat, t: nat)
    requires
        n < pow2(52 + t),
    ensures
        as_double(n) <= pow2(52 + t),
{
    excess_range(n);
    let e = excess(n);
    lemma_pow2_pos(e);
    let unit = pow2(e) as int;
    lemma2_to64();
    lemma2_to64_rest();
    lemma_fundamental_div_mod(n as int, unit);
    let low = n as int / unit;
    if e == 0 {
        assert(unit == 1);
        lemma_fundamental_div_mod_converse(n as int, 1, n as int, 0);
        assert(low * unit == n);
    } else {
        if t <= e {
            if t < e {
                lemma_pow2_strictly_increases(52 + t, 52 + e);
            }
            assert(false);
        }
        lemma_pow2_adds(53, e);
        let top = 0x0020_0000_0000_0000int;
        assert(low < top) by (nonlinear_arith)
            requires
                n < top * unit,
                n == unit * low + n as int % unit,
                n as int % unit >= 0,
                unit > 0,
        ;
        assert((low + 1) * unit <= top * unit && low * unit <= top * unit) by (nonlinear_arith)
            requires
                low + 1 <= top,
                unit > 0,
        ;
        if 53 + e < 52 + t {
            lemma_pow2_strictly_increases(53 + e, 52 + t);
        }
    }
}

/// A number from a power of two up is read as that power or more.
proof fn double_above(n: nat, t: nat)
    requires
        pow2(53 + t) <= n,
    ensures
        as_double(n) >= pow2(53 + t),
{
    excess_range(n);
    let e = excess(n);
    lemma_pow2_pos(e);
    let unit = pow2(e) as int;
    lemma2_to64();
    lemma2_to64_rest();
    if e <= t {
        if e < t {
            lemma_pow2_strictly_increases(53 + e, 53 + t);
        }
        assert(false);
    }
    lemma_fundamental_div_mod(n as int, unit);
    let low = n as int / unit;
    lemma_pow2_adds(52, e);
    let leading = 0x0010_0000_0000_0000int;
    assert(low >= leading) by (nonlinear_arith)
        requires
            n >= leading * unit,
            n == unit * low + n as int % unit,
            n as int % unit < unit,
            unit > 0,
    ;
    assert((low + 1) * unit >= leading * unit && low * unit >= leading * unit) by (nonlinear_arith)
        requires
            low >= leading,
            unit > 0,
    ;
    if 53 + t < 52 + e {
        lemma_pow2_strictly_increases(53 + t, 52 + e);
    }
}

/// How far below a double, with mantissa `m` and unit two to the power `up`, a
/// number may be to be read as it.
spec fn room_below(m: nat, up: nat) -> int {
    if m == 0x0010_0000_0000_0000 {
        pow2(up) as int / 4
    } else {
        room_above(m, up)
    }
}

/// How far above it a number may be.
spec fn room_above(m: nat, up: nat) -> int {
    if m % 2 == 0 {
        pow2(up) as int / 2
    } else {
        pow2(up) as int / 2 - 1
    }
}

/// Whether `m` is a mantissa with its leading bit.
spec fn leads(m: nat) -> bool {
    0x0010_0000_0000_0000 <= m < 0x0020_0000_0000_0000
}

/// Where the numbers have the unit of the double.
proof fn read_within(m: nat, up: nat, v: nat)
    requires
        leads(m),
        up >= 1,
        pow2(52 + up) <= v < pow2(53 + up),
    ensures
        as_double(v) == m * pow2(up) <==> m * pow2(up) - room_above(m, up) <= v <= m * pow2(up)
            + room_above(m, up),
{
    excess_is(v, up);
    lemma_pow2_pos(up);
    lemma_pow2_unfold(up);
    let unit = pow2(up) as int;
    let half = pow2((up - 1) as nat) as int;
    lemma_fundamental_div_mod(v as int, unit);
    let low = v as int / unit;
    let rest = v as int % unit;
    let k = m as int;
    assert(unit == 2 * half);
    assert(unit * low == low * unit) by (nonlinear_arith);
    if low > k {
        assert(low * unit >= k * unit + unit && (low + 1) * unit > k * unit) by (nonlinear_arith)
            requires
                low >= k + 1,
                unit > 0,
        ;
    } else if low < k - 1 {
        assert(low * unit + 2 * unit <= k * unit && (low + 1) * unit < k * unit)
            by (nonlinear_arith)
            requires
                low <= k - 2,
                unit > 0,
        ;
    } else if low == k {
        assert((low + 1) * unit == low * unit + unit) by (nonlinear_arith);
    } else {
        assert(low * unit + unit == k * unit) by (nonlinear_arith)
            requires
                low == k - 1,
        ;
        assert((low + 1) * unit == k * unit);
    }
}

/// Where they have a smaller one: only the least mantissa is reached from
/// below, by the upper half of the last step.
proof fn read_below(m: nat, up: nat, v: nat)
    requires
        leads(m),
        up >= 1,
        v < pow2(52 + up),
    ensures
        as_double(v) == m * pow2(up) <==> m * pow2(up) - room_below(m, up) <= v,
{
    lemma_pow2_pos(up);
    lemma_pow2_unfold(up);
    lemma_pow2_pos((up - 1) as nat);
    lemma_pow2_adds(52, up);
    lemma2_to64();
    lemma2_to64_rest();
    let leading = 0x0010_0000_0000_0000int;
    let unit = pow2(up) as int;
    let half = pow2((up - 1) as nat) as int;
    let k = m as int;
    assert(unit == 2 * half);
    if k > leading {
        assert(k * unit >= leading * unit + unit) by (nonlinear_arith)
            requires
                k >= leading + 1,
                unit > 0,
        ;
        double_below(v, up);
    } else if up == 1 {
        double_below(v, 1);
        excess_range(v);
        assert(v < 0x0020_0000_0000_0000);
        assert(excess(v) == 0);
        lemma_fundamental_div_mod_converse(v as int, 1, v as int, 0);
        assert(as_double(v) == v * 1);
    } else {
        lemma_pow2_unfold((up - 1) as nat);
        let e = (up - 1) as nat;
        let quarter = pow2((up - 2) as nat) as int;
        assert(half == 2 * quarter);
        lemma_pow2_adds(52, e);
        assert(leading * unit == 2 * (leading * half)) by (nonlinear_arith)
            requires
                unit == 2 * half,
        ;
        assert(leading * half >= half) by (nonlinear_arith)
            requires
                leading >= 1,
                half > 0,
        ;
        if v < pow2(52 + e) {
            double_below(v, e);
            assert(v <= leading * unit - half);
        } else {
            excess_is(v, e);
            lemma_fundamental_div_mod(v as int, half);
            let low = v as int / half;
            let rest = v as int % half;
            assert(half * low == low * half) by (nonlinear_arith);
            let last = 2 * leading - 1;
            assert(low <= last) by (nonlinear_arith)
                requires
                    v < 2 * (leading * half),
                    v == low * half + rest,
                    rest >= 0,
                    half > 0,
                    last == 2 * leading - 1,
            ;
            if low < last {
                assert(low * half + 2 * half <= 2 * (leading * half) && (low + 1) * half < 2 * (
                leading * half)) by (nonlinear_arith)
                    requires
                        low + 2 <= 2 * leading,
                        half > 0,
                ;
            } else {
                assert(low * half + half == 2 * (leading * half) && (low + 1) * half == 2 * (
                leading * half)) by (nonlinear_arith)
                    requires
                        low + 1 == 2 * leading,
                ;
                assert(low % 2 == 1);
            }
        }
    }
}

/// The numbers that are read as a double are those around it.
proof fn read_around(m: nat, up: nat, v: nat)
    requires
        leads(m),
        up >= 1,
    ensures
        as_double(v) == m * pow2(up) <==> m * pow2(up) - room_below(m, up) <= v <= m * pow2(up)
            + room_above(m, up),
{
    lemma_pow2_pos(up);
    lemma_pow2_unfold(up);
    lemma_pow2_adds(52, up);
    lemma_pow2_adds(53, up);
    lemma2_to64();
    lemma2_to64_rest();
    let leading = 0x0010_0000_0000_0000int;
    let unit = pow2(up) as int;
    let k = m as int;
    assert(leading * unit <= k * unit && k * unit + unit <= 2 * leading * unit) by (nonlinear_arith)
        requires
            leading <= k,
            k + 1 <= 2 * leading,
            unit > 0,
    ;
    if v < pow2(52 + up) {
        read_below(m, up, v);
    } else if v < pow2(53 + up) {
        read_within(m, up, v);
    } else {
        double_above(v, up);
    }
}

// ---------------------------------------------------------------------------
// The shortest number that is read as a double
// ---------------------------------------------------------------------------

/// Whether `v` ends in `zeros` zeros and is read as the double `n`.
pub open spec fn reads_with(n: nat, v: nat, zeros: nat) -> bool {
    v % ten_to(zeros) == 0 && as_double(v) == n
}

/// Whether `v` is nearer to `n` than `w` is; of two equally near, the larger.
pub open spec fn nearer(n: nat, v: nat, w: nat) -> bool {
    let to_v = if v < n {
        n - v
    } else {
        v - n
    };
    let to_w = if w < n {
        n - w
    } else {
        w - n
    };
    to_v < to_w || (to_v == to_w && v >= w)
}

/// Whether `v` is the shortest number that is read as `n`: it ends in as many
/// zeros as such a number can, and of those with as many it is the nearest.
pub open spec fn is_shortest(n: nat, v: nat) -> bool {
    exists|zeros: nat| #[trigger]
        reads_with(n, v, zeros) && (forall|w: nat, more: nat|
            more > zeros ==> !#[trigger] reads_with(n, w, more)) && (forall|w: nat| #[trigger]
            reads_with(n, w, zeros) ==> nearer(n, v, w))
}

/// The shortest number that is read as `n`.
pub open spec fn shortest(n: nat) -> nat {
    choose|v: nat| is_shortest(n, v)
}

/// There is no more than one.
proof fn shortest_is_one(n: nat, v: nat, w: nat)
    requires
        is_shortest(n, v),
        is_shortest(n, w),
    ensures
        v == w,
{
    let a = choose|zeros: nat| #[trigger]
        reads_with(n, v, zeros) && (forall|w: nat, more: nat|
            more > zeros ==> !#[trigger] reads_with(n, w, more)) && (forall|w: nat| #[trigger]
            reads_with(n, w, zeros) ==> nearer(n, v, w));
    let b = choose|zeros: nat| #[trigger]
        reads_with(n, w, zeros) && (forall|x: nat, more: nat|
            more > zeros ==> !#[trigger] reads_with(n, x, more)) && (forall|x: nat| #[trigger]
            reads_with(n, x, zeros) ==> nearer(n, w, x));
    assert(a == b);
    assert(nearer(n, v, w) && nearer(n, w, v));
}

proof fn ten_to_grows(a: nat, b: nat)
    requires
        a <= b,
    ensures
        0 < ten_to(a) <= ten_to(b),
        ten_to(b) % ten_to(a) == 0,
    decreases b,
{
    if a == b {
        ten_to_pos(a);
        lemma_fundamental_div_mod_converse(ten_to(a) as int, ten_to(a) as int, 1, 0);
    } else {
        ten_to_grows(a, (b - 1) as nat);
        let p = ten_to(a) as int;
        let q = ten_to((b - 1) as nat) as int;
        lemma_fundamental_div_mod(q, p);
        let t = q / p;
        assert(10 * q == (10 * t) * p) by (nonlinear_arith)
            requires
                q == p * t,
        ;
        lemma_fundamental_div_mod_converse(10 * q, p, 10 * t, 0);
    }
}

proof fn ten_to_pos(k: nat)
    ensures
        ten_to(k) > 0,
    decreases k,
{
    if k > 0 {
        ten_to_pos((k - 1) as nat);
    }
}

/// Whether every entry is a digit.
spec fn all_digits(low_first: Seq<u8>) -> bool {
    forall|i: int| 0 <= i < low_first.len() ==> #[trigger] low_first[i] < 10
}

/// `k` digits spell a number below ten to the power `k`.
proof fn spelled_below(s: Seq<u8>)
    requires
        all_digits(s),
    ensures
        spelled(s) < ten_to(s.len()),
    decreases s.len(),
{
    if s.len() > 0 {
        spelled_below(s.drop_first());
    }
}

/// Cutting digits in two is dividing by a power of ten.
proof fn spelled_cut(s: Seq<u8>, k: nat)
    requires
        all_digits(s),
        k <= s.len(),
    ensures
        spelled(s) == spelled(s.take(k as int)) + ten_to(k) * spelled(s.skip(k as int)),
        spelled(s.take(k as int)) < ten_to(k),
    decreases k,
{
    spelled_below(s.take(k as int));
    if k == 0 {
        assert(s.skip(0) == s);
        assert(s.take(0) == Seq::<u8>::empty());
    } else {
        let t = s.drop_first();
        spelled_cut(t, (k - 1) as nat);
        assert(s.take(k as int).drop_first() == t.take(k - 1));
        assert(s.skip(k as int) == t.skip(k - 1));
        let p = ten_to((k - 1) as nat);
        let x = spelled(s.skip(k as int));
        assert(10 * (p * x) == (10 * p) * x) by (nonlinear_arith);
    }
}

/// Whether the number that `a` spells is no more than the one that `b` spells.
fn at_most(a: &Vec<u8>, b: &Vec<u8>) -> (r: bool)
    requires
        all_digits(a@),
        all_digits(b@),
    ensures
        r == (spelled(a@) <= spelled(b@)),
{
    let mut r = true;
    let mut i: usize = 0;
    let len = if a.len() > b.len() {
        a.len()
    } else {
        b.len()
    };
    proof {
        padded_start(a@);
        padded_start(b@);
    }
    while i < len
        invariant
            i <= len,
            len >= a.len(),
            len >= b.len(),
            len == a.len() || len == b.len(),
            all_digits(a@),
            all_digits(b@),
            r == (spelled(padded(a@, i as nat)) <= spelled(padded(b@, i as nat))),
        decreases len - i,
    {
        let x: u8 = if i < a.len() {
            a[i]
        } else {
            0
        };
        let y: u8 = if i < b.len() {
            b[i]
        } else {
            0
        };
        proof {
            let p = padded(a@, i as nat);
            let q = padded(b@, i as nat);
            assert(padded(a@, (i + 1) as nat) =~= p.push(x));
            assert(padded(b@, (i + 1) as nat) =~= q.push(y));
            spelled_push(p, x);
            spelled_push(q, y);
            spelled_below(p);
            spelled_below(q);
            let t = ten_to(i as nat) as int;
            let (dx, dy) = (x as int, y as int);
            if dx < dy {
                assert(dx * t + t <= dy * t) by (nonlinear_arith)
                    requires
                        dx + 1 <= dy,
                        t >= 0,
                ;
            } else if dx > dy {
                assert(dy * t + t <= dx * t) by (nonlinear_arith)
                    requires
                        dy + 1 <= dx,
                        t >= 0,
                ;
            }
        }
        if x < y {
            r = true;
        } else if x > y {
            r = false;
        }
        i = i + 1;
    }
    proof {
        padded_whole(a@, len as nat);
        padded_whole(b@, len as nat);
    }
    r
}

/// The lowest `len` digits, with zeros where there are none.
spec fn padded(s: Seq<u8>, len: nat) -> Seq<u8> {
    Seq::new(
        len,
        |i: int|
            if i < s.len() {
                s[i]
            } else {
                0u8
            },
    )
}

proof fn padded_start(s: Seq<u8>)
    ensures
        spelled(padded(s, 0)) == 0,
{
}

proof fn padded_whole(s: Seq<u8>, len: nat)
    requires
        len >= s.len(),
    ensures
        spelled(padded(s, len)) == spelled(s),
    decreases len,
{
    if len == s.len() {
        assert(padded(s, len) =~= s);
    } else {
        padded_whole(s, (len - 1) as nat);
        let shorter = padded(s, (len - 1) as nat);
        assert(padded(s, len) =~= shorter.push(0));
        spelled_push(shorter, 0);
        assert(0 * ten_to((len - 1) as nat) == 0);
    }
}

/// The lowest `k` digits, or what is missing from each of them to nine.
fn lowest(n: &Vec<u8>, k: usize, to_nines: bool) -> (low: Vec<u8>)
    requires
        all_digits(n@),
        k <= n.len(),
    ensures
        all_digits(low@),
        to_nines ==> spelled(low@) + spelled(n@.take(k as int)) + 1 == ten_to(k as nat),
        !to_nines ==> spelled(low@) == spelled(n@.take(k as int)),
{
    let mut low: Vec<u8> = Vec::new();
    let mut i: usize = 0;
    proof {
        assert(n@.take(0) == Seq::<u8>::empty());
    }
    while i < k
        invariant
            i <= k <= n.len(),
            all_digits(n@),
            all_digits(low@),
            low.len() == i,
            to_nines ==> spelled(low@) + spelled(n@.take(i as int)) + 1 == ten_to(i as nat),
            !to_nines ==> spelled(low@) == spelled(n@.take(i as int)),
        decreases k - i,
    {
        let d: u8 = n[i];
        let e: u8 = if to_nines {
            9 - d
        } else {
            d
        };
        proof {
            spelled_push(low@, e);
            assert(n@.take(i as int + 1) == n@.take(i as int).push(d));
            spelled_push(n@.take(i as int), d);
            let t = ten_to(i as nat) as int;
            let (x, y) = (d as int, e as int);
            assert(ten_to((i + 1) as nat) == 10 * t);
            if to_nines {
                assert(x * t + y * t == 9 * t) by (nonlinear_arith)
                    requires
                        x + y == 9,
                ;
            }
        }
        low.push(e);
        i = i + 1;
    }
    low
}

/// `n` with its lowest `k` digits replaced by zeros, and one added to those
/// that are kept where `up` says so.
fn cut(n: &Vec<u8>, k: usize, up: bool) -> (out: Vec<u8>)
    requires
        digits_only(n@),
        k <= n.len(),
        k < n.len() || up,
    ensures
        digits_only(out@),
        spelled(out@) + spelled(n@.take(k as int)) == spelled(n@) + (if up {
            ten_to(k as nat)
        } else {
            0
        }),
{
    let mut out: Vec<u8> = Vec::new();
    let mut i: usize = 0;
    while i < k
        invariant
            i <= k,
            out.len() == i,
            all_digits(out@),
            spelled(out@) == 0,
        decreases k - i,
    {
        proof {
            spelled_push(out@, 0);
            assert(0 * ten_to(i as nat) == 0);
        }
        out.push(0);
        i = i + 1;
    }
    let mut carry: u8 = if up {
        1
    } else {
        0
    };
    let ghost low = spelled(n@.take(k as int)) as int;
    let ghost more: int = if up {
        ten_to(k as nat) as int
    } else {
        0
    };
    proof {
        assert(carry * ten_to(k as nat) == more) by {
            assert(1 * ten_to(k as nat) == ten_to(k as nat));
            assert(0 * ten_to(k as nat) == 0);
        }
    }
    while i < n.len()
        invariant
            k <= i <= n.len(),
            digits_only(n@),
            out.len() == i,
            all_digits(out@),
            carry <= 1,
            spelled(out@) + carry * ten_to(i as nat) + low == spelled(n@.take(i as int)) + more,
            i > k ==> 10 * carry + out@[i - 1] >= n@[i - 1],
            i == k && !up ==> carry == 0,
            i == k && up ==> carry == 1,
        decreases n.len() - i,
    {
        let sum: u8 = n[i] + carry;
        let ghost old_carry = carry;
        let d: u8 = if sum >= 10 {
            sum - 10
        } else {
            sum
        };
        carry = if sum >= 10 {
            1
        } else {
            0
        };
        proof {
            let a = n@[i as int];
            spelled_push(out@, d);
            assert(n@.take(i as int + 1) == n@.take(i as int).push(a));
            spelled_push(n@.take(i as int), a);
            let t = ten_to(i as nat) as int;
            let (x, y, c, b) = (a as int, d as int, carry as int, old_carry as int);
            assert(ten_to((i + 1) as nat) == 10 * t);
            assert(y * t + c * (10 * t) == x * t + b * t) by (nonlinear_arith)
                requires
                    y + 10 * c == x + b,
            ;
        }
        out.push(d);
        i = i + 1;
    }
    proof {
        assert(n@.take(n.len() as int) == n@);
    }
    if carry > 0 {
        proof {
            spelled_push(out@, 1);
            assert(1 * ten_to(i as nat) == ten_to(i as nat));
        }
        out.push(1);
    } else {
        proof {
            assert(0 * ten_to(i as nat) == 0);
        }
    }
    out
}

/// A power of two does not end in a zero.
proof fn power_ends(k: nat)
    ensures
        pow2(k) % 10 != 0,
        pow2(k) % 10 == 1 || pow2(k) % 10 % 2 == 0,
    decreases k,
{
    lemma2_to64();
    if k > 0 {
        power_ends((k - 1) as nat);
        lemma_pow2_unfold(k);
    }
}

/// The digits of two to the power `k`, less one where `odd` says so.
fn half_step(k: u32, odd: bool) -> (room: Vec<u8>)
    requires
        k <= 2000,
    ensures
        all_digits(room@),
        spelled(room@) == pow2(k as nat) - (if odd {
            1int
        } else {
            0
        }),
{
    let mut room = shifted(1, k);
    proof {
        assert(1 * pow2(k as nat) == pow2(k as nat));
        power_ends(k as nat);
        let all = room@;
        assert(spelled(all) % 10 == all[0]);
    }
    if odd {
        let ghost before = room@;
        let d: u8 = room[0] - 1;
        room.set(0, d);
        proof {
            assert(room@.drop_first() == before.drop_first());
        }
    }
    room
}

/// A number that ends in `zeros` zeros is at or below the cut number, or a
/// whole step above it.
proof fn steps_around(n: nat, w: nat, zeros: nat)
    requires
        w % ten_to(zeros) == 0,
    ensures
        w <= n - n % ten_to(zeros) || w >= n - n % ten_to(zeros) + ten_to(zeros),
{
    ten_to_pos(zeros);
    let t = ten_to(zeros) as int;
    lemma_fundamental_div_mod(w as int, t);
    lemma_fundamental_div_mod(n as int, t);
    let (p, q) = (n as int / t, w as int / t);
    if q <= p {
        assert(t * q <= t * p) by (nonlinear_arith)
            requires
                q <= p,
                t > 0,
        ;
    } else {
        assert(t * q >= t * p + t) by (nonlinear_arith)
            requires
                q >= p + 1,
                t > 0,
        ;
    }
}

/// What the cut digits are, as a remainder.
proof fn cut_is_remainder(s: Seq<u8>, k: nat)
    requires
        all_digits(s),
        k <= s.len(),
    ensures
        spelled(s.take(k as int)) == spelled(s) % ten_to(k),
        (spelled(s) - spelled(s.take(k as int))) % (ten_to(k) as int) == 0,
        (spelled(s) - spelled(s.take(k as int)) + ten_to(k)) % (ten_to(k) as int) == 0,
{
    spelled_cut(s, k);
    let t = ten_to(k) as int;
    let x = spelled(s.skip(k as int)) as int;
    assert(t * x == x * t && (x + 1) * t == t * x + t) by (nonlinear_arith);
    lemma_fundamental_div_mod_converse(
        spelled(s) as int,
        t,
        x,
        spelled(s.take(k as int)) as int,
    );
    lemma_fundamental_div_mod_converse(t * x, t, x, 0);
    lemma_fundamental_div_mod_converse(t * x + t, t, x + 1, 0);
}

/// Whether a number that ends in `zeros` zeros is near enough below or above.
spec fn reached(m: nat, up: nat, zeros: nat) -> bool {
    let n = m * pow2(up);
    let low = n % ten_to(zeros);
    low <= room_below(m, up) || ten_to(zeros) - low <= room_above(m, up)
}

proof fn reached_by_reading(m: nat, up: nat, w: nat, zeros: nat)
    requires
        leads(m),
        up >= 1,
        reads_with(m * pow2(up), w, zeros),
    ensures
        reached(m, up, zeros),
{
    read_around(m, up, w);
    steps_around(m * pow2(up), w, zeros);
}

/// Beyond its own length a double is not near any such number.
proof fn too_many_zeros(m: nat, up: nat, len: nat, zeros: nat)
    requires
        leads(m),
        up >= 1,
        m * pow2(up) < ten_to(len),
        zeros > len,
    ensures
        !reached(m, up, zeros),
{
    let n = m * pow2(up);
    lemma_pow2_pos(up);
    let unit = pow2(up) as int;
    let k = m as int;
    assert(k * unit >= 2 * unit) by (nonlinear_arith)
        requires
            k >= 2,
            unit > 0,
    ;
    ten_to_grows(len + 1, zeros);
    lemma_fundamental_div_mod_converse(n as int, ten_to(zeros) as int, 0, n as int);
}

/// The upper of the two numbers around `n` is the nearer one, or as near,
/// exactly where the first of the cut digits is a five or more.
proof fn first_cut_digit(s: Seq<u8>, k: nat)
    requires
        all_digits(s),
        0 < k <= s.len(),
    ensures
        s[k - 1] >= 5 <==> 2 * spelled(s.take(k as int)) >= ten_to(k),
{
    let t = s.take(k as int);
    let u = s.take(k - 1);
    assert(t == u.push(s[k - 1]));
    spelled_push(u, s[k - 1]);
    spelled_below(u);
    let p = ten_to((k - 1) as nat) as int;
    let d = s[k - 1] as int;
    if d >= 5 {
        assert(d * p >= 5 * p) by (nonlinear_arith)
            requires
                d >= 5,
                p >= 0,
        ;
    } else {
        assert(d * p <= 4 * p) by (nonlinear_arith)
            requires
                d <= 4,
                p >= 0,
        ;
    }
}

/// The number to the side that is taken is the shortest.
proof fn taken_is_shortest(m: nat, up: nat, zeros: nat, v: nat)
    requires
        leads(m),
        up >= 1,
        forall|more: nat| more > zeros ==> !#[trigger] reached(m, up, more),
        ({
            let n = m * pow2(up);
            let low = n % ten_to(zeros);
            let step = ten_to(zeros);
            let down_fits = low <= room_below(m, up);
            let up_fits = step - low <= room_above(m, up);
            v % step == 0 && if up_fits && (!down_fits || 2 * low >= step) {
                v == n - low + step
            } else {
                down_fits && v == n - low
            }
        }),
    ensures
        is_shortest(m * pow2(up), v),
{
    let n = m * pow2(up);
    let low = n % ten_to(zeros);
    ten_to_pos(zeros);
    lemma_fundamental_div_mod(n as int, ten_to(zeros) as int);
    lemma_pow2_pos(up);
    lemma_pow2_unfold(up);
    read_around(m, up, v);
    assert(reads_with(n, v, zeros));
    assert forall|w: nat, more: nat| more > zeros implies !#[trigger] reads_with(n, w, more) by {
        if reads_with(n, w, more) {
            reached_by_reading(m, up, w, more);
        }
    }
    assert forall|w: nat| #[trigger] reads_with(n, w, zeros) implies nearer(n, v, w) by {
        read_around(m, up, w);
        steps_around(n, w, zeros);
    }
}

/// The shortest number that is read as the double with mantissa `m` and unit
/// two to the power `up`.
pub fn shortest_text(m: u64, up: u32) -> (text: String)
    requires
        0x0010_0000_0000_0000 <= m < 0x0020_0000_0000_0000,
        1 <= up <= 1000,
    ensures
        text@ == digits(shortest(m as nat * pow2(up as nat))),
{
    let odd = m % 2 == 1;
    let n = shifted(m, up);
    let above = half_step(up - 1, odd);
    let below = if m == 0x0010_0000_0000_0000 {
        if up >= 2 {
            half_step(up - 2, false)
        } else {
            Vec::new()
        }
    } else {
        half_step(up - 1, odd)
    };
    let ghost double = m as nat * pow2(up as nat);
    proof {
        lemma_pow2_unfold(up as nat);
        lemma2_to64();
        if up >= 2 {
            lemma_pow2_unfold((up - 1) as nat);
        }
        assert(spelled(above@) == room_above(m as nat, up as nat));
        assert(spelled(below@) == room_below(m as nat, up as nat));
        spelled_below(n@);
    }
    let mut zeros: usize = n.len();
    proof {
        assert forall|more: nat| more > zeros implies !#[trigger] reached(
            m as nat,
            up as nat,
            more,
        ) by {
            too_many_zeros(m as nat, up as nat, n.len() as nat, more);
        }
    }
    loop
        invariant
            zeros <= n.len(),
            leads(m as nat),
            1 <= up <= 1000,
            digits_only(n@),
            all_digits(above@),
            all_digits(below@),
            double == m as nat * pow2(up as nat),
            spelled(n@) == double,
            spelled(above@) == room_above(m as nat, up as nat),
            spelled(below@) == room_below(m as nat, up as nat),
            forall|more: nat| more > zeros ==> !#[trigger] reached(m as nat, up as nat, more),
        decreases zeros,
    {
        let low = lowest(&n, zeros, false);
        let rest = lowest(&n, zeros, true);
        let down_fits = at_most(&low, &below);
        let up_fits = !at_most(&above, &rest);
        proof {
            cut_is_remainder(n@, zeros as nat);
        }
        if down_fits || up_fits {
            let five = zeros > 0 && n[zeros - 1] >= 5;
            proof {
                if zeros > 0 {
                    first_cut_digit(n@, zeros as nat);
                } else {
                    assert(n@.take(0) == Seq::<u8>::empty());
                }
                assert(n@.take(n.len() as int) == n@);
                room_is_small(m as nat, up as nat);
            }
            let out = cut(&n, zeros, up_fits && (!down_fits || five));
            proof {
                taken_is_shortest(m as nat, up as nat, zeros as nat, spelled(out@));
                shortest_is_one(double, spelled(out@), shortest(double));
            }
            return spell(&out);
        }
        proof {
            assert(!reached(m as nat, up as nat, zeros as nat));
            if zeros == 0 {
                assert(n@.take(0) == Seq::<u8>::empty());
            }
        }
        zeros = zeros - 1;
    }
}

/// A double is larger than the room around it.
proof fn room_is_small(m: nat, up: nat)
    requires
        leads(m),
    ensures
        room_below(m, up) < m * pow2(up),
{
    lemma_pow2_pos(up);
    let unit = pow2(up) as int;
    let k = m as int;
    assert(k * unit >= 2 * unit) by (nonlinear_arith)
        requires
            k >= 2,
            unit > 0,
    ;
}

} // verus!
