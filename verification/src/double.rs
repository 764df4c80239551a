//! Double-precision numbers (IEEE 754 binary64), held and computed by their bits.
use crate::text;
use vstd::arithmetic::div_mod::*;
use vstd::arithmetic::mul::*;
use vstd::arithmetic::power2::*;
use vstd::prelude::*;
use vstd::string::*;

verus! {

/// The weight of the lowest exponent bit: two to the power of 52.
pub const BINADE: u64 = 0x10_0000_0000_0000;

/// The weight of the sign bit: two to the power of 63.
pub const SIGN: u64 = 0x8000_0000_0000_0000;

/// The bits of positive infinity. Larger ones without the sign are no number.
pub const INFINITY: u64 = 0x7FF0_0000_0000_0000;

/// The bits of one hundred.
pub const HUNDRED: u64 = 0x4059_0000_0000_0000;

/// A double-precision number by its bits.
#[derive(Clone, Copy, Debug)]
pub struct Double {
    pub bits: u64,
}

/// The value of a positive number by its bits, counted in units of the smallest positive number,
/// which is two to the power of -1074. Infinity counts as what would follow the largest number.
pub open spec fn units(magnitude: nat) -> nat {
    let exponent = magnitude / (BINADE as nat);
    let fraction = magnitude % (BINADE as nat);
    if exponent == 0 {
        fraction
    } else {
        (BINADE as nat + fraction) * pow2((exponent - 1) as nat)
    }
}

impl Double {
    /// Whether the sign bit is set.
    pub open spec fn negative(self) -> bool {
        self.bits >= SIGN
    }

    /// The bits without the sign.
    pub open spec fn magnitude(self) -> nat {
        (self.bits % SIGN) as nat
    }

    /// Whether the bits stand for no number.
    pub open spec fn is_nan(self) -> bool {
        self.magnitude() > INFINITY
    }

    /// The value, counted in units of the smallest positive number.
    pub open spec fn value(self) -> int {
        if self.negative() {
            -(units(self.magnitude()) as int)
        } else {
            units(self.magnitude()) as int
        }
    }

    /// The value without its sign.
    pub open spec fn size(self) -> nat {
        units(self.magnitude())
    }

    /// Whether both are numbers and the first is the greater one.
    pub open spec fn above(self, other: Double) -> bool {
        !self.is_nan() && !other.is_nan() && self.value() > other.value()
    }
}

/// A quotient rounded to the nearest integer, halves to the even one.
pub open spec fn div_even(n: nat, d: nat) -> nat {
    if 2 * (n % d) < d || (2 * (n % d) == d && (n / d) % 2 == 0) {
        n / d
    } else {
        n / d + 1
    }
}

/// Whether the numbers around `n / d` units lie two to the power of `y` units apart: it has 53
/// binary digits above that, or there is nothing finer.
pub open spec fn in_binade(n: nat, d: nat, y: nat) -> bool {
    n < d * pow2(53 + y) && (y == 0 || d * pow2(52 + y) <= n)
}

/// The bits of the number nearest to `n / d` units, the even one of two that are equally near.
/// For quotients below the largest number.
pub open spec fn rounded(n: nat, d: nat) -> nat {
    let y = choose|y: nat| in_binade(n, d, y);
    y * (BINADE as nat) + div_even(n, d * pow2(y))
}

/// A number by its sign and the rest of its bits.
pub open spec fn signed(negative: bool, magnitude: nat) -> Double {
    Double { bits: (if negative { SIGN + magnitude } else { magnitude as int }) as u64 }
}

/// The number nearest to an integer.
pub open spec fn nearest(n: nat) -> Double {
    signed(false, rounded(n * pow2(1074), 1))
}

/// The number nearest to a difference.
pub open spec fn difference(a: Double, b: Double) -> Double {
    let exact = a.value() - b.value();
    signed(exact < 0, rounded((if exact < 0 { -exact } else { exact }) as nat, 1))
}

/// The number nearest to a quotient.
pub open spec fn quotient(a: Double, b: Double) -> Double {
    signed(a.negative() != b.negative(), rounded(a.size() * pow2(1074), b.size()))
}

/// The number nearest to a product.
pub open spec fn product(a: Double, b: Double) -> Double {
    signed(a.negative() != b.negative(), rounded(a.size() * b.size(), pow2(1074)))
}

// ── Order ──────────────────────────────────────────────────────────────────

/// The next bits stand for a greater value.
proof fn lemma_units_step(m: nat)
    ensures
        units(m) < units(m + 1),
{
    let (exponent, fraction) = (m / (BINADE as nat), m % (BINADE as nat));
    if fraction + 1 < BINADE {
        assert((m + 1) / (BINADE as nat) == exponent);
        assert((m + 1) % (BINADE as nat) == fraction + 1);
        if exponent > 0 {
            let p = pow2((exponent - 1) as nat);
            lemma_pow2_pos((exponent - 1) as nat);
            lemma_mul_strict_inequality(
                (BINADE + fraction) as int,
                (BINADE + fraction + 1) as int,
                p as int,
            );
        }
    } else {
        assert((m + 1) / (BINADE as nat) == exponent + 1);
        assert((m + 1) % (BINADE as nat) == 0);
        if exponent > 0 {
            let p = pow2((exponent - 1) as nat);
            lemma_pow2_pos((exponent - 1) as nat);
            lemma_pow2_unfold(exponent);
            assert(BINADE * (2 * p) == (2 * BINADE) * p) by (nonlinear_arith);
            lemma_mul_strict_inequality(
                (BINADE + fraction) as int,
                (2 * BINADE) as int,
                p as int,
            );
            assert(units(m + 1) == BINADE * pow2(exponent));
            assert(BINADE * pow2(exponent) == BINADE * (2 * p));
        } else {
            lemma2_to64();
            assert(units(m + 1) == BINADE * pow2(0));
            lemma_mul_basics(BINADE as int);
        }
    }
}

/// Greater bits stand for a greater value.
pub(crate) proof fn lemma_units_increase(a: nat, b: nat)
    requires
        a < b,
    ensures
        units(a) < units(b),
    decreases b - a,
{
    lemma_units_step((b - 1) as nat);
    if a < b - 1 {
        lemma_units_increase(a, (b - 1) as nat);
    }
}

/// Only zero bits have the value zero.
pub(crate) proof fn lemma_units_zero(m: nat)
    ensures
        units(m) == 0 <==> m == 0,
{
    if m > 0 {
        lemma_units_increase(0, m);
    }
}

impl Double {
    /// Whether both are numbers and the first is the greater one.
    pub fn is_above(self, other: Double) -> (r: bool)
        ensures
            r == self.above(other),
    {
        let (a, b): (u64, u64) = (self.bits % SIGN, other.bits % SIGN);
        proof {
            lemma_units_zero(a as nat);
            lemma_units_zero(b as nat);
            if a < b {
                lemma_units_increase(a as nat, b as nat);
            }
            if b < a {
                lemma_units_increase(b as nat, a as nat);
            }
        }
        if a > INFINITY || b > INFINITY {
            false
        } else if self.bits >= SIGN {
            other.bits >= SIGN && a < b
        } else if other.bits >= SIGN {
            a > 0 || b > 0
        } else {
            a > b
        }
    }
}

// ── Rounding ───────────────────────────────────────────────────────────────

/// A common factor does not change a rounded quotient.
pub(crate) proof fn lemma_div_even_scale(n: nat, d: nat, j: nat)
    requires
        d > 0,
        j > 0,
    ensures
        div_even(n * j, d * j) == div_even(n, d),
{
    let (q, r) = (n / d, n % d);
    lemma_fundamental_div_mod(n as int, d as int);
    lemma_mod_bound(n as int, d as int);
    assert(n * j == q * (d * j) + r * j) by (nonlinear_arith)
        requires
            n == d * q + r,
    ;
    assert(0 <= r * j < d * j) by (nonlinear_arith)
        requires
            0 <= r < d,
            j > 0,
    ;
    lemma_fundamental_div_mod_converse((n * j) as int, (d * j) as int, q as int, (r * j) as int);
    assert(2 * (r * j) < d * j <==> 2 * r < d) by (nonlinear_arith)
        requires
            j > 0,
    ;
    assert(2 * (r * j) == d * j <==> 2 * r == d) by (nonlinear_arith)
        requires
            j > 0,
    ;
}

/// A common factor does not change the binade.
proof fn lemma_binade_scale(n: nat, d: nat, j: nat, y: nat)
    requires
        j > 0,
    ensures
        in_binade(n * j, d * j, y) == in_binade(n, d, y),
{
    let (low, high) = (pow2(52 + y), pow2(53 + y));
    assert((d * j) * high == (d * high) * j) by (nonlinear_arith);
    assert((d * j) * low == (d * low) * j) by (nonlinear_arith);
    assert(n * j < (d * high) * j <==> n < d * high) by (nonlinear_arith)
        requires
            j > 0,
    ;
    assert((d * low) * j <= n * j <==> d * low <= n) by (nonlinear_arith)
        requires
            j > 0,
    ;
}

/// A quotient lies in one binade only.
pub(crate) proof fn lemma_binade_unique(n: nat, d: nat, x: nat, y: nat)
    requires
        d > 0,
        in_binade(n, d, x),
        in_binade(n, d, y),
    ensures
        x == y,
{
    if x != y {
        let (low, high) = if x < y {
            (x, y)
        } else {
            (y, x)
        };
        if 53 + low < 52 + high {
            lemma_pow2_strictly_increases(53 + low, 52 + high);
        }
        lemma_mul_inequality(pow2(53 + low) as int, pow2(52 + high) as int, d as int);
        lemma_mul_is_commutative(pow2(53 + low) as int, d as int);
        lemma_mul_is_commutative(pow2(52 + high) as int, d as int);
    }
}

/// The bits of a rounded quotient, where its binade is known.
pub(crate) proof fn lemma_rounded(n: nat, d: nat, y: nat)
    requires
        d > 0,
        in_binade(n, d, y),
    ensures
        rounded(n, d) == y * (BINADE as nat) + div_even(n, d * pow2(y)),
{
    let x = choose|x: nat| in_binade(n, d, x);
    lemma_binade_unique(n, d, x, y);
}

/// A common factor does not change the number that a quotient is rounded to.
pub(crate) proof fn lemma_rounded_scale(n: nat, d: nat, j: nat, y: nat)
    requires
        d > 0,
        j > 0,
        in_binade(n, d, y),
    ensures
        rounded(n * j, d * j) == rounded(n, d),
{
    lemma_binade_scale(n, d, j, y);
    lemma_mul_strictly_positive(d as int, j as int);
    lemma_rounded(n * j, d * j, y);
    lemma_rounded(n, d, y);
    lemma_pow2_pos(y);
    lemma_mul_strictly_positive(d as int, pow2(y) as int);
    lemma_div_even_scale(n, d * pow2(y), j);
    assert((d * j) * pow2(y) == (d * pow2(y)) * j) by (nonlinear_arith);
}

/// Nothing is rounded to nothing.
pub(crate) proof fn lemma_rounded_zero(d: nat)
    requires
        d > 0,
    ensures
        rounded(0, d) == 0,
{
    lemma2_to64();
    lemma_pow2_pos(53);
    lemma_mul_strictly_positive(d as int, pow2(53) as int);
    assert(in_binade(0, d, 0));
    lemma_rounded(0, d, 0);
    lemma_mul_basics(d as int);
    lemma_small_mod(0, d);
    lemma_div_of0(d as int);
}

/// The value of the bits that rounding makes.
pub(crate) proof fn lemma_units_of(y: nat, m: nat)
    requires
        BINADE <= m <= 2 * BINADE,
    ensures
        units(y * (BINADE as nat) + m) == m * pow2(y),
{
    let bits = y * (BINADE as nat) + m;
    if m < 2 * BINADE {
        assert(bits / (BINADE as nat) == y + 1);
        assert(bits % (BINADE as nat) == m - BINADE);
    } else {
        assert(bits / (BINADE as nat) == y + 2);
        assert(bits % (BINADE as nat) == 0);
        lemma_pow2_unfold(y + 1);
        assert(BINADE * (2 * pow2(y)) == (2 * BINADE) * pow2(y)) by (nonlinear_arith);
    }
}

/// A number as a whole number of steps, each two to the power of `y` units.
#[derive(Clone, Copy)]
struct Steps {
    m: u64,
    y: u32,
}

impl Steps {
    /// Whether the steps are the finest at this size.
    spec fn wf(self) -> bool {
        BINADE <= self.m <= 2 * BINADE
    }

    /// The bits of the number.
    spec fn bits(self) -> nat {
        (self.y as nat) * (BINADE as nat) + self.m as nat
    }

    /// The value of the number.
    spec fn size(self) -> nat {
        self.m as nat * pow2(self.y as nat)
    }
}

/// Rounds a quotient of at least half to the nearest integer, halves to the even one.
fn divide_even(n: u128, d: u128) -> (q: u128)
    requires
        0 < d < 0x4000_0000_0000_0000_0000_0000_0000_0000,
    ensures
        q == div_even(n as nat, d as nat),
{
    let (q, r): (u128, u128) = (n / d, n % d);
    proof {
        lemma_mod_bound(n as int, d as int);
    }
    if 2 * r < d || (2 * r == d && q % 2 == 0) {
        q
    } else {
        proof {
            lemma_div_nonincreasing(n as int, d as int);
            if n == 0 {
                lemma_small_mod(0, d as nat);
            } else if d == 1 {
                lemma_fundamental_div_mod(n as int, 1);
            } else {
                lemma_div_is_strictly_smaller(n as int, d as int);
            }
        }
        q + 1
    }
}

/// Rounds `num * 2^shift / den` units.
fn round_steps(num: u128, den: u128, shift: u32) -> (r: Steps)
    requires
        0 < num < 0x4000_0000_0000_0000_0000_0000_0000_0000,
        0 < den < 0x40_0000_0000_0000,
        200 <= shift < 2000,
    ensures
        r.wf(),
        shift - 127 <= r.y <= shift + 127,
        in_binade(num as nat * pow2(shift as nat), den as nat, r.y as nat),
        r.bits() == rounded(num as nat * pow2(shift as nat), den as nat),
{
    let ghost n = num as nat * pow2(shift as nat);
    let (mut top, mut bottom, mut y): (u128, u128, u32) = (num, den, shift);
    let ghost mut a: nat = 0;
    proof {
        lemma2_to64();
        lemma2_to64_rest();
    }
    while top < bottom * 0x10_0000_0000_0000
        invariant
            0 < num,
            0 < bottom < 0x40_0000_0000_0000,
            bottom == den,
            0 < top,
            a > 0 ==> top < bottom * 0x20_0000_0000_0000,
            top < 0x4000_0000_0000_0000_0000_0000_0000_0000,
            top == num as nat * pow2(a),
            y == shift - a,
            a <= 127,
            200 <= shift < 2000,
        decreases y,
    {
        proof {
            lemma_pow2_unfold(a + 1);
            assert(num as nat * (2 * pow2(a)) == 2 * (num as nat * pow2(a))) by (nonlinear_arith);
            lemma_steps_bound(num as nat, a + 1, (2 * top) as nat);
        }
        top = 2 * top;
        y = y - 1;
        proof {
            a = a + 1;
        }
    }
    let ghost mut b: nat = 0;
    proof {
        lemma_mul_basics(bottom as int);
    }
    while top / 0x20_0000_0000_0000 >= bottom
        invariant
            0 < top < 0x4000_0000_0000_0000_0000_0000_0000_0000,
            0 < den < 0x40_0000_0000_0000,
            0 < bottom <= top / 0x10_0000_0000_0000,
            bottom == den as nat * pow2(b),
            top == num as nat * pow2(a),
            y == shift - a + b,
            a <= 127,
            b <= 127,
            a > 0 ==> b == 0 && top < bottom * 0x20_0000_0000_0000,
            200 <= shift < 2000,
        decreases top - bottom,
    {
        proof {
            lemma_pow2_unfold(b + 1);
            assert(den as nat * (2 * pow2(b)) == 2 * (den as nat * pow2(b))) by (nonlinear_arith);
            lemma_steps_bound(den as nat, b + 1, (2 * bottom) as nat);
        }
        bottom = 2 * bottom;
        y = y + 1;
        proof {
            b = b + 1;
        }
    }
    let m: u128 = divide_even(top, bottom);
    proof {
        lemma_round_steps(num as nat, den as nat, shift as nat, top as nat, bottom as nat, a, b);
        lemma_div_even_range(top as nat, bottom as nat);
    }
    Steps { m: m as u64, y }
}

/// A positive number that is doubled often enough is too large.
proof fn lemma_steps_bound(n: nat, times: nat, product: nat)
    requires
        n > 0,
        product == n * pow2(times),
        product < 0x8000_0000_0000_0000_0000_0000_0000_0000,
    ensures
        times <= 127,
{
    if times > 127 {
        lemma2_to64();
        lemma2_to64_rest();
        lemma_pow2_adds(64, 64);
        if times > 128 {
            lemma_pow2_strictly_increases(128, times);
        }
        lemma_mul_increases(n as int, pow2(times) as int);
        assert(pow2(64) * pow2(64) == 0x1_0000_0000_0000_0000int * 0x1_0000_0000_0000_0000int);
    }
}

/// A quotient in its binade is rounded to a number of steps in the binade, or the first above.
pub(crate) proof fn lemma_div_even_range(n: nat, d: nat)
    requires
        d > 0,
        d * (BINADE as nat) <= n < d * (2 * BINADE as nat),
    ensures
        BINADE <= div_even(n, d) <= 2 * BINADE,
{
    let (q, r) = (n / d, n % d);
    lemma_fundamental_div_mod(n as int, d as int);
    lemma_mod_bound(n as int, d as int);
    assert(q >= BINADE) by (nonlinear_arith)
        requires
            d * BINADE <= n,
            n == d * q + r,
            r < d,
            d > 0,
    ;
    assert(q < 2 * BINADE) by (nonlinear_arith)
        requires
            n < d * (2 * BINADE),
            n == d * q + r,
            r >= 0,
            d > 0,
    ;
}

/// Doubling the one or the other term until the quotient has its 53 digits finds the binade.
proof fn lemma_round_steps(num: nat, den: nat, shift: nat, top: nat, bottom: nat, a: nat, b: nat)
    requires
        den > 0,
        a < shift,
        a == 0 || b == 0,
        top == num * pow2(a),
        bottom == den * pow2(b),
        bottom * (BINADE as nat) <= top < bottom * (2 * BINADE as nat),
    ensures
        in_binade(num * pow2(shift), den, (shift - a + b) as nat),
        rounded(num * pow2(shift), den) == (shift - a + b) as nat * (BINADE as nat) + div_even(
            top,
            bottom,
        ),
{
    let y = (shift - a + b) as nat;
    let rest = (shift - a) as nat;
    let n = num * pow2(shift);
    let j = pow2(rest);
    lemma2_to64();
    lemma2_to64_rest();
    lemma_pow2_pos(rest);
    lemma_pow2_pos(b);
    lemma_mul_strictly_positive(den as int, pow2(b) as int);
    lemma_pow2_adds(a, rest);
    assert(n == top * j) by (nonlinear_arith)
        requires
            n == num * pow2(shift),
            top == num * pow2(a),
            j == pow2(rest),
            pow2(shift) == pow2(a) * pow2(rest),
    ;
    lemma_pow2_adds(b, rest);
    assert(den * pow2(y) == bottom * j) by (nonlinear_arith)
        requires
            bottom == den * pow2(b),
            j == pow2(rest),
            pow2(y) == pow2(b) * pow2(rest),
    ;
    lemma_pow2_adds(52, y);
    lemma_pow2_adds(53, y);
    assert(den * pow2(53 + y) == (bottom * (2 * BINADE as nat)) * j) by (nonlinear_arith)
        requires
            pow2(53 + y) == pow2(53) * pow2(y),
            pow2(53) == 2 * BINADE,
            den * pow2(y) == bottom * j,
    ;
    assert(den * pow2(52 + y) == (bottom * (BINADE as nat)) * j) by (nonlinear_arith)
        requires
            pow2(52 + y) == pow2(52) * pow2(y),
            pow2(52) == BINADE,
            den * pow2(y) == bottom * j,
    ;
    lemma_mul_inequality((bottom * (BINADE as nat)) as int, top as int, j as int);
    lemma_mul_strict_inequality(top as int, (bottom * (2 * BINADE as nat)) as int, j as int);
    lemma_rounded(n, den, y);
    lemma_div_even_scale(top, bottom, j);
}

// ── Percentages ────────────────────────────────────────────────────────────

/// Doubles a number some times over.
fn doubled(x: u128, times: u32) -> (r: u128)
    requires
        x * pow2(times as nat) < 0x8000_0000_0000_0000_0000_0000_0000_0000,
    ensures
        r == x * pow2(times as nat),
{
    let mut r: u128 = x;
    let mut done: u32 = 0;
    proof {
        lemma2_to64();
        lemma_mul_basics(x as int);
    }
    while done < times
        invariant
            done <= times,
            r == x * pow2(done as nat),
            x * pow2(times as nat) < 0x8000_0000_0000_0000_0000_0000_0000_0000,
        decreases times - done,
    {
        proof {
            lemma_pow2_unfold((done + 1) as nat);
            if done + 1 < times {
                lemma_pow2_strictly_increases((done + 1) as nat, times as nat);
            }
            assert(x * pow2((done + 1) as nat) <= x * pow2(times as nat)) by (nonlinear_arith)
                requires
                    pow2((done + 1) as nat) <= pow2(times as nat),
                    x >= 0,
            ;
            assert(x * (2 * pow2(done as nat)) == 2 * (x * pow2(done as nat))) by (nonlinear_arith);
        }
        r = 2 * r;
        done += 1;
    }
    r
}

/// The binades of the integers that 64 bits hold.
pub(crate) proof fn lemma_integer_binade(k: nat, y: nat)
    requires
        0 < k < 0x1_0000_0000_0000_0000,
        in_binade(k * pow2(1074), 1, y),
    ensures
        1022 <= y <= 1085,
{
    lemma2_to64();
    lemma_mul_basics(pow2(53 + y) as int);
    lemma_mul_basics(pow2(52 + y) as int);
    lemma_mul_basics(pow2(1074) as int);
    lemma_pow2_pos(1074);
    lemma_pow2_adds(64, 1074);
    lemma_mul_inequality(1, k as int, pow2(1074) as int);
    lemma_mul_strict_inequality(k as int, pow2(64) as int, pow2(1074) as int);
    if y < 1022 {
        if 53 + y < 1074 {
            lemma_pow2_strictly_increases(53 + y, 1074);
        }
    }
    if y > 1085 {
        if 1138 < 52 + y {
            lemma_pow2_strictly_increases(1138, 52 + y);
        }
    }
}

/// One hundred is a hundred times one.
pub(crate) proof fn lemma_hundred()
    ensures
        units(HUNDRED as nat) == 100 * pow2(1074),
{
    lemma2_to64();
    lemma2_to64_rest();
    let rest = pow2(1028);
    assert(HUNDRED / BINADE == 1029);
    assert(BINADE + HUNDRED % BINADE == 100 * 0x4000_0000_0000);
    lemma_pow2_adds(46, 1028);
    assert((100 * 0x4000_0000_0000) * rest == 100 * (0x4000_0000_0000 * rest)) by (nonlinear_arith);
}

/// The bits that rounding makes, as a number.
proof fn lemma_steps_number(steps: Steps, negative: bool)
    requires
        steps.wf(),
        steps.y < 1600,
    ensures
        steps.bits() < INFINITY,
        signed(negative, steps.bits()).negative() == negative,
        signed(negative, steps.bits()).magnitude() == steps.bits(),
        signed(negative, steps.bits()).size() == steps.size(),
{
    lemma_units_of(steps.y as nat, steps.m as nat);
    assert(steps.bits() <= 1600 * BINADE + 2 * BINADE);
}

/// By how many percent `current` is more than `base`: the difference over the base, times a
/// hundred, each step rounded to the nearest number.
pub open spec fn percent_more(current: nat, base: nat) -> Double {
    product(
        quotient(difference(nearest(current), nearest(base)), nearest(base)),
        Double { bits: HUNDRED },
    )
}

/// Computes by how many percent `current` is more than `base`.
#[verifier::rlimit(30)]
pub fn percent_of(current: u64, base: u64) -> (r: Double)
    requires
        base > 0,
    ensures
        r == percent_more(current as nat, base as nat),
        r.magnitude() < INFINITY,
{
    let b = round_steps(base as u128, 1, 1074);
    proof {
        lemma_integer_binade(base as nat, b.y as nat);
        lemma_steps_number(b, false);
    }
    // The current value, in the steps of its own size; nothing has no size.
    let c = if current > 0 {
        round_steps(current as u128, 1, 1074)
    } else {
        Steps { m: 0, y: b.y }
    };
    proof {
        if current > 0 {
            lemma_integer_binade(current as nat, c.y as nat);
            lemma_steps_number(c, false);
        } else {
            lemma_mul_basics(pow2(1074) as int);
            lemma_mul_basics(pow2(b.y as nat) as int);
            lemma_rounded_zero(1);
        }
        assert(nearest(base as nat).value() == b.size());
        assert(nearest(current as nat).value() == c.size());
    }
    // Both in the finer steps of the two, where the difference is exact.
    let y: u32 = if b.y < c.y {
        b.y
    } else {
        c.y
    };
    proof {
        lemma_finer_steps(c, y);
        lemma_finer_steps(b, y);
    }
    let (fine_c, fine_b): (u128, u128) = (
        doubled(c.m as u128, c.y - y),
        doubled(b.m as u128, b.y - y),
    );
    let negative: bool = fine_c < fine_b;
    let apart: u128 = if negative {
        fine_b - fine_c
    } else {
        fine_c - fine_b
    };
    let ghost (near_c, near_b) = (nearest(current as nat), nearest(base as nat));
    proof {
        let p = pow2(y as nat);
        lemma_pow2_pos(y as nat);
        assert(fine_c * p - fine_b * p == (fine_c - fine_b) * p) by (nonlinear_arith);
        assert((fine_b - fine_c) * p == -((fine_c - fine_b) * p)) by (nonlinear_arith);
        assert((fine_c - fine_b) * p < 0 <==> fine_c < fine_b) by (nonlinear_arith)
            requires
                p > 0,
        ;
        assert(difference(near_c, near_b) == signed(negative, rounded(apart as nat * p, 1)));
    }
    if apart == 0 {
        proof {
            lemma_mul_basics(pow2(y as nat) as int);
            lemma_mul_basics(pow2(1074) as int);
            lemma_mul_basics(units(HUNDRED as nat) as int);
            lemma_rounded_zero(1);
            lemma_pow2_pos(1074);
            lemma_rounded_zero(pow2(1074));
            lemma_pow2_pos(b.y as nat);
            lemma_mul_strictly_positive(b.m as int, pow2(b.y as nat) as int);
            lemma_rounded_zero(b.size());
        }
        return Double { bits: 0 };
    }
    let d = round_steps(apart, 1, y);
    let shift: u32 = d.y + 1074 - b.y;
    let q = round_steps(d.m as u128, b.m as u128, shift);
    let p = round_steps(q.m as u128 * 100, 1, q.y);
    proof {
        lemma_steps_number(d, negative);
        lemma_steps_number(q, negative);
        lemma_steps_number(p, negative);
        // The quotient, with the steps of the base taken out of both terms.
        let j = pow2(b.y as nat);
        lemma_pow2_pos(b.y as nat);
        lemma_pow2_adds(d.y as nat, 1074);
        lemma_pow2_adds(shift as nat, b.y as nat);
        lemma_rounded_scale(d.m as nat * pow2(shift as nat), b.m as nat, j, q.y as nat);
        assert(d.size() * pow2(1074) == (d.m as nat * pow2(shift as nat)) * j) by (nonlinear_arith)
            requires
                d.size() == d.m as nat * pow2(d.y as nat),
                pow2(d.y as nat) * pow2(1074) == pow2(shift as nat) * j,
        ;
        assert(quotient(difference(near_c, near_b), near_b) == signed(negative, q.bits()));
        // The product, with the weight of one taken out of both terms.
        lemma_hundred();
        lemma_pow2_pos(1074);
        lemma_rounded_scale(
            (q.m as nat * 100) * pow2(q.y as nat),
            1,
            pow2(1074),
            p.y as nat,
        );
        lemma_mul_basics(pow2(1074) as int);
        assert(q.size() * (100 * pow2(1074)) == ((q.m as nat * 100) * pow2(q.y as nat)) * pow2(1074))
            by (nonlinear_arith)
            requires
                q.size() == q.m as nat * pow2(q.y as nat),
        ;
    }
    let magnitude: u64 = p.y as u64 * BINADE + p.m;
    Double {
        bits: if negative {
            SIGN + magnitude
        } else {
            magnitude
        },
    }
}

/// A number of 64 bits in the finer steps of another.
proof fn lemma_finer_steps(steps: Steps, y: u32)
    requires
        steps.m <= 2 * BINADE,
        y <= steps.y <= y + 63,
    ensures
        steps.m * pow2((steps.y - y) as nat) < 0x100_0000_0000_0000_0000_0000_0000_0000,
        steps.size() == (steps.m * pow2((steps.y - y) as nat)) * pow2(y as nat),
{
    let times = (steps.y - y) as nat;
    lemma2_to64();
    lemma2_to64_rest();
    if times < 63 {
        lemma_pow2_strictly_increases(times, 63);
    }
    lemma_mul_upper_bound(
        steps.m as int,
        (2 * BINADE) as int,
        pow2(times) as int,
        0x8000_0000_0000_0000,
    );
    lemma_pow2_adds(times, y as nat);
    lemma_mul_is_associative(steps.m as int, pow2(times) as int, pow2(y as nat) as int);
}

// ── Writing ────────────────────────────────────────────────────────────────

/// A number with its sign and one digit behind the point: the nearest number of tenths, the even
/// one of two that are equally near.
pub open spec fn one_decimal(number: Double) -> Seq<char> {
    let sign = if number.negative() {
        "-"@
    } else {
        "+"@
    };
    if number.is_nan() {
        "NaN"@
    } else if number.magnitude() == INFINITY {
        sign + "inf"@
    } else {
        sign + text::tenths(div_even(10 * number.size(), pow2(1074)))
    }
}

/// Writes a number with its sign and one digit behind the point.
pub fn one_decimal_text(number: Double) -> (text: String)
    ensures
        text@ == one_decimal(number),
{
    let magnitude: u64 = number.bits % SIGN;
    if magnitude > INFINITY {
        return "NaN".to_owned();
    }
    let mut text = if number.bits >= SIGN {
        "-".to_owned()
    } else {
        "+".to_owned()
    };
    let ghost sign = text@;
    if magnitude == INFINITY {
        text.append("inf");
        return text;
    }
    let exponent: u64 = magnitude / BINADE;
    let fraction: u64 = magnitude % BINADE;
    let (m, y): (u64, u32) = if exponent == 0 {
        (fraction, 0)
    } else {
        (BINADE + fraction, (exponent - 1) as u32)
    };
    proof {
        lemma2_to64();
        lemma2_to64_rest();
        lemma_mul_basics(m as int);
        assert(number.size() == m * pow2(y as nat));
    }
    if y >= 1074 {
        proof {
            lemma_whole_tenths(m as nat, y as nat);
        }
        text.append(text::doubled_decimal_text(m, y - 1074).as_str());
        text.append(".0");
        proof {
            reveal_strlit(".0");
            reveal_strlit(".");
            let whole = text::decimal(m as nat * pow2((y - 1074) as nat));
            assert(".0"@ =~= "."@ + seq!['0']);
            assert(text@ =~= sign + (whole + "."@ + seq!['0']));
        }
        return text;
    }
    let below: u32 = 1074 - y;
    proof {
        lemma_part_tenths(m as nat, y as nat);
    }
    if below > 60 {
        proof {
            if below > 61 {
                lemma_pow2_strictly_increases(61, below as nat);
            }
            lemma_small_mod(10 * m as nat, pow2(below as nat));
            lemma_basic_div(10 * m as int, pow2(below as nat) as int);
        }
        text::append_tenths(&mut text, 0);
    } else {
        proof {
            if below < 60 {
                lemma_pow2_strictly_increases(below as nat, 60);
            }
            lemma_mul_basics(pow2(below as nat) as int);
            lemma_pow2_pos(below as nat);
        }
        let step: u128 = doubled(1, below);
        let n: u128 = divide_even(10 * m as u128, step);
        proof {
            lemma_div_nonincreasing(10 * m as int, step as int);
        }
        text::append_tenths(&mut text, n as u64);
    }
    text
}

/// The tenths of a whole number.
proof fn lemma_whole_tenths(m: nat, y: nat)
    requires
        y >= 1074,
    ensures
        div_even(10 * (m * pow2(y)), pow2(1074)) == 10 * (m * pow2((y - 1074) as nat)),
{
    let (one, rest) = (pow2(1074), pow2((y - 1074) as nat));
    lemma_pow2_pos(1074);
    lemma_pow2_adds((y - 1074) as nat, 1074);
    let n = 10 * (m * rest);
    assert(10 * (m * pow2(y)) == n * one) by (nonlinear_arith)
        requires
            pow2(y) == rest * one,
            n == 10 * (m * rest),
    ;
    lemma_fundamental_div_mod_converse((n * one) as int, one as int, n as int, 0);
}

/// The tenths of a number below one step.
proof fn lemma_part_tenths(m: nat, y: nat)
    requires
        y < 1074,
    ensures
        div_even(10 * (m * pow2(y)), pow2(1074)) == div_even(10 * m, pow2((1074 - y) as nat)),
{
    let below = (1074 - y) as nat;
    lemma_pow2_pos(y);
    lemma_pow2_pos(below);
    lemma_pow2_adds(below, y);
    lemma_div_even_scale(10 * m, pow2(below), pow2(y));
    assert(10 * (m * pow2(y)) == (10 * m) * pow2(y)) by (nonlinear_arith);
}

} // verus!
