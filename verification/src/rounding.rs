//! What rounding to double-precision numbers does to integers and percentages.
use crate::double;
use crate::double::{Double, BINADE, HUNDRED, INFINITY, SIGN};
use crate::text;
use vstd::arithmetic::div_mod::*;
use vstd::arithmetic::mul::*;
use vstd::arithmetic::power2::*;
use vstd::prelude::*;

verus! {

/// How far two integers lie apart.
pub open spec fn distance(a: nat, b: nat) -> int {
    if a < b {
        b - a
    } else {
        a - b
    }
}

// ── Binades ────────────────────────────────────────────────────────────────

/// A power of two is greater than its exponent.
proof fn lemma_pow2_outgrows(n: nat)
    ensures
        n < pow2(n),
    decreases n,
{
    if n == 0 {
        lemma2_to64();
    } else {
        lemma_pow2_outgrows((n - 1) as nat);
        lemma_pow2_unfold(n);
    }
}

/// Below a bound there is a binade.
proof fn lemma_binade_below(n: nat, d: nat, bound: nat) -> (y: nat)
    requires
        n < d * pow2(53 + bound),
    ensures
        double::in_binade(n, d, y),
        y <= bound,
    decreases bound,
{
    if bound == 0 || d * pow2(52 + bound) <= n {
        bound
    } else {
        lemma_binade_below(n, d, (bound - 1) as nat)
    }
}

/// Every quotient lies in a binade.
proof fn lemma_binade_exists(n: nat, d: nat) -> (y: nat)
    requires
        d > 0,
    ensures
        double::in_binade(n, d, y),
{
    lemma_pow2_outgrows(53 + n);
    lemma_mul_inequality(1, d as int, pow2(53 + n) as int);
    lemma_mul_basics(pow2(53 + n) as int);
    lemma_binade_below(n, d, n)
}

/// A rounded quotient by its binade: the bits, the integer of steps, and the value.
proof fn lemma_parts(n: nat, d: nat) -> (r: (nat, nat))
    requires
        d > 0,
    ensures
        double::in_binade(n, d, r.0),
        r.1 == double::div_even(n, d * pow2(r.0)),
        double::rounded(n, d) == r.0 * (BINADE as nat) + r.1,
        r.1 <= 2 * BINADE,
        r.0 > 0 ==> r.1 >= BINADE,
        double::units(double::rounded(n, d)) == r.1 * pow2(r.0),
        d * pow2(r.0) > 0,
        n < (d * pow2(r.0)) * (2 * BINADE as nat),
        r.0 > 0 ==> (d * pow2(r.0)) * (BINADE as nat) <= n,
{
    let y = lemma_binade_exists(n, d);
    let e = d * pow2(y);
    let m = double::div_even(n, e);
    lemma2_to64();
    lemma2_to64_rest();
    lemma_pow2_pos(y);
    lemma_mul_strictly_positive(d as int, pow2(y) as int);
    double::lemma_rounded(n, d, y);
    lemma_pow2_adds(53, y);
    lemma_pow2_adds(52, y);
    assert(d * pow2(53 + y) == e * (2 * BINADE as nat)) by (nonlinear_arith)
        requires
            pow2(53 + y) == pow2(53) * pow2(y),
            pow2(53) == 2 * BINADE,
            e == d * pow2(y),
    ;
    assert(d * pow2(52 + y) == e * (BINADE as nat)) by (nonlinear_arith)
        requires
            pow2(52 + y) == pow2(52) * pow2(y),
            pow2(52) == BINADE,
            e == d * pow2(y),
    ;
    if y > 0 {
        double::lemma_div_even_range(n, e);
        double::lemma_units_of(y, m);
    } else {
        let (q, r) = (n / e, n % e);
        lemma_fundamental_div_mod(n as int, e as int);
        lemma_mod_bound(n as int, e as int);
        assert(q < 2 * BINADE) by (nonlinear_arith)
            requires
                n < e * (2 * BINADE),
                n == e * q + r,
                r >= 0,
                e > 0,
        ;
        lemma_mul_basics(m as int);
        if m >= BINADE {
            double::lemma_units_of(0, m);
        } else {
            assert(m / (BINADE as nat) == 0);
            assert(m % (BINADE as nat) == m);
        }
    }
    (y, m)
}

/// Equal or greater bits stand for an equal or greater value.
proof fn lemma_units_monotone(a: nat, b: nat)
    ensures
        a <= b <==> double::units(a) <= double::units(b),
{
    if a < b {
        double::lemma_units_increase(a, b);
    }
    if b < a {
        double::lemma_units_increase(b, a);
    }
}

/// Of two numbers that are not negative the one with the greater bits is the greater one.
pub proof fn law_bits_keep_order(a: Double, b: Double)
    requires
        !a.is_nan(),
        !b.is_nan(),
        !a.negative(),
        !b.negative(),
    ensures
        a.above(b) <==> a.bits > b.bits,
{
    lemma_small_mod(a.bits as nat, SIGN as nat);
    lemma_small_mod(b.bits as nat, SIGN as nat);
    lemma_units_monotone(a.magnitude(), b.magnitude());
}

// ── Nearest ────────────────────────────────────────────────────────────────

/// No integer is nearer to a quotient than the one it is rounded to.
proof fn lemma_div_even_nearest(n: nat, e: nat, j: nat)
    requires
        e > 0,
    ensures
        distance(double::div_even(n, e) * e, n) <= distance(j * e, n),
{
    let (q, r) = (n / e, n % e);
    let m = double::div_even(n, e);
    lemma_fundamental_div_mod(n as int, e as int);
    lemma_mod_bound(n as int, e as int);
    assert(q * e == n - r) by (nonlinear_arith)
        requires
            n == e * q + r,
    ;
    assert((q + 1) * e == n - r + e) by (nonlinear_arith)
        requires
            n == e * q + r,
    ;
    if j <= q {
        lemma_mul_inequality(j as int, q as int, e as int);
    } else {
        lemma_mul_inequality((q + 1) as int, j as int, e as int);
    }
}

/// Rounding gives the nearest number: none is nearer to the quotient than the one whose bits it
/// makes.
pub proof fn law_rounded_is_nearest(n: nat, d: nat, bits: nat)
    requires
        d > 0,
    ensures
        distance(double::units(double::rounded(n, d)) * d, n) <= distance(
            double::units(bits) * d,
            n,
        ),
{
    let (y, m) = lemma_parts(n, d);
    let (s, e) = (pow2(y), d * pow2(y));
    assert((m * s) * d == m * e) by (nonlinear_arith)
        requires
            e == d * s,
    ;
    let low = if y > 0 {
        BINADE as nat
    } else {
        0
    };
    let first = y * (BINADE as nat);
    let v = double::units(bits);
    if bits > first + 2 * BINADE {
        double::lemma_units_of(y, (2 * BINADE) as nat);
        double::lemma_units_increase((first + 2 * BINADE) as nat, bits);
        lemma_div_even_nearest(n, e, (2 * BINADE) as nat);
        assert(((2 * BINADE) * s) * d == (2 * BINADE) * e) by (nonlinear_arith)
            requires
                e == d * s,
        ;
        lemma_mul_inequality(((2 * BINADE) * s) as int, v as int, d as int);
        lemma_mul_is_commutative(e as int, (2 * BINADE) as int);
    } else if bits < first + low {
        double::lemma_units_of(y, BINADE as nat);
        double::lemma_units_increase(bits, first + BINADE as nat);
        lemma_div_even_nearest(n, e, BINADE as nat);
        assert((BINADE * s) * d == BINADE * e) by (nonlinear_arith)
            requires
                e == d * s,
        ;
        lemma_mul_inequality(v as int, (BINADE * s) as int, d as int);
        lemma_mul_is_commutative(e as int, BINADE as int);
    } else {
        let j = (bits - first) as nat;
        lemma_div_even_nearest(n, e, j);
        if j >= BINADE {
            double::lemma_units_of(y, j);
        } else {
            lemma2_to64();
            assert(bits / (BINADE as nat) == 0);
            assert(bits % (BINADE as nat) == bits);
            lemma_mul_basics(j as int);
        }
        assert((j * s) * d == j * e) by (nonlinear_arith)
            requires
                e == d * s,
        ;
    }
}

/// A quotient above the middle of two neighbours is rounded above the lower one.
proof fn lemma_rounded_above(n: nat, d: nat, bits: nat)
    requires
        d > 0,
        2 * n > d * (double::units(bits) + double::units(bits + 1)),
    ensures
        double::rounded(n, d) > bits,
{
    let m = double::rounded(n, d);
    if m <= bits {
        let (a, b, v) = (double::units(bits), double::units(bits + 1), double::units(m));
        law_rounded_is_nearest(n, d, bits + 1);
        lemma_units_monotone(m, bits);
        double::lemma_units_increase(bits, bits + 1);
        lemma_mul_inequality(v as int, a as int, d as int);
        lemma_mul_strict_inequality(a as int, b as int, d as int);
        lemma_mul_is_distributive_add(d as int, a as int, b as int);
        lemma_mul_is_commutative(d as int, a as int);
        lemma_mul_is_commutative(d as int, b as int);
    }
}

/// A quotient below the middle of two neighbours is not rounded above the lower one.
proof fn lemma_rounded_below(n: nat, d: nat, bits: nat)
    requires
        d > 0,
        2 * n < d * (double::units(bits) + double::units(bits + 1)),
    ensures
        double::rounded(n, d) <= bits,
{
    let m = double::rounded(n, d);
    if m > bits {
        let (a, b, v) = (double::units(bits), double::units(bits + 1), double::units(m));
        law_rounded_is_nearest(n, d, bits);
        lemma_units_monotone(bits + 1, m);
        double::lemma_units_increase(bits, bits + 1);
        lemma_mul_inequality(b as int, v as int, d as int);
        lemma_mul_strict_inequality(a as int, b as int, d as int);
        lemma_mul_is_distributive_add(d as int, a as int, b as int);
        lemma_mul_is_commutative(d as int, a as int);
        lemma_mul_is_commutative(d as int, b as int);
    }
}

/// A quotient that is a number is rounded to it.
pub proof fn law_rounding_keeps_numbers(n: nat, d: nat, bits: nat)
    requires
        d > 0,
        n == double::units(bits) * d,
    ensures
        double::rounded(n, d) == bits,
{
    let m = double::rounded(n, d);
    law_rounded_is_nearest(n, d, bits);
    let (v, w) = (double::units(m), double::units(bits));
    assert(v == w) by (nonlinear_arith)
        requires
            v * d == w * d,
            d > 0,
    ;
    lemma_units_monotone(m, bits);
    lemma_units_monotone(bits, m);
}

/// Rounding keeps the order.
pub proof fn law_rounding_keeps_order(a: nat, b: nat, d: nat)
    requires
        d > 0,
        a <= b,
    ensures
        double::rounded(a, d) <= double::rounded(b, d),
{
    let (m, k) = (double::rounded(a, d), double::rounded(b, d));
    if m > k {
        // The lower quotient would lie above the middle of the two numbers and the higher one
        // below.
        let (v, w) = (double::units(m), double::units(k));
        double::lemma_units_increase(k, m);
        lemma_mul_strict_inequality(w as int, v as int, d as int);
        law_rounded_is_nearest(a, d, k);
        law_rounded_is_nearest(b, d, m);
        if a < b {
            assert(false);
        }
    }
}

// ── Integers ───────────────────────────────────────────────────────────────

/// The bits of a rounded quotient below a bound.
proof fn lemma_rounded_bound(n: nat, d: nat, top: nat)
    requires
        d > 0,
        n < d * pow2(53 + top),
    ensures
        double::rounded(n, d) <= top * (BINADE as nat) + 2 * BINADE,
{
    let (y, m) = lemma_parts(n, d);
    let z = lemma_binade_below(n, d, top);
    double::lemma_binade_unique(n, d, y, z);
    lemma_mul_inequality(y as int, top as int, BINADE as int);
}

/// An integer of up to 53 binary digits is a number.
proof fn lemma_exact_integer(k: nat)
    requires
        k <= 2 * BINADE,
    ensures
        double::units(double::rounded(k * pow2(1074), 1)) == k * pow2(1074),
{
    let n = k * pow2(1074);
    let (y, m) = lemma_parts(n, 1);
    let s = pow2(y);
    lemma_mul_basics(s as int);
    lemma_pow2_pos(y);
    lemma2_to64();
    lemma2_to64_rest();
    let j = if y <= 1074 {
        lemma_pow2_adds((1074 - y) as nat, y);
        lemma_mul_is_associative(k as int, pow2((1074 - y) as nat) as int, s as int);
        k * pow2((1074 - y) as nat)
    } else {
        lemma_pow2_adds(53, 1074);
        lemma_pow2_adds(52, 1075);
        lemma_pow2_adds(52, y);
        lemma_mul_inequality(k as int, (2 * BINADE) as int, pow2(1074) as int);
        lemma_mul_is_commutative(s as int, BINADE as int);
        if y > 1075 {
            lemma_pow2_strictly_increases(1127, 52 + y);
        }
        BINADE as nat
    };
    assert(n == j * s);
    lemma_fundamental_div_mod_converse(n as int, s as int, j as int, 0);
}

/// The number nearest to an integer of 64 bits.
proof fn lemma_nearest(k: nat)
    requires
        k < 0x1_0000_0000_0000_0000,
    ensures
        !double::nearest(k).negative(),
        double::nearest(k).magnitude() == double::rounded(k * pow2(1074), 1),
        double::nearest(k).value() == double::units(double::rounded(k * pow2(1074), 1)),
        double::nearest(k).size() <= pow2(1138),
        k > 0 ==> double::nearest(k).size() >= pow2(1074),
{
    let n = k * pow2(1074);
    lemma2_to64();
    lemma2_to64_rest();
    lemma_pow2_pos(1074);
    lemma_pow2_adds(64, 1074);
    lemma_mul_strict_inequality(k as int, pow2(64) as int, pow2(1074) as int);
    lemma_mul_basics(pow2(1138) as int);
    lemma_rounded_bound(n, 1, 1085);
    let m = double::rounded(n, 1);
    assert(m <= 1087 * BINADE);
    lemma_units_monotone(m, (1085 * BINADE + 2 * BINADE) as nat);
    double::lemma_units_of(1085, (2 * BINADE) as nat);
    lemma_pow2_adds(53, 1085);
    if k > 0 {
        lemma_mul_inequality(1, k as int, pow2(1074) as int);
        lemma_mul_basics(pow2(1074) as int);
        law_rounding_keeps_order(pow2(1074), n, 1);
        lemma_exact_integer(1);
        lemma_units_monotone(double::rounded(pow2(1074), 1), m);
    }
}

// ── Percentages ────────────────────────────────────────────────────────────

/// How far the numbers nearest to two integers lie apart.
spec fn apart(current: nat, base: nat) -> nat {
    let exact = double::nearest(current).value() - double::nearest(base).value();
    (if exact < 0 {
        -exact
    } else {
        exact
    }) as nat
}

/// The bits of the difference without its sign.
spec fn difference_bits(current: nat, base: nat) -> nat {
    double::rounded(apart(current, base), 1)
}

/// The bits of the quotient without its sign.
spec fn quotient_bits(current: nat, base: nat) -> nat {
    double::rounded(
        double::units(difference_bits(current, base)) * pow2(1074),
        double::nearest(base).size(),
    )
}

/// The bits of the percentage without its sign.
spec fn percent_bits(current: nat, base: nat) -> nat {
    double::rounded(
        double::units(quotient_bits(current, base)) * double::units(HUNDRED as nat),
        pow2(1074),
    )
}

/// The percentage by its sign and its other bits.
proof fn lemma_percent(current: nat, base: nat)
    requires
        current < 0x1_0000_0000_0000_0000,
        0 < base < 0x1_0000_0000_0000_0000,
    ensures
        difference_bits(current, base) < INFINITY,
        quotient_bits(current, base) < INFINITY,
        percent_bits(current, base) < INFINITY,
        double::percent_more(current, base) == double::signed(
            double::nearest(current).value() < double::nearest(base).value(),
            percent_bits(current, base),
        ),
        double::percent_more(current, base).negative() == (double::nearest(current).value()
            < double::nearest(base).value()),
        double::percent_more(current, base).magnitude() == percent_bits(current, base),
{
    let one = pow2(1074);
    lemma_nearest(current);
    lemma_nearest(base);
    lemma_pow2_pos(1074);
    let (d, q, p) = (
        difference_bits(current, base),
        quotient_bits(current, base),
        percent_bits(current, base),
    );
    let b = double::nearest(base).size();
    // The difference.
    lemma_pow2_strictly_increases(1138, 1139);
    lemma_mul_basics(pow2(1139) as int);
    lemma_rounded_bound(apart(current, base), 1, 1086);
    assert(d <= 1088 * BINADE);
    lemma_units_monotone(d, (1086 * BINADE + 2 * BINADE) as nat);
    double::lemma_units_of(1086, (2 * BINADE) as nat);
    lemma2_to64();
    lemma2_to64_rest();
    lemma_pow2_adds(53, 1086);
    let dv = double::units(d);
    assert(dv <= pow2(1139));
    // The quotient.
    lemma_pow2_strictly_increases(1139, 1140);
    assert(dv * one < b * pow2(1140)) by (nonlinear_arith)
        requires
            dv < pow2(1140),
            0 < one <= b,
    ;
    lemma_rounded_bound(dv * one, b, 1087);
    assert(q <= 1089 * BINADE);
    lemma_units_monotone(q, (1087 * BINADE + 2 * BINADE) as nat);
    double::lemma_units_of(1087, (2 * BINADE) as nat);
    lemma_pow2_adds(53, 1087);
    let qv = double::units(q);
    assert(qv <= pow2(1140));
    // The product.
    double::lemma_hundred();
    lemma_pow2_adds(7, 1140);
    assert(qv * (100 * one) < one * pow2(1147)) by (nonlinear_arith)
        requires
            qv <= pow2(1140),
            pow2(1147) == 128 * pow2(1140),
            pow2(1140) > 0,
            one > 0,
    ;
    lemma_rounded_bound(qv * (100 * one), one, 1094);
    assert(p <= 1096 * BINADE);
    let negative = double::nearest(current).value() < double::nearest(base).value();
    let difference = double::difference(double::nearest(current), double::nearest(base));
    assert(difference == double::signed(negative, d));
    assert(difference.negative() == negative && difference.magnitude() == d);
    let quotient = double::quotient(difference, double::nearest(base));
    assert(quotient == double::signed(negative, q));
    assert(quotient.negative() == negative && quotient.magnitude() == q);
}

/// A metric that did not change has changed by zero percent.
pub proof fn law_no_change_is_zero(base: nat)
    requires
        0 < base < 0x1_0000_0000_0000_0000,
    ensures
        double::percent_more(base, base) == (Double { bits: 0 }),
{
    lemma_percent(base, base);
    lemma_nearest(base);
    lemma_pow2_pos(1074);
    double::lemma_rounded_zero(1);
    double::lemma_units_zero(0);
    lemma_mul_basics(pow2(1074) as int);
    double::lemma_rounded_zero(double::nearest(base).size());
    lemma_mul_basics(double::units(HUNDRED as nat) as int);
    double::lemma_rounded_zero(pow2(1074));
}

/// Greater integers have no lesser nearest numbers.
proof fn lemma_nearest_order(a: nat, b: nat)
    requires
        a <= b < 0x1_0000_0000_0000_0000,
    ensures
        double::nearest(a).value() <= double::nearest(b).value(),
{
    lemma_nearest(a);
    lemma_nearest(b);
    lemma_mul_inequality(a as int, b as int, pow2(1074) as int);
    law_rounding_keeps_order(a * pow2(1074), b * pow2(1074), 1);
    lemma_units_monotone(
        double::rounded(a * pow2(1074), 1),
        double::rounded(b * pow2(1074), 1),
    );
}

/// A difference that is greater without its sign makes no lesser percentage.
proof fn lemma_percent_order(a: nat, b: nat, base: nat)
    requires
        a < 0x1_0000_0000_0000_0000,
        b < 0x1_0000_0000_0000_0000,
        0 < base < 0x1_0000_0000_0000_0000,
        apart(a, base) <= apart(b, base),
    ensures
        percent_bits(a, base) <= percent_bits(b, base),
{
    lemma_nearest(base);
    lemma_pow2_pos(1074);
    let (d, e) = (difference_bits(a, base), difference_bits(b, base));
    law_rounding_keeps_order(apart(a, base), apart(b, base), 1);
    lemma_units_monotone(d, e);
    lemma_mul_inequality(double::units(d) as int, double::units(e) as int, pow2(1074) as int);
    law_rounding_keeps_order(
        double::units(d) * pow2(1074),
        double::units(e) * pow2(1074),
        double::nearest(base).size(),
    );
    let (q, r) = (quotient_bits(a, base), quotient_bits(b, base));
    lemma_units_monotone(q, r);
    let hundred = double::units(HUNDRED as nat);
    lemma_mul_inequality(double::units(q) as int, double::units(r) as int, hundred as int);
    law_rounding_keeps_order(
        double::units(q) * hundred,
        double::units(r) * hundred,
        pow2(1074),
    );
}

/// A metric that grew more has not changed by a lesser percentage.
pub proof fn law_percent_keeps_order(a: nat, b: nat, base: nat)
    requires
        a <= b < 0x1_0000_0000_0000_0000,
        0 < base < 0x1_0000_0000_0000_0000,
    ensures
        double::percent_more(a, base).value() <= double::percent_more(b, base).value(),
{
    lemma_percent(a, base);
    lemma_percent(b, base);
    lemma_nearest_order(a, b);
    if double::nearest(b).value() < double::nearest(base).value() {
        lemma_percent_order(b, a, base);
        lemma_units_monotone(percent_bits(b, base), percent_bits(a, base));
    } else if double::nearest(a).value() >= double::nearest(base).value() {
        lemma_percent_order(a, b, base);
        lemma_units_monotone(percent_bits(a, base), percent_bits(b, base));
    }
}

/// A metric that shrank has not changed by a positive percentage, and one that grew not by a
/// negative one.
pub proof fn law_percent_has_the_right_sign(current: nat, base: nat)
    requires
        current < 0x1_0000_0000_0000_0000,
        0 < base < 0x1_0000_0000_0000_0000,
    ensures
        current <= base ==> double::percent_more(current, base).value() <= 0,
        current >= base ==> double::percent_more(current, base).value() >= 0,
{
    law_no_change_is_zero(base);
    double::lemma_units_zero(0);
    if current <= base {
        law_percent_keeps_order(current, base, base);
    }
    if current >= base {
        law_percent_keeps_order(base, current, base);
    }
}

// ── Thresholds ─────────────────────────────────────────────────────────────

/// Rounding an integer changes it by no more than one part in two to the power of 53.
proof fn lemma_relative_error(n: nat)
    ensures
        0x20_0000_0000_0000 * distance(double::units(double::rounded(n, 1)), n) <= n,
{
    let (y, m) = lemma_parts(n, 1);
    let e = pow2(y);
    lemma_mul_basics(e as int);
    let (q, r) = (n / e, n % e);
    lemma_fundamental_div_mod(n as int, e as int);
    lemma_mod_bound(n as int, e as int);
    assert(q * e == n - r) by (nonlinear_arith)
        requires
            n == e * q + r,
    ;
    assert((q + 1) * e == n - r + e) by (nonlinear_arith)
        requires
            n == e * q + r,
    ;
    assert(2 * distance(m * e, n) <= e);
    if y > 0 {
        lemma_mul_is_commutative(e as int, BINADE as int);
    } else {
        lemma2_to64();
    }
}

/// The product is that of a quotient and one hundred, rounded.
proof fn lemma_product(current: nat, base: nat)
    ensures
        percent_bits(current, base) == double::rounded(
            double::units(quotient_bits(current, base)) * 100,
            1,
        ),
{
    let one = pow2(1074);
    let q = double::units(quotient_bits(current, base));
    lemma_pow2_pos(1074);
    double::lemma_hundred();
    let z = lemma_binade_exists(q * 100, 1);
    double::lemma_rounded_scale(q * 100, 1, one, z);
    lemma_mul_basics(one as int);
    lemma_mul_is_associative(q as int, 100, one as int);
}

/// Above the middle of two neighbouring quotients the percentage is above a threshold, if the upper
/// one is.
proof fn lemma_percent_above(current: nat, base: nat, quotient: nat, threshold: nat)
    requires
        0 < base < 0x1_0000_0000_0000_0000,
        2 * (double::units(difference_bits(current, base)) * pow2(1074)) > double::nearest(
            base,
        ).size() * (double::units(quotient) + double::units(quotient + 1)),
        2 * (double::units(quotient + 1) * 100) > double::units(threshold) + double::units(
            threshold + 1,
        ),
    ensures
        percent_bits(current, base) > threshold,
{
    lemma_product(current, base);
    lemma_nearest(base);
    lemma_pow2_pos(1074);
    let q = quotient_bits(current, base);
    lemma_rounded_above(
        double::units(difference_bits(current, base)) * pow2(1074),
        double::nearest(base).size(),
        quotient,
    );
    lemma_units_monotone(quotient + 1, q);
    law_rounding_keeps_order(double::units(quotient + 1) * 100, double::units(q) * 100, 1);
    lemma_rounded_above(double::units(quotient + 1) * 100, 1, threshold);
}

/// Below the middle of two neighbouring quotients the percentage is not above a threshold, if the
/// lower one is not.
proof fn lemma_percent_not_above(current: nat, base: nat, quotient: nat, threshold: nat)
    requires
        0 < base < 0x1_0000_0000_0000_0000,
        2 * (double::units(difference_bits(current, base)) * pow2(1074)) < double::nearest(
            base,
        ).size() * (double::units(quotient) + double::units(quotient + 1)),
        2 * (double::units(quotient) * 100) < double::units(threshold) + double::units(
            threshold + 1,
        ),
    ensures
        percent_bits(current, base) <= threshold,
{
    lemma_product(current, base);
    lemma_nearest(base);
    lemma_pow2_pos(1074);
    let q = quotient_bits(current, base);
    lemma_rounded_below(
        double::units(difference_bits(current, base)) * pow2(1074),
        double::nearest(base).size(),
        quotient,
    );
    lemma_units_monotone(q, quotient);
    law_rounding_keeps_order(double::units(q) * 100, double::units(quotient) * 100, 1);
    lemma_rounded_below(double::units(quotient) * 100, 1, threshold);
}

/// The difference of integers of up to 53 binary digits is exact.
proof fn lemma_exact_difference(current: nat, base: nat)
    requires
        0 < base <= current <= 2 * BINADE,
    ensures
        double::units(difference_bits(current, base)) == (current - base) * pow2(1074),
        double::nearest(base).size() == base * pow2(1074),
{
    let (one, more) = (pow2(1074), (current - base) as nat);
    lemma_nearest(current);
    lemma_nearest(base);
    lemma_exact_integer(current);
    lemma_exact_integer(base);
    lemma_exact_integer(more);
    lemma_mul_is_distributive_sub_other_way(one as int, current as int, base as int);
    lemma_mul_nonnegative(more as int, one as int);
    assert(apart(current, base) == more * one);
}

/// The difference of any integers, by how far rounding can move it.
proof fn lemma_close_difference(current: nat, base: nat)
    requires
        current < 0x1_0000_0000_0000_0000,
        0 < base < 0x1_0000_0000_0000_0000,
        double::nearest(base).value() <= double::nearest(current).value(),
    ensures
        ({
            let near = double::nearest(current).size() - double::nearest(base).size();
            let (c, b) = (current * pow2(1074), base * pow2(1074));
            &&& 0x20_0000_0000_0000 * distance(double::nearest(current).size(), c) <= c
            &&& 0x20_0000_0000_0000 * distance(double::nearest(base).size(), b) <= b
            &&& near >= 0
            &&& 0x20_0000_0000_0000 * distance(
                double::units(difference_bits(current, base)),
                near as nat,
            ) <= near
        }),
{
    lemma_nearest(current);
    lemma_nearest(base);
    lemma_relative_error(current * pow2(1074));
    lemma_relative_error(base * pow2(1074));
    lemma_relative_error(apart(current, base));
}

/// A percentage that is not negative is above a threshold when its bits are.
proof fn lemma_bits_decide(current: nat, base: nat, threshold: u64)
    requires
        current < 0x1_0000_0000_0000_0000,
        0 < base < 0x1_0000_0000_0000_0000,
        double::nearest(base).value() <= double::nearest(current).value(),
        threshold <= INFINITY,
    ensures
        double::percent_more(current, base).above(Double { bits: threshold }) == (percent_bits(
            current,
            base,
        ) > threshold),
{
    lemma_percent(current, base);
    let (percent, limit) = (double::percent_more(current, base), Double { bits: threshold });
    assert(limit.magnitude() == threshold && !limit.negative()) by {
        lemma_small_mod(threshold as nat, SIGN as nat);
    }
    lemma_units_monotone(percent.magnitude(), limit.magnitude());
    assert(percent.value() == double::units(percent.magnitude()));
    assert(limit.value() == double::units(limit.magnitude()));
}

/// Whether a percentage is above a threshold, where the threshold parts two neighbouring quotients:
/// `low` and `low + 1`, counted in units of which one has `scale`.
proof fn lemma_threshold(
    current: nat,
    base: nat,
    quotient: nat,
    threshold: u64,
    scale: nat,
    low: nat,
    w: nat,
)
    requires
        current < 0x1_0000_0000_0000_0000,
        0 < base < 0x1_0000_0000_0000_0000,
        double::nearest(base).value() <= double::nearest(current).value(),
        threshold <= INFINITY,
        w > 0,
        pow2(1074) == scale * w,
        double::units(quotient) == low * w,
        double::units(quotient + 1) == (low + 1) * w,
        2 * ((low * w) * 100) < double::units(threshold as nat) + double::units(
            (threshold + 1) as nat,
        ) < 2 * (((low + 1) * w) * 100),
    ensures
        ({
            let more = double::units(difference_bits(current, base));
            let b = double::nearest(base).size();
            let above = double::percent_more(current, base).above(Double { bits: threshold });
            &&& more * (2 * scale) > b * (2 * low + 1) ==> above
            &&& more * (2 * scale) < b * (2 * low + 1) ==> !above
        }),
{
    let more = double::units(difference_bits(current, base));
    let b = double::nearest(base).size();
    lemma_bits_decide(current, base, threshold);
    assert(2 * (more * pow2(1074)) == (more * (2 * scale)) * w) by (nonlinear_arith)
        requires
            pow2(1074) == scale * w,
    ;
    assert(b * (low * w + (low + 1) * w) == (b * (2 * low + 1)) * w) by (nonlinear_arith);
    if more * (2 * scale) > b * (2 * low + 1) {
        lemma_mul_strict_inequality(
            (b * (2 * low + 1)) as int,
            (more * (2 * scale)) as int,
            w as int,
        );
        lemma_percent_above(current, base, quotient, threshold as nat);
    }
    if more * (2 * scale) < b * (2 * low + 1) {
        lemma_mul_strict_inequality(
            (more * (2 * scale)) as int,
            (b * (2 * low + 1)) as int,
            w as int,
        );
        lemma_percent_not_above(current, base, quotient, threshold as nat);
    }
}

/// The values of a tenth and ten, and of the numbers that follow them.
proof fn lemma_tenth()
    ensures
        pow2(1074) == 0x100_0000_0000_0000 * pow2(1018),
        double::units(0x3FB9_9999_9999_999A) == 0x19_9999_9999_999A * pow2(1018),
        double::units(0x3FB9_9999_9999_999B) == 0x19_9999_9999_999B * pow2(1018),
        double::units(0x4024_0000_0000_0000) == 0xA00_0000_0000_0000 * pow2(1018),
        double::units(0x4024_0000_0000_0001) == 0xA00_0000_0000_0080 * pow2(1018),
{
    lemma2_to64();
    lemma2_to64_rest();
    lemma_pow2_adds(56, 1018);
    lemma_pow2_adds(7, 1018);
    let w = pow2(1018);
    assert(0x14_0000_0000_0000 * (128 * w) == 0xA00_0000_0000_0000 * w) by (nonlinear_arith);
    assert(0x14_0000_0000_0001 * (128 * w) == 0xA00_0000_0000_0080 * w) by (nonlinear_arith);
}

/// The values of a quarter and twenty-five, and of the numbers that follow them.
proof fn lemma_quarter()
    ensures
        pow2(1074) == 0x40_0000_0000_0000 * pow2(1020),
        double::units(0x3FD0_0000_0000_0000) == 0x10_0000_0000_0000 * pow2(1020),
        double::units(0x3FD0_0000_0000_0001) == 0x10_0000_0000_0001 * pow2(1020),
        double::units(0x4039_0000_0000_0000) == 0x640_0000_0000_0000 * pow2(1020),
        double::units(0x4039_0000_0000_0001) == 0x640_0000_0000_0040 * pow2(1020),
{
    lemma2_to64();
    lemma2_to64_rest();
    lemma_pow2_adds(54, 1020);
    lemma_pow2_adds(6, 1020);
    let w = pow2(1020);
    assert(0x19_0000_0000_0000 * (64 * w) == 0x640_0000_0000_0000 * w) by (nonlinear_arith);
    assert(0x19_0000_0000_0001 * (64 * w) == 0x640_0000_0000_0040 * w) by (nonlinear_arith);
}

/// Ten percent parts the number nearest to a tenth from the one that follows it.
proof fn lemma_ten_percent(current: nat, base: nat)
    requires
        current < 0x1_0000_0000_0000_0000,
        0 < base < 0x1_0000_0000_0000_0000,
        double::nearest(base).value() <= double::nearest(current).value(),
    ensures
        ({
            let more = double::units(difference_bits(current, base));
            let b = double::nearest(base).size();
            let above = double::percent_more(current, base).above(
                Double { bits: 0x4024_0000_0000_0000 },
            );
            &&& more * 0x200_0000_0000_0000 > b * 0x33_3333_3333_3335 ==> above
            &&& more * 0x200_0000_0000_0000 < b * 0x33_3333_3333_3335 ==> !above
        }),
{
    let w = pow2(1018);
    lemma_pow2_pos(1018);
    lemma_tenth();
    assert(2 * ((0x19_9999_9999_999A * w) * 100) < 0xA00_0000_0000_0000 * w + 0xA00_0000_0000_0080
        * w < 2 * ((0x19_9999_9999_999B * w) * 100)) by (nonlinear_arith)
        requires
            w > 0,
    ;
    lemma_threshold(
        current,
        base,
        0x3FB9_9999_9999_999A,
        0x4024_0000_0000_0000,
        0x100_0000_0000_0000,
        0x19_9999_9999_999A,
        w,
    );
}

/// Twenty-five percent parts a quarter from the number that follows it.
proof fn lemma_twenty_five_percent(current: nat, base: nat)
    requires
        current < 0x1_0000_0000_0000_0000,
        0 < base < 0x1_0000_0000_0000_0000,
        double::nearest(base).value() <= double::nearest(current).value(),
    ensures
        ({
            let more = double::units(difference_bits(current, base));
            let b = double::nearest(base).size();
            let above = double::percent_more(current, base).above(
                Double { bits: 0x4039_0000_0000_0000 },
            );
            &&& more * 0x80_0000_0000_0000 > b * 0x20_0000_0000_0001 ==> above
            &&& more * 0x80_0000_0000_0000 < b * 0x20_0000_0000_0001 ==> !above
        }),
{
    let w = pow2(1020);
    lemma_pow2_pos(1020);
    lemma_quarter();
    assert(2 * ((0x10_0000_0000_0000 * w) * 100) < 0x640_0000_0000_0000 * w + 0x640_0000_0000_0040
        * w < 2 * ((0x10_0000_0000_0001 * w) * 100)) by (nonlinear_arith)
        requires
            w > 0,
    ;
    lemma_threshold(
        current,
        base,
        0x3FD0_0000_0000_0000,
        0x4039_0000_0000_0000,
        0x40_0000_0000_0000,
        0x10_0000_0000_0000,
        w,
    );
}

/// An increase is found to be above ten percent if and only if it is, as long as the base is below
/// 8,006,399,337,547,549.
pub proof fn law_above_ten_percent(current: nat, base: nat)
    requires
        current < 0x1_0000_0000_0000_0000,
        0 < base < 8_006_399_337_547_549,
    ensures
        double::percent_more(current, base).above(Double { bits: 0x4024_0000_0000_0000 })
            <==> 10 * current > 11 * base,
    decreases current,
{
    if current < base {
        law_percent_has_the_right_sign(current, base);
    } else if current <= 2 * BINADE {
        let one = pow2(1074);
        lemma_pow2_pos(1074);
        lemma_nearest_order(base, current);
        lemma_ten_percent(current, base);
        lemma_exact_difference(current, base);
        let (more, b) = ((current - base) * 0x200_0000_0000_0000, base * 0x33_3333_3333_3335);
        assert(((current - base) * one) * 0x200_0000_0000_0000 == more * one) by (nonlinear_arith)
            requires
                more == (current - base) * 0x200_0000_0000_0000,
        ;
        assert((base * one) * 0x33_3333_3333_3335 == b * one) by (nonlinear_arith)
            requires
                b == base * 0x33_3333_3333_3335,
        ;
        if 10 * current > 11 * base {
            lemma_mul_strict_inequality(b as int, more, one as int);
        } else {
            lemma_mul_strict_inequality(more, b as int, one as int);
        }
    } else {
        let limit = (2 * BINADE) as nat;
        law_above_ten_percent(limit, base);
        law_percent_keeps_order(limit, current, base);
        lemma_percent(current, base);
    }
}

/// An increase is found to be above twenty-five percent if and only if it is, as long as the base is
/// below 7,205,759,403,792,794.
pub proof fn law_above_twenty_five_percent(current: nat, base: nat)
    requires
        current < 0x1_0000_0000_0000_0000,
        0 < base < 7_205_759_403_792_794,
    ensures
        double::percent_more(current, base).above(Double { bits: 0x4039_0000_0000_0000 })
            <==> 4 * current > 5 * base,
    decreases current,
{
    if current < base {
        law_percent_has_the_right_sign(current, base);
    } else if current <= 2 * BINADE {
        let one = pow2(1074);
        lemma_pow2_pos(1074);
        lemma_nearest_order(base, current);
        lemma_twenty_five_percent(current, base);
        lemma_exact_difference(current, base);
        let (more, b) = ((current - base) * 0x80_0000_0000_0000, base * 0x20_0000_0000_0001);
        assert(((current - base) * one) * 0x80_0000_0000_0000 == more * one) by (nonlinear_arith)
            requires
                more == (current - base) * 0x80_0000_0000_0000,
        ;
        assert((base * one) * 0x20_0000_0000_0001 == b * one) by (nonlinear_arith)
            requires
                b == base * 0x20_0000_0000_0001,
        ;
        if 4 * current > 5 * base {
            lemma_mul_strict_inequality(b as int, more, one as int);
        } else {
            lemma_mul_strict_inequality(more, b as int, one as int);
        }
    } else {
        let limit = (2 * BINADE) as nat;
        law_above_twenty_five_percent(limit, base);
        law_percent_keeps_order(limit, current, base);
        lemma_percent(current, base);
    }
}

/// For any base, an increase is found to be above ten percent if it is so by more than one part in
/// two to the power of 48, and found not to be if it is not by as much.
#[verifier::rlimit(30)]
pub proof fn law_above_ten_percent_closely(current: nat, base: nat)
    requires
        current < 0x1_0000_0000_0000_0000,
        0 < base < 0x1_0000_0000_0000_0000,
    ensures
        ({
            let above = double::percent_more(current, base).above(
                Double { bits: 0x4024_0000_0000_0000 },
            );
            &&& 10 * current > 11 * base && (10 * current - 11 * base) * 0x1_0000_0000_0000 > base
                ==> above
            &&& 10 * current < 11 * base && (11 * base - 10 * current) * 0x1_0000_0000_0000 > base
                ==> !above
        }),
{
    let one = pow2(1074);
    lemma_pow2_pos(1074);
    if double::nearest(base).value() <= double::nearest(current).value() {
        lemma_ten_percent(current, base);
        lemma_close_difference(current, base);
        let (c, b) = (current * one, base * one);
        if (10 * current - 11 * base) * 0x1_0000_0000_0000 > base {
            assert((10 * c - 11 * b) * 0x1_0000_0000_0000 > b) by (nonlinear_arith)
                requires
                    (10 * current - 11 * base) * 0x1_0000_0000_0000 > base,
                    c == current * one,
                    b == base * one,
                    one > 0,
            ;
        }
        if (11 * base - 10 * current) * 0x1_0000_0000_0000 > base {
            assert((11 * b - 10 * c) * 0x1_0000_0000_0000 > b) by (nonlinear_arith)
                requires
                    (11 * base - 10 * current) * 0x1_0000_0000_0000 > base,
                    c == current * one,
                    b == base * one,
                    one > 0,
            ;
        }
    } else {
        lemma_percent(current, base);
        lemma_nearest(base);
        lemma_nearest(current);
        if current >= base {
            lemma_nearest_order(base, current);
        }
    }
}

/// For any base, an increase is found to be above twenty-five percent if it is so by more than one part in
/// two to the power of 48, and found not to be if it is not by as much.
#[verifier::rlimit(30)]
pub proof fn law_above_twenty_five_percent_closely(current: nat, base: nat)
    requires
        current < 0x1_0000_0000_0000_0000,
        0 < base < 0x1_0000_0000_0000_0000,
    ensures
        ({
            let above = double::percent_more(current, base).above(
                Double { bits: 0x4039_0000_0000_0000 },
            );
            &&& 4 * current > 5 * base && (4 * current - 5 * base) * 0x1_0000_0000_0000 > base
                ==> above
            &&& 4 * current < 5 * base && (5 * base - 4 * current) * 0x1_0000_0000_0000 > base
                ==> !above
        }),
{
    let one = pow2(1074);
    lemma_pow2_pos(1074);
    if double::nearest(base).value() <= double::nearest(current).value() {
        lemma_twenty_five_percent(current, base);
        lemma_close_difference(current, base);
        let (c, b) = (current * one, base * one);
        if (4 * current - 5 * base) * 0x1_0000_0000_0000 > base {
            assert((4 * c - 5 * b) * 0x1_0000_0000_0000 > b) by (nonlinear_arith)
                requires
                    (4 * current - 5 * base) * 0x1_0000_0000_0000 > base,
                    c == current * one,
                    b == base * one,
                    one > 0,
            ;
        }
        if (5 * base - 4 * current) * 0x1_0000_0000_0000 > base {
            assert((5 * b - 4 * c) * 0x1_0000_0000_0000 > b) by (nonlinear_arith)
                requires
                    (5 * base - 4 * current) * 0x1_0000_0000_0000 > base,
                    c == current * one,
                    b == base * one,
                    one > 0,
            ;
        }
    } else {
        lemma_percent(current, base);
        lemma_nearest(base);
        lemma_nearest(current);
        if current >= base {
            lemma_nearest_order(base, current);
        }
    }
}

// ── Closeness ──────────────────────────────────────────────────────────────

/// Rounding a quotient changes it by no more than one part in two to the power of 53, or half a unit.
proof fn lemma_quotient_error(n: nat, d: nat)
    requires
        d > 0,
    ensures
        0x20_0000_0000_0000 * distance(double::units(double::rounded(n, d)) * d, n) <= n + BINADE * d,
{
    let (y, m) = lemma_parts(n, d);
    let (s, e) = (pow2(y), d * pow2(y));
    let (q, r) = (n / e, n % e);
    lemma_fundamental_div_mod(n as int, e as int);
    lemma_mod_bound(n as int, e as int);
    assert(q * e == n - r) by (nonlinear_arith)
        requires
            n == e * q + r,
    ;
    assert((q + 1) * e == n - r + e) by (nonlinear_arith)
        requires
            n == e * q + r,
    ;
    assert((m * s) * d == m * e) by (nonlinear_arith)
        requires
            e == d * s,
    ;
    let off = distance(m * e, n);
    assert(2 * off <= e);
    if y > 0 {
        lemma_mul_is_commutative(e as int, BINADE as int);
        assert(BINADE * d >= 0);
    } else {
        lemma2_to64();
        lemma_mul_basics(d as int);
    }
}

/// How far the percentage, times the base, lies from the difference, times a hundred: all without
/// their signs, and in units of units.
proof fn lemma_percent_error(current: nat, base: nat)
    requires
        current < 0x1_0000_0000_0000_0000,
        0 < base < 0x1_0000_0000_0000_0000,
    ensures
        ({
            let one = pow2(1074);
            let (c, b) = (current * one, base * one);
            let percent = double::units(percent_bits(current, base));
            0x2_0000_0000_0000 * distance(percent * b, 100 * (apart(current, base) * one)) <= 100 * (
            (c + b) * one)
        }),
{
    let one = pow2(1074);
    let (c, b) = (current * one, base * one);
    let near_b = double::nearest(base).size();
    let near_c = double::nearest(current).size();
    let d = apart(current, base);
    let near_d = double::units(difference_bits(current, base));
    let q = double::units(quotient_bits(current, base));
    let p = double::units(percent_bits(current, base));
    lemma_nearest(current);
    lemma_nearest(base);
    lemma_pow2_pos(1074);
    lemma_relative_error(c);
    lemma_relative_error(b);
    lemma_relative_error(d);
    lemma_quotient_error(near_d * one, near_b);
    lemma_product(current, base);
    lemma_relative_error(q * 100);
    lemma2_to64();
    lemma_pow2_strictly_increases(64, 1074);
    // Everything in units of units.
    let (co, bo, dn, dno) = (c * one, b * one, d * one, near_d * one);
    let (y, x, pb) = (q * near_b, p * near_b, p * b);
    assert(dn <= near_c * one + near_b * one) by (nonlinear_arith)
        requires
            dn == d * one,
            d <= near_c + near_b,
            one > 0,
    ;
    lemma_scaled_error(near_c, c, c, one);
    lemma_scaled_error(near_b, b, b, one);
    lemma_scaled_error(near_d, d, d, one);
    lemma_scaled_error(p, q * 100, q * 100, near_b);
    assert((q * 100) * near_b == 100 * y) by (nonlinear_arith)
        requires
            y == q * near_b,
    ;
    lemma_scaled_error(near_b, b, b, p);
    lemma_mul_is_commutative(near_b as int, p as int);
    lemma_mul_is_commutative(b as int, p as int);
    // A unit is little next to the base.
    assert(near_b * one >= 0x1_0000_0000_0000_0000 * near_b) by (nonlinear_arith)
        requires
            one >= 0x1_0000_0000_0000_0000,
    ;
    assert((c + b) * one == co + bo) by (nonlinear_arith)
        requires
            co == c * one,
            bo == b * one,
    ;
    lemma_errors_add_up(near_c * one, co, near_b * one, bo, near_b, dn, dno, y, x, pb);
}

/// The errors of all steps, each by what it is made of, add up to a small part of the metrics.
proof fn lemma_errors_add_up(
    near_co: nat,
    co: nat,
    near_bo: nat,
    bo: nat,
    near_b: nat,
    dn: nat,
    dno: nat,
    y: nat,
    x: nat,
    pb: nat,
)
    requires
        0x20_0000_0000_0000 * distance(near_co, co) <= co,
        0x20_0000_0000_0000 * distance(near_bo, bo) <= bo,
        near_bo >= 0x1_0000_0000_0000_0000 * near_b,
        dn <= near_co + near_bo,
        0x20_0000_0000_0000 * distance(dno, dn) <= dn,
        0x20_0000_0000_0000 * distance(y, dno) <= dno + BINADE * near_b,
        0x20_0000_0000_0000 * distance(x, 100 * y) <= 100 * y,
        0x20_0000_0000_0000 * distance(x, pb) <= pb,
    ensures
        0x2_0000_0000_0000 * distance(pb, 100 * dn) <= 100 * (co + bo),
{
    let all = co + bo;
    assert(dn <= 2 * all);
    assert(dno <= 3 * all);
    assert(BINADE * near_b <= all);
    assert(y <= 4 * all);
    assert(x <= 500 * all);
    assert(pb <= 600 * all);
    let (e1, e2, e3, e4) = (distance(dno, dn), distance(y, dno), distance(x, 100 * y), distance(x, pb));
    assert(distance(pb, 100 * dn) <= 100 * e1 + 100 * e2 + e3 + e4);
}

/// An error bound holds of multiples too.
proof fn lemma_scaled_error(a: nat, b: nat, bound: nat, times: nat)
    requires
        0x20_0000_0000_0000 * distance(a, b) <= bound,
    ensures
        0x20_0000_0000_0000 * distance(a * times, b * times) <= bound * times,
{
    let off = distance(a, b);
    assert(a * times - b * times == (a - b) * times) by (nonlinear_arith);
    assert((b - a) * times == -((a - b) * times)) by (nonlinear_arith);
    assert(off * times >= 0) by (nonlinear_arith)
        requires
            off >= 0,
    ;
    assert(0x20_0000_0000_0000 * (off * times) <= bound * times) by (nonlinear_arith)
        requires
            0x20_0000_0000_0000 * off <= bound,
    ;
}

/// Times the base, the percentage is a hundred times the difference of the two metrics, but for one
/// part in two to the power of 48 of a hundred times their sum.
pub proof fn law_percent_is_close(current: nat, base: nat)
    requires
        current < 0x1_0000_0000_0000_0000,
        0 < base < 0x1_0000_0000_0000_0000,
    ensures
        ({
            let one = pow2(1074);
            let off = double::percent_more(current, base).value() * base - 100 * (current - base)
                * one;
            let part = 100 * (current + base) * one;
            -part <= 0x1_0000_0000_0000 * off <= part
        }),
{
    let one = pow2(1074);
    let (c, b) = (current * one, base * one);
    let value = double::percent_more(current, base).value();
    let p = double::units(percent_bits(current, base));
    let d = apart(current, base);
    lemma_percent(current, base);
    lemma_percent_error(current, base);
    lemma_nearest(current);
    lemma_nearest(base);
    lemma_pow2_pos(1074);
    lemma_relative_error(c);
    lemma_relative_error(b);
    let negative = double::nearest(current).value() < double::nearest(base).value();
    let (near_c, near_b) = (double::nearest(current).size(), double::nearest(base).size());
    let off = value * base - 100 * (current - base) * one;
    let part = 100 * (current + base) * one;
    // The same, times the weight of one.
    let (co, bo, pb, dn) = (c * one, b * one, p * b, d * one);
    assert(0x20_0000_0000_0000 * distance(near_c * one, co) <= co) by {
        lemma_scaled_error(near_c, c, c, one);
    }
    assert(0x20_0000_0000_0000 * distance(near_b * one, bo) <= bo) by {
        lemma_scaled_error(near_b, b, b, one);
    }
    assert((c + b) * one == co + bo) by (nonlinear_arith)
        requires
            co == c * one,
            bo == b * one,
    ;
    assert(part * one == 100 * (co + bo)) by (nonlinear_arith)
        requires
            part == 100 * (current + base) * one,
            co == (current * one) * one,
            bo == (base * one) * one,
    ;
    assert((100 * (current - base) * one) * one == 100 * (co - bo)) by (nonlinear_arith)
        requires
            co == (current * one) * one,
            bo == (base * one) * one,
    ;
    let signed_pb = if negative {
        -pb
    } else {
        pb as int
    };
    let signed_dn = if negative {
        -dn
    } else {
        dn as int
    };
    assert((value * base) * one == signed_pb) by {
        assert((p * base) * one == pb) by (nonlinear_arith)
            requires
                pb == p * (base * one),
        ;
        assert(((-p) * base) * one == -((p * base) * one)) by (nonlinear_arith);
    }
    assert(signed_dn == near_c * one - near_b * one) by {
        assert((near_c - near_b) * one == near_c * one - near_b * one) by (nonlinear_arith);
        assert((near_b - near_c) * one == near_b * one - near_c * one) by (nonlinear_arith);
    }
    assert(off * one == signed_pb - 100 * (co - bo)) by (nonlinear_arith)
        requires
            off == value * base - 100 * (current - base) * one,
            (value * base) * one == signed_pb,
            (100 * (current - base) * one) * one == 100 * (co - bo),
    ;
    assert(-(part * one) <= 0x1_0000_0000_0000 * (off * one) <= part * one);
    assert(-part <= 0x1_0000_0000_0000 * off <= part) by (nonlinear_arith)
        requires
            -(part * one) <= 0x1_0000_0000_0000 * (off * one) <= part * one,
            one > 0,
    ;
}

// ── Halves ─────────────────────────────────────────────────────────────────

/// A quotient is rounded to an integer no more than half away, and one that lies halfway between two
/// to the even one.
pub proof fn law_halves_go_to_even(n: nat, e: nat)
    requires
        e > 0,
    ensures
        2 * distance(double::div_even(n, e) * e, n) <= e,
        2 * distance(double::div_even(n, e) * e, n) == e ==> double::div_even(n, e) % 2 == 0,
{
    let (q, r) = (n / e, n % e);
    lemma_fundamental_div_mod(n as int, e as int);
    lemma_mod_bound(n as int, e as int);
    assert(q * e == n - r) by (nonlinear_arith)
        requires
            n == e * q + r,
    ;
    assert((q + 1) * e == n - r + e) by (nonlinear_arith)
        requires
            n == e * q + r,
    ;
}

/// A quotient that is as near to two numbers is rounded to the one with even bits.
pub proof fn law_ties_go_to_even(n: nat, d: nat, bits: nat)
    requires
        d > 0,
        bits != double::rounded(n, d),
        distance(double::units(bits) * d, n) == distance(
            double::units(double::rounded(n, d)) * d,
            n,
        ),
    ensures
        double::rounded(n, d) % 2 == 0,
{
    let (y, m) = lemma_parts(n, d);
    let (s, e) = (pow2(y), d * pow2(y));
    lemma_pow2_pos(y);
    assert((m * s) * d == m * e) by (nonlinear_arith)
        requires
            e == d * s,
    ;
    let low = if y > 0 {
        BINADE as nat
    } else {
        0
    };
    let first = y * (BINADE as nat);
    let v = double::units(bits);
    law_halves_go_to_even(n, e);
    if bits > first + 2 * BINADE {
        double::lemma_units_of(y, (2 * BINADE) as nat);
        double::lemma_units_increase((first + 2 * BINADE) as nat, bits);
        lemma_div_even_nearest(n, e, (2 * BINADE) as nat);
        assert(((2 * BINADE) * s) * d == (2 * BINADE) * e) by (nonlinear_arith)
            requires
                e == d * s,
        ;
        lemma_mul_strict_inequality(((2 * BINADE) * s) as int, v as int, d as int);
        lemma_mul_is_commutative(e as int, (2 * BINADE) as int);
        assert(false);
    } else if bits < first + low {
        double::lemma_units_of(y, BINADE as nat);
        double::lemma_units_increase(bits, first + BINADE as nat);
        lemma_div_even_nearest(n, e, BINADE as nat);
        assert((BINADE * s) * d == BINADE * e) by (nonlinear_arith)
            requires
                e == d * s,
        ;
        lemma_mul_strict_inequality(v as int, (BINADE * s) as int, d as int);
        lemma_mul_is_commutative(e as int, BINADE as int);
        assert(false);
    } else {
        let j = (bits - first) as nat;
        if j >= BINADE {
            double::lemma_units_of(y, j);
        } else {
            lemma2_to64();
            assert(bits / (BINADE as nat) == 0);
            assert(bits % (BINADE as nat) == bits);
            lemma_mul_basics(j as int);
        }
        assert((j * s) * d == j * e) by (nonlinear_arith)
            requires
                e == d * s,
        ;
        // The two lie a step apart at least, so the quotient is half a step away from either.
        assert(j * e - m * e >= e || m * e - j * e >= e) by (nonlinear_arith)
            requires
                j != m,
                e > 0,
        ;
        assert(2 * distance(m * e, n) == e);
        assert(m % 2 == 0);
        assert((y * (BINADE as nat)) % 2 == 0) by (nonlinear_arith)
            requires
                BINADE == 2 * 0x8_0000_0000_0000,
        {
            assert(y * (BINADE as nat) == 2 * (y * 0x8_0000_0000_0000));
        }
    }
}

// ── Single steps ───────────────────────────────────────────────────────────

/// The bits count evenly up to twice the first binade, and from there on the same bits in the next
/// binade stand for twice as much.
pub proof fn law_binades_double(bits: nat)
    ensures
        bits < 0x20_0000_0000_0000 ==> double::units(bits) == bits,
        bits >= 0x10_0000_0000_0000 ==> double::units(bits + 0x10_0000_0000_0000) == 2
            * double::units(bits),
{
    lemma2_to64();
    let (exponent, fraction) = (bits / (BINADE as nat), bits % (BINADE as nat));
    lemma_mul_basics(bits as int);
    if bits >= BINADE {
        let p = pow2((exponent - 1) as nat);
        assert((bits + BINADE) as nat / (BINADE as nat) == exponent + 1);
        assert((bits + BINADE) as nat % (BINADE as nat) == fraction);
        lemma_pow2_unfold(exponent);
        assert((BINADE + fraction) * (2 * p) == 2 * ((BINADE + fraction) * p)) by (nonlinear_arith);
    }
}

/// The value of a number is that of its bits without the sign, and less than nothing where the sign is
/// set; its size is the value without the sign. Bits above those of infinity are no number.
pub proof fn law_values_have_signs(number: Double)
    ensures
        number.bits < 0x8000_0000_0000_0000 ==> number.value() == double::units(number.bits as nat),
        number.bits >= 0x8000_0000_0000_0000 ==> number.value() == -double::units(
            (number.bits - 0x8000_0000_0000_0000) as nat,
        ),
        number.is_nan() <==> number.bits % 0x8000_0000_0000_0000 > 0x7FF0_0000_0000_0000,
        number.size() == if number.value() < 0 {
            -number.value()
        } else {
            number.value()
        },
{
    if number.bits >= SIGN {
        assert(number.bits % SIGN == number.bits - SIGN);
    }
}

/// A number is written with its sign, and with the tenths that are nearest to it: it is half a tenth
/// away at most, and where it lies halfway the even one is taken.
pub proof fn law_tenths_are_nearest(number: Double)
    requires
        number.bits % 0x8000_0000_0000_0000 < 0x7FF0_0000_0000_0000,
    ensures
        exists|n: nat|
            {
                &&& double::one_decimal(number) == (if number.bits >= 0x8000_0000_0000_0000 {
                    "-"@
                } else {
                    "+"@
                }) + #[trigger] text::tenths(n)
                &&& 2 * distance(n * pow2(1074), 10 * double::units(
                    (number.bits % 0x8000_0000_0000_0000) as nat,
                )) <= pow2(1074)
                &&& 2 * distance(n * pow2(1074), 10 * double::units(
                    (number.bits % 0x8000_0000_0000_0000) as nat,
                )) == pow2(1074) ==> n % 2 == 0
            },
{
    lemma_pow2_pos(1074);
    let n = double::div_even(10 * number.size(), pow2(1074));
    law_halves_go_to_even(10 * number.size(), pow2(1074));
    assert(double::one_decimal(number) == (if number.bits >= 0x8000_0000_0000_0000 {
        "-"@
    } else {
        "+"@
    }) + text::tenths(n));
}

/// What is no finite number is written as what it is.
pub proof fn law_no_number_is_written_as_such(number: Double)
    ensures
        number.bits % 0x8000_0000_0000_0000 > 0x7FF0_0000_0000_0000 ==> double::one_decimal(number)
            == "NaN"@,
        number.bits == 0x7FF0_0000_0000_0000 ==> double::one_decimal(number) == "+"@ + "inf"@,
        number.bits == 0xFFF0_0000_0000_0000 ==> double::one_decimal(number) == "-"@ + "inf"@,
{
    assert(0xFFF0_0000_0000_0000u64 % SIGN == 0x7FF0_0000_0000_0000);
}

/// One number is above another if and only if its value is greater; what is no number is above
/// nothing, and nothing above it.
pub proof fn law_above_is_greater(a: Double, b: Double)
    ensures
        !a.is_nan() && !b.is_nan() ==> (a.above(b) <==> a.value() > b.value()),
        a.is_nan() || b.is_nan() ==> !a.above(b),
{
}

/// How far two integers of any sign lie apart.
pub open spec fn gap(a: int, b: int) -> int {
    if a < b {
        b - a
    } else {
        a - b
    }
}

/// Whether a number is nearest to `n / d` units: no number is nearer, and where another is as near,
/// its own bits are even.
pub open spec fn is_nearest(x: Double, n: int, d: nat) -> bool {
    forall|y: Double|
        {
            &&& gap(x.value() * d, n) <= gap(#[trigger] y.value() * d, n)
            &&& gap(x.value() * d, n) == gap(y.value() * d, n) && x.value() != y.value() ==> x.bits
                % 2 == 0
        }
}

/// Rounding gives the nearest number with either sign.
proof fn lemma_signed_nearest(negative: bool, n: nat, d: nat)
    requires
        d > 0,
        double::rounded(n, d) < SIGN,
    ensures
        is_nearest(
            double::signed(negative, double::rounded(n, d)),
            if negative {
                -n
            } else {
                n as int
            },
            d,
        ),
{
    let m = double::rounded(n, d);
    let x = double::signed(negative, m);
    let exact = if negative {
        -n
    } else {
        n as int
    };
    assert(x.negative() == negative && x.magnitude() == m);
    let u = double::units(m);
    let near = distance(u * d, n);
    assert((-u) * d == -(u * d)) by (nonlinear_arith);
    assert(gap(x.value() * d, exact) == near);
    assert forall|y: Double|
        {
            &&& gap(x.value() * d, exact) <= gap(#[trigger] y.value() * d, exact)
            &&& gap(x.value() * d, exact) == gap(y.value() * d, exact) && x.value() != y.value()
                ==> x.bits % 2 == 0
        } by {
        let w = double::units(y.magnitude());
        assert((-w) * d == -(w * d)) by (nonlinear_arith);
        lemma_mul_nonnegative(w as int, d as int);
        law_rounded_is_nearest(n, d, y.magnitude());
        assert(gap(y.value() * d, exact) >= distance(w * d, n));
        if gap(x.value() * d, exact) == gap(y.value() * d, exact) && x.value() != y.value() {
            if y.magnitude() != m {
                law_ties_go_to_even(n, d, y.magnitude());
                assert(m % 2 == 0);
            } else {
                // The other number is this one with its sign turned, and as near to nothing else.
                assert(u * d == 0 || n == 0);
                if n == 0 {
                    double::lemma_rounded_zero(d);
                    double::lemma_units_zero(0);
                } else {
                    assert(u == 0) by (nonlinear_arith)
                        requires
                            u * d == 0,
                            d > 0,
                    ;
                }
                assert(false);
            }
        }
    }
}

/// The percentage is computed step by step, each step to the nearest number: the two metrics, their
/// difference, the difference over the base, and that times a hundred. Hands out what the steps give.
pub proof fn law_percent_step_by_step(current: nat, base: nat) -> (steps: (
    Double,
    Double,
    Double,
    Double,
))
    requires
        current < 0x1_0000_0000_0000_0000,
        0 < base < 0x1_0000_0000_0000_0000,
    ensures
        ({
            let (c, b, d, q) = steps;
            let one = pow2(1074);
            &&& is_nearest(c, (current * one) as int, 1)
            &&& is_nearest(b, (base * one) as int, 1)
            &&& b.value() > 0
            &&& is_nearest(d, c.value() - b.value(), 1)
            &&& is_nearest(q, d.value() * one, b.value() as nat)
            &&& is_nearest(double::percent_more(current, base), q.value() * 100, 1)
        }),
{
    let one = pow2(1074);
    let (c, b) = (double::nearest(current), double::nearest(base));
    let negative = c.value() < b.value();
    let d = double::signed(negative, difference_bits(current, base));
    let q = double::signed(negative, quotient_bits(current, base));
    lemma_percent(current, base);
    lemma_nearest(current);
    lemma_nearest(base);
    lemma_pow2_pos(1074);
    lemma_product(current, base);
    lemma_signed_nearest(false, current * one, 1);
    lemma_signed_nearest(false, base * one, 1);
    lemma_signed_nearest(negative, apart(current, base), 1);
    let (u, v) = (
        double::units(difference_bits(current, base)),
        double::units(quotient_bits(current, base)),
    );
    assert(d.negative() == negative && d.magnitude() == difference_bits(current, base));
    assert(q.negative() == negative && q.magnitude() == quotient_bits(current, base));
    assert((-u) * one == -(u * one)) by (nonlinear_arith);
    lemma_signed_nearest(negative, u * one, b.size());
    lemma_signed_nearest(negative, v * 100, 1);
    (c, b, d, q)
}

} // verus!
