//! IEEE 754 binary64 numbers on integers.
//!
//! A number is held as its bit pattern. The smallest positive number is 2^-1074, and every
//! finite number is a whole multiple of it: contracts speak of numbers in that unit, so the
//! exact sum, product or quotient of two numbers is a ratio of two integers, and an operation
//! returns the number nearest to that ratio, with ties going to the even neighbour.

pub mod laws;

use vstd::arithmetic::power2::pow2;
use vstd::prelude::*;

verus! {

/// Weight of the sign bit.
pub const SIGN: u64 = 0x8000_0000_0000_0000;

/// Weight of the lowest bit of the exponent field: the mantissa bit that is not stored.
pub const HIDDEN: u64 = 0x0010_0000_0000_0000;

/// The magnitude of the two infinities; anything larger is not a number.
pub const INFINITE: u64 = 0x7ff0_0000_0000_0000;

/// The bit pattern of an operation's result that is not a number.
pub const NAN: u64 = 0x7ff8_0000_0000_0000;

/// Extra binary places that intermediate results carry, so that their exponents are not negative.
const PLACES: u32 = 1200;

/// A binary64 number.
#[derive(Clone, Copy, Debug)]
pub struct Binary64 {
    pub bits: u64,
}

impl Binary64 {
    pub open spec fn is_negative(self) -> bool {
        self.bits >= SIGN
    }

    /// The bit pattern without its sign.
    pub open spec fn magnitude(self) -> nat {
        if self.bits >= SIGN {
            (self.bits - SIGN) as nat
        } else {
            self.bits as nat
        }
    }

    pub open spec fn is_nan(self) -> bool {
        self.magnitude() > INFINITE
    }

    pub open spec fn is_infinite(self) -> bool {
        self.magnitude() == INFINITE
    }

    pub open spec fn is_finite(self) -> bool {
        self.magnitude() < INFINITE
    }

    /// The absolute value of a finite number, in units of 2^-1074.
    pub open spec fn units(self) -> nat {
        units_of(self.magnitude())
    }

    /// The value of a finite number, in units of 2^-1074.
    pub open spec fn value(self) -> int {
        if self.is_negative() {
            -(self.units() as int)
        } else {
            self.units() as int
        }
    }
}

/// The number of units in 1.
pub open spec fn one_units() -> nat {
    pow2(1074)
}

/// The absolute value, in units of 2^-1074, that a finite bit pattern without sign stands for.
pub open spec fn units_of(magnitude: nat) -> nat {
    if magnitude < HIDDEN {
        magnitude
    } else {
        (HIDDEN + magnitude % (HIDDEN as nat)) as nat * pow2((magnitude / (HIDDEN as nat) - 1) as nat)
    }
}

/// The exponent of the spacing of the numbers around `n / d` units: the least `k` for which
/// `n / d` is below 2^(53 + k).
pub open spec fn spacing(n: nat, d: nat) -> nat
    decreases n - d,
{
    if d == 0 || n < d * pow2(53) {
        0
    } else {
        proof {
            vstd::arithmetic::power2::lemma2_to64_rest();
            assert(d * 0x20_0000_0000_0000 >= 2 * d) by (nonlinear_arith)
                requires
                    d > 0,
            ;
        }
        1 + spacing(n, 2 * d)
    }
}

/// The integer nearest to `n / d`, the even one of two that are equally near.
pub open spec fn nearest_even(n: nat, d: nat) -> nat {
    let below = n / d;
    let rest = n % d;
    if 2 * rest < d || (2 * rest == d && below % 2 == 0) {
        below
    } else {
        below + 1
    }
}

/// The bit pattern, without sign, of the number nearest to `n / d` units.
pub open spec fn nearest_magnitude(n: nat, d: nat) -> nat {
    let k = spacing(n, d);
    let magnitude = k * HIDDEN + nearest_even(n, d * pow2(k));
    if magnitude < INFINITE {
        magnitude as nat
    } else {
        INFINITE as nat
    }
}

/// The number with the given sign and magnitude.
pub open spec fn signed(negative: bool, magnitude: nat) -> Binary64 {
    Binary64 {
        bits: if negative {
            (SIGN + magnitude) as u64
        } else {
            magnitude as u64
        },
    }
}

/// The number nearest to `n / d` units, with the given sign.
pub open spec fn rounded(negative: bool, n: nat, d: nat) -> Binary64 {
    signed(negative, nearest_magnitude(n, d))
}

/// What an operation without a result returns.
pub open spec fn nan() -> Binary64 {
    Binary64 { bits: NAN }
}

/// The negation of a number.
pub open spec fn opposite(a: Binary64) -> Binary64 {
    signed(!a.is_negative(), a.magnitude())
}

/// The sum of two numbers.
pub open spec fn sum(a: Binary64, b: Binary64) -> Binary64 {
    let exact = a.value() + b.value();
    if a.is_nan() || b.is_nan() {
        nan()
    } else if a.is_infinite() && b.is_infinite() {
        if a.is_negative() == b.is_negative() {
            a
        } else {
            nan()
        }
    } else if a.is_infinite() {
        a
    } else if b.is_infinite() {
        b
    } else if exact == 0 {
        signed(a.is_negative() && b.is_negative(), 0)
    } else if exact < 0 {
        rounded(true, (-exact) as nat, 1)
    } else {
        rounded(false, exact as nat, 1)
    }
}

/// The difference of two numbers.
pub open spec fn difference(a: Binary64, b: Binary64) -> Binary64 {
    sum(a, opposite(b))
}

/// The product of two numbers.
pub open spec fn product(a: Binary64, b: Binary64) -> Binary64 {
    let negative = a.is_negative() != b.is_negative();
    if a.is_nan() || b.is_nan() {
        nan()
    } else if a.is_infinite() || b.is_infinite() {
        if a.magnitude() == 0 || b.magnitude() == 0 {
            nan()
        } else {
            signed(negative, INFINITE as nat)
        }
    } else {
        rounded(negative, a.units() * b.units(), one_units())
    }
}

/// The quotient of two numbers.
pub open spec fn quotient(a: Binary64, b: Binary64) -> Binary64 {
    let negative = a.is_negative() != b.is_negative();
    if a.is_nan() || b.is_nan() || (a.is_infinite() && b.is_infinite()) || (a.magnitude() == 0
        && b.magnitude() == 0) {
        nan()
    } else if a.is_infinite() || b.magnitude() == 0 {
        signed(negative, INFINITE as nat)
    } else if b.is_infinite() {
        signed(negative, 0)
    } else {
        rounded(negative, a.units() * one_units(), b.units())
    }
}

/// The number nearest to `n / d`.
pub open spec fn decimal(n: nat, d: nat) -> Binary64 {
    rounded(false, n * one_units(), d)
}

/// The integer part of a number, brought into the range of `u64`; 0 for what is not a number.
pub open spec fn whole_part(a: Binary64) -> u64 {
    if a.is_nan() || a.is_negative() {
        0
    } else if a.is_infinite() || a.units() / one_units() > u64::MAX {
        u64::MAX
    } else {
        (a.units() / one_units()) as u64
    }
}

/// Whether `a <= b`; false where one of them is not a number.
pub open spec fn at_most(a: Binary64, b: Binary64) -> bool {
    if a.is_nan() || b.is_nan() {
        false
    } else if a.is_infinite() && a.is_negative() {
        true
    } else if b.is_infinite() && !b.is_negative() {
        true
    } else {
        a.is_finite() && b.is_finite() && a.value() <= b.value()
    }
}

/// Whether `a < b`; false where one of them is not a number.
pub open spec fn below(a: Binary64, b: Binary64) -> bool {
    !a.is_nan() && !b.is_nan() && !at_most(b, a)
}

/// The larger of two numbers; the other one where one is not a number.
pub open spec fn larger(a: Binary64, b: Binary64) -> Binary64 {
    if below(b, a) || b.is_nan() {
        a
    } else {
        b
    }
}

/// The smaller of two numbers; the other one where one is not a number.
pub open spec fn smaller(a: Binary64, b: Binary64) -> Binary64 {
    if below(a, b) || b.is_nan() {
        a
    } else {
        b
    }
}

/// A number brought into the range from 0 to 1.
pub open spec fn unit_clamped(a: Binary64) -> Binary64 {
    if below(a, decimal(0, 1)) {
        decimal(0, 1)
    } else if below(decimal(1, 1), a) {
        decimal(1, 1)
    } else {
        a
    }
}

/// The spacing is the only exponent whose interval holds the ratio.
pub(crate) proof fn lemma_spacing_is(n: nat, d: nat, k: nat)
    requires
        d > 0,
        n < d * pow2(53 + k),
        k > 0 ==> n >= d * pow2((52 + k) as nat),
    ensures
        spacing(n, d) == k,
    decreases k,
{
    if k > 0 {
        assert(d * pow2((52 + k) as nat) >= d * pow2(53)) by {
            if k > 1 {
                vstd::arithmetic::power2::lemma_pow2_strictly_increases(53, (52 + k) as nat);
            }
            vstd::arithmetic::mul::lemma_mul_inequality(
                pow2(53) as int,
                pow2((52 + k) as nat) as int,
                d as int,
            );
            vstd::arithmetic::mul::lemma_mul_is_commutative(d as int, pow2(53) as int);
            vstd::arithmetic::mul::lemma_mul_is_commutative(d as int, pow2((52 + k) as nat) as int);
        }
        let j = (k - 1) as nat;
        assert(2 * d * pow2(53 + j) == d * pow2(53 + k)) by {
            vstd::arithmetic::power2::lemma_pow2_unfold(53 + k);
            assert(2 * d * pow2(53 + j) == d * (2 * pow2(53 + j))) by (nonlinear_arith);
        }
        if j > 0 {
            assert(2 * d * pow2((52 + j) as nat) == d * pow2((52 + k) as nat)) by {
                vstd::arithmetic::power2::lemma_pow2_unfold((52 + k) as nat);
                assert(2 * d * pow2((52 + j) as nat) == d * (2 * pow2((52 + j) as nat))) by (nonlinear_arith);
            }
        }
        lemma_spacing_is(n, 2 * d, j);
    }
}

/// Rounding a ratio `n / dd` that is known as `m` plus a fraction of a step: `m` splits into
/// `q * t + r`, where `t` steps, and `half * 2` of them, make up one `dd`.
proof fn lemma_nearest_of_parts(
    n: nat,
    dd: nat,
    c: nat,
    a: nat,
    m: nat,
    q: nat,
    r: nat,
    half: nat,
)
    requires
        dd > 0,
        c > 0,
        a > 0,
        dd * c == 2 * half * a,
        m * a <= n * c < (m + 1) * a,
        m == q * (2 * half) + r,
        r < 2 * half,
    ensures
        nearest_even(n, dd) == if r < half || (r == half && m * a == n * c && q % 2 == 0) {
            q
        } else {
            q + 1
        },
{
    assert(q * dd <= n) by (nonlinear_arith)
        requires
            c > 0,
            a > 0,
            dd * c == 2 * half * a,
            m * a <= n * c,
            m == q * (2 * half) + r,
    {
        assert(q * dd * c == q * (2 * half) * a);
        assert(q * (2 * half) * a <= m * a);
        assert((q * dd) * c <= n * c);
    }
    assert(n < (q + 1) * dd) by (nonlinear_arith)
        requires
            c > 0,
            a > 0,
            dd * c == 2 * half * a,
            n * c < (m + 1) * a,
            m == q * (2 * half) + r,
            r < 2 * half,
    {
        assert((q + 1) * dd * c == (q + 1) * (2 * half) * a);
        assert((m + 1) <= (q + 1) * (2 * half));
        assert((m + 1) * a <= (q + 1) * (2 * half) * a);
        assert(n * c < ((q + 1) * dd) * c);
    }
    let rest = (n - q * dd) as nat;
    assert(n == q * dd + rest && rest < dd) by (nonlinear_arith)
        requires
            rest == n - q * dd,
            n < (q + 1) * dd,
            q * dd <= n,
    ;
    vstd::arithmetic::div_mod::lemma_fundamental_div_mod_converse(
        n as int,
        dd as int,
        q as int,
        rest as int,
    );
    assert(2 * rest * c == 2 * (n * c) - 2 * (q * (2 * half) * a)) by (nonlinear_arith)
        requires
            dd * c == 2 * half * a,
            rest == n - q * dd,
    ;
    assert(2 * (m * a) == 2 * (q * (2 * half) * a) + 2 * (r * a)) by (nonlinear_arith)
        requires
            m == q * (2 * half) + r,
    ;
    assert((m + 1) * a == m * a + a) by (nonlinear_arith);
    assert(2 * half * a == 2 * (half * a)) by (nonlinear_arith);
    if r < half {
        assert(r * a + a <= half * a) by (nonlinear_arith)
            requires
                r < half,
        ;
        assert(2 * rest < dd) by (nonlinear_arith)
            requires
                2 * rest * c < dd * c,
                c > 0,
        ;
    } else if r == half {
        if m * a == n * c {
            assert(2 * rest == dd) by (nonlinear_arith)
                requires
                    2 * rest * c == dd * c,
                    c > 0,
            ;
        } else {
            assert(2 * rest > dd) by (nonlinear_arith)
                requires
                    2 * rest * c > dd * c,
                    c > 0,
            ;
        }
    } else {
        assert(r * a >= half * a + a) by (nonlinear_arith)
            requires
                r > half,
        ;
        assert(2 * rest > dd) by (nonlinear_arith)
            requires
                2 * rest * c > dd * c,
                c > 0,
        ;
    }
}

/// 2 to the power `e`.
fn power_of_two(e: u32) -> (r: u128)
    requires
        e < 128,
    ensures
        r == pow2(e as nat),
{
    proof {
        vstd::arithmetic::power2::lemma2_to64();
        lemma_pow2_127();
    }
    let mut r: u128 = 1;
    let mut i: u32 = 0;
    while i < e
        invariant
            i <= e < 128,
            r == pow2(i as nat),
            pow2(127) == 0x8000_0000_0000_0000_0000_0000_0000_0000,
        decreases e - i,
    {
        proof {
            vstd::arithmetic::power2::lemma_pow2_unfold((i + 1) as nat);
            lemma_pow2_at_most((i + 1) as nat, 127);
        }
        r = 2 * r;
        i = i + 1;
    }
    r
}

/// The number of binary digits of `m`.
fn bit_length(m: u128) -> (len: u32)
    ensures
        len <= 128,
        m < pow2(len as nat),
        len > 0 ==> m >= pow2((len - 1) as nat),
        m == 0 <==> len == 0,
{
    let mut h: u128 = m;
    let mut len: u32 = 0;
    proof {
        vstd::arithmetic::power2::lemma2_to64();
        lemma_pow2_127();
    }
    while h > 0
        invariant
            h as nat * pow2(len as nat) <= m < (h + 1) * pow2(len as nat),
            len > 0 ==> m >= pow2((len - 1) as nat),
            m == 0 ==> len == 0 && h == 0,
            m <= u128::MAX,
            pow2(128) == u128::MAX + 1,
        decreases h,
    {
        let ghost old_h = h;
        let ghost p = pow2(len as nat);
        assert(h * p >= p) by (nonlinear_arith)
            requires
                h > 0,
        ;
        if len >= 128 {
            proof {
                lemma_pow2_at_most(128, len as nat);
            }
        }
        h = h / 2;
        len = len + 1;
        proof {
            vstd::arithmetic::power2::lemma_pow2_unfold(len as nat);
            assert(h * (2 * p) <= old_h * p) by (nonlinear_arith)
                requires
                    2 * h <= old_h,
            ;
            assert((h + 1) * (2 * p) >= (old_h + 1) * p) by (nonlinear_arith)
                requires
                    2 * h + 1 >= old_h,
            ;
        }
    }
    assert(m < pow2(len as nat)) by (nonlinear_arith)
        requires
            m < (h + 1) * pow2(len as nat),
            h == 0,
    ;
    if len > 128 {
        proof {
            lemma_pow2_at_most(128, (len - 1) as nat);
        }
    }
    len
}

/// The number nearest to `n / d` units, where `m * 2^(p - PLACES)` is the whole part of that
/// ratio in its own unit, and `sticky` says whether there is a fraction.
fn nearest(
    negative: bool,
    m: u128,
    p: u32,
    sticky: bool,
    Ghost(n): Ghost<nat>,
    Ghost(d): Ghost<nat>,
) -> (r: Binary64)
    requires
        d > 0,
        m < pow2(127),
        p <= 8000,
        m * (pow2(p as nat) * d) <= n * pow2(PLACES as nat) < (m + 1) * (pow2(p as nat) * d),
        sticky <==> m * (pow2(p as nat) * d) != n * pow2(PLACES as nat),
        sticky ==> m >= pow2(53),
    ensures
        r == rounded(negative, n, d),
{
    let ghost c = pow2(PLACES as nat);
    let ghost a = pow2(p as nat) * d;
    proof {
        vstd::arithmetic::power2::lemma_pow2_pos(PLACES as nat);
        vstd::arithmetic::power2::lemma_pow2_pos(p as nat);
        vstd::arithmetic::power2::lemma2_to64();
        vstd::arithmetic::power2::lemma2_to64_rest();
        assert(a > 0) by (nonlinear_arith)
            requires
                a == pow2(p as nat) * d,
                d > 0,
                pow2(p as nat) > 0,
        ;
    }
    let len: u32 = bit_length(m);
    if len >= 128 {
        proof {
            lemma_pow2_at_most(127, (len - 1) as nat);
        }
    }
    let top: i64 = len as i64 + p as i64 - PLACES as i64 - 53;
    let k: i64 = if m > 0 && top > 0 {
        top
    } else {
        0
    };
    let t: i64 = k + PLACES as i64 - p as i64;
    let ghost dd = d * pow2(k as nat);
    proof {
        if m == 0 {
            assert(n == 0) by (nonlinear_arith)
                requires
                    n * c == 0,
                    c > 0,
            ;
            vstd::arithmetic::power2::lemma_pow2_pos(53);
            assert(n < d * pow2(53)) by (nonlinear_arith)
                requires
                    n == 0,
                    d > 0,
                    pow2(53) > 0,
            ;
        } else {
            lemma_spacing_of_parts(n, d, m as nat, p as nat, len as nat, k as nat);
        }
        assert(spacing(n, d) == k);
        vstd::arithmetic::power2::lemma_pow2_pos(k as nat);
        assert(dd > 0) by (nonlinear_arith)
            requires
                dd == d * pow2(k as nat),
                d > 0,
                pow2(k as nat) > 0,
        ;
    }
    let q: u128 = if m == 0 {
        proof {
            vstd::arithmetic::div_mod::lemma_fundamental_div_mod_converse(
                n as int,
                dd as int,
                0,
                0,
            );
        }
        0
    } else if t <= 0 {
        let s: u32 = (-t) as u32;
        let up: u128 = power_of_two(s);
        proof {
            assert(m * up < pow2(53)) by {
                lemma_pow2_product(m as nat, len as nat, s as nat);
                lemma_pow2_at_most((len + s) as nat, 53);
            }
            assert(dd * c * up == a) by {
                vstd::arithmetic::power2::lemma_pow2_adds(k as nat, PLACES as nat);
                vstd::arithmetic::power2::lemma_pow2_adds((k + PLACES) as nat, s as nat);
                assert(dd * c * up == d * (pow2(k as nat) * c * up)) by (nonlinear_arith)
                    requires
                        dd == d * pow2(k as nat),
                ;
                assert(d * pow2(p as nat) == pow2(p as nat) * d) by (nonlinear_arith);
            }
            assert(n == (m * up) * dd) by (nonlinear_arith)
                requires
                    n * c == m * a,
                    dd * c * up == a,
                    c > 0,
            {
                assert(n * c == ((m * up) * dd) * c);
            }
            vstd::arithmetic::div_mod::lemma_fundamental_div_mod_converse(
                n as int,
                dd as int,
                m * up,
                0,
            );
            assert(nearest_even(n, dd) == m * up);
        }
        m * up
    } else if t >= 128 {
        proof {
            assert(k == 0);
            assert(2 * n < dd) by {
                lemma_pow2_at_most(128, t as nat);
                vstd::arithmetic::power2::lemma_pow2_unfold(128);
                vstd::arithmetic::power2::lemma_pow2_adds(t as nat, p as nat);
                assert(dd * c == pow2(t as nat) * a) by (nonlinear_arith)
                    requires
                        dd == d * 1,
                        c == pow2(t as nat) * pow2(p as nat),
                        a == pow2(p as nat) * d,
                ;
                assert((m + 1) * a * 2 <= pow2(t as nat) * a) by (nonlinear_arith)
                    requires
                        2 * (m + 1) <= pow2(t as nat),
                ;
                assert(2 * n < dd) by (nonlinear_arith)
                    requires
                        2 * (n * c) < dd * c,
                        c > 0,
                ;
            }
            vstd::arithmetic::div_mod::lemma_fundamental_div_mod_converse(
                n as int,
                dd as int,
                0,
                n as int,
            );
            assert(nearest_even(n, dd) == 0);
        }
        0
    } else {
        let half: u128 = power_of_two((t - 1) as u32);
        proof {
            lemma_pow2_at_most((t - 1) as nat, 126);
            vstd::arithmetic::power2::lemma_pow2_pos((t - 1) as nat);
            vstd::arithmetic::power2::lemma_pow2_unfold(t as nat);
            vstd::arithmetic::power2::lemma_pow2_unfold(127);
            lemma_pow2_127();
        }
        let whole: u128 = 2 * half;
        let below: u128 = m / whole;
        let rest: u128 = m % whole;
        proof {
            assert(dd * c == 2 * half * a) by {
                vstd::arithmetic::power2::lemma_pow2_adds(k as nat, PLACES as nat);
                vstd::arithmetic::power2::lemma_pow2_adds(t as nat, p as nat);
                assert(dd * c == d * (pow2(k as nat) * c)) by (nonlinear_arith)
                    requires
                        dd == d * pow2(k as nat),
                ;
                assert(d * (pow2(t as nat) * pow2(p as nat)) == pow2(t as nat) * (pow2(p as nat) * d))
                    by (nonlinear_arith);
            }
            vstd::arithmetic::div_mod::lemma_fundamental_div_mod(m as int, whole as int);
            assert(m == below * (2 * half) + rest) by (nonlinear_arith)
                requires
                    m == whole * below + rest,
                    whole == 2 * half,
            ;
            lemma_nearest_of_parts(n, dd, c, a, m as nat, below as nat, rest as nat, half as nat);
            assert(below <= pow2(53)) by {
                lemma_quotient_below(m as nat, len as nat, t as nat, below as nat);
                lemma_pow2_at_most(if len >= t { (len - t) as nat } else { 0 }, 53);
            }
        }
        if rest < half || (rest == half && !sticky && below % 2 == 0) {
            below
        } else {
            below + 1
        }
    };
    let magnitude: u128 = k as u128 * HIDDEN as u128 + q;
    assert(magnitude == k * HIDDEN + nearest_even(n, dd));
    let magnitude: u64 = if magnitude < INFINITE as u128 {
        magnitude as u64
    } else {
        INFINITE
    };
    Binary64 {
        bits: if negative {
            SIGN + magnitude
        } else {
            magnitude
        },
    }
}

proof fn lemma_pow2_127()
    ensures
        pow2(127) == 0x8000_0000_0000_0000_0000_0000_0000_0000,
        pow2(128) == u128::MAX + 1,
{
    vstd::arithmetic::power2::lemma2_to64();
    vstd::arithmetic::power2::lemma2_to64_rest();
    vstd::arithmetic::power2::lemma_pow2_adds(63, 64);
    vstd::arithmetic::power2::lemma_pow2_adds(64, 64);
}

pub(crate) proof fn lemma_pow2_at_most(i: nat, j: nat)
    requires
        i <= j,
    ensures
        pow2(i) <= pow2(j),
{
    if i < j {
        vstd::arithmetic::power2::lemma_pow2_strictly_increases(i, j);
    }
}

/// A number of `len` digits times 2^s has at most `len + s` digits.
proof fn lemma_pow2_product(m: nat, len: nat, s: nat)
    requires
        m < pow2(len),
    ensures
        m * pow2(s) < pow2(len + s),
{
    vstd::arithmetic::power2::lemma_pow2_adds(len, s);
    vstd::arithmetic::power2::lemma_pow2_pos(s);
    assert(m * pow2(s) < pow2(len) * pow2(s)) by (nonlinear_arith)
        requires
            m < pow2(len),
            pow2(s) > 0,
    ;
}

/// Dropping `t` digits of a number of `len` digits leaves `len - t`.
proof fn lemma_quotient_below(m: nat, len: nat, t: nat, q: nat)
    requires
        m < pow2(len),
        q == m / pow2(t),
    ensures
        q < pow2(if len >= t { (len - t) as nat } else { 0 }),
{
    let e = if len >= t { (len - t) as nat } else { 0 };
    vstd::arithmetic::power2::lemma_pow2_adds(e, t);
    vstd::arithmetic::power2::lemma_pow2_pos(t);
    lemma_pow2_at_most(len, e + t);
    vstd::arithmetic::div_mod::lemma_fundamental_div_mod(m as int, pow2(t) as int);
    assert(q < pow2(e)) by (nonlinear_arith)
        requires
            pow2(t) * q <= m,
            m < pow2(e) * pow2(t),
    ;
}

/// The spacing around a ratio whose whole part has `len` digits.
proof fn lemma_spacing_of_parts(n: nat, d: nat, m: nat, p: nat, len: nat, k: nat)
    requires
        d > 0,
        len > 0,
        m < pow2(len),
        m >= pow2((len - 1) as nat),
        m * (pow2(p) * d) <= n * pow2(PLACES as nat) < (m + 1) * (pow2(p) * d),
        k == if len + p > PLACES + 53 { (len + p - PLACES - 53) as nat } else { 0 },
    ensures
        spacing(n, d) == k,
{
    let c = pow2(PLACES as nat);
    let a = pow2(p) * d;
    vstd::arithmetic::power2::lemma_pow2_pos(PLACES as nat);
    vstd::arithmetic::power2::lemma_pow2_adds(len, p);
    vstd::arithmetic::power2::lemma_pow2_adds(53 + k, PLACES as nat);
    lemma_pow2_at_most(len + p, 53 + k + PLACES as nat);
    assert(n < d * pow2(53 + k)) by (nonlinear_arith)
        requires
            n * c < (m + 1) * a,
            m + 1 <= pow2(len),
            a == pow2(p) * d,
            pow2(len) * pow2(p) <= pow2(53 + k) * c,
            c > 0,
    {
        assert((m + 1) * a <= pow2(len) * a);
        assert(pow2(len) * a == (pow2(len) * pow2(p)) * d);
        assert((pow2(len) * pow2(p)) * d <= (pow2(53 + k) * c) * d);
        assert((pow2(53 + k) * c) * d == (d * pow2(53 + k)) * c);
        assert(n * c < (d * pow2(53 + k)) * c);
    }
    if k > 0 {
        let low = (len - 1) as nat;
        vstd::arithmetic::power2::lemma_pow2_adds(low, p);
        vstd::arithmetic::power2::lemma_pow2_adds((52 + k) as nat, PLACES as nat);
        assert(low + p == 52 + k + PLACES);
        assert(n >= d * pow2((52 + k) as nat)) by (nonlinear_arith)
            requires
                n * c >= m * a,
                m >= pow2(low),
                a == pow2(p) * d,
                pow2(low) * pow2(p) == pow2((52 + k) as nat) * c,
                c > 0,
        {
            assert(m * a >= pow2(low) * a);
            assert(pow2(low) * a == (pow2(low) * pow2(p)) * d);
            assert((pow2((52 + k) as nat) * c) * d == (d * pow2((52 + k) as nat)) * c);
            assert(n * c >= (d * pow2((52 + k) as nat)) * c);
        }
    }
    lemma_spacing_is(n, d, k);
}

/// A larger bit pattern stands for a larger value.
pub(crate) proof fn lemma_units_increase(x: nat, y: nat)
    requires
        x < y,
    ensures
        units_of(x) < units_of(y),
{
    let h = HIDDEN as nat;
    let rx = x % h;
    let ry = y % h;
    vstd::arithmetic::power2::lemma2_to64();
    if y < h {
    } else {
        let fy = (y / h - 1) as nat;
        let sy = pow2(fy);
        vstd::arithmetic::power2::lemma_pow2_pos(fy);
        if x < h {
            assert((h + ry) * sy >= h + ry) by (nonlinear_arith)
                requires
                    sy >= 1,
            ;
        } else {
            let fx = (x / h - 1) as nat;
            let sx = pow2(fx);
            vstd::arithmetic::power2::lemma_pow2_pos(fx);
            if fx == fy {
                assert(rx < ry);
                assert((h + rx) * sx < (h + ry) * sx) by (nonlinear_arith)
                    requires
                        rx < ry,
                        sx > 0,
                ;
            } else {
                assert(fx < fy);
                vstd::arithmetic::power2::lemma_pow2_unfold(fx + 1);
                lemma_pow2_at_most(fx + 1, fy);
                assert((h + rx) * sx < (2 * h) * sx) by (nonlinear_arith)
                    requires
                        rx < h,
                        sx > 0,
                ;
                assert((2 * h) * sx <= h * sy) by (nonlinear_arith)
                    requires
                        2 * sx <= sy,
                ;
                assert(h * sy <= (h + ry) * sy) by (nonlinear_arith);
            }
        }
    }
}

impl Binary64 {
    /// The number with a given bit pattern.
    pub fn from_bits(bits: u64) -> (r: Binary64)
        ensures
            r.bits == bits,
    {
        Binary64 { bits }
    }

    /// The bit pattern.
    pub fn to_bits(&self) -> (bits: u64)
        ensures
            bits == self.bits,
    {
        self.bits
    }

    /// The sign and the pattern without it.
    fn split(self) -> (r: (bool, u64))
        ensures
            r.0 == self.is_negative(),
            r.1 == self.magnitude(),
    {
        if self.bits >= SIGN {
            (true, self.bits - SIGN)
        } else {
            (false, self.bits)
        }
    }

    /// The mantissa and the exponent of a finite number.
    fn parts(self) -> (r: (u64, u32))
        requires
            self.is_finite(),
        ensures
            r.0 * pow2(r.1 as nat) == self.units(),
            r.0 < 2 * HIDDEN,
            r.1 <= 2045,
            r.1 > 0 ==> r.0 >= HIDDEN,
            r.0 == 0 <==> self.magnitude() == 0,
    {
        let (_, magnitude) = self.split();
        proof {
            vstd::arithmetic::power2::lemma2_to64();
        }
        if magnitude < HIDDEN {
            assert(magnitude * pow2(0) == magnitude) by (nonlinear_arith)
                requires
                    pow2(0) == 1,
            ;
            (magnitude, 0)
        } else {
            (HIDDEN + magnitude % HIDDEN, (magnitude / HIDDEN - 1) as u32)
        }
    }

    /// `-self`.
    pub fn negated(self) -> (r: Binary64)
        ensures
            r == opposite(self),
    {
        let (negative, magnitude) = self.split();
        Binary64 {
            bits: if negative {
                magnitude
            } else {
                SIGN + magnitude
            },
        }
    }

    /// The number without its sign.
    pub fn abs(self) -> (r: Binary64)
        ensures
            r == signed(false, self.magnitude()),
    {
        let (_, magnitude) = self.split();
        Binary64 { bits: magnitude }
    }

    /// `self <= other`.
    pub fn le(self, other: Binary64) -> (r: bool)
        ensures
            r == at_most(self, other),
    {
        let (n1, m1) = self.split();
        let (n2, m2) = other.split();
        proof {
            if m1 < m2 {
                lemma_units_increase(m1 as nat, m2 as nat);
            }
            if m2 < m1 {
                lemma_units_increase(m2 as nat, m1 as nat);
            }
            if m1 > 0 {
                lemma_units_increase(0, m1 as nat);
            }
            if m2 > 0 {
                lemma_units_increase(0, m2 as nat);
            }
        }
        if m1 > INFINITE || m2 > INFINITE {
            false
        } else if n1 {
            if n2 {
                m1 >= m2
            } else {
                true
            }
        } else if n2 {
            m1 == 0 && m2 == 0
        } else {
            m1 <= m2
        }
    }

    /// `self < other`.
    pub fn lt(self, other: Binary64) -> (r: bool)
        ensures
            r == below(self, other),
    {
        let (_, m1) = self.split();
        let (_, m2) = other.split();
        m1 <= INFINITE && m2 <= INFINITE && !other.le(self)
    }
}

/// The number nearest to a sum of two numbers, the first with the larger exponent.
fn sum_of_parts(
    negative1: bool,
    m1: u64,
    k1: u32,
    negative2: bool,
    m2: u64,
    k2: u32,
    Ghost(a): Ghost<Binary64>,
    Ghost(b): Ghost<Binary64>,
) -> (r: Binary64)
    requires
        a.is_finite(),
        b.is_finite(),
        m1 < 2 * HIDDEN,
        m2 < 2 * HIDDEN,
        k2 <= k1 <= 2045,
        k1 > 0 ==> m1 >= HIDDEN,
        m1 * pow2(k1 as nat) == a.units(),
        m2 * pow2(k2 as nat) == b.units(),
        negative1 == a.is_negative(),
        negative2 == b.is_negative(),
    ensures
        r == sum(a, b),
{
    let gap: u32 = k1 - k2;
    let ghost exact = a.value() + b.value();
    let ghost n: nat = if exact < 0 {
        (-exact) as nat
    } else {
        exact as nat
    };
    let ghost c = pow2(PLACES as nat);
    proof {
        lemma_pow2_127();
        vstd::arithmetic::power2::lemma2_to64();
        vstd::arithmetic::power2::lemma2_to64_rest();
        vstd::arithmetic::power2::lemma_pow2_pos(k2 as nat);
        vstd::arithmetic::power2::lemma_pow2_pos(PLACES as nat);
    }
    if gap <= 64 {
        let shift: u128 = power_of_two(gap);
        proof {
            lemma_pow2_product(m1 as nat, 53, gap as nat);
            lemma_pow2_at_most((53 + gap) as nat, 117);
            vstd::arithmetic::power2::lemma_pow2_adds(gap as nat, k2 as nat);
            vstd::arithmetic::power2::lemma_pow2_adds(63, 54);
        }
        let big: u128 = m1 as u128 * shift;
        let small: u128 = m2 as u128;
        let ghost u = pow2(k2 as nat);
        proof {
            assert(big * u == a.units()) by (nonlinear_arith)
                requires
                    big == m1 * shift,
                    m1 * (shift * u) == a.units(),
            ;
        }
        let (negative, m): (bool, u128) = if negative1 == negative2 {
            assert((big + small) * u == big * u + small * u) by (nonlinear_arith);
            (negative1, big + small)
        } else if big >= small {
            assert((big - small) * u == big * u - small * u) by (nonlinear_arith);
            (negative1, (big - small) as u128)
        } else {
            assert((small - big) * u == small * u - big * u) by (nonlinear_arith);
            (negative2, (small - big) as u128)
        };
        assert(m * u == n) by {
            assert(m * u >= 0) by (nonlinear_arith);
        }
        if m == 0 {
            assert(0 * u == 0) by (nonlinear_arith);
            return Binary64 {
                bits: if negative1 && negative2 {
                    SIGN
                } else {
                    0
                },
            };
        }
        assert(n > 0) by (nonlinear_arith)
            requires
                m * u == n,
                m > 0,
                u > 0,
        ;
        proof {
            vstd::arithmetic::power2::lemma_pow2_adds(k2 as nat, PLACES as nat);
            let w = pow2((k2 + PLACES) as nat);
            assert(m * (w * 1) == n * c) by (nonlinear_arith)
                requires
                    w == u * c,
                    m * u == n,
            ;
            assert((m + 1) * (w * 1) > m * (w * 1)) by (nonlinear_arith)
                requires
                    w == u * c,
                    u > 0,
                    c > 0,
            ;
        }
        nearest(negative, m, k2 + PLACES, false, Ghost(n), Ghost(1))
    } else {
        let g: u32 = gap - 64;
        let (w, rest): (u64, u64) = if g >= 64 {
            (0, m2)
        } else {
            let whole: u128 = power_of_two(g);
            ((m2 as u128 / whole) as u64, (m2 as u128 % whole) as u64)
        };
        let ghost u = pow2((k1 - 64) as nat);
        let ghost tail = rest * pow2(k2 as nat);
        proof {
            let t = pow2(g as nat);
            let v = pow2(k2 as nat);
            vstd::arithmetic::power2::lemma_pow2_pos(g as nat);
            vstd::arithmetic::power2::lemma_pow2_adds(g as nat, k2 as nat);
            vstd::arithmetic::power2::lemma_pow2_adds(64, (k1 - 64) as nat);
            if g >= 64 {
                lemma_pow2_at_most(64, g as nat);
                assert(m2 == 0 * t + rest) by (nonlinear_arith)
                    requires
                        m2 == rest,
                ;
            } else {
                vstd::arithmetic::div_mod::lemma_fundamental_div_mod(m2 as int, t as int);
                vstd::arithmetic::mul::lemma_mul_is_commutative(t as int, w as int);
            }
            assert(m2 == w * t + rest && rest < t);
            assert(b.units() == w * u + tail) by (nonlinear_arith)
                requires
                    b.units() == m2 * v,
                    m2 == w * t + rest,
                    u == t * v,
                    tail == rest * v,
            ;
            assert(0 <= tail < u && (tail == 0 <==> rest == 0)) by (nonlinear_arith)
                requires
                    rest < t,
                    u == t * v,
                    tail == rest * v,
                    v > 0,
            ;
            assert(w <= m2) by (nonlinear_arith)
                requires
                    m2 == w * t + rest,
                    t > 0,
            ;
        }
        let big: u128 = m1 as u128 * 0x1_0000_0000_0000_0000;
        proof {
            assert(big * u == a.units()) by (nonlinear_arith)
                requires
                    big == m1 * 0x1_0000_0000_0000_0000,
                    m1 * (0x1_0000_0000_0000_0000 * u) == a.units(),
            ;
        }
        let m: u128 = if negative1 == negative2 {
            assert((big + w) * u == big * u + w * u) by (nonlinear_arith);
            big + w as u128
        } else if rest == 0 {
            assert((big - w) * u == big * u - w * u) by (nonlinear_arith);
            big - w as u128
        } else {
            assert((big - w - 1) * u == big * u - w * u - u) by (nonlinear_arith);
            big - w as u128 - 1
        };
        proof {
            assert(m * u >= u) by (nonlinear_arith)
                requires
                    m >= 1,
            ;
            assert((m + 1) * u == m * u + u) by (nonlinear_arith);
            assert(m * u <= n < (m + 1) * u);
            assert(exact < 0 <==> negative1);
            vstd::arithmetic::power2::lemma_pow2_adds((k1 - 64) as nat, PLACES as nat);
            let p = pow2((k1 - 64 + PLACES) as nat);
            assert(m * (p * 1) == (m * u) * c && (m + 1) * (p * 1) == ((m + 1) * u) * c)
                by (nonlinear_arith)
                requires
                    p == u * c,
            ;
            assert((m * u) * c <= n * c && n * c < ((m + 1) * u) * c && ((m * u) * c == n * c <==> m
                * u == n)) by (nonlinear_arith)
                requires
                    m * u <= n < (m + 1) * u,
                    c > 0,
            ;
        }
        nearest(negative1, m, k1 - 64 + PLACES, rest > 0, Ghost(n), Ghost(1))
    }
}

/// The number nearest to the quotient of `m1 * 2^k1` by `m2 * 2^k2`.
fn quotient_of_parts(negative: bool, m1: u64, k1: u32, m2: u64, k2: u32) -> (r: Binary64)
    requires
        m1 < 2 * HIDDEN,
        0 < m2 < 2 * HIDDEN,
        k1 <= 2045,
        k2 <= 2045,
    ensures
        r == rounded(
            negative,
            (m1 * pow2(k1 as nat)) as nat * one_units(),
            (m2 * pow2(k2 as nat)) as nat,
        ),
{
    let ghost n: nat = (m1 * pow2(k1 as nat)) as nat * one_units();
    let ghost d: nat = (m2 * pow2(k2 as nat)) as nat;
    let ghost c = pow2(PLACES as nat);
    proof {
        lemma_pow2_127();
        vstd::arithmetic::power2::lemma2_to64();
        vstd::arithmetic::power2::lemma2_to64_rest();
        vstd::arithmetic::power2::lemma_pow2_pos(k2 as nat);
        assert(d > 0) by (nonlinear_arith)
            requires
                d == m2 * pow2(k2 as nat),
                m2 > 0,
                pow2(k2 as nat) > 0,
        ;
    }
    if m1 == 0 {
        proof {
            let p = pow2(PLACES as nat);
            vstd::arithmetic::power2::lemma_pow2_pos(PLACES as nat);
            assert(n == 0) by (nonlinear_arith)
                requires
                    n == (m1 * pow2(k1 as nat)) as nat * one_units(),
                    m1 == 0,
            ;
            assert(0 * (p * d) == 0 && n * p == 0 && 1 * (p * d) > 0) by (nonlinear_arith)
                requires
                    n == 0,
                    p > 0,
                    d > 0,
            ;
        }
        return nearest(negative, 0, PLACES, false, Ghost(n), Ghost(d));
    }
    let mut m: u64 = m1;
    let mut j: u32 = 0;
    assert(m1 * pow2(0) == m1) by (nonlinear_arith)
        requires
            pow2(0) == 1,
    ;
    while m < HIDDEN
        invariant
            m == m1 * pow2(j as nat),
            0 < m < 2 * HIDDEN,
            j <= 52,
            m >= pow2(j as nat),
            pow2(52) == HIDDEN,
        decreases 2 * HIDDEN - m,
    {
        proof {
            vstd::arithmetic::power2::lemma_pow2_unfold((j + 1) as nat);
            assert(m1 * pow2((j + 1) as nat) == 2 * (m1 * pow2(j as nat))) by (nonlinear_arith)
                requires
                    pow2((j + 1) as nat) == 2 * pow2(j as nat),
            ;
        }
        m = 2 * m;
        j = j + 1;
    }
    let high: u128 = m as u128 * 0x1_0000_0000_0000_0000;
    let q: u128 = high / m2 as u128;
    let rest: u128 = high % m2 as u128;
    let p: u32 = k1 + (1074 + PLACES - 64) - j - k2;
    proof {
        vstd::arithmetic::div_mod::lemma_fundamental_div_mod(high as int, m2 as int);
        assert(q >= HIDDEN * 2) by (nonlinear_arith)
            requires
                high == m2 * q + rest,
                rest < m2,
                m2 < 2 * HIDDEN,
                high >= HIDDEN * 0x1_0000_0000_0000_0000,
        ;
        assert(q <= high) by (nonlinear_arith)
            requires
                high == m2 * q + rest,
                m2 > 0,
        ;
        // n * c == high * 2^e, where e = k1 - j + 1010 + PLACES
        let e = (k1 + 1010 + PLACES - j) as nat;
        vstd::arithmetic::power2::lemma_pow2_adds(64, e);
        vstd::arithmetic::power2::lemma_pow2_adds(j as nat, 64 + e);
        vstd::arithmetic::power2::lemma_pow2_adds(k1 as nat, 1074);
        vstd::arithmetic::power2::lemma_pow2_adds((k1 + 1074) as nat, PLACES as nat);
        vstd::arithmetic::power2::lemma_pow2_adds(p as nat, k2 as nat);
        vstd::arithmetic::power2::lemma_pow2_pos(e);
        let f = pow2(e);
        let v = pow2(k2 as nat);
        let s = pow2(p as nat);
        assert(j + (64 + e) == k1 + 1074 + PLACES);
        assert(n * c == high * f) by (nonlinear_arith)
            requires
                n == (m1 * pow2(k1 as nat)) as nat * pow2(1074),
                high == m1 * pow2(j as nat) * 0x1_0000_0000_0000_0000,
                pow2(j as nat) * (0x1_0000_0000_0000_0000 * f) == (pow2(k1 as nat) * pow2(1074))
                    * c,
        {
            assert(n * c == m1 * ((pow2(k1 as nat) * pow2(1074)) * c));
            assert(high * f == m1 * (pow2(j as nat) * (0x1_0000_0000_0000_0000 * f)));
        }
        assert(q * (s * d) == (m2 * q) * f && (q + 1) * (s * d) == (m2 * q + m2) * f)
            by (nonlinear_arith)
            requires
                d == m2 * v,
                f == s * v,
        ;
        assert((m2 * q) * f <= high * f && high * f < (m2 * q + m2) * f && ((m2 * q) * f == high * f
            <==> rest == 0)) by (nonlinear_arith)
            requires
                high == m2 * q + rest,
                rest < m2,
                f > 0,
        ;
    }
    nearest(negative, q, p, rest > 0, Ghost(n), Ghost(d))
}

impl Binary64 {
    /// `self + other`.
    pub fn plus(self, other: Binary64) -> (r: Binary64)
        ensures
            r == sum(self, other),
    {
        let (n1, m1) = self.split();
        let (n2, m2) = other.split();
        if m1 > INFINITE || m2 > INFINITE {
            Binary64 { bits: NAN }
        } else if m1 == INFINITE && m2 == INFINITE {
            if n1 == n2 {
                self
            } else {
                Binary64 { bits: NAN }
            }
        } else if m1 == INFINITE {
            self
        } else if m2 == INFINITE {
            other
        } else {
            let (a, ka) = self.parts();
            let (b, kb) = other.parts();
            if ka >= kb {
                sum_of_parts(n1, a, ka, n2, b, kb, Ghost(self), Ghost(other))
            } else {
                sum_of_parts(n2, b, kb, n1, a, ka, Ghost(other), Ghost(self))
            }
        }
    }

    /// `self - other`.
    pub fn minus(self, other: Binary64) -> (r: Binary64)
        ensures
            r == difference(self, other),
    {
        self.plus(other.negated())
    }

    /// `self * other`.
    pub fn times(self, other: Binary64) -> (r: Binary64)
        ensures
            r == product(self, other),
    {
        let (n1, m1) = self.split();
        let (n2, m2) = other.split();
        let negative: bool = n1 != n2;
        if m1 > INFINITE || m2 > INFINITE {
            Binary64 { bits: NAN }
        } else if m1 == INFINITE || m2 == INFINITE {
            if m1 == 0 || m2 == 0 {
                Binary64 { bits: NAN }
            } else {
                Binary64 {
                    bits: if negative {
                        SIGN + INFINITE
                    } else {
                        INFINITE
                    },
                }
            }
        } else {
            let (a, ka) = self.parts();
            let (b, kb) = other.parts();
            proof {
                assert(a * b < 0x400_0000_0000_0000_0000_0000_0000)
                    by (nonlinear_arith)
                    requires
                        a < 0x20_0000_0000_0000,
                        b < 0x20_0000_0000_0000,
                ;
                lemma_pow2_127();
            }
            let m: u128 = a as u128 * b as u128;
            let p: u32 = ka + kb + (PLACES - 1074);
            let ghost n = self.units() * other.units();
            let ghost d = one_units();
            proof {
                let x = pow2(ka as nat);
                let y = pow2(kb as nat);
                let s = pow2(p as nat);
                let c = pow2(PLACES as nat);
                vstd::arithmetic::power2::lemma_pow2_pos(1074);
                vstd::arithmetic::power2::lemma_pow2_adds(ka as nat, kb as nat);
                vstd::arithmetic::power2::lemma_pow2_adds((ka + kb) as nat, PLACES as nat);
                vstd::arithmetic::power2::lemma_pow2_adds(p as nat, 1074);
                vstd::arithmetic::power2::lemma_pow2_pos((p + 1074) as nat);
                assert(n * c == m * (x * y * c)) by (nonlinear_arith)
                    requires
                        n == self.units() * other.units(),
                        self.units() == a * x,
                        other.units() == b * y,
                        m == a * b,
                ;
                assert((m + 1) * (s * d) > m * (s * d)) by (nonlinear_arith)
                    requires
                        s * d > 0,
                ;
            }
            nearest(negative, m, p, false, Ghost(n), Ghost(d))
        }
    }

    /// `self / other`.
    pub fn over(self, other: Binary64) -> (r: Binary64)
        ensures
            r == quotient(self, other),
    {
        let (n1, m1) = self.split();
        let (n2, m2) = other.split();
        let negative: bool = n1 != n2;
        if m1 > INFINITE || m2 > INFINITE || (m1 == INFINITE && m2 == INFINITE) || (m1 == 0 && m2
            == 0) {
            Binary64 { bits: NAN }
        } else if m1 == INFINITE || m2 == 0 {
            Binary64 {
                bits: if negative {
                    SIGN + INFINITE
                } else {
                    INFINITE
                },
            }
        } else if m2 == INFINITE {
            Binary64 {
                bits: if negative {
                    SIGN
                } else {
                    0
                },
            }
        } else {
            let (a, ka) = self.parts();
            let (b, kb) = other.parts();
            quotient_of_parts(negative, a, ka, b, kb)
        }
    }

    /// The number nearest to the fraction `n / d`.
    pub fn ratio(n: u64, d: u64) -> (r: Binary64)
        requires
            n < 2 * HIDDEN,
            0 < d < 2 * HIDDEN,
        ensures
            r == decimal(n as nat, d as nat),
    {
        proof {
            vstd::arithmetic::power2::lemma2_to64();
            assert(n * pow2(0) == n && d * pow2(0) == d) by (nonlinear_arith)
                requires
                    pow2(0) == 1,
            ;
        }
        quotient_of_parts(false, n, 0, d, 0)
    }

    /// The number nearest to an integer.
    pub fn from_u64(n: u64) -> (r: Binary64)
        ensures
            r == decimal(n as nat, 1),
    {
        let ghost x = n as nat * one_units();
        proof {
            let c = pow2(PLACES as nat);
            let w = pow2((1074 + PLACES) as nat);
            vstd::arithmetic::power2::lemma2_to64();
            lemma_pow2_127();
            vstd::arithmetic::power2::lemma_pow2_adds(1074, PLACES as nat);
            vstd::arithmetic::power2::lemma_pow2_pos((1074 + PLACES) as nat);
            assert(n * (w * 1) == x * c) by (nonlinear_arith)
                requires
                    x == n * pow2(1074),
                    w == pow2(1074) * c,
            ;
            assert((n + 1) * (w * 1) > n * (w * 1)) by (nonlinear_arith)
                requires
                    w > 0,
            ;
        }
        nearest(false, n as u128, 1074 + PLACES, false, Ghost(x), Ghost(1))
    }

    /// The integer part, brought into the range of `u64`.
    pub fn to_u64(self) -> (r: u64)
        ensures
            r == whole_part(self),
    {
        let (negative, magnitude) = self.split();
        if magnitude > INFINITE || negative {
            return 0;
        }
        if magnitude == INFINITE {
            return u64::MAX;
        }
        let (m, k) = self.parts();
        let ghost one = one_units();
        proof {
            vstd::arithmetic::power2::lemma_pow2_pos(1074);
            vstd::arithmetic::power2::lemma2_to64();
            vstd::arithmetic::power2::lemma2_to64_rest();
        }
        if k >= 1074 {
            let s: u32 = k - 1074;
            proof {
                vstd::arithmetic::power2::lemma_pow2_adds(s as nat, 1074);
                let q = m * pow2(s as nat);
                assert(self.units() == q * one) by (nonlinear_arith)
                    requires
                        self.units() == m * (pow2(s as nat) * one),
                        q == m * pow2(s as nat),
                ;
                assert(q >= 0) by (nonlinear_arith)
                    requires
                        q == m * pow2(s as nat),
                ;
                vstd::arithmetic::div_mod::lemma_fundamental_div_mod_converse(
                    self.units() as int,
                    one as int,
                    q,
                    0,
                );
            }
            if s > 11 {
                proof {
                    lemma_pow2_at_most(12, s as nat);
                    assert(m * pow2(s as nat) >= 0x10_0000_0000_0000 * 0x1000) by (nonlinear_arith)
                        requires
                            m >= 0x10_0000_0000_0000,
                            pow2(s as nat) >= 0x1000,
                    ;
                }
                u64::MAX
            } else {
                let shift: u128 = power_of_two(s);
                proof {
                    lemma_pow2_product(m as nat, 53, s as nat);
                    lemma_pow2_at_most((53 + s) as nat, 64);
                }
                (m as u128 * shift) as u64
            }
        } else {
            let s: u32 = 1074 - k;
            proof {
                vstd::arithmetic::power2::lemma_pow2_adds(s as nat, k as nat);
                vstd::arithmetic::power2::lemma_pow2_pos(s as nat);
                vstd::arithmetic::power2::lemma_pow2_pos(k as nat);
                let t = pow2(s as nat);
                let v = pow2(k as nat);
                let q = m as nat / t;
                let r = m as nat % t;
                vstd::arithmetic::div_mod::lemma_fundamental_div_mod(m as int, t as int);
                assert(self.units() == q * one + r * v && 0 <= r * v < one) by (nonlinear_arith)
                    requires
                        self.units() == m * v,
                        one == t * v,
                        m == t * q + r,
                        0 <= r < t,
                        v > 0,
                ;
                vstd::arithmetic::div_mod::lemma_fundamental_div_mod_converse(
                    self.units() as int,
                    one as int,
                    q as int,
                    (r * v) as int,
                );
            }
            if s > 63 {
                proof {
                    lemma_pow2_at_most(64, s as nat);
                    vstd::arithmetic::div_mod::lemma_fundamental_div_mod_converse(
                        m as int,
                        pow2(s as nat) as int,
                        0,
                        m as int,
                    );
                }
                0
            } else {
                let whole: u128 = power_of_two(s);
                proof {
                    assert(m as nat / pow2(s as nat) <= m) by {
                        vstd::arithmetic::div_mod::lemma_div_is_ordered_by_denominator(
                            m as int,
                            1,
                            pow2(s as nat) as int,
                        );
                    }
                }
                (m as u128 / whole) as u64
            }
        }
    }

    /// The larger of two numbers.
    pub fn max(self, other: Binary64) -> (r: Binary64)
        ensures
            r == larger(self, other),
    {
        let (_, m) = other.split();
        if other.lt(self) || m > INFINITE {
            self
        } else {
            other
        }
    }

    /// The smaller of two numbers.
    pub fn min(self, other: Binary64) -> (r: Binary64)
        ensures
            r == smaller(self, other),
    {
        let (_, m) = other.split();
        if self.lt(other) || m > INFINITE {
            self
        } else {
            other
        }
    }

    /// The number brought into the range from 0 to 1.
    pub fn clamp_to_unit(self) -> (r: Binary64)
        ensures
            r == unit_clamped(self),
    {
        let zero = Binary64::from_u64(0);
        let one = Binary64::from_u64(1);
        if self.lt(zero) {
            zero
        } else if one.lt(self) {
            one
        } else {
            self
        }
    }
}

} // verus!
