//! Exact rational numbers: the value type of every measurement and of
//! every arithmetic result in this crate.
//!
//! A value is kept as a sign-normalized, fully reduced fraction of two
//! `i64`s. All operations compute the exact mathematical result over
//! `i128` intermediates, reduce it by the greatest common divisor, and
//! report `Overflow` when the reduced fraction does not fit back into
//! `i64`s; nothing is ever rounded.

use crate::errors::ConvertError;
use vstd::arithmetic::div_mod::{
    lemma_div_basics, lemma_fundamental_div_mod, lemma_mod_multiples_basic, lemma_mod_self_0,
};
use vstd::prelude::*;

verus! {

/// Greatest common divisor, by Euclid's recursion.
pub open spec fn gcd(a: nat, b: nat) -> nat
    decreases b,
{
    if b == 0 {
        a
    } else {
        gcd(b, a % b)
    }
}

/// Absolute value over `int`.
pub open spec fn abs_i(n: int) -> int {
    if n < 0 {
        -n
    } else {
        n
    }
}

/// The sign-normalized, fully reduced form of the fraction `n / d`
/// (meaningful only for `d != 0`): the denominator is made positive,
/// then both components are divided by their greatest common divisor.
pub open spec fn reduce_frac(n: int, d: int) -> (int, int) {
    let n1 = if d < 0 {
        -n
    } else {
        n
    };
    let d1 = if d < 0 {
        -d
    } else {
        d
    };
    let g = gcd(abs_i(n1) as nat, d1 as nat) as int;
    (n1 / g, d1 / g)
}

/// Whether a reduced fraction fits the `i64` representation. The
/// numerator range is kept symmetric so that negation never overflows.
pub open spec fn frac_fits(p: (int, int)) -> bool {
    &&& -0x7fff_ffff_ffff_ffff <= p.0 <= 0x7fff_ffff_ffff_ffff
    &&& 1 <= p.1 <= 0x7fff_ffff_ffff_ffff
}

/// Reduce `n / d` and range-check the result: `Some` with the canonical
/// form when it is representable, `None` otherwise.
pub open spec fn checked_frac(n: int, d: int) -> Option<(int, int)> {
    let p = reduce_frac(n, d);
    if frac_fits(p) {
        Some(p)
    } else {
        None
    }
}

/// Equality of two fractions as rational numbers (by cross
/// multiplication; meaningful for nonzero denominators).
pub open spec fn frac_eq(a: (int, int), b: (int, int)) -> bool {
    a.0 * b.1 == b.0 * a.1
}

/// An exact rational number: `num / den`, sign-normalized and reduced.
#[derive(Debug, Clone, Copy, PartialEq, Eq, Structural)]
pub struct Rat {
    pub num: i64,
    pub den: i64,
}

/// Euclid's recursion preserves positivity and divides both arguments.
pub proof fn lemma_gcd_divides(a: nat, b: nat)
    ensures
        a != 0 || b != 0 ==> {
            let g = gcd(a, b);
            &&& g >= 1
            &&& a % g == 0
            &&& b % g == 0
        },
    decreases b,
{
    if b == 0 {
        if a != 0 {
            lemma_mod_self_0(a as int);
        }
    } else {
        lemma_gcd_divides(b, a % b);
        let g = gcd(b, a % b);
        assert(g >= 1);
        let r = a % b;
        lemma_fundamental_div_mod(a as int, b as int);
        lemma_fundamental_div_mod(b as int, g as int);
        lemma_fundamental_div_mod(r as int, g as int);
        let q = (a as int) / (b as int);
        let k = (b as int) / (g as int) * q + (r as int) / (g as int);
        assert(a as int == g as int * k) by (nonlinear_arith)
            requires
                a as int == b as int * q + r as int,
                b as int == g as int * (b as int / g as int),
                r as int == g as int * (r as int / g as int),
                k == (b as int) / (g as int) * q + (r as int) / (g as int),
        ;
        lemma_mod_multiples_basic(k, g as int);
    }
}

/// A positive divisor of a positive number is no larger than it.
proof fn lemma_divisor_le(x: int, g: int)
    requires
        1 <= g,
        1 <= x,
        x % g == 0,
    ensures
        g <= x,
        1 <= x / g,
{
    lemma_fundamental_div_mod(x, g);
    assert(1 <= x / g && g <= x) by (nonlinear_arith)
        requires
            x == g * (x / g) + x % g,
            x % g == 0,
            1 <= g,
            1 <= x,
    ;
}

/// Reduction keeps the rational value: the reduced form of `n / d`
/// equals `n / d` by cross multiplication.
pub proof fn lemma_reduce_value(n: int, d: int)
    requires
        d != 0,
    ensures
        frac_eq(reduce_frac(n, d), (n, d)),
        1 <= reduce_frac(n, d).1,
{
    let n1 = if d < 0 { -n } else { n };
    let d1 = if d < 0 { -d } else { d };
    let g = gcd(abs_i(n1) as nat, d1 as nat) as int;
    lemma_gcd_divides(abs_i(n1) as nat, d1 as nat);
    assert(g >= 1);
    lemma_divisor_le(d1, g);
    lemma_fundamental_div_mod(d1, g);
    if n1 == 0 {
        assert(abs_i(n1) as nat % (g as nat) == 0);
        lemma_fundamental_div_mod(n1, g);
        assert(n1 / g == 0) by (nonlinear_arith)
            requires
                n1 == 0,
                g >= 1,
                n1 == g * (n1 / g) + n1 % g,
                0 <= n1 % g < g,
        ;
        assert(frac_eq((n1 / g, d1 / g), (n, d))) by (nonlinear_arith)
            requires
                n1 / g == 0,
                n1 == 0,
                (d < 0 ==> n1 == -n && d1 == -d) && (d >= 0 ==> n1 == n && d1 == d),
        ;
    } else {
        let m = abs_i(n1);
        lemma_fundamental_div_mod(m, g);
        // g divides m exactly, hence n1 exactly, in either sign.
        assert(m % g == 0);
        assert(m == g * (m / g));
        if n1 >= 0 {
            assert(n1 == g * (n1 / g));
        } else {
            assert((-(m / g)) * g + 0 == n1) by (nonlinear_arith)
                requires
                    m == g * (m / g),
                    n1 == -m,
            ;
            vstd::arithmetic::div_mod::lemma_fundamental_div_mod_converse_div(n1, g, -(m / g), 0);
            assert(n1 == g * (n1 / g)) by (nonlinear_arith)
                requires
                    n1 == -m,
                    m == g * (m / g),
                    n1 / g == -(m / g),
            ;
        }
        assert(frac_eq((n1 / g, d1 / g), (n1, d1))) by (nonlinear_arith)
            requires
                n1 == g * (n1 / g),
                d1 == g * (d1 / g),
        ;
        assert(frac_eq((n1 / g, d1 / g), (n, d))) by (nonlinear_arith)
            requires
                frac_eq((n1 / g, d1 / g), (n1, d1)),
                (d < 0 ==> n1 == -n && d1 == -d) && (d >= 0 ==> n1 == n && d1 == d),
                d1 >= 1,
                g >= 1,
                d1 == g * (d1 / g),
        ;
    }
}

/// Any common divisor divides the greatest common divisor.
pub proof fn lemma_gcd_greatest(a: nat, b: nat, c: nat)
    requires
        c >= 1,
        a % c == 0,
        b % c == 0,
    ensures
        gcd(a, b) % c == 0,
    decreases b,
{
    if b != 0 {
        let q = a as int / b as int;
        let r = a as int % b as int;
        lemma_fundamental_div_mod(a as int, b as int);
        lemma_fundamental_div_mod(a as int, c as int);
        lemma_fundamental_div_mod(b as int, c as int);
        let k = (a as int / c as int) - (b as int / c as int) * q;
        assert(r == k * c as int) by (nonlinear_arith)
            requires
                a as int == b as int * q + r,
                a as int == c as int * (a as int / c as int),
                b as int == c as int * (b as int / c as int),
                k == (a as int / c as int) - (b as int / c as int) * q,
        ;
        lemma_mod_multiples_basic(k, c as int);
        lemma_gcd_greatest(b, a % b, c);
    }
}

/// A nonnegative multiple of a positive divisor splits exactly.
proof fn lemma_exact_div(x: int, g: int)
    requires
        g >= 1,
        x >= 0,
        x % g == 0,
    ensures
        x == g * (x / g),
        x / g >= 0,
{
    lemma_fundamental_div_mod(x, g);
    assert(x / g >= 0) by (nonlinear_arith)
        requires
            x == g * (x / g) + x % g,
            x % g == 0,
            g >= 1,
            x >= 0,
    ;
}

/// A fully reduced fraction is coprime, so reducing it again changes
/// nothing.
pub proof fn lemma_reduce_idempotent(n: int, d: int)
    requires
        d != 0,
    ensures
        reduce_frac(reduce_frac(n, d).0, reduce_frac(n, d).1) == reduce_frac(n, d),
{
    let n1 = if d < 0 { -n } else { n };
    let d1 = if d < 0 { -d } else { d };
    let g = gcd(abs_i(n1) as nat, d1 as nat) as int;
    lemma_gcd_divides(abs_i(n1) as nat, d1 as nat);
    lemma_divisor_le(d1, g);
    let rn = n1 / g;
    let rd = d1 / g;
    lemma_exact_div(abs_i(n1), g);
    lemma_exact_div(d1, g);
    // The reduced numerator's magnitude is the reduced magnitude.
    if n1 >= 0 {
        assert(abs_i(rn) == abs_i(n1) / g);
    } else {
        assert((-(abs_i(n1) / g)) * g + 0 == n1) by (nonlinear_arith)
            requires
                abs_i(n1) == g * (abs_i(n1) / g),
                n1 == -abs_i(n1),
        ;
        vstd::arithmetic::div_mod::lemma_fundamental_div_mod_converse_div(
            n1,
            g,
            -(abs_i(n1) / g),
            0,
        );
        assert(abs_i(rn) == abs_i(n1) / g);
    }
    let g2 = gcd(abs_i(rn) as nat, rd as nat) as int;
    lemma_gcd_divides(abs_i(rn) as nat, rd as nat);
    assert(rd >= 1);
    assert(g2 >= 1);
    lemma_exact_div(abs_i(rn), g2);
    lemma_exact_div(rd, g2);
    // A common divisor of the reduced parts, scaled back by g, divides
    // both original parts.
    let w = g2 * g;
    assert(w >= 1) by (nonlinear_arith)
        requires
            g >= 1,
            g2 >= 1,
            w == g2 * g,
    ;
    assert(abs_i(n1) == (abs_i(rn) / g2) * w) by (nonlinear_arith)
        requires
            abs_i(n1) == g * abs_i(rn),
            abs_i(rn) == g2 * (abs_i(rn) / g2),
            w == g2 * g,
    ;
    assert(d1 == (rd / g2) * w) by (nonlinear_arith)
        requires
            d1 == g * rd,
            rd == g2 * (rd / g2),
            w == g2 * g,
    ;
    lemma_mod_multiples_basic(abs_i(rn) / g2, w);
    lemma_mod_multiples_basic(rd / g2, w);
    lemma_gcd_greatest(abs_i(n1) as nat, d1 as nat, w as nat);
    // So w divides g; being at least g, it equals g, forcing g2 == 1.
    lemma_divisor_le(g, w);
    assert(g2 == 1) by (nonlinear_arith)
        requires
            w == g2 * g,
            w <= g,
            g >= 1,
            g2 >= 1,
    ;
    lemma_div_basics(rn);
    lemma_div_basics(rd);
    assert(reduce_frac(rn, rd) == (rn, rd));
}

/// Euclid's algorithm, executable.
fn gcd_u128(a0: u128, b0: u128) -> (g: u128)
    ensures
        g == gcd(a0 as nat, b0 as nat),
{
    let mut a = a0;
    let mut b = b0;
    while b != 0
        invariant
            gcd(a as nat, b as nat) == gcd(a0 as nat, b0 as nat),
        decreases b,
    {
        let t = a % b;
        a = b;
        b = t;
    }
    a
}

impl Rat {
    /// The fraction this value stands for, as a pair of mathematical
    /// integers.
    pub open spec fn model(self) -> (int, int) {
        (self.num as int, self.den as int)
    }

    /// Well-formed values have a positive denominator.
    pub open spec fn wf(self) -> bool {
        1 <= self.den
    }

    /// Builds the canonical representation of `n / d` over wide
    /// intermediates, or reports `Overflow` when the reduced fraction
    /// does not fit.
    pub(crate) fn make(n: i128, d: i128) -> (r: Result<Rat, ConvertError>)
        requires
            d != 0,
            n != i128::MIN,
            d != i128::MIN,
        ensures
            match checked_frac(n as int, d as int) {
                Some(p) => r matches Ok(v) && v.model() == p && v.wf(),
                None => r == Err::<Rat, ConvertError>(ConvertError::Overflow),
            },
    {
        let (n1, d1): (i128, i128) = if d < 0 {
            (-n, -d)
        } else {
            (n, d)
        };
        let na: i128 = if n1 < 0 {
            -n1
        } else {
            n1
        };
        proof {
            lemma_gcd_divides(na as nat, d1 as nat);
        }
        let g = gcd_u128(na as u128, d1 as u128);
        proof {
            lemma_divisor_le(d1 as int, g as int);
            if na != 0 {
                lemma_divisor_le(na as int, g as int);
            }
        }
        let gi = g as i128;
        let nr = na / gi;
        let dr = d1 / gi;
        proof {
            lemma_fundamental_div_mod(na as int, gi as int);
            lemma_fundamental_div_mod(d1 as int, gi as int);
            if n1 < 0 {
                // The reduced numerator of the negative side is the
                // negation of the reduced magnitude.
                assert(n1 as int / gi as int == -(nr as int)) by (nonlinear_arith)
                    requires
                        na as int == gi as int * (nr as int),
                        n1 == -na,
                        gi >= 1,
                        nr >= 0,
                ;
            }
        }
        if nr <= i64::MAX as i128 && dr <= i64::MAX as i128 {
            let num: i64 = if n1 < 0 {
                -(nr as i64)
            } else {
                nr as i64
            };
            Ok(Rat { num, den: dr as i64 })
        } else {
            Err(ConvertError::Overflow)
        }
    }

    /// The integer `n`, as a rational.
    pub fn from_int(n: i64) -> (r: Rat)
        ensures
            r.model() == (n as int, 1int),
            r.wf(),
    {
        Rat { num: n, den: 1 }
    }

    /// The canonical rational with value `num / den`; `den == 0` is
    /// rejected, and a reduced fraction that does not fit is reported
    /// as `Overflow`.
    pub fn new(num: i64, den: i64) -> (r: Result<Rat, ConvertError>)
        ensures
            den == 0 ==> r == Err::<Rat, ConvertError>(ConvertError::DivisionByZero),
            den != 0 ==> match checked_frac(num as int, den as int) {
                Some(p) => r matches Ok(v) && v.model() == p && v.wf(),
                None => r == Err::<Rat, ConvertError>(ConvertError::Overflow),
            },
    {
        if den == 0 {
            Err(ConvertError::DivisionByZero)
        } else {
            Rat::make(num as i128, den as i128)
        }
    }

    /// Exact sum: the canonical form of
    /// `(a.num * b.den + b.num * a.den) / (a.den * b.den)`.
    pub fn add(self, other: Rat) -> (r: Result<Rat, ConvertError>)
        requires
            self.wf(),
            other.wf(),
        ensures
            match checked_frac(
                self.num * other.den + other.num * self.den,
                self.den * other.den,
            ) {
                Some(p) => r matches Ok(v) && v.model() == p && v.wf(),
                None => r == Err::<Rat, ConvertError>(ConvertError::Overflow),
            },
    {
        proof {
            lemma_rat_pair_bounds(self, other);
        }
        let n = (self.num as i128) * (other.den as i128) + (other.num as i128) * (self.den as i128);
        let d = (self.den as i128) * (other.den as i128);
        Rat::make(n, d)
    }

    /// Exact difference: the canonical form of
    /// `(a.num * b.den - b.num * a.den) / (a.den * b.den)`.
    pub fn sub(self, other: Rat) -> (r: Result<Rat, ConvertError>)
        requires
            self.wf(),
            other.wf(),
        ensures
            match checked_frac(
                self.num * other.den - other.num * self.den,
                self.den * other.den,
            ) {
                Some(p) => r matches Ok(v) && v.model() == p && v.wf(),
                None => r == Err::<Rat, ConvertError>(ConvertError::Overflow),
            },
    {
        proof {
            lemma_rat_pair_bounds(self, other);
        }
        let n = (self.num as i128) * (other.den as i128) - (other.num as i128) * (self.den as i128);
        let d = (self.den as i128) * (other.den as i128);
        Rat::make(n, d)
    }

    /// Exact product: the canonical form of
    /// `(a.num * b.num) / (a.den * b.den)`.
    pub fn mul(self, other: Rat) -> (r: Result<Rat, ConvertError>)
        requires
            self.wf(),
            other.wf(),
        ensures
            match checked_frac(self.num * other.num, self.den * other.den) {
                Some(p) => r matches Ok(v) && v.model() == p && v.wf(),
                None => r == Err::<Rat, ConvertError>(ConvertError::Overflow),
            },
    {
        proof {
            lemma_rat_pair_bounds(self, other);
        }
        let n = (self.num as i128) * (other.num as i128);
        let d = (self.den as i128) * (other.den as i128);
        Rat::make(n, d)
    }

    /// Exact quotient: the canonical form of
    /// `(a.num * b.den) / (a.den * b.num)`; a zero divisor is rejected.
    pub fn div(self, other: Rat) -> (r: Result<Rat, ConvertError>)
        requires
            self.wf(),
            other.wf(),
        ensures
            other.num == 0 ==> r == Err::<Rat, ConvertError>(ConvertError::DivisionByZero),
            other.num != 0 ==> match checked_frac(
                self.num * other.den,
                self.den * other.num,
            ) {
                Some(p) => r matches Ok(v) && v.model() == p && v.wf(),
                None => r == Err::<Rat, ConvertError>(ConvertError::Overflow),
            },
    {
        if other.num == 0 {
            Err(ConvertError::DivisionByZero)
        } else {
            proof {
                lemma_rat_pair_bounds(self, other);
            }
            let n = (self.num as i128) * (other.den as i128);
            let d = (self.den as i128) * (other.num as i128);
            Rat::make(n, d)
        }
    }
}

/// A product of an `i64` with a positive `i64` stays well inside
/// `i128`: its magnitude is at most `2^63 * (2^63 - 1)`.
proof fn lemma_num_den_bound(x: int, y: int)
    requires
        -0x8000_0000_0000_0000 <= x <= 0x7fff_ffff_ffff_ffff,
        1 <= y <= 0x7fff_ffff_ffff_ffff,
    ensures
        -0x3fff_ffff_ffff_ffff_8000_0000_0000_0000 <= x * y
            <= 0x3fff_ffff_ffff_ffff_8000_0000_0000_0000,
        x != 0 ==> x * y != 0,
{
    assert(-0x3fff_ffff_ffff_ffff_8000_0000_0000_0000 <= x * y
        <= 0x3fff_ffff_ffff_ffff_8000_0000_0000_0000 && (x != 0 ==> x * y != 0))
        by (nonlinear_arith)
        requires
            -0x8000_0000_0000_0000 <= x <= 0x7fff_ffff_ffff_ffff,
            1 <= y <= 0x7fff_ffff_ffff_ffff,
    ;
}

/// A product of two `i64`s has magnitude at most `2^126`.
proof fn lemma_num_num_bound(x: int, y: int)
    requires
        -0x8000_0000_0000_0000 <= x <= 0x7fff_ffff_ffff_ffff,
        -0x8000_0000_0000_0000 <= y <= 0x7fff_ffff_ffff_ffff,
    ensures
        -0x4000_0000_0000_0000_0000_0000_0000_0000 <= x * y
            <= 0x4000_0000_0000_0000_0000_0000_0000_0000,
{
    assert(-0x4000_0000_0000_0000_0000_0000_0000_0000 <= x * y
        <= 0x4000_0000_0000_0000_0000_0000_0000_0000) by (nonlinear_arith)
        requires
            -0x8000_0000_0000_0000 <= x <= 0x7fff_ffff_ffff_ffff,
            -0x8000_0000_0000_0000 <= y <= 0x7fff_ffff_ffff_ffff,
    ;
}

/// All raw numerators and denominators the arithmetic operations
/// build from two well-formed values stay well inside `i128`.
proof fn lemma_rat_pair_bounds(a: Rat, b: Rat)
    requires
        a.wf(),
        b.wf(),
    ensures
        -0x3fff_ffff_ffff_ffff_8000_0000_0000_0000 <= a.num * b.den
            <= 0x3fff_ffff_ffff_ffff_8000_0000_0000_0000,
        -0x3fff_ffff_ffff_ffff_8000_0000_0000_0000 <= b.num * a.den
            <= 0x3fff_ffff_ffff_ffff_8000_0000_0000_0000,
        -0x4000_0000_0000_0000_0000_0000_0000_0000 <= a.num * b.num
            <= 0x4000_0000_0000_0000_0000_0000_0000_0000,
        1 <= a.den * b.den <= 0x3fff_ffff_ffff_ffff_8000_0000_0000_0000,
        b.num != 0 ==> a.den * b.num != 0
            && -0x3fff_ffff_ffff_ffff_8000_0000_0000_0000 <= a.den * b.num
            <= 0x3fff_ffff_ffff_ffff_8000_0000_0000_0000,
{
    lemma_num_den_bound(a.num as int, b.den as int);
    lemma_num_den_bound(b.num as int, a.den as int);
    lemma_num_num_bound(a.num as int, b.num as int);
    lemma_num_den_bound(a.den as int, b.den as int);
    assert(1 <= a.den * b.den) by (nonlinear_arith)
        requires
            1 <= a.den,
            1 <= b.den,
    ;
    assert(a.den * b.num == b.num * a.den) by (nonlinear_arith);
}

} // verus!
