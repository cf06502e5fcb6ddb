//! The conversion laws of the measurement engine, stated once for
//! every unit and every value.
//!
//! Two facts are proved here. Converting a value into its category's
//! base unit through [`to_other_val`] agrees exactly with the direct
//! base conversion [`to_base_val`]. And converting a value to any
//! other unit and back restores the original value exactly — not
//! within a tolerance: the arithmetic is rational, so the round trip
//! is the identity whenever both conversions are representable.

use crate::decimal::{dec_parse, dec_valid, digits_val, dot_count, frac_len, strip_dots, vrun_from};
use crate::errors::ConvertError;
use crate::rat::{
    frac_eq, frac_fits, gcd, lemma_reduce_idempotent, lemma_reduce_value, reduce_frac,
};
use crate::text::is_digit_c;
use crate::units::{
    base_unit, category, from_base_frac, from_str_spec, lemma_base_identity,
    lemma_transform_bounds, to_base_frac, to_base_val, to_other_val, transform, unit_of_token,
    Unit,
};
use vstd::arithmetic::div_mod::lemma_div_basics;
use vstd::prelude::*;

verus! {

/// Product of two fractions.
pub open spec fn fr_mul(a: (int, int), b: (int, int)) -> (int, int) {
    (a.0 * b.0, a.1 * b.1)
}

/// Sum of two fractions, over the product denominator.
pub open spec fn fr_add(a: (int, int), b: (int, int)) -> (int, int) {
    (a.0 * b.1 + b.0 * a.1, a.1 * b.1)
}

/// Multiplying two value-equal fractions by the same fraction keeps
/// them value-equal.
proof fn lemma_fr_mul_cong(a: (int, int), b: (int, int), c: (int, int))
    requires
        frac_eq(a, b),
    ensures
        frac_eq(fr_mul(a, c), fr_mul(b, c)),
{
    assert((a.0 * c.0) * (b.1 * c.1) == (b.0 * c.0) * (a.1 * c.1)) by (nonlinear_arith)
        requires
            a.0 * b.1 == b.0 * a.1,
    ;
}

/// Distribution step for [`lemma_fr_add_cong`], over scalars.
proof fn lemma_add_cong_scalar(x: int, y: int, w: int, c0: int, c1: int)
    ensures
        (x * c1 + c0 * w) * (y * c1) == (x * y) * (c1 * c1) + (c0 * c1) * (w * y),
{
    vstd::arithmetic::mul::lemma_mul_is_distributive_add_other_way(y * c1, x * c1, c0 * w);
    assert((x * c1) * (y * c1) == (x * y) * (c1 * c1)) by (nonlinear_arith);
    assert((c0 * w) * (y * c1) == (c0 * c1) * (w * y)) by (nonlinear_arith);
}

/// Adding the same fraction to two value-equal fractions keeps them
/// value-equal.
proof fn lemma_fr_add_cong(a: (int, int), b: (int, int), c: (int, int))
    requires
        frac_eq(a, b),
    ensures
        frac_eq(fr_add(a, c), fr_add(b, c)),
{
    lemma_add_cong_scalar(a.0, b.1, a.1, c.0, c.1);
    lemma_add_cong_scalar(b.0, a.1, b.1, c.0, c.1);
    assert((a.0 * b.1) * (c.1 * c.1) == (b.0 * a.1) * (c.1 * c.1));
    assert((c.0 * c.1) * (a.1 * b.1) == (c.0 * c.1) * (b.1 * a.1)) by (nonlinear_arith);
}

/// Multiplying by a fraction and then by its reciprocal is the
/// identity, as a value.
proof fn lemma_fr_mul_inv(v: (int, int), c: (int, int))
    ensures
        frac_eq(fr_mul(fr_mul(v, c), (c.1, c.0)), v),
{
    assert(((v.0 * c.0) * c.1) * v.1 == v.0 * ((v.1 * c.1) * c.0)) by (nonlinear_arith);
}

/// Adding a fraction and then its negation is the identity, as a
/// value.
proof fn lemma_fr_add_inv(v: (int, int), c: (int, int))
    ensures
        frac_eq(fr_add(fr_add(v, c), (-c.0, c.1)), v),
{
    assert(((v.0 * c.1 + c.0 * v.1) * c.1 + (-c.0) * (v.1 * c.1)) * v.1 == v.0 * ((v.1 * c.1)
        * c.1)) by (nonlinear_arith);
}

/// Value equality of fractions is transitive through a fraction with
/// a nonzero denominator.
proof fn lemma_frac_trans(a: (int, int), b: (int, int), c: (int, int))
    requires
        frac_eq(a, b),
        frac_eq(b, c),
        b.1 != 0,
    ensures
        frac_eq(a, c),
{
    assert(a.0 * c.1 == c.0 * a.1) by (nonlinear_arith)
        requires
            a.0 * b.1 == b.0 * a.1,
            b.0 * c.1 == c.0 * b.1,
            b.1 != 0,
    ;
}

/// A product of three positive factors is positive.
proof fn lemma_pos3(a: int, b: int, c: int)
    requires
        a >= 1,
        b >= 1,
        c >= 1,
    ensures
        a * b * c >= 1,
{
    assert(a * b * c >= 1) by (nonlinear_arith)
        requires
            a >= 1,
            b >= 1,
            c >= 1,
    ;
}

/// The transform into the base unit is multiplication by the scale
/// followed by adding the offset.
proof fn lemma_tb_decomp(v: (int, int), u: Unit)
    ensures
        to_base_frac(v, u) == fr_add(
            fr_mul(v, (transform(u).sn as int, transform(u).sd as int)),
            (transform(u).on as int, transform(u).od as int),
        ),
{
    let t = transform(u);
    assert(t.on as int * v.1 * t.sd == t.on as int * (v.1 * t.sd)) by (nonlinear_arith);
}

/// The transform out of the base unit subtracts the offset and
/// multiplies by the reciprocal scale.
proof fn lemma_fb_decomp(b: (int, int), u: Unit)
    ensures
        from_base_frac(b, u) == fr_mul(
            fr_add(b, (-(transform(u).on as int), transform(u).od as int)),
            (transform(u).sd as int, transform(u).sn as int),
        ),
{
    let t = transform(u);
    assert((-(t.on as int)) * b.1 == -(t.on as int * b.1)) by (nonlinear_arith);
}

/// Value-equal inputs convert to value-equal base fractions.
proof fn lemma_tb_cong(a: (int, int), b: (int, int), u: Unit)
    requires
        frac_eq(a, b),
    ensures
        frac_eq(to_base_frac(a, u), to_base_frac(b, u)),
{
    let t = transform(u);
    let s = (t.sn as int, t.sd as int);
    let o = (t.on as int, t.od as int);
    lemma_tb_decomp(a, u);
    lemma_tb_decomp(b, u);
    lemma_fr_mul_cong(a, b, s);
    lemma_fr_add_cong(fr_mul(a, s), fr_mul(b, s), o);
}

/// Value-equal base fractions convert out to value-equal fractions.
proof fn lemma_fb_cong(a: (int, int), b: (int, int), u: Unit)
    requires
        frac_eq(a, b),
    ensures
        frac_eq(from_base_frac(a, u), from_base_frac(b, u)),
{
    let t = transform(u);
    let o2 = (-(t.on as int), t.od as int);
    let s2 = (t.sd as int, t.sn as int);
    lemma_fb_decomp(a, u);
    lemma_fb_decomp(b, u);
    lemma_fr_add_cong(a, b, o2);
    lemma_fr_mul_cong(fr_add(a, o2), fr_add(b, o2), s2);
}

/// Converting into the base unit and back out is the identity, as a
/// value.
proof fn lemma_fb_tb_inverse(v: (int, int), u: Unit)
    requires
        v.1 != 0,
    ensures
        frac_eq(from_base_frac(to_base_frac(v, u), u), v),
{
    let t = transform(u);
    lemma_transform_bounds(u);
    let s = (t.sn as int, t.sd as int);
    let o = (t.on as int, t.od as int);
    let x = fr_mul(v, s);
    let tb = to_base_frac(v, u);
    lemma_tb_decomp(v, u);
    lemma_fb_decomp(tb, u);
    let a2 = fr_add(fr_add(x, o), (-o.0, o.1));
    lemma_fr_add_inv(x, o);
    lemma_fr_mul_cong(a2, x, (s.1, s.0));
    lemma_fr_mul_inv(v, s);
    assert((v.1 * s.1) * s.0 != 0) by (nonlinear_arith)
        requires
            v.1 != 0,
            s.0 >= 1,
            s.1 >= 1,
    ;
    assert(fr_mul(x, (s.1, s.0)).1 == (v.1 * s.1) * s.0);
    lemma_frac_trans(fr_mul(a2, (s.1, s.0)), fr_mul(x, (s.1, s.0)), v);
}

/// Converting out of the base unit and back in is the identity, as a
/// value.
proof fn lemma_tb_fb_inverse(b: (int, int), u: Unit)
    requires
        b.1 != 0,
    ensures
        frac_eq(to_base_frac(from_base_frac(b, u), u), b),
{
    let t = transform(u);
    lemma_transform_bounds(u);
    let s = (t.sn as int, t.sd as int);
    let o = (t.on as int, t.od as int);
    let o2 = (-o.0, o.1);
    let s2 = (s.1, s.0);
    let b2 = fr_add(b, o2);
    let fb = from_base_frac(b, u);
    lemma_fb_decomp(b, u);
    lemma_tb_decomp(fb, u);
    let m = fr_mul(fr_mul(b2, s2), s);
    assert(s == ((s2.1, s2.0)));
    lemma_fr_mul_inv(b2, s2);
    lemma_fr_add_cong(m, b2, o);
    assert(o == ((-o2.0, o2.1)));
    lemma_fr_add_inv(b, o2);
    assert((b.1 * o2.1) * o.1 != 0) by (nonlinear_arith)
        requires
            b.1 != 0,
            o.1 >= 1,
            o2.1 == o.1,
    ;
    assert(fr_add(b2, o).1 == (b.1 * o2.1) * o.1);
    lemma_frac_trans(fr_add(m, o), fr_add(b2, o), b);
}

/// Converting into the category's own base unit through
/// [`to_other_val`] is exactly the direct base conversion: the base
/// unit's transform is the identity, and a reduced value reduces to
/// itself.
pub proof fn lemma_to_base_is_to_other(v: (int, int), u: Unit)
    requires
        1 <= v.1,
    ensures
        to_other_val(v, u, base_unit(category(u))) == to_base_val(v, u),
{
    lemma_base_identity(category(u));
    let p = to_base_frac(v, u);
    match to_base_val(v, u) {
        None => {},
        Some(b) => {
            assert(b == reduce_frac(p.0, p.1));
            let q = from_base_frac(b, base_unit(category(u)));
            assert(q.0 == (b.0 * 1 - 0 * b.1) * 1);
            assert(q == b);
            lemma_transform_bounds(u);
            lemma_pos3(v.1, transform(u).sd as int, transform(u).od as int);
            lemma_reduce_idempotent(p.0, p.1);
        },
    }
}

/// No token of the catalog begins with a digit or a decimal point, so
/// a digit run followed by a token splits unambiguously.
proof fn lemma_token_head(t: Seq<char>, u: Unit)
    requires
        unit_of_token(t) == Some(u),
    ensures
        t.len() >= 1,
        !is_digit_c(t[0]),
        t[0] != '.',
{
    reveal_strlit("m");
    reveal_strlit("cm");
    reveal_strlit("mm");
    reveal_strlit("km");
    reveal_strlit("dcm");
    reveal_strlit("hm");
    reveal_strlit("dm");
    reveal_strlit("kg");
    reveal_strlit("g");
    reveal_strlit("mg");
    reveal_strlit("µg");
    reveal_strlit("t");
    reveal_strlit("lb");
    reveal_strlit("oz");
    reveal_strlit("A");
    reveal_strlit("mA");
    reveal_strlit("V");
    reveal_strlit("mV");
    reveal_strlit("W");
    reveal_strlit("kW");
    reveal_strlit("J");
    reveal_strlit("kJ");
    reveal_strlit("s");
    reveal_strlit("min");
    reveal_strlit("h");
    reveal_strlit("B");
    reveal_strlit("KB");
    reveal_strlit("MB");
    reveal_strlit("GB");
    reveal_strlit("TB");
    reveal_strlit("PB");
    reveal_strlit("px");
    reveal_strlit("rem");
    reveal_strlit("em");
}

/// Every catalog token `t` parses back from `"1" + t` as exactly one
/// of its unit: the value run is the single digit and the rest is the
/// token.
pub proof fn lemma_parse_one(t: Seq<char>, u: Unit)
    requires
        unit_of_token(t) == Some(u),
    ensures
        from_str_spec(seq!['1'] + t) == Ok::<((int, int), Unit), ConvertError>(((1int, 1int), u)),
{
    lemma_token_head(t, u);
    let s = seq!['1'] + t;
    assert(is_digit_c(s[0]));
    assert(!is_digit_c(s[1]) && s[1] != '.');
    assert(vrun_from(s, 1) == 1);
    assert(vrun_from(s, 0) == 1);
    let run = s.take(1);
    let rest = s.skip(1);
    assert(run =~= seq!['1']);
    assert(rest =~= t);
    // The single digit parses as the exact value one.
    assert(run.drop_last() =~= Seq::<char>::empty());
    assert(strip_dots(Seq::<char>::empty()) =~= Seq::<char>::empty());
    assert(digits_val(Seq::<char>::empty()) == 0);
    assert(dot_count(Seq::<char>::empty()) == 0);
    assert(frac_len(Seq::<char>::empty()) == 0);
    assert(strip_dots(run) =~= run);
    assert(digits_val(run) == 1);
    assert(dot_count(run) == 0);
    assert(frac_len(run) == 0);
    assert(dec_valid(run));
    assert(gcd(1nat, 1nat) == gcd(1nat, 0nat));
    lemma_div_basics(1);
    assert(reduce_frac(1, 1) == (1int, 1int));
    assert(dec_parse(run) == Ok::<(int, int), ConvertError>((1int, 1int)));
}

/// Converting a value to any unit and back to its own is the exact
/// identity: both conversions go through the base unit by mutually
/// inverse affine transforms, and reduction never changes a value. No
/// floating-point tolerance is needed — when both conversions are
/// representable, the round trip returns the original value.
pub proof fn lemma_to_other_round_trip(v: (int, int), u: Unit, u2: Unit)
    requires
        1 <= v.1,
    ensures
        match to_other_val(v, u, u2) {
            Some(w) => match to_other_val(w, u2, u) {
                Some(r) => frac_eq(r, v),
                None => true,
            },
            None => true,
        },
{
    let t = transform(u);
    let t2 = transform(u2);
    lemma_transform_bounds(u);
    lemma_transform_bounds(u2);
    let bf = to_base_frac(v, u);
    lemma_pos3(v.1, t.sd as int, t.od as int);
    let b = reduce_frac(bf.0, bf.1);
    lemma_reduce_value(bf.0, bf.1);
    if frac_fits(b) {
        let wf = from_base_frac(b, u2);
        lemma_pos3(b.1, t2.od as int, t2.sn as int);
        let w = reduce_frac(wf.0, wf.1);
        lemma_reduce_value(wf.0, wf.1);
        if frac_fits(w) {
            assert(to_other_val(v, u, u2) == Some(w));
            let bf2 = to_base_frac(w, u2);
            lemma_pos3(w.1, t2.sd as int, t2.od as int);
            let b2 = reduce_frac(bf2.0, bf2.1);
            lemma_reduce_value(bf2.0, bf2.1);
            if frac_fits(b2) {
                let rf = from_base_frac(b2, u);
                lemma_pos3(b2.1, t.od as int, t.sn as int);
                let r = reduce_frac(rf.0, rf.1);
                lemma_reduce_value(rf.0, rf.1);
                if frac_fits(r) {
                    assert(to_other_val(w, u2, u) == Some(r));
                    // The second base conversion lands back on b.
                    lemma_tb_cong(w, wf, u2);
                    lemma_tb_fb_inverse(b, u2);
                    let tbw = to_base_frac(wf, u2);
                    lemma_pos3(wf.1, t2.sd as int, t2.od as int);
                    lemma_frac_trans(bf2, tbw, b);
                    lemma_frac_trans(b2, bf2, b);
                    lemma_frac_trans(b2, b, bf);
                    // Converting that out through u inverts the first
                    // base conversion.
                    lemma_fb_cong(b2, bf, u);
                    lemma_fb_tb_inverse(v, u);
                    let fbb = from_base_frac(bf, u);
                    lemma_pos3(bf.1, t.od as int, t.sn as int);
                    lemma_frac_trans(rf, fbb, v);
                    lemma_frac_trans(r, rf, v);
                }
            }
        }
    }
}

} // verus!
