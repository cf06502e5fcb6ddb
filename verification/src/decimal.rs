//! Decimal literals: parsing a run of digits with at most one decimal
//! point into an exact [`Rat`], and rendering a [`Rat`] back as a
//! decimal string.
//!
//! Parsing accepts exactly the shapes `123`, `12.5`, `.5` and `25.`:
//! only digits and one point, with at least one digit. Rendering emits
//! the exact decimal expansion when it terminates (it always does for
//! the reduced denominators of the form `2^a * 5^b` that decimal
//! input and catalog scales produce) and truncates the expansion after
//! 64 fractional digits otherwise.

use crate::errors::ConvertError;
use crate::rat::{abs_i, checked_frac, Rat};
use crate::text::{digit_val, is_digit, is_digit_c};
use vstd::arithmetic::div_mod::{
    lemma_fundamental_div_mod, lemma_mod_division_less_than_divisor, lemma_multiply_divide_lt,
};
use vstd::prelude::*;
use vstd::string::*;

verus! {

/// The largest numerator or denominator accepted while accumulating a
/// literal: `i128::MAX`.
pub open spec fn acc_limit() -> int {
    0x7fff_ffff_ffff_ffff_ffff_ffff_ffff_ffff
}

/// `10^k`.
pub open spec fn pow10(k: nat) -> int
    decreases k,
{
    if k == 0 {
        1
    } else {
        pow10((k - 1) as nat) * 10
    }
}

pub proof fn lemma_pow10_pos(k: nat)
    ensures
        pow10(k) >= 1,
    decreases k,
{
    if k > 0 {
        lemma_pow10_pos((k - 1) as nat);
    }
}

/// A character a decimal value run may contain.
pub open spec fn is_vrun_c(c: char) -> bool {
    is_digit_c(c) || c == '.'
}

/// The value of a digit string, most significant digit first.
pub open spec fn digits_val(s: Seq<char>) -> int
    decreases s.len(),
{
    if s.len() == 0 {
        0
    } else {
        digits_val(s.drop_last()) * 10 + digit_val(s.last())
    }
}

/// How many decimal points a string contains.
pub open spec fn dot_count(s: Seq<char>) -> int
    decreases s.len(),
{
    if s.len() == 0 {
        0
    } else {
        dot_count(s.drop_last()) + if s.last() == '.' {
            1int
        } else {
            0int
        }
    }
}

/// The string with its decimal points removed: the digit characters.
pub open spec fn strip_dots(s: Seq<char>) -> Seq<char>
    decreases s.len(),
{
    if s.len() == 0 {
        Seq::empty()
    } else {
        strip_dots(s.drop_last()) + (if s.last() == '.' {
            Seq::<char>::empty()
        } else {
            seq![s.last()]
        })
    }
}

/// How many digits follow the first decimal point.
pub open spec fn frac_len(s: Seq<char>) -> int
    decreases s.len(),
{
    if s.len() == 0 {
        0
    } else {
        frac_len(s.drop_last()) + if dot_count(s.drop_last()) >= 1 && s.last() != '.' {
            1int
        } else {
            0int
        }
    }
}

/// A well-shaped decimal literal: nonempty, only digits and at most
/// one point, and at least one digit.
pub open spec fn dec_valid(s: Seq<char>) -> bool {
    &&& s.len() > 0
    &&& forall|i: int| 0 <= i < s.len() ==> is_vrun_c(#[trigger] s[i])
    &&& dot_count(s) <= 1
    &&& strip_dots(s).len() >= 1
}

/// The rational value of a well-shaped literal, as an unreduced
/// fraction: all digits over `10^(digits after the point)`.
pub open spec fn dec_value(s: Seq<char>) -> (int, int) {
    (digits_val(strip_dots(s)), pow10(frac_len(s) as nat))
}

/// What parsing a decimal literal yields: its exact reduced value, or
/// `BadNumber` for a malformed shape, or `Overflow` when the digits,
/// the scale, or the reduced fraction exceed the representation.
pub open spec fn dec_parse(s: Seq<char>) -> Result<(int, int), ConvertError> {
    if !dec_valid(s) {
        Err(ConvertError::BadNumber)
    } else if digits_val(strip_dots(s)) > acc_limit() || pow10(frac_len(s) as nat) > acc_limit() {
        Err(ConvertError::Overflow)
    } else {
        match checked_frac(dec_value(s).0, dec_value(s).1) {
            Some(p) => Ok(p),
            None => Err(ConvertError::Overflow),
        }
    }
}

/// The counting functions over character strings are nonnegative.
pub proof fn lemma_counts_nonneg(s: Seq<char>)
    ensures
        dot_count(s) >= 0,
        frac_len(s) >= 0,
    decreases s.len(),
{
    if s.len() > 0 {
        lemma_counts_nonneg(s.drop_last());
    }
}

/// Comparing against a division threshold decides whether one more
/// digit would push the accumulator past the limit.
proof fn lemma_mul10_threshold(acc: int, dv: int, m: int)
    requires
        0 <= acc,
        0 <= dv <= 9,
        9 <= m,
    ensures
        (acc > (m - dv) / 10) <==> (acc * 10 + dv > m),
{
    lemma_fundamental_div_mod(m - dv, 10);
    lemma_mod_division_less_than_divisor(m - dv, 10);
}

/// Parses a decimal literal exactly as [`dec_parse`] describes.
pub fn parse_dec(v: &Vec<char>) -> (r: Result<Rat, ConvertError>)
    ensures
        match dec_parse(v@) {
            Ok(p) => r matches Ok(x) && x.model() == p && x.wf(),
            Err(e) => r == Err::<Rat, ConvertError>(e),
        },
{
    let limit: u128 = 0x7fff_ffff_ffff_ffff_ffff_ffff_ffff_ffff;
    let mut acc: u128 = 0;
    let mut big_num: bool = false;
    let mut den: u128 = 1;
    let mut big_den: bool = false;
    let mut dots: u8 = 0;
    let mut any_bad: bool = false;
    let mut any_digit: bool = false;
    let mut i: usize = 0;
    while i < v.len()
        invariant
            i <= v.len(),
            0x7fff_ffff_ffff_ffff_ffff_ffff_ffff_ffff == limit,
            any_bad == !(forall|j: int| 0 <= j < i ==> is_vrun_c(#[trigger] v@[j])),
            !any_bad ==> ((dots <= 1 && dots as int == dot_count(v@.take(i as int))) || (dots == 2
                && dot_count(v@.take(i as int)) >= 2)),
            !any_bad ==> any_digit == (strip_dots(v@.take(i as int)).len() >= 1),
            !any_bad && !big_num ==> acc as int == digits_val(strip_dots(v@.take(i as int)))
                && acc <= limit,
            !any_bad && big_num ==> digits_val(strip_dots(v@.take(i as int))) > limit,
            !any_bad && !big_den ==> den as int == pow10(frac_len(v@.take(i as int)) as nat)
                && den <= limit,
            !any_bad && big_den ==> pow10(frac_len(v@.take(i as int)) as nat) > limit,
        decreases v.len() - i,
    {
        let c = v[i];
        let ghost pre = v@.take(i as int);
        proof {
            assert(v@.take(i + 1).drop_last() =~= pre);
            assert(v@.take(i + 1).last() == c);
            lemma_counts_nonneg(pre);
            lemma_counts_nonneg(v@.take(i + 1));
        }
        if !any_bad {
            if is_digit(c) {
                let dv = (c as u32 - 0x30) as u128;
                let ghost sd = strip_dots(pre);
                proof {
                    assert(strip_dots(v@.take(i + 1)) =~= sd + seq![c]);
                    assert((sd + seq![c]).drop_last() =~= sd);
                    assert(digits_val(strip_dots(v@.take(i + 1))) == digits_val(sd) * 10
                        + digit_val(c));
                    lemma_mul10_threshold(acc as int, dv as int, limit as int);
                }
                if big_num {
                    proof {
                        assert(digits_val(sd) * 10 + digit_val(c) > limit) by (nonlinear_arith)
                            requires
                                digits_val(sd) > limit as int,
                                limit as int >= 9,
                                0 <= digit_val(c) <= 9,
                        ;
                    }
                } else if acc > (limit - dv) / 10 {
                    big_num = true;
                } else {
                    acc = acc * 10 + dv;
                }
                if dots > 0 {
                    proof {
                        assert(frac_len(v@.take(i + 1)) == frac_len(pre) + 1);
                    }
                    if big_den {
                        proof {
                            assert(pow10(frac_len(pre) as nat) * 10 > limit as int * 10)
                                by (nonlinear_arith)
                                requires
                                    pow10(frac_len(pre) as nat) > limit as int,
                            ;
                        }
                    } else if den > limit / 10 {
                        big_den = true;
                        proof {
                            lemma_mul10_threshold(den as int, 0, limit as int);
                        }
                    } else {
                        proof {
                            lemma_mul10_threshold(den as int, 0, limit as int);
                        }
                        den = den * 10;
                    }
                } else {
                    proof {
                        assert(frac_len(v@.take(i + 1)) == frac_len(pre));
                    }
                }
                any_digit = true;
            } else if c == '.' {
                if dots < 2 {
                    dots = dots + 1;
                }
                proof {
                    assert(strip_dots(v@.take(i + 1)) =~= strip_dots(pre));
                    assert(frac_len(v@.take(i + 1)) == frac_len(pre));
                }
            } else {
                any_bad = true;
            }
        }
        i = i + 1;
    }
    proof {
        assert(v@.take(v@.len() as int) =~= v@);
    }
    if any_bad || v.len() == 0 || dots > 1 || !any_digit {
        return Err(ConvertError::BadNumber);
    }
    if big_num || big_den {
        return Err(ConvertError::Overflow);
    }
    proof {
        lemma_pow10_pos(frac_len(v@) as nat);
    }
    Rat::make(acc as i128, den as i128)
}

/// The length of the maximal leading run of digits and decimal points,
/// scanning from position `i`.
pub open spec fn vrun_from(s: Seq<char>, i: int) -> int
    decreases s.len() - i,
{
    if i < 0 || i >= s.len() || !is_vrun_c(s[i]) {
        i
    } else {
        vrun_from(s, i + 1)
    }
}

pub proof fn lemma_vrun_bounds(s: Seq<char>, i: int)
    requires
        0 <= i <= s.len(),
    ensures
        i <= vrun_from(s, i) <= s.len(),
    decreases s.len() - i,
{
    if i < s.len() && is_vrun_c(s[i]) {
        lemma_vrun_bounds(s, i + 1);
    }
}

/// Splits off the maximal leading run of digits and decimal points:
/// the value run and the remainder, in that order.
pub fn split_value_run(v: &Vec<char>) -> (pair: (Vec<char>, Vec<char>))
    ensures
        pair.0@ == v@.take(vrun_from(v@, 0)),
        pair.1@ == v@.skip(vrun_from(v@, 0)),
{
    let mut i: usize = 0;
    while i < v.len() && (is_digit(v[i]) || v[i] == '.')
        invariant
            i <= v.len(),
            vrun_from(v@, i as int) == vrun_from(v@, 0),
        decreases v.len() - i,
    {
        i = i + 1;
    }
    proof {
        assert(vrun_from(v@, 0) == i);
    }
    let mut run: Vec<char> = Vec::new();
    let mut rest: Vec<char> = Vec::new();
    let mut j: usize = 0;
    while j < i
        invariant
            j <= i <= v.len(),
            run@ == v@.take(j as int),
        decreases i - j,
    {
        run.push(v[j]);
        j = j + 1;
        proof {
            assert(run@ =~= v@.take(j as int));
        }
    }
    let mut k: usize = i;
    while k < v.len()
        invariant
            i <= k <= v.len(),
            rest@ == v@.subrange(i as int, k as int),
        decreases v.len() - k,
    {
        rest.push(v[k]);
        k = k + 1;
        proof {
            assert(rest@ =~= v@.subrange(i as int, k as int));
        }
    }
    proof {
        assert(run@ =~= v@.take(i as int));
        assert(rest@ =~= v@.skip(i as int));
    }
    (run, rest)
}

/// The character of a decimal digit value.
pub open spec fn digit_char(v: int) -> char {
    if v == 0 {
        '0'
    } else if v == 1 {
        '1'
    } else if v == 2 {
        '2'
    } else if v == 3 {
        '3'
    } else if v == 4 {
        '4'
    } else if v == 5 {
        '5'
    } else if v == 6 {
        '6'
    } else if v == 7 {
        '7'
    } else if v == 8 {
        '8'
    } else {
        '9'
    }
}

/// The decimal digits of `n`, most significant first.
pub open spec fn int_digits(n: nat) -> Seq<char>
    decreases n,
{
    if n < 10 {
        seq![digit_char(n as int)]
    } else {
        int_digits(n / 10) + seq![digit_char((n % 10) as int)]
    }
}

/// Up to `fuel` digits of the decimal expansion of `rem / d`
/// (`0 <= rem < d`), stopping early when the expansion terminates.
pub open spec fn frac_digits(rem: nat, d: nat, fuel: nat) -> Seq<char>
    decreases fuel,
{
    if rem == 0 || fuel == 0 || d == 0 {
        Seq::empty()
    } else {
        seq![digit_char((rem * 10 / d) as int)] + frac_digits((rem * 10) % d, d, (fuel - 1) as nat)
    }
}

/// The decimal rendering of the fraction `n / d` (`d >= 1`): an
/// optional sign, the integer part, and the fractional digits — exact
/// when the expansion terminates within 64 digits, truncated there
/// otherwise.
pub open spec fn fmt_frac(n: int, d: int) -> Seq<char> {
    let sign: Seq<char> = if n < 0 {
        seq!['-']
    } else {
        Seq::empty()
    };
    let m = abs_i(n);
    let ip = int_digits((m / d) as nat);
    let rem = m % d;
    if rem == 0 {
        sign + ip
    } else {
        sign + ip + seq!['.'] + frac_digits(rem as nat, d as nat, 64)
    }
}

/// The one-character string of a digit value.
fn digit_str(d: u8) -> (r: &'static str)
    requires
        d < 10,
    ensures
        r@ == seq![digit_char(d as int)],
{
    if d == 0 {
        proof {
            reveal_strlit("0");
            assert("0"@ =~= seq![digit_char(0)]);
        }
        "0"
    } else if d == 1 {
        proof {
            reveal_strlit("1");
            assert("1"@ =~= seq![digit_char(1)]);
        }
        "1"
    } else if d == 2 {
        proof {
            reveal_strlit("2");
            assert("2"@ =~= seq![digit_char(2)]);
        }
        "2"
    } else if d == 3 {
        proof {
            reveal_strlit("3");
            assert("3"@ =~= seq![digit_char(3)]);
        }
        "3"
    } else if d == 4 {
        proof {
            reveal_strlit("4");
            assert("4"@ =~= seq![digit_char(4)]);
        }
        "4"
    } else if d == 5 {
        proof {
            reveal_strlit("5");
            assert("5"@ =~= seq![digit_char(5)]);
        }
        "5"
    } else if d == 6 {
        proof {
            reveal_strlit("6");
            assert("6"@ =~= seq![digit_char(6)]);
        }
        "6"
    } else if d == 7 {
        proof {
            reveal_strlit("7");
            assert("7"@ =~= seq![digit_char(7)]);
        }
        "7"
    } else if d == 8 {
        proof {
            reveal_strlit("8");
            assert("8"@ =~= seq![digit_char(8)]);
        }
        "8"
    } else {
        proof {
            reveal_strlit("9");
            assert("9"@ =~= seq![digit_char(9)]);
        }
        "9"
    }
}

/// The decimal digits of `m`, as a string.
fn int_string(m: u128) -> (r: String)
    ensures
        r@ == int_digits(m as nat),
    decreases m,
{
    if m < 10 {
        let mut s = String::new();
        s.append(digit_str(m as u8));
        proof {
            assert(s@ =~= int_digits(m as nat));
        }
        s
    } else {
        let mut s = int_string(m / 10);
        s.append(digit_str((m % 10) as u8));
        proof {
            assert(s@ =~= int_digits(m as nat));
        }
        s
    }
}

impl Rat {
    /// Renders the value as a plain decimal string, as [`fmt_frac`]
    /// describes: exact whenever the expansion terminates.
    pub fn txt(&self) -> (r: String)
        requires
            self.wf(),
        ensures
            r@ == fmt_frac(self.num as int, self.den as int),
    {
        let neg = self.num < 0;
        let m: u128 = if neg {
            (-(self.num as i128)) as u128
        } else {
            self.num as u128
        };
        let d: u128 = self.den as u128;
        let q = m / d;
        let rem = m % d;
        proof {
            lemma_mod_division_less_than_divisor(m as int, d as int);
        }
        let mut s = String::new();
        if neg {
            s.append("-");
            proof {
                reveal_strlit("-");
                assert("-"@ =~= seq!['-']);
            }
        }
        let ip = int_string(q);
        s.append(ip.as_str());
        if rem == 0 {
            proof {
                assert(s@ =~= fmt_frac(self.num as int, self.den as int));
            }
            s
        } else {
            s.append(".");
            proof {
                reveal_strlit(".");
                assert("."@ =~= seq!['.']);
            }
            let ghost head = s@;
            let mut r: u128 = rem;
            let mut fuel: usize = 64;
            while r != 0 && fuel > 0
                invariant
                    r < d,
                    1 <= d <= 0x7fff_ffff_ffff_ffff,
                    s@ + frac_digits(r as nat, d as nat, fuel as nat) == head + frac_digits(
                        rem as nat,
                        d as nat,
                        64,
                    ),
                decreases fuel,
            {
                proof {
                    lemma_multiply_divide_lt(r as int * 10, d as int, 10);
                    lemma_mod_division_less_than_divisor(r as int * 10, d as int);
                }
                let dg = (r * 10) / d;
                s.append(digit_str(dg as u8));
                r = (r * 10) % d;
                fuel = fuel - 1;
                proof {
                    assert(s@ + frac_digits(r as nat, d as nat, fuel as nat) =~= head + frac_digits(
                        rem as nat,
                        d as nat,
                        64,
                    ));
                }
            }
            proof {
                assert(s@ =~= head + frac_digits(rem as nat, d as nat, 64));
                assert(s@ =~= fmt_frac(self.num as int, self.den as int));
            }
            s
        }
    }
}

} // verus!
