//! The left-to-right expression evaluator, shared by scalar and
//! unit-aware evaluation.
//!
//! The query is split inclusively at the four operator characters
//! `+ - * /`: each piece keeps its trailing operator, which drives the
//! combination with the following term. Terms are folded strictly left
//! to right with **no operator precedence and no parentheses** —
//! `2+3*4` is `(2+3)*4 == 20`, not `14`. This is a deliberate design
//! decision of the query language, not an oversight, and is pinned by
//! the contracts below.

use crate::decimal::{dec_parse, parse_dec};
use crate::errors::ConvertError;
use crate::rat::{checked_frac, Rat};
use crate::text::{str_chars, vec_take};
use crate::units::{from_str_spec, measure_op, op_frac, MOp, Measurement, Unit};
use vstd::prelude::*;
use vstd::string::*;

verus! {

/// The four operator characters.
pub open spec fn is_op_c(c: char) -> bool {
    c == '+' || c == '-' || c == '*' || c == '/'
}

pub fn is_op(c: char) -> (r: bool)
    ensures
        r == is_op_c(c),
{
    c == '+' || c == '-' || c == '*' || c == '/'
}

/// The operation an operator character drives.
pub open spec fn op_of_char(c: char) -> MOp {
    if c == '+' {
        MOp::Add
    } else if c == '-' {
        MOp::Sub
    } else if c == '*' {
        MOp::Mul
    } else {
        MOp::Div
    }
}

/// Inclusive split at operator characters, scanning at `i` with the
/// current piece begun at `start`: each piece keeps its trailing
/// operator, and an empty piece after a final operator is dropped.
pub open spec fn op_parts(s: Seq<char>, i: int, start: int) -> Seq<Seq<char>>
    recommends
        0 <= start <= i <= s.len(),
    decreases s.len() - i,
{
    if i >= s.len() {
        if start < s.len() {
            seq![s.subrange(start, s.len() as int)]
        } else {
            Seq::empty()
        }
    } else if is_op_c(s[i]) {
        seq![s.subrange(start, i + 1)] + op_parts(s, i + 1, i + 1)
    } else {
        op_parts(s, i + 1, start)
    }
}

/// The inclusive operator split of the whole query.
pub open spec fn op_split_s(s: Seq<char>) -> Seq<Seq<char>> {
    op_parts(s, 0, 0)
}

/// A piece with all operator characters removed: how the first
/// segment's term is read.
pub open spec fn strip_ops_s(s: Seq<char>) -> Seq<char>
    decreases s.len(),
{
    if s.len() == 0 {
        Seq::empty()
    } else {
        strip_ops_s(s.drop_last()) + (if is_op_c(s.last()) {
            Seq::<char>::empty()
        } else {
            seq![s.last()]
        })
    }
}

/// A later piece's term text: the piece with its trailing operator
/// character removed.
pub open spec fn term_text(seg: Seq<char>) -> Seq<char> {
    if seg.len() > 0 && is_op_c(seg.last()) {
        seg.drop_last()
    } else {
        seg
    }
}

/// The scalar fold from piece `i` on, with accumulator `acc`: each
/// piece's term is parsed as a decimal literal and combined by the
/// previous piece's trailing operator, strictly left to right. A
/// piece without a trailing operator (only ever the last) drops its
/// term.
pub open spec fn eval_terms(parts: Seq<Seq<char>>, i: int, acc: (int, int)) -> Result<
    (int, int),
    ConvertError,
>
    recommends
        1 <= i,
    decreases parts.len() - i,
{
    if i >= parts.len() {
        Ok(acc)
    } else {
        match dec_parse(term_text(parts[i])) {
            Err(e) => Err(e),
            Ok(t) => {
                let prev = parts[i - 1];
                if prev.len() > 0 && is_op_c(prev.last()) {
                    let op = op_of_char(prev.last());
                    if op == MOp::Div && t.0 == 0 {
                        Err(ConvertError::DivisionByZero)
                    } else {
                        let p = op_frac(op, acc, t);
                        match checked_frac(p.0, p.1) {
                            Some(w) => eval_terms(parts, i + 1, w),
                            None => Err(ConvertError::Overflow),
                        }
                    }
                } else {
                    eval_terms(parts, i + 1, acc)
                }
            },
        }
    }
}

/// What scalar evaluation of a query yields: the first piece,
/// stripped of operator characters, is the initial term, and the
/// remaining pieces fold left to right by [`eval_terms`]. An empty
/// query has no term and is a `BadNumber`.
pub open spec fn eval_spec(s: Seq<char>) -> Result<(int, int), ConvertError> {
    let parts = op_split_s(s);
    if parts.len() == 0 {
        Err(ConvertError::BadNumber)
    } else {
        match dec_parse(strip_ops_s(parts[0])) {
            Err(e) => Err(e),
            Ok(v) => eval_terms(parts, 1, v),
        }
    }
}

/// The unit-aware fold from piece `i` on: as [`eval_terms`], with
/// measurement literals for terms and category-checked measurement
/// arithmetic, keeping the accumulator's unit.
pub open spec fn meval_terms(parts: Seq<Seq<char>>, i: int, accv: (int, int), accu: Unit) -> Result<
    ((int, int), Unit),
    ConvertError,
>
    recommends
        1 <= i,
    decreases parts.len() - i,
{
    if i >= parts.len() {
        Ok((accv, accu))
    } else {
        match from_str_spec(term_text(parts[i])) {
            Err(e) => Err(e),
            Ok(t) => {
                let prev = parts[i - 1];
                if prev.len() > 0 && is_op_c(prev.last()) {
                    match measure_op(op_of_char(prev.last()), accv, accu, t.0, t.1) {
                        Err(e) => Err(e),
                        Ok(w) => meval_terms(parts, i + 1, w, accu),
                    }
                } else {
                    meval_terms(parts, i + 1, accv, accu)
                }
            },
        }
    }
}

/// What unit-aware evaluation of a query yields.
pub open spec fn meval_spec(s: Seq<char>) -> Result<((int, int), Unit), ConvertError> {
    let parts = op_split_s(s);
    if parts.len() == 0 {
        Err(ConvertError::BadNumber)
    } else {
        match from_str_spec(strip_ops_s(parts[0])) {
            Err(e) => Err(e),
            Ok(t) => meval_terms(parts, 1, t.0, t.1),
        }
    }
}

/// Inclusive operator split, executable.
fn op_split(v: &Vec<char>) -> (parts: Vec<Vec<char>>)
    ensures
        parts@.len() == op_split_s(v@).len(),
        forall|k: int| 0 <= k < parts@.len() ==> parts@[k]@ == op_split_s(v@)[k],
{
    let mut parts: Vec<Vec<char>> = Vec::new();
    let mut cur: Vec<char> = Vec::new();
    let mut start: usize = 0;
    let mut i: usize = 0;
    while i < v.len()
        invariant
            start <= i <= v.len(),
            cur@ == v@.subrange(start as int, i as int),
            op_parts(v@, i as int, start as int).len() + parts@.len() == op_split_s(v@).len(),
            forall|k: int| 0 <= k < parts@.len() ==> parts@[k]@ == op_split_s(v@)[k],
            forall|k: int|
                0 <= k < op_parts(v@, i as int, start as int).len() ==> op_parts(
                    v@,
                    i as int,
                    start as int,
                )[k] == op_split_s(v@)[parts@.len() + k],
        decreases v.len() - i,
    {
        let ghost s = v@;
        let ghost pi = i as int;
        let ghost pstart = start as int;
        let ghost pparts = parts@;
        let ghost pcur = cur@;
        let c = v[i];
        cur.push(c);
        i = i + 1;
        if is_op(c) {
            parts.push(cur);
            cur = Vec::new();
            start = i;
            proof {
                assert(cur@ =~= s.subrange(start as int, i as int));
                assert(pcur.push(c) =~= s.subrange(pstart, pi + 1));
                assert(op_parts(s, pi, pstart) == seq![s.subrange(pstart, pi + 1)] + op_parts(
                    s,
                    i as int,
                    start as int,
                ));
                assert forall|k: int| 0 <= k < parts@.len() implies parts@[k]@ == op_split_s(s)[k]
                by {
                    if k == pparts.len() {
                        assert(parts@[k]@ == pcur.push(c));
                        assert(op_parts(s, pi, pstart)[0] == s.subrange(pstart, pi + 1));
                    } else {
                        assert(parts@[k] == pparts[k]);
                    }
                }
                assert forall|k: int|
                    0 <= k < op_parts(s, i as int, start as int).len() implies op_parts(
                    s,
                    i as int,
                    start as int,
                )[k] == op_split_s(s)[parts@.len() + k] by {
                    assert(op_parts(s, pi, pstart)[k + 1] == op_parts(s, i as int, start as int)[k]);
                }
            }
        } else {
            proof {
                assert(cur@ =~= s.subrange(start as int, i as int));
                assert(op_parts(s, pi, pstart) == op_parts(s, i as int, start as int));
            }
        }
    }
    if start < v.len() {
        proof {
            assert(op_parts(v@, i as int, start as int) =~= seq![
                v@.subrange(start as int, v@.len() as int),
            ]);
        }
        let ghost pparts = parts@;
        let ghost pcur = cur@;
        parts.push(cur);
        proof {
            assert forall|k: int| 0 <= k < parts@.len() implies parts@[k]@ == op_split_s(v@)[k] by {
                if k == pparts.len() {
                    assert(parts@[k]@ == pcur);
                    assert(op_parts(v@, i as int, start as int)[0] == pcur);
                } else {
                    assert(parts@[k] == pparts[k]);
                }
            }
        }
    } else {
        proof {
            assert(op_parts(v@, i as int, start as int) =~= Seq::<Seq<char>>::empty());
        }
    }
    parts
}

/// A piece with all operator characters removed, executable.
fn strip_ops(v: &Vec<char>) -> (r: Vec<char>)
    ensures
        r@ == strip_ops_s(v@),
{
    let mut out: Vec<char> = Vec::new();
    let mut i: usize = 0;
    while i < v.len()
        invariant
            i <= v.len(),
            out@ == strip_ops_s(v@.take(i as int)),
        decreases v.len() - i,
    {
        let c = v[i];
        if !is_op(c) {
            out.push(c);
        }
        i = i + 1;
        proof {
            assert(v@.take(i as int).drop_last() =~= v@.take(i - 1));
            assert(out@ =~= strip_ops_s(v@.take(i as int)));
        }
    }
    proof {
        assert(v@.take(v@.len() as int) =~= v@);
    }
    out
}

/// A later piece's term text, executable.
fn term_chars(v: &Vec<char>) -> (r: Vec<char>)
    ensures
        r@ == term_text(v@),
{
    if v.len() > 0 && is_op(v[v.len() - 1]) {
        let r = vec_take(v, v.len() - 1);
        proof {
            assert(v@.take(v@.len() - 1) =~= v@.drop_last());
        }
        r
    } else {
        vec_take(v, v.len())
    }
}

/// Evaluates a scalar expression exactly as [`eval_spec`] describes:
/// strictly left to right, with no precedence.
pub fn eval(query: &String) -> (r: Result<Rat, ConvertError>)
    ensures
        match eval_spec(query@) {
            Ok(p) => r matches Ok(x) && x.model() == p && x.wf(),
            Err(e) => r == Err::<Rat, ConvertError>(e),
        },
{
    let chars = str_chars(query.as_str());
    let parts = op_split(&chars);
    if parts.len() == 0 {
        return Err(ConvertError::BadNumber);
    }
    let first = strip_ops(&parts[0]);
    let mut acc = match parse_dec(&first) {
        Ok(v) => v,
        Err(e) => {
            return Err(e);
        },
    };
    let mut i: usize = 1;
    while i < parts.len()
        invariant
            1 <= i <= parts@.len(),
            parts@.len() == op_split_s(query@).len(),
            forall|k: int| 0 <= k < parts@.len() ==> parts@[k]@ == op_split_s(query@)[k],
            acc.wf(),
            eval_terms(op_split_s(query@), i as int, acc.model()) == eval_spec(query@),
        decreases parts@.len() - i,
    {
        let term = term_chars(&parts[i]);
        let t = match parse_dec(&term) {
            Ok(t) => t,
            Err(e) => {
                return Err(e);
            },
        };
        let prev = &parts[i - 1];
        if prev.len() > 0 && is_op(prev[prev.len() - 1]) {
            let opc = prev[prev.len() - 1];
            let res = if opc == '+' {
                acc.add(t)
            } else if opc == '-' {
                acc.sub(t)
            } else if opc == '*' {
                acc.mul(t)
            } else {
                acc.div(t)
            };
            acc = match res {
                Ok(v) => v,
                Err(e) => {
                    return Err(e);
                },
            };
        }
        i = i + 1;
    }
    Ok(acc)
}

/// Evaluates a unit-aware expression exactly as [`meval_spec`]
/// describes: measurement terms, category-checked arithmetic, and the
/// same strict left-to-right order with no precedence.
pub fn meval(query: &String) -> (r: Result<Measurement, ConvertError>)
    ensures
        match meval_spec(query@) {
            Ok(p) => r matches Ok(m) && m.value.model() == p.0 && m.unit == p.1 && m.wf(),
            Err(e) => r == Err::<Measurement, ConvertError>(e),
        },
{
    let chars = str_chars(query.as_str());
    let parts = op_split(&chars);
    if parts.len() == 0 {
        return Err(ConvertError::BadNumber);
    }
    let first = strip_ops(&parts[0]);
    let mut acc = match Measurement::from_chars(&first) {
        Ok(m) => m,
        Err(e) => {
            return Err(e);
        },
    };
    let mut i: usize = 1;
    while i < parts.len()
        invariant
            1 <= i <= parts@.len(),
            parts@.len() == op_split_s(query@).len(),
            forall|k: int| 0 <= k < parts@.len() ==> parts@[k]@ == op_split_s(query@)[k],
            acc.wf(),
            meval_terms(op_split_s(query@), i as int, acc.value.model(), acc.unit) == meval_spec(
                query@,
            ),
        decreases parts@.len() - i,
    {
        let term = term_chars(&parts[i]);
        let t = match Measurement::from_chars(&term) {
            Ok(m) => m,
            Err(e) => {
                return Err(e);
            },
        };
        let prev = &parts[i - 1];
        if prev.len() > 0 && is_op(prev[prev.len() - 1]) {
            let opc = prev[prev.len() - 1];
            let res = if opc == '+' {
                acc.add(t)
            } else if opc == '-' {
                acc.sub(t)
            } else if opc == '*' {
                acc.mul(t)
            } else {
                acc.div(t)
            };
            acc = match res {
                Ok(m) => m,
                Err(e) => {
                    return Err(e);
                },
            };
        }
        i = i + 1;
    }
    Ok(acc)
}

} // verus!
