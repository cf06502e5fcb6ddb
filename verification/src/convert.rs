//! The resolution pipeline: five ordered, stateless attempt stages on
//! one query, short-circuiting at the first success.
//!
//! The local stages — measurement conversion, scalar evaluation,
//! unit-aware evaluation — run here. The two network-backed stages are
//! split into a decision half (here, verified) and an I/O half (the
//! caller's): [`first_step`] either finishes locally or hands back the
//! request the caller must put to a provider, [`currency_step`]
//! resumes after the rate lookup, and [`translation_finish`] gates the
//! translation answer. Intermediate failures are discarded; only the
//! last stage's failure is reported.

use crate::calc::{eval, eval_spec, meval, meval_spec};
use crate::currency::{curr_apply, curr_request, currency_query_spec, CurrencyRequest};
use crate::decimal::{dec_parse, fmt_frac};
use crate::errors::ConvertError;
use crate::translate::{translation_parse_spec, TranslationRequest, Translator};
use crate::units::{convert_spec, measurement_txt, Measurement};
use vstd::prelude::*;
use vstd::string::*;

verus! {

/// What the pipeline needs next: a finished answer, a currency rate,
/// a translation, or the terminal failure.
#[derive(Debug)]
pub enum Step {
    Done(String),
    Currency(CurrencyRequest),
    Translation(TranslationRequest),
    Fail(ConvertError),
}

/// The translation stage's local outcome on query `q`: the request it
/// decomposes into, or the error the pipeline reports.
pub open spec fn translation_outcome(q: Seq<char>, r: Step) -> bool {
    match translation_parse_spec(q) {
        Ok(p) => r matches Step::Translation(t) && t.from@ == p.0 && t.to@ == p.1 && t.text@
            == p.2,
        Err(e) => r == Step::Fail(e),
    }
}

/// The pipeline's stage order on query `q`: measurement conversion
/// first, then scalar evaluation, then unit-aware evaluation, then the
/// currency request, then the translation request. Each stage's
/// failure is discarded and the next stage is tried; a success
/// short-circuits, so a query that both converts as a measurement and
/// resembles a translation resolves as the measurement conversion.
pub open spec fn first_step_outcome(q: Seq<char>, r: Step) -> bool {
    match convert_spec(q) {
        Ok(p) => r matches Step::Done(out) && out@ == measurement_txt(p.0.0, p.0.1, p.1),
        Err(_) => match eval_spec(q) {
            Ok(v) => r matches Step::Done(out) && out@ == fmt_frac(v.0, v.1),
            Err(_) => match meval_spec(q) {
                Ok(p) => r matches Step::Done(out) && out@ == measurement_txt(p.0.0, p.0.1, p.1),
                Err(_) => match currency_query_spec(q) {
                    Ok(c) => r matches Step::Currency(cr) && cr.amount.model() == c.0 && cr.from@
                        == c.1 && cr.to@ == c.2 && cr.amount.wf(),
                    Err(_) => translation_outcome(q, r),
                },
            },
        },
    }
}

/// The translation attempt, last in the pipeline: its parse failure is
/// the pipeline's reported error.
pub fn translation_step(query: &String) -> (r: Step)
    ensures
        translation_outcome(query@, r),
{
    let tr = Translator::new();
    match tr.prepare(query) {
        Ok(t) => Step::Translation(t),
        Err(e) => Step::Fail(e),
    }
}

/// Runs the local stages in their fixed order and decides what the
/// caller must do next, as [`first_step_outcome`] pins down.
pub fn first_step(query: &String) -> (r: Step)
    ensures
        first_step_outcome(query@, r),
{
    match Measurement::convert(query) {
        Ok(m) => {
            return Step::Done(m.txt());
        },
        Err(_) => {},
    }
    match eval(query) {
        Ok(v) => {
            return Step::Done(v.txt());
        },
        Err(_) => {},
    }
    match meval(query) {
        Ok(m) => {
            return Step::Done(m.txt());
        },
        Err(_) => {},
    }
    match curr_request(query) {
        Ok(c) => {
            return Step::Currency(c);
        },
        Err(_) => {},
    }
    translation_step(query)
}

/// Resumes after the currency stage's rate lookup: a usable rate
/// finishes the query; a missing or unusable rate, or an overflowing
/// product, falls through to the translation stage.
pub fn currency_step(query: &String, req: &CurrencyRequest, rate_text: Option<&String>) -> (r:
    Step)
    requires
        req.amount.wf(),
    ensures
        match rate_text {
            Some(rt) => match dec_parse(rt@) {
                Ok(p) => match crate::rat::checked_frac(
                    req.amount.num * p.0,
                    req.amount.den * p.1,
                ) {
                    Some(w) => r matches Step::Done(out) && out@ == fmt_frac(w.0, w.1)
                        + seq![' '] + req.to@,
                    None => translation_outcome(query@, r),
                },
                Err(_) => translation_outcome(query@, r),
            },
            None => translation_outcome(query@, r),
        },
{
    if let Some(rt) = rate_text {
        match curr_apply(&req.amount, rt.as_str(), &req.to) {
            Ok(c) => {
                return Step::Done(c.txt());
            },
            Err(_) => {},
        }
    }
    translation_step(query)
}

/// The final gate of the translation stage: an answer identical to the
/// query means the provider did not understand it, and the pipeline
/// reports `NotUnderstood` rather than success.
pub fn translation_finish(query: &String, rendered: String) -> (r: Result<String, ConvertError>)
    ensures
        (rendered@ == query@) <==> r == Err::<String, ConvertError>(ConvertError::NotUnderstood),
        rendered@ != query@ ==> (r matches Ok(out) && out@ == rendered@),
{
    if rendered.eq(query) {
        Err(ConvertError::NotUnderstood)
    } else {
        Ok(rendered)
    }
}

} // verus!
