//! Currency amounts and the local half of currency conversion:
//! parsing `1usd:uah`-shaped queries into a request for the external
//! rate provider, and applying a rate the provider returned.

use crate::decimal::{dec_parse, fmt_frac, parse_dec, split_value_run, vrun_from};
use crate::errors::ConvertError;
use crate::rat::{checked_frac, Rat};
use crate::segment::{seg_split, seg_split_s};
use crate::text::{chars_string, str_chars, strip_spaces, strip_spaces_s};
use vstd::prelude::*;
use vstd::string::*;

verus! {

/// An amount of some currency, named by its code as the query spelled
/// it.
#[derive(Debug, PartialEq, Eq)]
pub struct Currency {
    pub currency: String,
    pub amount: Rat,
}

/// What parsing a currency literal yields: the maximal leading run of
/// digits and points as the amount — defaulting to zero when the run
/// is malformed — and the nonempty remainder as the currency code.
pub open spec fn currency_from_str_spec(s: Seq<char>) -> Result<
    ((int, int), Seq<char>),
    ConvertError,
> {
    let k = vrun_from(s, 0);
    let run = s.take(k);
    let rest = s.skip(k);
    if rest.len() == 0 {
        Err(ConvertError::EmptyUnit)
    } else {
        match dec_parse(run) {
            Ok(p) => Ok((p, rest)),
            Err(e) => if e == ConvertError::BadNumber {
                Ok(((0int, 1int), rest))
            } else {
                Err(e)
            },
        }
    }
}

/// What a currency-shaped query yields: exactly two marker-split
/// parts (else `QueryFormat`), each side a currency literal with its
/// whitespace removed; the amount comes from the left side, the target
/// code from the right.
pub open spec fn currency_query_spec(s: Seq<char>) -> Result<
    ((int, int), Seq<char>, Seq<char>),
    ConvertError,
> {
    let parts = seg_split_s(s);
    if parts.len() != 2 {
        Err(ConvertError::QueryFormat)
    } else {
        match currency_from_str_spec(strip_spaces_s(parts[0])) {
            Err(e) => Err(e),
            Ok(f) => match currency_from_str_spec(strip_spaces_s(parts[1])) {
                Err(e) => Err(e),
                Ok(t) => Ok((f.0, f.1, t.1)),
            },
        }
    }
}

/// What the provider's exchange rate is asked for, once a query has
/// parsed as a currency conversion.
#[derive(Debug, PartialEq, Eq)]
pub struct CurrencyRequest {
    pub from: String,
    pub to: String,
    pub amount: Rat,
}

impl Currency {
    pub open spec fn wf(self) -> bool {
        self.amount.wf()
    }

    pub fn new(currency: String, amount: Rat) -> (c: Currency)
        ensures
            c.currency == currency,
            c.amount == amount,
    {
        Currency { currency, amount }
    }

    /// Renders as `"<amount> <code>"`.
    pub fn txt(&self) -> (r: String)
        requires
            self.wf(),
        ensures
            r@ == fmt_frac(self.amount.num as int, self.amount.den as int) + seq![' ']
                + self.currency@,
    {
        let mut s = self.amount.txt();
        s.append(" ");
        proof {
            reveal_strlit(" ");
            assert(" "@ =~= seq![' ']);
        }
        s.append(self.currency.as_str());
        s
    }

    /// Parses a currency literal from its characters, as
    /// [`currency_from_str_spec`] describes.
    pub(crate) fn from_chars(v: &Vec<char>) -> (r: Result<Currency, ConvertError>)
        ensures
            match currency_from_str_spec(v@) {
                Ok(p) => r matches Ok(c) && c.amount.model() == p.0 && c.currency@ == p.1
                    && c.wf(),
                Err(e) => r == Err::<Currency, ConvertError>(e),
            },
    {
        let (run, rest) = split_value_run(v);
        if rest.len() == 0 {
            return Err(ConvertError::EmptyUnit);
        }
        let amount = match parse_dec(&run) {
            Ok(a) => a,
            Err(e) => match e {
                ConvertError::BadNumber => Rat::from_int(0),
                _ => {
                    return Err(e);
                },
            },
        };
        Ok(Currency { currency: chars_string(&rest), amount })
    }

    /// Parses a currency literal such as `1usd`, as
    /// [`currency_from_str_spec`] describes.
    pub fn from_str(query: &String) -> (r: Result<Currency, ConvertError>)
        ensures
            match currency_from_str_spec(query@) {
                Ok(p) => r matches Ok(c) && c.amount.model() == p.0 && c.currency@ == p.1
                    && c.wf(),
                Err(e) => r == Err::<Currency, ConvertError>(e),
            },
    {
        let chars = str_chars(query.as_str());
        Currency::from_chars(&chars)
    }
}

/// Parses a currency-shaped query such as `1usd:uah` into the request
/// the rate provider is asked to fill, as [`currency_query_spec`]
/// describes.
pub fn curr_request(query: &String) -> (r: Result<CurrencyRequest, ConvertError>)
    ensures
        match currency_query_spec(query@) {
            Ok(p) => r matches Ok(c) && c.amount.model() == p.0 && c.from@ == p.1 && c.to@ == p.2
                && c.amount.wf(),
            Err(e) => r == Err::<CurrencyRequest, ConvertError>(e),
        },
{
    let chars = str_chars(query.as_str());
    let parts = seg_split(&chars);
    if parts.len() != 2 {
        return Err(ConvertError::QueryFormat);
    }
    let fp = strip_spaces(&parts[0]);
    let tp = strip_spaces(&parts[1]);
    let from = match Currency::from_chars(&fp) {
        Ok(c) => c,
        Err(e) => {
            return Err(e);
        },
    };
    let to = match Currency::from_chars(&tp) {
        Ok(c) => c,
        Err(e) => {
            return Err(e);
        },
    };
    Ok(CurrencyRequest { from: from.currency, to: to.currency, amount: from.amount })
}

/// Applies an exchange rate the provider returned, written as a plain
/// decimal string: the amount times the rate, in the target currency.
/// A rate that does not read as a decimal is a `Provider` error.
pub fn curr_apply(amount: &Rat, rate_text: &str, to_code: &String) -> (r: Result<
    Currency,
    ConvertError,
>)
    requires
        amount.wf(),
    ensures
        match dec_parse(rate_text@) {
            Err(_) => r == Err::<Currency, ConvertError>(ConvertError::Provider),
            Ok(p) => match checked_frac(amount.num * p.0, amount.den * p.1) {
                Some(w) => r matches Ok(c) && c.amount.model() == w && c.currency@ == to_code@
                    && c.wf(),
                None => r == Err::<Currency, ConvertError>(ConvertError::Overflow),
            },
        },
{
    let chars = str_chars(rate_text);
    let rate = match parse_dec(&chars) {
        Ok(x) => x,
        Err(_) => {
            return Err(ConvertError::Provider);
        },
    };
    match amount.mul(rate) {
        Ok(v) => Ok(Currency { currency: to_code.clone(), amount: v }),
        Err(e) => Err(e),
    }
}

} // verus!
