//! The local half of translation: parsing `lg to lg text` /
//! `lg:lg text` queries into a request for the external translation
//! provider, and shaping its response into the reported text.

use crate::errors::ConvertError;
use crate::segment::{find_marker_end, first_marker_end, join_from, join_sp, words, words_s};
use crate::text::{chars_string, str_chars, vec_skip, vec_take};
use vstd::prelude::*;
use vstd::string::*;

verus! {

/// A string with its colons removed: how the source-language word is
/// cleaned when the marker was a colon.
pub open spec fn strip_colons_s(s: Seq<char>) -> Seq<char>
    decreases s.len(),
{
    if s.len() == 0 {
        Seq::empty()
    } else {
        strip_colons_s(s.drop_last()) + (if s.last() == ':' {
            Seq::<char>::empty()
        } else {
            seq![s.last()]
        })
    }
}

fn strip_colons(v: &Vec<char>) -> (r: Vec<char>)
    ensures
        r@ == strip_colons_s(v@),
{
    let mut out: Vec<char> = Vec::new();
    let mut i: usize = 0;
    while i < v.len()
        invariant
            i <= v.len(),
            out@ == strip_colons_s(v@.take(i as int)),
        decreases v.len() - i,
    {
        let c = v[i];
        if c != ':' {
            out.push(c);
        }
        i = i + 1;
        proof {
            assert(v@.take(i as int).drop_last() =~= v@.take(i - 1));
            assert(out@ =~= strip_colons_s(v@.take(i as int)));
        }
    }
    proof {
        assert(v@.take(v@.len() as int) =~= v@);
    }
    out
}

/// What a translation-shaped query decomposes into: the source
/// language is the first word up to and including the first marker,
/// colons removed (defaulting to `en` when that stretch has no word);
/// the target language is the first word after the marker; the text is
/// the remaining words joined by single spaces. A query without a
/// marker, or with nothing after it, is a `QueryFormat` error.
pub open spec fn translation_parse_spec(s: Seq<char>) -> Result<
    (Seq<char>, Seq<char>, Seq<char>),
    ConvertError,
> {
    match first_marker_end(s, 0) {
        None => Err(ConvertError::QueryFormat),
        Some(e) => {
            let head = s.take(e);
            let rest = s.skip(e);
            let rws = words_s(rest);
            if rws.len() == 0 {
                Err(ConvertError::QueryFormat)
            } else {
                let hws = words_s(head);
                let from = if hws.len() == 0 {
                    "en"@
                } else {
                    strip_colons_s(hws[0])
                };
                Ok((from, rws[0], join_sp(rws.skip(1))))
            }
        },
    }
}

/// What the provider is asked to translate, once a query has parsed as
/// a translation.
#[derive(Debug, PartialEq, Eq)]
pub struct TranslationRequest {
    pub from: String,
    pub to: String,
    pub text: String,
}

/// The translation engine's local face: it decides what to ask the
/// provider and how to shape its answer; the network call itself is
/// the caller's.
pub struct Translator {}

impl Translator {
    pub fn new() -> (t: Translator)
        ensures
            t == (Translator {  }),
    {
        Translator {  }
    }

    /// Decomposes a translation-shaped query, as
    /// [`translation_parse_spec`] describes.
    pub fn prepare(&self, query: &String) -> (r: Result<TranslationRequest, ConvertError>)
        ensures
            match translation_parse_spec(query@) {
                Ok(p) => r matches Ok(t) && t.from@ == p.0 && t.to@ == p.1 && t.text@ == p.2,
                Err(e) => r == Err::<TranslationRequest, ConvertError>(e),
            },
    {
        let chars = str_chars(query.as_str());
        let e = match find_marker_end(&chars) {
            Some(e) => e,
            None => {
                return Err(ConvertError::QueryFormat);
            },
        };
        let head = vec_take(&chars, e);
        let rest = vec_skip(&chars, e);
        let rws = words(&rest);
        if rws.len() == 0 {
            return Err(ConvertError::QueryFormat);
        }
        let hws = words(&head);
        let from_chars = if hws.len() == 0 {
            str_chars("en")
        } else {
            strip_colons(&hws[0])
        };
        let to = chars_string(&rws[0]);
        let joined = join_from(&rws, 1);
        proof {
            assert(rws@.skip(1).map_values(|w: Vec<char>| w@) =~= words_s(rest@).skip(1));
        }
        let text = chars_string(&joined);
        Ok(TranslationRequest { from: chars_string(&from_chars), to, text })
    }

    /// Shapes the provider's response texts: the first one is
    /// reported, under a `[ from -> to ]` banner; an empty response is
    /// a `Provider` error.
    pub fn render(&self, from: &str, to: &str, texts: &Vec<String>) -> (r: Result<
        String,
        ConvertError,
    >)
        ensures
            texts@.len() == 0 ==> r == Err::<String, ConvertError>(ConvertError::Provider),
            texts@.len() > 0 ==> (r matches Ok(out) && out@ == "\n [ "@ + from@ + " -> "@
                + to@ + " ] \n\n "@ + texts@[0]@),
    {
        if texts.len() == 0 {
            return Err(ConvertError::Provider);
        }
        let mut s = String::new();
        s.append("\n [ ");
        s.append(from);
        s.append(" -> ");
        s.append(to);
        s.append(" ] \n\n ");
        s.append(texts[0].as_str());
        Ok(s)
    }
}

} // verus!
