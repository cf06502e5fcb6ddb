//! The query segmenter: splitting a query at conversion markers (a
//! colon, or the standalone word `to`), and whitespace tokenization.
//!
//! A `to` counts as a marker only at word boundaries, so `stone` or
//! `photo` are never split apart.

use crate::text::{is_space, is_space_c, is_word, is_word_c};
use vstd::prelude::*;

verus! {

/// A colon marker starts at `i`.
pub open spec fn colon_at(s: Seq<char>, i: int) -> bool {
    0 <= i < s.len() && s[i] == ':'
}

/// The standalone word `to` starts at `i`.
pub open spec fn to_at(s: Seq<char>, i: int) -> bool {
    &&& 0 <= i
    &&& i + 2 <= s.len()
    &&& s[i] == 't'
    &&& s[i + 1] == 'o'
    &&& (i == 0 || !is_word_c(s[i - 1]))
    &&& (i + 2 == s.len() || !is_word_c(s[i + 2]))
}

/// The length of the marker starting at `i`: 1 for a colon, 2 for the
/// word `to`, 0 when none starts here.
pub open spec fn marker_len(s: Seq<char>, i: int) -> int {
    if colon_at(s, i) {
        1
    } else if to_at(s, i) {
        2
    } else {
        0
    }
}

/// The pieces of `s` between markers, scanning at `i` with the current
/// piece begun at `start`.
pub open spec fn seg_parts(s: Seq<char>, i: int, start: int) -> Seq<Seq<char>>
    recommends
        0 <= start <= i <= s.len(),
    decreases s.len() - i,
{
    if i >= s.len() {
        seq![s.subrange(start, s.len() as int)]
    } else if colon_at(s, i) {
        seq![s.subrange(start, i)] + seg_parts(s, i + 1, i + 1)
    } else if to_at(s, i) {
        seq![s.subrange(start, i)] + seg_parts(s, i + 2, i + 2)
    } else {
        seg_parts(s, i + 1, start)
    }
}

/// The pieces of `s` between conversion markers; a string with no
/// marker is one piece, and every marker adds one.
pub open spec fn seg_split_s(s: Seq<char>) -> Seq<Seq<char>> {
    seg_parts(s, 0, 0)
}

/// The position just past the first marker at or after `i`, when one
/// exists.
pub open spec fn first_marker_end(s: Seq<char>, i: int) -> Option<int>
    decreases s.len() - i,
{
    if i >= s.len() {
        None
    } else if colon_at(s, i) {
        Some(i + 1)
    } else if to_at(s, i) {
        Some(i + 2)
    } else {
        first_marker_end(s, i + 1)
    }
}

/// Finds the end of the first marker, when one exists.
pub fn find_marker_end(v: &Vec<char>) -> (r: Option<usize>)
    ensures
        match first_marker_end(v@, 0) {
            Some(e) => r matches Some(x) && x as int == e && x <= v@.len(),
            None => r is None,
        },
{
    let mut i: usize = 0;
    while i < v.len()
        invariant
            i <= v.len(),
            first_marker_end(v@, i as int) == first_marker_end(v@, 0),
        decreases v.len() - i,
    {
        let m = marker_at(v, i);
        if m != 0 {
            return Some(i + m);
        }
        i = i + 1;
    }
    None
}

/// Which marker starts at position `i`: its length, or 0 for none.
fn marker_at(v: &Vec<char>, i: usize) -> (r: usize)
    requires
        i < v@.len(),
    ensures
        r as int == marker_len(v@, i as int),
{
    if v[i] == ':' {
        1
    } else if v[i] == 't' && v.len() - i >= 2 && v[i + 1] == 'o' && (i == 0 || !is_word(
        v[i - 1],
    )) && (i + 2 == v.len() || !is_word(v[i + 2])) {
        2
    } else {
        0
    }
}

/// Splits `v` at every conversion marker, as [`seg_split_s`]
/// describes.
pub fn seg_split(v: &Vec<char>) -> (parts: Vec<Vec<char>>)
    ensures
        parts@.len() == seg_split_s(v@).len(),
        forall|k: int| 0 <= k < parts@.len() ==> parts@[k]@ == seg_split_s(v@)[k],
{
    let mut parts: Vec<Vec<char>> = Vec::new();
    let mut cur: Vec<char> = Vec::new();
    let mut start: usize = 0;
    let mut i: usize = 0;
    while i < v.len()
        invariant
            start <= i <= v.len(),
            cur@ == v@.subrange(start as int, i as int),
            seg_parts(v@, i as int, start as int).len() + parts@.len() == seg_split_s(v@).len(),
            forall|k: int|
                0 <= k < parts@.len() ==> parts@[k]@ == seg_split_s(v@)[k],
            forall|k: int|
                0 <= k < seg_parts(v@, i as int, start as int).len() ==> seg_parts(
                    v@,
                    i as int,
                    start as int,
                )[k] == seg_split_s(v@)[parts@.len() + k],
        decreases v.len() - i,
    {
        let ghost s = v@;
        let ghost pi = i as int;
        let ghost pstart = start as int;
        let ghost pparts = parts@;
        let ghost pcur = cur@;
        let m = marker_at(v, i);
        if m == 0 {
            cur.push(v[i]);
            i = i + 1;
            proof {
                assert(cur@ =~= s.subrange(start as int, i as int));
                assert(seg_parts(s, pi, pstart) == seg_parts(s, i as int, start as int));
            }
        } else {
            parts.push(cur);
            cur = Vec::new();
            i = i + m;
            start = i;
            proof {
                assert(cur@ =~= s.subrange(start as int, i as int));
                assert(seg_parts(s, pi, pstart) == seq![s.subrange(pstart, pi)] + seg_parts(
                    s,
                    i as int,
                    start as int,
                ));
                assert forall|k: int| 0 <= k < parts@.len() implies parts@[k]@ == seg_split_s(s)[k]
                by {
                    if k == pparts.len() {
                        assert(parts@[k]@ == pcur);
                        assert(seg_parts(s, pi, pstart)[0] == s.subrange(pstart, pi));
                    } else {
                        assert(parts@[k] == pparts[k]);
                    }
                }
                assert forall|k: int|
                    0 <= k < seg_parts(s, i as int, start as int).len() implies seg_parts(
                    s,
                    i as int,
                    start as int,
                )[k] == seg_split_s(s)[parts@.len() + k] by {
                    assert(seg_parts(s, pi, pstart)[k + 1] == seg_parts(s, i as int, start as int)[k]);
                }
            }
        }
    }
    proof {
        assert(seg_parts(v@, i as int, start as int) =~= seq![
            v@.subrange(start as int, v@.len() as int),
        ]);
    }
    let ghost pparts = parts@;
    let ghost pcur = cur@;
    parts.push(cur);
    proof {
        assert forall|k: int| 0 <= k < parts@.len() implies parts@[k]@ == seg_split_s(v@)[k] by {
            if k == pparts.len() {
                assert(parts@[k]@ == pcur);
                assert(seg_parts(v@, i as int, start as int)[0] == pcur);
            } else {
                assert(parts@[k] == pparts[k]);
            }
        }
    }
    parts
}

/// The whitespace-separated words of `s`, scanning at `i` outside any
/// word.
pub open spec fn words_from(s: Seq<char>, i: int) -> Seq<Seq<char>>
    recommends
        0 <= i <= s.len(),
    decreases s.len() - i, 0int,
{
    if i >= s.len() {
        Seq::empty()
    } else if is_space_c(s[i]) {
        words_from(s, i + 1)
    } else {
        word_then(s, i + 1, i)
    }
}

/// The rest of the words once a word begun at `start` has reached `j`.
pub open spec fn word_then(s: Seq<char>, j: int, start: int) -> Seq<Seq<char>>
    recommends
        0 <= start < j <= s.len(),
    decreases s.len() - j, 1int,
{
    if j >= s.len() || is_space_c(s[j]) {
        seq![s.subrange(start, j)] + words_from(s, j)
    } else {
        word_then(s, j + 1, start)
    }
}

/// The whitespace-separated words of `s`.
pub open spec fn words_s(s: Seq<char>) -> Seq<Seq<char>> {
    words_from(s, 0)
}

/// Splits `v` into its whitespace-separated words.
pub fn words(v: &Vec<char>) -> (ws: Vec<Vec<char>>)
    ensures
        ws@.len() == words_s(v@).len(),
        forall|k: int| 0 <= k < ws@.len() ==> ws@[k]@ == words_s(v@)[k],
{
    let mut ws: Vec<Vec<char>> = Vec::new();
    let mut i: usize = 0;
    while i < v.len()
        invariant
            i <= v.len(),
            words_from(v@, i as int).len() + ws@.len() == words_s(v@).len(),
            forall|k: int| 0 <= k < ws@.len() ==> ws@[k]@ == words_s(v@)[k],
            forall|k: int|
                0 <= k < words_from(v@, i as int).len() ==> words_from(v@, i as int)[k]
                    == words_s(v@)[ws@.len() + k],
        decreases v.len() - i,
    {
        let ghost s = v@;
        let ghost pi = i as int;
        let ghost pws = ws@;
        let c = v[i];
        if is_space(c) {
            i = i + 1;
            proof {
                assert(words_from(s, pi) == words_from(s, i as int));
            }
        } else {
            let start = i;
            let mut j = i + 1;
            while j < v.len() && !is_space(v[j])
                invariant
                    start < j <= v.len(),
                    word_then(v@, j as int, start as int) == words_from(v@, start as int),
                decreases v.len() - j,
            {
                j = j + 1;
            }
            let mut w: Vec<char> = Vec::new();
            let mut k = start;
            while k < j
                invariant
                    start <= k <= j <= v.len(),
                    w@ == v@.subrange(start as int, k as int),
                decreases j - k,
            {
                w.push(v[k]);
                k = k + 1;
                proof {
                    assert(w@ =~= v@.subrange(start as int, k as int));
                }
            }
            let ghost pw = w@;
            ws.push(w);
            i = j;
            proof {
                assert(words_from(s, pi) == seq![s.subrange(start as int, j as int)] + words_from(
                    s,
                    i as int,
                ));
                assert forall|k2: int| 0 <= k2 < ws@.len() implies ws@[k2]@ == words_s(s)[k2] by {
                    if k2 == pws.len() {
                        assert(ws@[k2]@ == pw);
                        assert(words_from(s, pi)[0] == s.subrange(start as int, j as int));
                    } else {
                        assert(ws@[k2] == pws[k2]);
                    }
                }
                assert forall|k2: int|
                    0 <= k2 < words_from(s, i as int).len() implies words_from(s, i as int)[k2]
                    == words_s(s)[ws@.len() + k2] by {
                    assert(words_from(s, pi)[k2 + 1] == words_from(s, i as int)[k2]);
                }
            }
        }
    }
    ws
}

/// The words joined with single spaces.
pub open spec fn join_sp(ws: Seq<Seq<char>>) -> Seq<char>
    decreases ws.len(),
{
    if ws.len() == 0 {
        Seq::empty()
    } else if ws.len() == 1 {
        ws[0]
    } else {
        ws[0] + seq![' '] + join_sp(ws.drop_first())
    }
}

/// Joins `ws[k..]` with single spaces.
pub fn join_from(ws: &Vec<Vec<char>>, k: usize) -> (r: Vec<char>)
    requires
        k <= ws@.len(),
    ensures
        r@ == join_sp(ws@.skip(k as int).map_values(|w: Vec<char>| w@)),
    decreases ws@.len() - k,
{
    if k >= ws.len() {
        proof {
            assert(ws@.skip(k as int).map_values(|w: Vec<char>| w@) =~= Seq::<Seq<char>>::empty());
        }
        Vec::new()
    } else {
        let mut r: Vec<char> = Vec::new();
        let w = &ws[k];
        let mut t: usize = 0;
        while t < w.len()
            invariant
                t <= w@.len(),
                r@ == w@.take(t as int),
            decreases w.len() - t,
        {
            r.push(w[t]);
            t = t + 1;
            proof {
                assert(r@ =~= w@.take(t as int));
            }
        }
        proof {
            assert(r@ =~= w@);
        }
        if k + 1 == ws.len() {
            proof {
                let m = ws@.skip(k as int).map_values(|w: Vec<char>| w@);
                assert(m.len() == 1);
                assert(m[0] == ws@[k as int]@);
            }
            r
        } else {
            r.push(' ');
            let mut tail = join_from(ws, k + 1);
            r.append(&mut tail);
            proof {
                let m = ws@.skip(k as int).map_values(|w: Vec<char>| w@);
                assert(m.len() >= 2);
                assert(m[0] == ws@[k as int]@);
                assert(m.drop_first() =~= ws@.skip(k as int + 1).map_values(|w: Vec<char>| w@));
                assert(r@ =~= join_sp(m));
            }
            r
        }
    }
}

} // verus!
