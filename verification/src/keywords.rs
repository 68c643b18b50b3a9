//! Word-boundary keyword detection over character sequences.
//!
//! A keyword matches only when the characters on both sides of the matched
//! span (where present) are not word characters, so `tableJOIN` or `COUNTER`
//! never count as `JOIN` or `COUNT`.  Aggregate calls are matched as the
//! function name immediately followed by an opening parenthesis.

use vstd::prelude::*;

use crate::text::{exec_is_word_char, is_word_char};

verus! {

/// The characters `kw` stand verbatim in `t` at position `i`.
pub open spec fn occurs_at(t: Seq<char>, kw: Seq<char>, i: int) -> bool {
    0 <= i && i + kw.len() <= t.len() && t.subrange(i, i + kw.len() as int) == kw
}

/// A word-boundary occurrence: the neighbouring characters, where present,
/// are not word characters.
pub open spec fn keyword_at(t: Seq<char>, kw: Seq<char>, i: int) -> bool {
    &&& occurs_at(t, kw, i)
    &&& (i == 0 || !is_word_char(t[i - 1]))
    &&& (i + kw.len() == t.len() || !is_word_char(t[i + kw.len() as int]))
}

/// Some word-boundary occurrence of `kw` exists in `t`.
pub open spec fn contains_keyword(t: Seq<char>, kw: Seq<char>) -> bool {
    exists|i: int| keyword_at(t, kw, i)
}

/// A call of the function `name` at position `i`: a word boundary before the
/// name, and an opening parenthesis immediately after it.
pub open spec fn fn_call_at(t: Seq<char>, name: Seq<char>, i: int) -> bool {
    &&& occurs_at(t, name, i)
    &&& (i == 0 || !is_word_char(t[i - 1]))
    &&& i + name.len() < t.len()
    &&& t[i + name.len() as int] == '('
}

/// How many positions below `upto` carry a call of `name`.
pub open spec fn count_fn_calls(t: Seq<char>, name: Seq<char>, upto: int) -> int
    decreases upto,
{
    if upto <= 0 {
        0
    } else {
        count_fn_calls(t, name, upto - 1) + if fn_call_at(t, name, upto - 1) {
            1int
        } else {
            0int
        }
    }
}

/// Whether `kw` stands verbatim at position `i` of `t`.
fn matches_at(t: &Vec<char>, kw: &Vec<char>, i: usize) -> (r: bool)
    requires
        i <= t@.len(),
    ensures
        r == occurs_at(t@, kw@, i as int),
{
    let tn = t.len();
    let kn = kw.len();
    if kn > tn - i {
        return false;
    }
    let mut j: usize = 0;
    while j < kn
        invariant
            tn == t@.len(),
            kn == kw@.len(),
            i + kn <= tn,
            j <= kn,
            forall|q: int| 0 <= q < j ==> t@[i + q] == kw@[q],
        decreases kn - j,
    {
        if t[i + j] != kw[j] {
            proof {
                assert(t@.subrange(i as int, i + kw@.len() as int)[j as int] != kw@[j as int]);
            }
            return false;
        }
        j = j + 1;
    }
    proof {
        assert(t@.subrange(i as int, i + kw@.len() as int) =~= kw@);
    }
    true
}

/// Whether a word-boundary occurrence of `kw` starts at position `i` of `t`.
fn keyword_at_exec(t: &Vec<char>, kw: &Vec<char>, i: usize) -> (r: bool)
    requires
        i <= t@.len(),
    ensures
        r == keyword_at(t@, kw@, i as int),
{
    if !matches_at(t, kw, i) {
        return false;
    }
    if i > 0 && exec_is_word_char(t[i - 1]) {
        return false;
    }
    let tn = t.len();
    let end = i + kw.len();
    if end < tn && exec_is_word_char(t[end]) {
        return false;
    }
    true
}

/// Whether `t` holds a word-boundary occurrence of the keyword `kw`.
pub fn contains_keyword_chars(t: &Vec<char>, kw: &Vec<char>) -> (r: bool)
    requires
        kw@.len() >= 1,
    ensures
        r == contains_keyword(t@, kw@),
{
    if kw.len() > t.len() {
        proof {
            assert(forall|i: int| !keyword_at(t@, kw@, i));
        }
        return false;
    }
    let tn = t.len();
    let bound = tn - kw.len();
    let mut i: usize = 0;
    loop
        invariant
            kw@.len() >= 1,
            tn == t@.len(),
            i <= bound + 1,
            bound == t@.len() - kw@.len(),
            forall|q: int| 0 <= q < i ==> !keyword_at(t@, kw@, q),
        decreases bound + 1 - i,
    {
        if i > bound {
            proof {
                assert(forall|q: int| keyword_at(t@, kw@, q) ==> 0 <= q <= bound);
            }
            return false;
        }
        if keyword_at_exec(t, kw, i) {
            return true;
        }
        i = i + 1;
    }
}

/// How many word-boundary calls of the function `name` occur in `t`.
pub fn count_fn_calls_chars(t: &Vec<char>, name: &Vec<char>) -> (r: usize)
    requires
        name@.len() >= 1,
    ensures
        r == count_fn_calls(t@, name@, t@.len() as int),
{
    let mut count: usize = 0;
    let mut i: usize = 0;
    while i < t.len()
        invariant
            i <= t@.len(),
            count <= i,
            count == count_fn_calls(t@, name@, i as int),
        decreases t@.len() - i,
    {
        if matches_at(t, name, i) {
            let end = i + name.len();
            let boundary_before = i == 0 || !exec_is_word_char(t[i - 1]);
            if boundary_before && end < t.len() && t[end] == '(' {
                count = count + 1;
            }
        }
        i = i + 1;
    }
    count
}

} // verus!
