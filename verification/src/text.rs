//! Substring and prefix search over sequences of characters.
use vstd::prelude::*;

verus! {

/// `pat` stands in `text` at position `at`.
pub open spec fn occurs_at(text: Seq<char>, pat: Seq<char>, at: int) -> bool {
    &&& 0 <= at
    &&& at + pat.len() <= text.len()
    &&& text.subrange(at, at + pat.len()) == pat
}

/// `pat` stands somewhere in `text`.
pub open spec fn contains(text: Seq<char>, pat: Seq<char>) -> bool {
    exists|at: int| occurs_at(text, pat, at)
}

/// `text` begins with `pat`.
pub open spec fn starts_with(text: Seq<char>, pat: Seq<char>) -> bool {
    occurs_at(text, pat, 0)
}

/// The characters of a string slice, in order.
pub fn chars_of(s: &str) -> (v: Vec<char>)
    ensures
        v@ == s@,
{
    let mut v: Vec<char> = Vec::new();
    for c in it: s.chars()
        invariant
            v@ == it.seq().take(it.index()),
            it.seq() == s@,
    {
        v.push(c);
    }
    v
}

/// Whether `pat` stands in `text` at `at`, compared character by character.
pub fn matches_at(text: &[char], pat: &[char], at: usize) -> (found: bool)
    requires
        at + pat@.len() <= text@.len(),
    ensures
        found == occurs_at(text@, pat@, at as int),
{
    let text_len: usize = text.len();
    let mut k: usize = 0;
    while k < pat.len()
        invariant
            k <= pat@.len(),
            text_len == text@.len(),
            at + pat@.len() <= text_len,
            forall|j: int| 0 <= j < k ==> text@[at + j] == pat@[j],
        decreases pat@.len() - k,
    {
        if text[at + k] != pat[k] {
            assert(text@.subrange(at as int, at + pat@.len())[k as int] != pat@[k as int]);
            return false;
        }
        k += 1;
    }
    assert(text@.subrange(at as int, at + pat@.len()) =~= pat@);
    true
}

/// The first position at which `pat` stands in `text`, if there is one.
pub fn find(text: &[char], pat: &[char]) -> (found: Option<usize>)
    ensures
        match found {
            Some(at) => occurs_at(text@, pat@, at as int) && forall|j: int|
                0 <= j < at ==> !occurs_at(text@, pat@, j),
            None => !contains(text@, pat@),
        },
{
    if pat.len() > text.len() {
        return None;
    }
    let last: usize = text.len() - pat.len();
    let mut at: usize = 0;
    while at < last
        invariant
            last == text@.len() - pat@.len(),
            at <= last,
            forall|j: int| 0 <= j < at ==> !occurs_at(text@, pat@, j),
        decreases last - at,
    {
        if matches_at(text, pat, at) {
            return Some(at);
        }
        at += 1;
    }
    if matches_at(text, pat, last) {
        Some(last)
    } else {
        None
    }
}

/// Whether `pat` stands somewhere in `text`.
pub fn str_contains(text: &str, pat: &str) -> (found: bool)
    ensures
        found == contains(text@, pat@),
{
    let t = chars_of(text);
    let p = chars_of(pat);
    find(t.as_slice(), p.as_slice()).is_some()
}

/// Whether `text` begins with `pat`.
pub fn str_starts_with(text: &str, pat: &str) -> (found: bool)
    ensures
        found == starts_with(text@, pat@),
{
    let t = chars_of(text);
    let p = chars_of(pat);
    if p.len() > t.len() {
        false
    } else {
        matches_at(t.as_slice(), p.as_slice(), 0)
    }
}

} // verus!
