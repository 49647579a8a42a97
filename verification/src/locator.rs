//! Finding the bike among the peripherals that a scan turns up.
//!
//! A peripheral is the bike when the name it advertises contains one of
//! two fixed pieces of text. The scan itself is bounded: a fixed number of
//! attempts, with a fixed pause after each.

use vstd::prelude::*;

verus! {

/// How many times the list of peripherals is gone through before the
/// search is given up.
pub const SCAN_ATTEMPTS: u8 = 15;

/// Pause after an attempt that found nothing, in milliseconds.
pub const SCAN_INTERVAL_MILLIS: u64 = 1000;

/// `pattern` stands in `text` at position `at`.
pub open spec fn occurs_at(text: Seq<char>, pattern: Seq<char>, at: int) -> bool {
    &&& 0 <= at
    &&& at + pattern.len() <= text.len()
    &&& text.subrange(at, at + pattern.len()) == pattern
}

/// `pattern` stands somewhere in `text`.
pub open spec fn contains(text: Seq<char>, pattern: Seq<char>) -> bool {
    exists|at: int| occurs_at(text, pattern, at)
}

/// An advertised name is the bike's when it contains `GLT` or `Gallant`.
pub open spec fn is_bike_name(name: Seq<char>) -> bool {
    contains(name, "GLT"@) || contains(name, "Gallant"@)
}

/// A peripheral that advertises no name is never the bike.
pub open spec fn is_bike(name: Option<Seq<char>>) -> bool {
    match name {
        Some(text) => is_bike_name(text),
        None => false,
    }
}

/// The characters of a string, in order.
fn chars_of(text: &str) -> (chars: Vec<char>)
    ensures
        chars@ == text@,
{
    let mut chars: Vec<char> = Vec::new();
    for c in it: text.chars()
        invariant
            it.seq() == text@,
            chars@ == text@.take(it.index() as int),
    {
        chars.push(c);
    }
    chars
}

/// Tells whether `pattern` stands in `text` at `at`.
fn matches_at(text: &[char], pattern: &[char], at: usize) -> (found: bool)
    requires
        at + pattern@.len() <= text@.len(),
    ensures
        found == occurs_at(text@, pattern@, at as int),
{
    let length: usize = text.len();
    let mut i: usize = 0;
    while i < pattern.len()
        invariant
            i <= pattern@.len(),
            at + pattern@.len() <= text@.len() == length,
            forall|k: int| 0 <= k < i ==> text@[at + k] == pattern@[k],
        decreases pattern@.len() - i,
    {
        if text[at + i] != pattern[i] {
            assert(text@.subrange(at as int, at + pattern@.len())[i as int] != pattern@[i as int]);
            return false;
        }
        i += 1;
    }
    assert(text@.subrange(at as int, at + pattern@.len()) =~= pattern@);
    true
}

/// Tells whether `pattern` stands somewhere in `text`.
pub fn contains_chars(text: &[char], pattern: &[char]) -> (found: bool)
    ensures
        found == contains(text@, pattern@),
{
    if pattern.len() > text.len() {
        return false;
    }
    let last: usize = text.len() - pattern.len();
    let mut at: usize = 0;
    loop
        invariant
            last == text@.len() - pattern@.len(),
            at <= last,
            forall|k: int| 0 <= k < at ==> !occurs_at(text@, pattern@, k),
        decreases last - at,
    {
        if matches_at(text, pattern, at) {
            return true;
        }
        if at == last {
            return false;
        }
        at += 1;
    }
}

/// Tells whether an advertised name is the bike's.
pub fn name_matches(name: &str) -> (found: bool)
    ensures
        found == is_bike_name(name@),
{
    let text = chars_of(name);
    let short = chars_of("GLT");
    if contains_chars(text.as_slice(), short.as_slice()) {
        return true;
    }
    let long = chars_of("Gallant");
    contains_chars(text.as_slice(), long.as_slice())
}

/// To contain a pattern is to be the pattern with some text before it and
/// some text after it: a name matches wherever in it the pattern stands.
pub proof fn lemma_contains_is_embedding(text: Seq<char>, pattern: Seq<char>)
    ensures
        contains(text, pattern) <==> exists|before: Seq<char>, after: Seq<char>|
            text == before + pattern + after,
{
    if contains(text, pattern) {
        let at = choose|at: int| occurs_at(text, pattern, at);
        let before = text.take(at);
        let after = text.skip(at + pattern.len());
        assert(text =~= before + text.subrange(at, at + pattern.len()) + after);
        assert(text == before + pattern + after);
    }
    if exists|before: Seq<char>, after: Seq<char>| text == before + pattern + after {
        let (before, after) = choose|before: Seq<char>, after: Seq<char>|
            text == before + pattern + after;
        assert(text.subrange(before.len() as int, (before.len() + pattern.len()) as int)
            =~= pattern);
        assert(occurs_at(text, pattern, before.len() as int));
    }
}

} // verus!
