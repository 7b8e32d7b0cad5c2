//! Text primitives shared by the request parser and the response writer.
//!
//! Text is modelled as `Seq<char>`. The executable functions work on
//! character slices and hand out sub-slices, so nothing is copied until a
//! field of the result is built.

use crate::scan::{lemma_run_back_is, lemma_run_is, run, run_back};
use vstd::prelude::*;
use vstd::slice::slice_subrange;

verus! {

/// `String::push` appends one character to the string.
pub assume_specification[ String::push ](s: &mut String, ch: char)
    ensures
        final(s)@ == old(s)@.push(ch),
;

/// `==` on `str`: two texts are equal when they hold the same characters.
pub assume_specification[ <str as PartialEq>::eq ](a: &str, b: &str) -> (same: bool)
    ensures
        same == (a@ == b@),
;

/// The characters of `text`, in order.
pub fn to_chars(text: &str) -> (chars: Vec<char>)
    ensures
        chars@ == text@,
{
    let mut chars: Vec<char> = Vec::new();
    for c in it: text.chars()
        invariant
            chars@ == it.seq().take(it.index() as int),
    {
        chars.push(c);
    }
    chars
}

/// The text made of the characters of `chars`.
pub fn to_text(chars: &[char]) -> (text: String)
    ensures
        text@ == chars@,
{
    let mut text = String::new();
    let mut i: usize = 0;
    while i < chars.len()
        invariant
            i <= chars.len(),
            text@ == chars@.take(i as int),
        decreases chars.len() - i,
    {
        text.push(chars[i]);
        i += 1;
    }
    text
}

/// White space is a character with the Unicode property `White_Space`.
pub open spec fn whitespace(c: char) -> bool {
    let u = c as u32;
    ||| 0x09 <= u <= 0x0D
    ||| u == 0x20
    ||| u == 0x85
    ||| u == 0xA0
    ||| u == 0x1680
    ||| 0x2000 <= u <= 0x200A
    ||| u == 0x2028
    ||| u == 0x2029
    ||| u == 0x202F
    ||| u == 0x205F
    ||| u == 0x3000
}

/// Whether `c` is white space.
pub fn is_whitespace(c: char) -> (b: bool)
    ensures
        b == whitespace(c),
{
    let u: u32 = c as u32;
    (0x09 <= u && u <= 0x0D) || u == 0x20 || u == 0x85 || u == 0xA0 || u == 0x1680 || (0x2000 <= u
        && u <= 0x200A) || u == 0x2028 || u == 0x2029 || u == 0x202F || u == 0x205F || u == 0x3000
}

/// The white-space characters.
pub open spec fn spaces() -> spec_fn(char) -> bool {
    |c: char| whitespace(c)
}

/// The characters that are no white space.
pub open spec fn other_than_spaces() -> spec_fn(char) -> bool {
    |c: char| !whitespace(c)
}

/// The characters that differ from `stop`.
pub open spec fn other_than(stop: char) -> spec_fn(char) -> bool {
    |c: char| c != stop
}

/// The number of white-space characters that `s` begins with.
pub open spec fn leading_space(s: Seq<char>) -> nat {
    run(s, spaces())
}

/// The number of white-space characters that `s` ends with.
pub open spec fn trailing_space(s: Seq<char>) -> nat {
    run_back(s, spaces())
}

/// The number of characters before the first white space in `s`.
pub open spec fn leading_word(s: Seq<char>) -> nat {
    run(s, other_than_spaces())
}

/// The number of characters before the first `stop` in `s`; the length of
/// `s` when it holds none.
pub open spec fn until(s: Seq<char>, stop: char) -> nat {
    run(s, other_than(stop))
}

/// `s` without the white space it begins with.
pub open spec fn trim_start(s: Seq<char>) -> Seq<char> {
    s.skip(leading_space(s) as int)
}

/// `s` without the white space it ends with.
pub open spec fn trim_end(s: Seq<char>) -> Seq<char> {
    s.take(s.len() - trailing_space(s))
}

/// `s` without the white space around it.
pub open spec fn trim(s: Seq<char>) -> Seq<char> {
    trim_start(trim_end(s))
}

/// The first white-space separated word of `s`; empty when `s` has none.
pub open spec fn first_word(s: Seq<char>) -> Seq<char> {
    trim_start(s).take(leading_word(trim_start(s)) as int)
}

/// What follows the first word of `s`.
pub open spec fn after_first_word(s: Seq<char>) -> Seq<char> {
    trim_start(s).skip(leading_word(trim_start(s)) as int)
}

/// Drops the white space at the front of `s`.
pub fn skip_space<'a>(s: &'a [char]) -> (rest: &'a [char])
    ensures
        rest@ == trim_start(s@),
{
    let mut i: usize = 0;
    while i < s.len() && is_whitespace(s[i])
        invariant
            i <= s.len(),
            forall|k: int| 0 <= k < i ==> whitespace(#[trigger] s@[k]),
        decreases s.len() - i,
    {
        i += 1;
    }
    proof {
        lemma_run_is(s@, spaces(), i as int);
    }
    slice_subrange(s, i, s.len())
}

/// Drops the white space at the back of `s`.
pub fn skip_space_back<'a>(s: &'a [char]) -> (rest: &'a [char])
    ensures
        rest@ == trim_end(s@),
{
    let mut n: usize = s.len();
    while n > 0 && is_whitespace(s[n - 1])
        invariant
            n <= s.len(),
            forall|k: int| n <= k < s.len() ==> whitespace(#[trigger] s@[k]),
        decreases n,
    {
        n -= 1;
    }
    proof {
        lemma_run_back_is(s@, spaces(), s.len() - n);
    }
    slice_subrange(s, 0, n)
}

/// Drops the white space around `s`.
pub fn trimmed<'a>(s: &'a [char]) -> (rest: &'a [char])
    ensures
        rest@ == trim(s@),
{
    skip_space(skip_space_back(s))
}

/// Splits `s` into its first word and what follows it.
pub fn split_word<'a>(s: &'a [char]) -> (parts: (&'a [char], &'a [char]))
    ensures
        parts.0@ == first_word(s@),
        parts.1@ == after_first_word(s@),
{
    let t = skip_space(s);
    let mut i: usize = 0;
    while i < t.len() && !is_whitespace(t[i])
        invariant
            i <= t.len(),
            forall|k: int| 0 <= k < i ==> !whitespace(#[trigger] t@[k]),
        decreases t.len() - i,
    {
        i += 1;
    }
    proof {
        lemma_run_is(t@, other_than_spaces(), i as int);
    }
    (slice_subrange(t, 0, i), slice_subrange(t, i, t.len()))
}

/// The number of characters before the first `stop` in `s`.
pub fn count_until(s: &[char], stop: char) -> (n: usize)
    ensures
        n == until(s@, stop),
        n <= s.len(),
{
    let mut i: usize = 0;
    while i < s.len() && s[i] != stop
        invariant
            i <= s.len(),
            forall|k: int| 0 <= k < i ==> #[trigger] s@[k] != stop,
        decreases s.len() - i,
    {
        i += 1;
    }
    proof {
        lemma_run_is(s@, other_than(stop), i as int);
    }
    i
}

} // verus!
