//! Finding a pattern in a text, and cutting a text into lines and fields.

use crate::text::{count_until, until};
use vstd::prelude::*;
use vstd::slice::slice_subrange;

verus! {

/// `pat` stands in `s` at position `i`.
pub open spec fn occurs_at<A>(s: Seq<A>, pat: Seq<A>, i: int) -> bool {
    0 <= i && i + pat.len() <= s.len() && s.subrange(i, i + pat.len()) == pat
}

/// `pat` stands in `s` at position `i` and nowhere before it.
pub open spec fn first_at<A>(s: Seq<A>, pat: Seq<A>, i: int) -> bool {
    occurs_at(s, pat, i) && forall|j: int| 0 <= j < i ==> !occurs_at(s, pat, j)
}

/// `pat` stands somewhere in `s`.
pub open spec fn contains<A>(s: Seq<A>, pat: Seq<A>) -> bool {
    exists|i: int| occurs_at(s, pat, i)
}

/// Where `pat` first stands in `s`, if it does at all.
pub open spec fn find<A>(s: Seq<A>, pat: Seq<A>) -> Option<int> {
    if contains(s, pat) {
        Some(choose|i: int| first_at(s, pat, i))
    } else {
        None
    }
}

/// `s` begins with `pat`.
pub open spec fn starts_with<A>(s: Seq<A>, pat: Seq<A>) -> bool {
    occurs_at(s, pat, 0)
}

/// There is only one first occurrence.
pub proof fn lemma_find_is<A>(s: Seq<A>, pat: Seq<A>, i: int)
    requires
        first_at(s, pat, i),
    ensures
        find(s, pat) == Some(i),
{
    assert(contains(s, pat));
    let k = choose|k: int| first_at(s, pat, k);
    assert(first_at(s, pat, k));
    if k < i {
        assert(!occurs_at(s, pat, k));
    } else if i < k {
        assert(!occurs_at(s, pat, i));
    }
}

/// What `find` gives is an occurrence with none before it.
pub proof fn lemma_find<A>(s: Seq<A>, pat: Seq<A>)
    ensures
        find(s, pat) is Some ==> first_at(s, pat, find(s, pat)->0),
        find(s, pat) is None ==> forall|i: int| !occurs_at(s, pat, i),
{
    if contains(s, pat) {
        let w = choose|i: int| occurs_at(s, pat, i);
        lemma_least_occurrence(s, pat, w);
    }
}

/// Below every occurrence there is a first one.
proof fn lemma_least_occurrence<A>(s: Seq<A>, pat: Seq<A>, w: int)
    requires
        occurs_at(s, pat, w),
    ensures
        exists|i: int| first_at(s, pat, i),
    decreases w,
{
    if exists|j: int| 0 <= j < w && occurs_at(s, pat, j) {
        let j = choose|j: int| 0 <= j < w && occurs_at(s, pat, j);
        lemma_least_occurrence(s, pat, j);
    } else {
        assert(first_at(s, pat, w));
    }
}

/// Whether `pat` stands in `s` at position `i`.
pub fn matches_at(s: &[char], pat: &[char], i: usize) -> (b: bool)
    ensures
        b == occurs_at(s@, pat@, i as int),
{
    if pat.len() > s.len() || i > s.len() - pat.len() {
        return false;
    }
    let mut k: usize = 0;
    while k < pat.len()
        invariant
            k <= pat.len(),
            i + pat.len() <= s.len(),
            forall|j: int| 0 <= j < k ==> s@[i + j] == pat@[j],
        decreases pat.len() - k,
    {
        if s[i + k] != pat[k] {
            proof {
                let sub = s@.subrange(i as int, i + pat.len());
                assert(sub[k as int] == s@[i + k]);
            }
            return false;
        }
        k += 1;
    }
    assert(s@.subrange(i as int, i + pat.len()) =~= pat@);
    true
}

/// Where `pat` first stands in `s`.
pub fn find_first(s: &[char], pat: &[char]) -> (r: Option<usize>)
    ensures
        match r {
            Some(i) => find(s@, pat@) == Some(i as int),
            None => find(s@, pat@) is None,
        },
{
    let mut i: usize = 0;
    while i < s.len()
        invariant
            i <= s.len(),
            forall|j: int| 0 <= j < i ==> !occurs_at(s@, pat@, j),
        decreases s.len() - i,
    {
        if matches_at(s, pat, i) {
            proof {
                lemma_find_is(s@, pat@, i as int);
            }
            return Some(i);
        }
        i += 1;
    }
    if matches_at(s, pat, i) {
        proof {
            lemma_find_is(s@, pat@, i as int);
        }
        return Some(i);
    }
    proof {
        lemma_find(s@, pat@);
    }
    None
}

/// `line` without the carriage return it ends with, if it ends with one.
pub open spec fn strip_cr(line: Seq<char>) -> Seq<char> {
    if line.len() > 0 && line.last() == '\r' {
        line.drop_last()
    } else {
        line
    }
}

/// The first line of `s`. A line ends at a line feed; a carriage return
/// directly before that line feed belongs to the line ending. The last
/// line needs no line ending, and then keeps every character it has.
pub open spec fn first_line(s: Seq<char>) -> Seq<char> {
    let n = until(s, '\n');
    if n < s.len() {
        strip_cr(s.take(n as int))
    } else {
        s
    }
}

/// What follows the first line of `s` and its line ending.
pub open spec fn after_first_line(s: Seq<char>) -> Seq<char> {
    let n = until(s, '\n');
    if n < s.len() {
        s.skip(n as int + 1)
    } else {
        Seq::empty()
    }
}

/// The lines of `s`, in order. The empty text has no line, and a line
/// ending at the end of `s` starts no further line.
pub open spec fn lines(s: Seq<char>) -> Seq<Seq<char>>
    decreases s.len(),
{
    if s.len() == 0 {
        Seq::empty()
    } else {
        seq![first_line(s)] + lines(after_first_line(s))
    }
}

/// The field between the first and the second `sep` of `line`, or between
/// the first `sep` and the end where there is no second. A line without
/// `sep` has no such field.
pub open spec fn second_field(line: Seq<char>, sep: char) -> Option<Seq<char>> {
    let a = until(line, sep);
    if a < line.len() {
        let rest = line.skip(a as int + 1);
        Some(rest.take(until(rest, sep) as int))
    } else {
        None
    }
}

/// The texts that the slices of `v` hold.
pub open spec fn views(v: Seq<&[char]>) -> Seq<Seq<char>> {
    Seq::new(v.len(), |i: int| v[i]@)
}

/// Cuts `s` into its lines.
pub fn split_lines<'a>(s: &'a [char]) -> (out: Vec<&'a [char]>)
    ensures
        views(out@) == lines(s@),
{
    let mut out: Vec<&'a [char]> = Vec::new();
    let mut rest: &'a [char] = s;
    while rest.len() > 0
        invariant
            views(out@) + lines(rest@) == lines(s@),
        decreases rest.len(),
    {
        let ghost before = out@;
        let ghost whole = rest@;
        let n = count_until(rest, '\n');
        let line = if n < rest.len() {
            let end = if n > 0 && rest[n - 1] == '\r' {
                n - 1
            } else {
                n
            };
            let line = slice_subrange(rest, 0, end);
            rest = slice_subrange(rest, n + 1, rest.len());
            assert(line@ == strip_cr(whole.take(n as int)));
            line
        } else {
            let line = rest;
            rest = slice_subrange(rest, n, n);
            line
        };
        out.push(line);
        proof {
            assert(line@ == first_line(whole));
            assert(rest@ == after_first_line(whole));
            assert(views(out@) == views(before) + seq![line@]);
            assert(lines(whole) == seq![line@] + lines(rest@));
        }
    }
    assert(lines(rest@) == Seq::<Seq<char>>::empty());
    out
}

/// Cuts the second `sep`-separated field out of `line`.
pub fn cut_second_field<'a>(line: &'a [char], sep: char) -> (field: Option<&'a [char]>)
    ensures
        match field {
            Some(f) => second_field(line@, sep) == Some(f@),
            None => second_field(line@, sep) is None,
        },
{
    let a = count_until(line, sep);
    if a < line.len() {
        let rest = slice_subrange(line, a + 1, line.len());
        let b = count_until(rest, sep);
        Some(slice_subrange(rest, 0, b))
    } else {
        None
    }
}

} // verus!
