//! Runs: the longest prefix, or suffix, of a sequence whose items all
//! satisfy a predicate.

use vstd::prelude::*;

verus! {

/// The length of the longest prefix of `s` whose items all satisfy `p`.
pub open spec fn run<A>(s: Seq<A>, p: spec_fn(A) -> bool) -> nat
    decreases s.len(),
{
    if s.len() > 0 && p(s[0]) {
        1 + run(s.drop_first(), p)
    } else {
        0
    }
}

/// The length of the longest suffix of `s` whose items all satisfy `p`.
pub open spec fn run_back<A>(s: Seq<A>, p: spec_fn(A) -> bool) -> nat
    decreases s.len(),
{
    if s.len() > 0 && p(s.last()) {
        1 + run_back(s.drop_last(), p)
    } else {
        0
    }
}

/// A run stays inside the sequence, holds only items that satisfy `p`,
/// and stops at one that does not.
pub proof fn lemma_run<A>(s: Seq<A>, p: spec_fn(A) -> bool)
    ensures
        run(s, p) <= s.len(),
        forall|i: int| 0 <= i < run(s, p) ==> p(#[trigger] s[i]),
        run(s, p) < s.len() ==> !p(s[run(s, p) as int]),
    decreases s.len(),
{
    if s.len() > 0 && p(s[0]) {
        let t = s.drop_first();
        lemma_run(t, p);
        assert forall|i: int| 0 <= i < run(s, p) implies p(#[trigger] s[i]) by {
            if i > 0 {
                assert(s[i] == t[i - 1]);
            }
        }
        if run(s, p) < s.len() {
            assert(s[run(s, p) as int] == t[run(t, p) as int]);
        }
    }
}

/// The same of a run at the back.
pub proof fn lemma_run_back<A>(s: Seq<A>, p: spec_fn(A) -> bool)
    ensures
        run_back(s, p) <= s.len(),
        forall|i: int| s.len() - run_back(s, p) <= i < s.len() ==> p(#[trigger] s[i]),
        run_back(s, p) < s.len() ==> !p(s[s.len() - run_back(s, p) - 1]),
    decreases s.len(),
{
    if s.len() > 0 && p(s.last()) {
        let t = s.drop_last();
        lemma_run_back(t, p);
        assert forall|i: int| s.len() - run_back(s, p) <= i < s.len() implies p(
            #[trigger] s[i],
        ) by {
            if i < s.len() - 1 {
                assert(s[i] == t[i]);
            }
        }
        if run_back(s, p) < s.len() {
            assert(s[s.len() - run_back(s, p) - 1] == t[t.len() - run_back(t, p) - 1]);
        }
    }
}

/// A prefix of `n` items that satisfy `p`, followed by one that does
/// not or by the end of the sequence, is the run of `p` in `s`.
pub proof fn lemma_run_is<A>(s: Seq<A>, p: spec_fn(A) -> bool, n: int)
    requires
        0 <= n <= s.len(),
        forall|i: int| 0 <= i < n ==> p(#[trigger] s[i]),
        n < s.len() ==> !p(s[n]),
    ensures
        run(s, p) == n,
{
    lemma_run(s, p);
    let m = run(s, p) as int;
    if m < n {
        assert(p(s[m]));
    } else if m > n {
        assert(p(s[n]));
    }
}

/// The same of a suffix of `n` items.
pub proof fn lemma_run_back_is<A>(s: Seq<A>, p: spec_fn(A) -> bool, n: int)
    requires
        0 <= n <= s.len(),
        forall|i: int| s.len() - n <= i < s.len() ==> p(#[trigger] s[i]),
        n < s.len() ==> !p(s[s.len() - n - 1]),
    ensures
        run_back(s, p) == n,
{
    lemma_run_back(s, p);
    let m = run_back(s, p) as int;
    if m < n {
        assert(p(s[s.len() - m - 1]));
    } else if m > n {
        assert(p(s[s.len() - n - 1]));
    }
}

} // verus!
