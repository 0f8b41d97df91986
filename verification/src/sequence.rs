//! Facts about sequences that the rest of the crate is stated with.

use vstd::prelude::*;

verus! {

/// How many elements at the front of a sequence are good, up to the first that is not.
pub open spec fn leading<T>(s: Seq<T>, good: spec_fn(T) -> bool) -> nat
    decreases s.len(),
{
    if s.len() == 0 || !good(s[0]) {
        0
    } else {
        1 + leading(s.skip(1), good)
    }
}

/// [`leading`] counts exactly the good elements before the first bad one.
pub proof fn lemma_leading<T>(s: Seq<T>, good: spec_fn(T) -> bool)
    ensures
        leading(s, good) <= s.len(),
        forall|j: int| 0 <= j < leading(s, good) ==> good(#[trigger] s[j]),
        leading(s, good) < s.len() ==> !good(s[leading(s, good) as int]),
    decreases s.len(),
{
    if s.len() != 0 && good(s[0]) {
        let rest = s.skip(1);
        lemma_leading(rest, good);
        assert forall|j: int| 0 <= j < leading(s, good) implies good(#[trigger] s[j]) by {
            if j > 0 {
                assert(rest[j - 1] == s[j]);
            }
        }
    }
}

/// A count of good elements that stops at the end or at a bad one is [`leading`].
pub proof fn lemma_leading_unique<T>(s: Seq<T>, good: spec_fn(T) -> bool, k: nat)
    requires
        k <= s.len(),
        forall|j: int| 0 <= j < k ==> good(#[trigger] s[j]),
        k < s.len() ==> !good(s[k as int]),
    ensures
        leading(s, good) == k,
{
    lemma_leading(s, good);
    let n = leading(s, good);
    if n < k {
        assert(good(s[n as int]));
    }
    if k < n {
        assert(good(s[k as int]));
    }
}

/// A sequence without the first occurrence of each element of `gone`, taken one
/// after the other. An element that is not there leaves it as it is.
pub open spec fn without_each<T>(s: Seq<T>, gone: Seq<T>) -> Seq<T>
    decreases gone.len(),
{
    if gone.len() == 0 {
        s
    } else {
        without_each(s, gone.drop_last()).remove_value(gone.last())
    }
}

/// Filtering one element more keeps it or leaves it out.
pub proof fn lemma_filter_step<T>(s: Seq<T>, keep: spec_fn(T) -> bool, n: int)
    requires
        0 <= n < s.len(),
    ensures
        s.take(n + 1).filter(keep) == if keep(s[n]) {
            s.take(n).filter(keep).push(s[n])
        } else {
            s.take(n).filter(keep)
        },
{
    reveal(Seq::filter);
    assert(s.take(n + 1).drop_last() == s.take(n));
    assert(s.take(n + 1).last() == s[n]);
}

} // verus!
