//! Bounded FIFO retention.
//!
//! Both stores follow the same policy: append at the back, and when the
//! configured capacity is exceeded drop the oldest element at the front.
//! `spec_bounded_push` is that step; `lemma_bounded_fold_keeps_most_recent`
//! is the retention law: after any sequence of appends, a store holds
//! exactly the most recent elements, in order, never more than its capacity.

use vstd::prelude::*;

verus! {

/// One bounded append: push at the back, and drop the front element if the
/// capacity `max` is now exceeded.
pub open spec fn spec_bounded_push<T>(s: Seq<T>, x: T, max: int) -> Seq<T> {
    let grown = s.push(x);
    if grown.len() > max {
        grown.drop_first()
    } else {
        grown
    }
}

/// The store contents after appending every element of `hist`, oldest
/// first, into an empty store of capacity `max`.
pub open spec fn spec_bounded_fold<T>(hist: Seq<T>, max: int) -> Seq<T>
    decreases hist.len(),
{
    if hist.len() == 0 {
        Seq::empty()
    } else {
        spec_bounded_push(spec_bounded_fold(hist.drop_last(), max), hist.last(), max)
    }
}

/// The retention law: a store of capacity `max` fed the history `hist`
/// holds exactly the last `max` elements of `hist` (all of them, if there
/// are fewer), oldest first.
pub proof fn lemma_bounded_fold_keeps_most_recent<T>(hist: Seq<T>, max: int)
    requires
        max >= 0,
    ensures
        spec_bounded_fold(hist, max) == hist.skip(
            if hist.len() - max >= 0 {
                hist.len() - max
            } else {
                0
            },
        ),
        spec_bounded_fold(hist, max).len() <= max,
    decreases hist.len(),
{
    if hist.len() == 0 {
        assert(spec_bounded_fold(hist, max) =~= hist.skip(0));
    } else {
        let prev = hist.drop_last();
        lemma_bounded_fold_keeps_most_recent(prev, max);
        let folded_prev = spec_bounded_fold(prev, max);
        let out = spec_bounded_fold(hist, max);
        if folded_prev.len() + 1 > max {
            assert(out == folded_prev.push(hist.last()).drop_first());
            assert(out =~= hist.skip(hist.len() - max));
        } else {
            assert(out == folded_prev.push(hist.last()));
            if prev.len() - max >= 0 {
                assert(out =~= hist.skip(hist.len() - max));
            } else {
                assert(out =~= hist.skip(0));
            }
        }
    }
}

/// Filtering the empty sequence gives the empty sequence.
pub proof fn lemma_filter_empty<T>(pred: spec_fn(T) -> bool)
    ensures
        Seq::<T>::empty().filter(pred) == Seq::<T>::empty(),
{
    reveal(Seq::filter);
}

/// How a filtered prefix grows as the prefix is extended by one element.
pub proof fn lemma_filter_take_step<T>(s: Seq<T>, pred: spec_fn(T) -> bool, i: int)
    requires
        0 <= i < s.len(),
    ensures
        pred(s[i]) ==> s.take(i + 1).filter(pred) == s.take(i).filter(pred).push(s[i]),
        !pred(s[i]) ==> s.take(i + 1).filter(pred) == s.take(i).filter(pred),
{
    reveal(Seq::filter);
    assert(s.take(i + 1).drop_last() =~= s.take(i));
    assert(s.take(i + 1).last() == s[i]);
}

} // verus!
