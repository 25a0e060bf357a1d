//! Two notions that the specifications share: the view of a sequence of
//! values, and the first entry of a sequence that holds something.

use vstd::prelude::*;

verus! {

/// The views of the values of `s`, in order.
pub open spec fn views<T: View>(s: Seq<T>) -> Seq<T::V> {
    s.map_values(|x: T| x@)
}

/// The index of the first entry of `s`, at `from` or after it, that is
/// `Some`; `None` where there is none.
pub open spec fn first_some<T>(s: Seq<Option<T>>, from: int) -> Option<int>
    decreases s.len() - from,
{
    if from < 0 || from >= s.len() {
        None
    } else if s[from] is Some {
        Some(from)
    } else {
        first_some(s, from + 1)
    }
}

/// What `first_some` finds is the least index that holds something, and it
/// finds nothing only where nothing is held.
pub proof fn lemma_first_some<T>(s: Seq<Option<T>>, from: int)
    requires
        0 <= from,
    ensures
        match first_some(s, from) {
            Some(i) => from <= i < s.len() && s[i] is Some && forall|j: int|
                from <= j < i ==> (#[trigger] s[j]) is None,
            None => forall|j: int| from <= j < s.len() ==> (#[trigger] s[j]) is None,
        },
    decreases s.len() - from,
{
    if from < s.len() && s[from] is None {
        lemma_first_some(s, from + 1);
    }
}

/// The least index that holds something is what `first_some` finds.
pub proof fn lemma_first_some_at<T>(s: Seq<Option<T>>, from: int, i: int)
    requires
        0 <= from <= i < s.len(),
        s[i] is Some,
        forall|j: int| from <= j < i ==> (#[trigger] s[j]) is None,
    ensures
        first_some(s, from) == Some(i),
    decreases i - from,
{
    if from < i {
        lemma_first_some_at(s, from + 1, i);
    }
}

/// Where nothing is held, `first_some` finds nothing.
pub proof fn lemma_first_some_none<T>(s: Seq<Option<T>>, from: int)
    requires
        0 <= from,
        forall|j: int| from <= j < s.len() ==> (#[trigger] s[j]) is None,
    ensures
        first_some(s, from) is None,
    decreases s.len() - from,
{
    if from < s.len() {
        lemma_first_some_none(s, from + 1);
    }
}

/// The texts that `f` gives for the values of `s`, one after the other.
pub open spec fn join_map<T>(s: Seq<T>, f: spec_fn(T) -> Seq<char>) -> Seq<char>
    decreases s.len(),
{
    if s.len() == 0 {
        Seq::empty()
    } else {
        join_map(s.drop_last(), f) + f(s.last())
    }
}

/// Joining two sequences one after the other joins their texts.
pub proof fn lemma_join_map_add<T>(a: Seq<T>, b: Seq<T>, f: spec_fn(T) -> Seq<char>)
    ensures
        join_map(a + b, f) == join_map(a, f) + join_map(b, f),
    decreases b.len(),
{
    if b.len() == 0 {
        assert(a + b =~= a);
        assert(join_map(a, f) + join_map(b, f) =~= join_map(a, f));
    } else {
        lemma_join_map_add(a, b.drop_last(), f);
        assert((a + b).drop_last() =~= a + b.drop_last());
        assert((a + b).last() == b.last());
        assert(join_map(a, f) + (join_map(b.drop_last(), f) + f(b.last())) =~= (join_map(a, f)
            + join_map(b.drop_last(), f)) + f(b.last()));
    }
}

/// The text of a sequence with one more value at its end.
pub proof fn lemma_join_map_push<T>(s: Seq<T>, x: T, f: spec_fn(T) -> Seq<char>)
    ensures
        join_map(s.push(x), f) == join_map(s, f) + f(x),
{
    assert(s.push(x).drop_last() =~= s);
}

} // verus!
