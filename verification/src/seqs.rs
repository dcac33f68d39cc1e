//! Facts about filtered sequences.
use vstd::prelude::*;

verus! {

/// Filtering one element more.
pub proof fn lemma_filter_step<A>(s: Seq<A>, keep: spec_fn(A) -> bool, i: int)
    requires
        0 <= i < s.len(),
    ensures
        s.take(i + 1).filter(keep) == if keep(s[i]) {
            s.take(i).filter(keep).push(s[i])
        } else {
            s.take(i).filter(keep)
        },
{
    reveal(Seq::filter);
    assert(s.take(i + 1).drop_last() == s.take(i));
}

/// Filtering a prefix gives a prefix of the filtered whole.
pub proof fn lemma_filter_prefix<A>(s: Seq<A>, keep: spec_fn(A) -> bool, i: int)
    requires
        0 <= i <= s.len(),
    ensures
        s.take(i).filter(keep).len() <= s.filter(keep).len(),
        s.take(i).filter(keep) == s.filter(keep).take(s.take(i).filter(keep).len() as int),
    decreases s.len() - i,
{
    if i == s.len() {
        assert(s.take(i) == s);
        assert(s.filter(keep) == s.filter(keep).take(s.filter(keep).len() as int));
    } else {
        lemma_filter_step(s, keep, i);
        lemma_filter_prefix(s, keep, i + 1);
        let a = s.take(i).filter(keep);
        let b = s.take(i + 1).filter(keep);
        assert(a == b.take(a.len() as int));
        assert(a == s.filter(keep).take(a.len() as int));
    }
}

/// What a filter keeps satisfies its predicate.
pub proof fn lemma_filter_all<A>(s: Seq<A>, keep: spec_fn(A) -> bool)
    ensures
        forall|i: int| 0 <= i < s.filter(keep).len() ==> keep(#[trigger] s.filter(keep)[i]),
    decreases s.len(),
{
    reveal(Seq::filter);
    if s.len() > 0 {
        lemma_filter_all(s.drop_last(), keep);
    }
}

/// A filter that keeps every element keeps the whole.
pub proof fn lemma_filter_whole<A>(s: Seq<A>, keep: spec_fn(A) -> bool)
    requires
        forall|i: int| 0 <= i < s.len() ==> keep(#[trigger] s[i]),
    ensures
        s.filter(keep) == s,
    decreases s.len(),
{
    reveal(Seq::filter);
    if s.len() > 0 {
        let t = s.drop_last();
        assert forall|i: int| 0 <= i < t.len() implies keep(#[trigger] t[i]) by {
            assert(t[i] == s[i]);
        }
        lemma_filter_whole(t, keep);
        assert(keep(s[s.len() - 1]));
        assert(t.push(s.last()) =~= s);
    } else {
        assert(s.filter(keep) =~= s);
    }
}

} // verus!
