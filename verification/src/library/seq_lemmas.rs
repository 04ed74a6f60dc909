use vstd::prelude::*;

verus! {

/// Every element that a filter keeps stands in the sequence and meets the
/// predicate.
pub proof fn lemma_filter_one<T>(s: Seq<T>, p: spec_fn(T) -> bool, k: int)
    requires
        0 <= k < s.filter(p).len(),
    ensures
        exists|i: int| 0 <= i < s.len() && #[trigger] s[i] == s.filter(p)[k] && p(s[i]),
    decreases s.len(),
{
    reveal(Seq::filter);
    if s.len() > 0 {
        let rest = s.drop_last().filter(p);
        if p(s.last()) && k == rest.len() {
            assert(s[s.len() - 1] == s.filter(p)[k]);
        } else {
            lemma_filter_one(s.drop_last(), p, k);
            let i = choose|i: int|
                0 <= i < s.drop_last().len() && #[trigger] s.drop_last()[i] == rest[k] && p(
                    s.drop_last()[i],
                );
            assert(s[i] == s.drop_last()[i]);
        }
    }
}

/// A filter keeps the order: two elements that it keeps stand in the
/// sequence in the same order.
pub proof fn lemma_filter_two<T>(s: Seq<T>, p: spec_fn(T) -> bool, k: int, l: int)
    requires
        0 <= k < l < s.filter(p).len(),
    ensures
        exists|i: int, j: int|
            0 <= i < j < s.len() && #[trigger] s[i] == s.filter(p)[k] && #[trigger] s[j]
                == s.filter(p)[l],
    decreases s.len(),
{
    reveal(Seq::filter);
    if s.len() > 0 {
        let init = s.drop_last();
        let rest = init.filter(p);
        if p(s.last()) && l == rest.len() {
            lemma_filter_one(init, p, k);
            let i = choose|i: int| 0 <= i < init.len() && #[trigger] init[i] == rest[k] && p(init[i]);
            let j = s.len() - 1;
            assert(s[i] == init[i]);
            assert(s[i] == s.filter(p)[k] && s[j] == s.filter(p)[l]);
        } else {
            lemma_filter_two(init, p, k, l);
            let (i, j) = choose|i: int, j: int|
                0 <= i < j < init.len() && #[trigger] init[i] == rest[k] && #[trigger] init[j]
                    == rest[l];
            assert(s[i] == init[i]);
            assert(s[j] == init[j]);
            assert(s[i] == s.filter(p)[k] && s[j] == s.filter(p)[l]);
        }
    }
}

/// A filter whose predicate every element meets changes nothing.
pub proof fn lemma_filter_all<T>(s: Seq<T>, p: spec_fn(T) -> bool)
    requires
        forall|i: int| 0 <= i < s.len() ==> p(#[trigger] s[i]),
    ensures
        s.filter(p) == s,
    decreases s.len(),
{
    reveal(Seq::filter);
    if s.len() > 0 {
        let init = s.drop_last();
        assert forall|i: int| 0 <= i < init.len() implies p(#[trigger] init[i]) by {
            assert(init[i] == s[i]);
        }
        lemma_filter_all(init, p);
        assert(s.filter(p) =~= s);
    } else {
        assert(s.filter(p) =~= s);
    }
}

/// Filtering one element more: it is appended where it meets the
/// predicate and dropped where it does not.
pub proof fn lemma_filter_step<T>(s: Seq<T>, p: spec_fn(T) -> bool, i: int)
    requires
        0 <= i < s.len(),
    ensures
        s.take(i + 1).filter(p) == if p(s[i]) {
            s.take(i).filter(p).push(s[i])
        } else {
            s.take(i).filter(p)
        },
{
    reveal(Seq::filter);
    assert(s.take(i + 1).drop_last() =~= s.take(i));
    assert(s.take(i + 1).last() == s[i]);
}

/// Filtering after appending one element.
pub proof fn lemma_filter_push<T>(s: Seq<T>, p: spec_fn(T) -> bool, x: T)
    ensures
        s.push(x).filter(p) == if p(x) {
            s.filter(p).push(x)
        } else {
            s.filter(p)
        },
{
    reveal(Seq::filter);
    assert(s.push(x).drop_last() =~= s);
    assert(s.push(x).last() == x);
}

} // verus!
