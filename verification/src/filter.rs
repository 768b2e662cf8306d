//! What is left of a sequence when only what passes a test is kept.
use vstd::prelude::*;

verus! {

pub proof fn lemma_filter_of_one<A>(s: Seq<A>, p: spec_fn(A) -> bool, i: int)
    requires
        0 <= i < s.len(),
        p(s[i]),
        forall|j: int| 0 <= j < s.len() && j != i ==> !p(#[trigger] s[j]),
    ensures
        s.filter(p) == seq![s[i]],
    decreases s.len(),
{
    reveal(Seq::filter);
    let front = s.drop_last();
    assert forall|j: int| 0 <= j < front.len() && j != i implies !p(#[trigger] front[j]) by {
        assert(front[j] == s[j]);
    }
    if i == s.len() - 1 {
        front.lemma_all_neg_filter_empty(p);
        assert(s.filter(p) =~= seq![s[i]]);
    } else {
        lemma_filter_of_one(front, p, i);
        assert(!p(s[s.len() - 1]));
        assert(s.filter(p) =~= seq![s[i]]);
    }
}

pub proof fn lemma_one_in_filter<A>(s: Seq<A>, p: spec_fn(A) -> bool) -> (i: int)
    requires
        s.filter(p).len() == 1,
    ensures
        0 <= i < s.len(),
        p(s[i]),
        s.filter(p)[0] == s[i],
        forall|j: int| 0 <= j < s.len() && j != i ==> !p(#[trigger] s[j]),
    decreases s.len(),
{
    reveal(Seq::filter);
    let front = s.drop_last();
    let last = s.len() - 1;
    if p(s.last()) {
        assert(front.filter(p).len() == 0);
        assert forall|j: int| 0 <= j < s.len() && j != last implies !p(#[trigger] s[j]) by {
            if p(s[j]) {
                assert(front[j] == s[j]);
                front.lemma_filter_contains(p, j);
            }
        }
        last
    } else {
        let i = lemma_one_in_filter(front, p);
        assert forall|j: int| 0 <= j < s.len() && j != i implies !p(#[trigger] s[j]) by {
            if j < last {
                assert(front[j] == s[j]);
            }
        }
        i
    }
}

pub proof fn lemma_filter_of_multiset<A>(s: Seq<A>, p: spec_fn(A) -> bool)
    ensures
        s.filter(p).to_multiset() == s.to_multiset().filter(p),
    decreases s.len(),
{
    broadcast use vstd::multiset::group_multiset_axioms;
    broadcast use vstd::seq_lib::group_to_multiset_ensures;

    reveal(Seq::filter);
    if s.len() == 0 {
        assert(s.filter(p).to_multiset() =~= s.to_multiset().filter(p));
    } else {
        let front = s.drop_last();
        lemma_filter_of_multiset(front, p);
        assert(s =~= front.push(s.last()));
        assert(s.to_multiset() =~= front.to_multiset().insert(s.last()));
        assert(s.filter(p).to_multiset() =~= s.to_multiset().filter(p));
    }
}

/// Order does not matter to how many fit, nor to which one if it is only one.
pub proof fn lemma_filter_in_any_order<A>(a: Seq<A>, b: Seq<A>, p: spec_fn(A) -> bool)
    requires
        a.to_multiset() == b.to_multiset(),
    ensures
        a.filter(p).len() == b.filter(p).len(),
        a.filter(p).len() == 1 ==> a.filter(p) == b.filter(p),
{
    broadcast use vstd::seq_lib::group_to_multiset_ensures;

    lemma_filter_of_multiset(a, p);
    lemma_filter_of_multiset(b, p);
    let x = a.filter(p);
    let y = b.filter(p);
    assert(x.to_multiset() == y.to_multiset());
    assert(x.len() == x.to_multiset().len());
    assert(y.len() == y.to_multiset().len());
    if x.len() == 1 {
        assert(x.contains(x[0]));
        assert(y.to_multiset().count(x[0]) > 0);
        assert(y.contains(x[0]));
        assert(x =~= y);
    }
}

} // verus!
