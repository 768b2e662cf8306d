//! Sorted lists: texts in alphabetical order, and a sort by number that keeps
//! the order of equals.
use crate::text;
use vstd::prelude::*;

verus! {

// ---------------------------------------------------------------- alphabetical
/// `a` comes before `b` in a dictionary ordered by code points.
pub open spec fn precedes(a: Seq<char>, b: Seq<char>) -> bool
    decreases a.len(),
{
    if b.len() == 0 {
        false
    } else if a.len() == 0 {
        true
    } else if a[0] == b[0] {
        precedes(a.drop_first(), b.drop_first())
    } else {
        a[0] < b[0]
    }
}

/// Each text comes before those behind it; none occurs twice.
pub open spec fn ascending(list: Seq<Seq<char>>) -> bool {
    forall|i: int, j: int|
        0 <= i < j < list.len() ==> precedes(#[trigger] list[i], #[trigger] list[j])
}

pub proof fn lemma_precedes_total(a: Seq<char>, b: Seq<char>)
    ensures
        a == b || precedes(a, b) || precedes(b, a),
        !(precedes(a, b) && precedes(b, a)),
        a == b ==> !precedes(a, b),
    decreases a.len(),
{
    if a.len() == 0 || b.len() == 0 {
        if a.len() == 0 && b.len() == 0 {
            assert(a =~= b);
        }
    } else if a[0] == b[0] {
        let x = a.drop_first();
        let y = b.drop_first();
        lemma_precedes_total(x, y);
        if x == y {
            assert forall|i: int| 0 <= i < a.len() implies a[i] == b[i] by {
                if i > 0 {
                    assert(x[i - 1] == y[i - 1]);
                }
            }
            assert(a.len() == x.len() + 1 && b.len() == y.len() + 1);
            assert(a =~= b);
        }
    }
}

pub proof fn lemma_precedes_transitive(a: Seq<char>, b: Seq<char>, c: Seq<char>)
    requires
        precedes(a, b),
        precedes(b, c),
    ensures
        precedes(a, c),
    decreases a.len(),
{
    if a.len() > 0 && a[0] == b[0] && b[0] == c[0] {
        lemma_precedes_transitive(a.drop_first(), b.drop_first(), c.drop_first());
    }
}

pub fn is_before(a: &str, b: &str) -> (r: bool)
    ensures
        r == precedes(a@, b@),
{
    let x = text::chars_of(a);
    let y = text::chars_of(b);
    let mut i: usize = 0;
    assert(a@.skip(0) =~= a@);
    assert(b@.skip(0) =~= b@);
    while i < x.len() && i < y.len()
        invariant
            x@ == a@,
            y@ == b@,
            i <= x@.len(),
            i <= y@.len(),
            precedes(a@, b@) == precedes(a@.skip(i as int), b@.skip(i as int)),
        decreases x@.len() - i,
    {
        assert(a@.skip(i as int)[0] == x@[i as int]);
        assert(b@.skip(i as int)[0] == y@[i as int]);
        assert(a@.skip(i as int).drop_first() =~= a@.skip(i + 1));
        assert(b@.skip(i as int).drop_first() =~= b@.skip(i + 1));
        if x[i] != y[i] {
            return x[i] < y[i];
        }
        i = i + 1;
    }
    i < y.len()
}

/// Where `s` belongs in an ascending list, and whether it is there already.
pub fn place(list: &Vec<String>, s: &str) -> (r: (usize, bool))
    requires
        ascending(text::texts(list@)),
    ensures
        r.0 <= list@.len(),
        r.1 ==> r.0 < list@.len() && list@[r.0 as int]@ == s@,
        !r.1 ==> !text::texts(list@).contains(s@),
        forall|i: int| 0 <= i < r.0 ==> precedes((#[trigger] list@[i])@, s@),
        !r.1 ==> forall|i: int| r.0 <= i < list@.len() ==> precedes(s@, (#[trigger] list@[i])@),
{
    let ghost all = text::texts(list@);
    let mut at: usize = 0;
    while at < list.len() && is_before(list[at].as_str(), s)
        invariant
            at <= list@.len(),
            forall|i: int| 0 <= i < at ==> precedes((#[trigger] list@[i])@, s@),
        decreases list@.len() - at,
    {
        at = at + 1;
    }
    if at < list.len() && text::same_text(list[at].as_str(), s) {
        return (at, true);
    }
    proof {
        assert forall|i: int| at <= i < list@.len() implies precedes(s@, (#[trigger] list@[i])@) by {
            lemma_precedes_total(list@[at as int]@, s@);
            if i > at {
                assert(precedes(all[at as int], all[i]));
                lemma_precedes_transitive(s@, list@[at as int]@, list@[i]@);
            }
        }
        assert forall|i: int| 0 <= i < all.len() implies all[i] != s@ by {
            lemma_precedes_total(list@[i]@, s@);
            if i < at {
                assert(precedes(list@[i]@, s@));
            } else {
                assert(precedes(s@, list@[i]@));
            }
        }
    }
    (at, false)
}

/// Adds `s` to an ascending list, if it is not in it.
pub fn insert_text(list: &mut Vec<String>, s: &str)
    requires
        ascending(text::texts(old(list)@)),
    ensures
        ascending(text::texts(final(list)@)),
        forall|t: Seq<char>|
            #[trigger] text::texts(final(list)@).contains(t) <==> text::texts(old(list)@).contains(
                t,
            ) || t == s@,
{
    let ghost before = text::texts(list@);
    let (at, there) = place(list, s);
    if there {
        assert(before[at as int] == s@);
        return ;
    }
    list.insert(at, s.to_owned());
    proof {
        let after = text::texts(list@);
        assert(after =~= before.insert(at as int, s@));
        assert forall|i: int, j: int| 0 <= i < j < after.len() implies precedes(
            #[trigger] after[i],
            #[trigger] after[j],
        ) by {
            let oi = if i < at {
                i
            } else {
                i - 1
            };
            let oj = if j < at {
                j
            } else {
                j - 1
            };
            if i != at && j != at {
                assert(precedes(before[oi], before[oj]));
            } else if i == at {
                assert(after[j] == before[oj]);
                assert(precedes(s@, old(list)@[oj]@));
            } else {
                assert(after[i] == before[oi]);
                assert(precedes(old(list)@[oi]@, s@));
            }
        }
        assert forall|t: Seq<char>| #[trigger] after.contains(t) <==> before.contains(t) || t
            == s@ by {
            if after.contains(t) {
                let i = choose|i: int| 0 <= i < after.len() && after[i] == t;
                if i < at {
                    assert(before[i] == t);
                } else if i > at {
                    assert(before[i - 1] == t);
                }
            }
            if before.contains(t) {
                let i = choose|i: int| 0 <= i < before.len() && before[i] == t;
                if i < at {
                    assert(after[i] == t);
                } else {
                    assert(after[i + 1] == t);
                }
            }
            if t == s@ {
                assert(after[at as int] == t);
            }
        }
    }
}

// ---------------------------------------------------------------- by number
/// A text with the number that it is sorted by.
#[derive(Debug)]
pub struct Numbered {
    pub number: u32,
    pub text: String,
}

pub open spec fn numbered(list: Seq<Numbered>) -> Seq<(u32, Seq<char>)> {
    Seq::new(list.len(), |i: int| (list[i].number, list[i].text@))
}

/// The test for number `k`.
pub open spec fn has_number(k: u32) -> spec_fn((u32, Seq<char>)) -> bool {
    |e: (u32, Seq<char>)| e.0 == k
}

/// The entries with number `k`, in order.
pub open spec fn with_number(list: Seq<(u32, Seq<char>)>, k: u32) -> Seq<(u32, Seq<char>)> {
    list.filter(has_number(k))
}

pub open spec fn by_number(list: Seq<(u32, Seq<char>)>) -> bool {
    forall|i: int, j: int| 0 <= i < j < list.len() ==> (#[trigger] list[i]).0 <= (#[trigger] list[j]).0
}

/// `sorted` holds the entries of `list` by number, those with one number in
/// the order that they had.
pub open spec fn is_sort_of(sorted: Seq<(u32, Seq<char>)>, list: Seq<(u32, Seq<char>)>) -> bool {
    &&& by_number(sorted)
    &&& forall|k: u32| #[trigger] with_number(sorted, k) == with_number(list, k)
}

/// There is only one way to sort a list so.
pub proof fn law_one_sort(
    a: Seq<(u32, Seq<char>)>,
    b: Seq<(u32, Seq<char>)>,
    list: Seq<(u32, Seq<char>)>,
)
    requires
        is_sort_of(a, list),
        is_sort_of(b, list),
    ensures
        a == b,
    decreases a.len(),
{
    broadcast use {Seq::lemma_filter_contains, Seq::lemma_filter_pred};

    reveal(Seq::filter);
    if a.len() == 0 {
        if b.len() > 0 {
            let k = b.last().0;
            assert(with_number(b, k).contains(b[b.len() - 1]));
            assert(with_number(a, k) == with_number(b, k));
            assert(with_number(a, k).len() == 0);
        }
        assert(a =~= b);
    } else if b.len() == 0 {
        let k = a.last().0;
        assert(with_number(a, k).contains(a[a.len() - 1]));
        assert(with_number(a, k) == with_number(b, k));
        assert(with_number(b, k).len() == 0);
    } else {
        let ka = a.last().0;
        let kb = b.last().0;
        lemma_last_number_is_largest(a, b);
        lemma_last_number_is_largest(b, a);
        assert(with_number(a, ka) == with_number(b, ka));
        assert(with_number(a, ka).last() == a.last());
        assert(with_number(b, kb).last() == b.last());
        let x = a.drop_last();
        let y = b.drop_last();
        assert forall|k: u32| #[trigger] with_number(x, k) == with_number(y, k) by {
            assert(with_number(a, k) == with_number(b, k));
            if k == ka {
                assert(with_number(a, k).drop_last() =~= with_number(x, k));
                assert(with_number(b, k).drop_last() =~= with_number(y, k));
            }
        }
        assert(is_sort_of(x, y));
        assert(is_sort_of(y, y));
        law_one_sort(x, y, y);
        assert(a =~= x.push(a.last()));
        assert(b =~= y.push(b.last()));
    }
}

proof fn lemma_last_number_is_largest(a: Seq<(u32, Seq<char>)>, b: Seq<(u32, Seq<char>)>)
    requires
        a.len() > 0,
        b.len() > 0,
        by_number(b),
        forall|k: u32| #[trigger] with_number(a, k) == with_number(b, k),
    ensures
        a.last().0 <= b.last().0,
{
    broadcast use {Seq::lemma_filter_contains, Seq::lemma_filter_pred};

    let k = a.last().0;
    let p = has_number(k);
    assert(p(a[a.len() - 1]));
    assert(a.filter(p).contains(a[a.len() - 1]));
    assert(with_number(a, k) == with_number(b, k));
    b.lemma_filter_contains_rev(p, a.last());
    let i = choose|i: int| 0 <= i < b.len() && b[i] == a.last();
    if i < b.len() - 1 {
        assert(b[i].0 <= b[b.len() - 1].0);
    }
}

proof fn lemma_insert_keeps_order(
    sorted: Seq<(u32, Seq<char>)>,
    list: Seq<(u32, Seq<char>)>,
    e: (u32, Seq<char>),
    at: int,
)
    requires
        is_sort_of(sorted, list),
        0 <= at <= sorted.len(),
        forall|i: int| 0 <= i < at ==> (#[trigger] sorted[i]).0 <= e.0,
        forall|i: int| at <= i < sorted.len() ==> (#[trigger] sorted[i]).0 > e.0,
    ensures
        is_sort_of(sorted.insert(at, e), list.push(e)),
{
    let after = sorted.insert(at, e);
    let front = sorted.take(at);
    let back = sorted.skip(at);
    assert forall|k: u32| #[trigger] with_number(after, k) == with_number(list.push(e), k) by {
        let p = has_number(k);
        assert(with_number(sorted, k) == with_number(list, k));
        assert(after =~= front.push(e) + back);
        assert(sorted =~= front + back);
        Seq::filter_distributes_over_add(front.push(e), back, p);
        Seq::filter_distributes_over_add(front, back, p);
        front.lemma_filter_push(e, p);
        list.lemma_filter_push(e, p);
        if k == e.0 {
            assert forall|i: int| 0 <= i < back.len() implies !p(#[trigger] back[i]) by {
                assert(back[i] == sorted[at + i]);
            }
            lemma_filter_none(back, p);
            assert(after.filter(p) =~= sorted.filter(p).push(e));
        } else {
            assert(after.filter(p) =~= sorted.filter(p));
        }
    }
    assert forall|i: int, j: int| 0 <= i < j < after.len() implies (#[trigger] after[i]).0 <= (
    #[trigger] after[j]).0 by {
        let oi = if i < at {
            i
        } else {
            i - 1
        };
        let oj = if j < at {
            j
        } else {
            j - 1
        };
        if i != at && j != at {
            assert(sorted[oi].0 <= sorted[oj].0);
        } else if i == at {
            assert(sorted[oj].0 > e.0);
        } else {
            assert(sorted[oi].0 <= e.0);
        }
    }
}

proof fn lemma_filter_none(s: Seq<(u32, Seq<char>)>, p: spec_fn((u32, Seq<char>)) -> bool)
    requires
        forall|i: int| 0 <= i < s.len() ==> !p(#[trigger] s[i]),
    ensures
        s.filter(p) == Seq::<(u32, Seq<char>)>::empty(),
    decreases s.len(),
{
    reveal(Seq::filter);
    if s.len() > 0 {
        let front = s.drop_last();
        assert forall|i: int| 0 <= i < front.len() implies !p(#[trigger] front[i]) by {
            assert(front[i] == s[i]);
        }
        lemma_filter_none(front, p);
        assert(!p(s[s.len() - 1]));
    }
    assert(s.filter(p) =~= Seq::<(u32, Seq<char>)>::empty());
}

/// Sorts by number.
pub fn sort_by_number(list: Vec<Numbered>) -> (r: Vec<Numbered>)
    ensures
        is_sort_of(numbered(r@), numbered(list@)),
{
    let ghost all = numbered(list@);
    let mut out: Vec<Numbered> = Vec::new();
    assert(numbered(out@) =~= all.take(0));
    for i in 0..list.len()
        invariant
            all == numbered(list@),
            is_sort_of(numbered(out@), all.take(i as int)),
    {
        let n: u32 = list[i].number;
        let ghost before = numbered(out@);
        let mut at: usize = out.len();
        while at > 0 && out[at - 1].number > n
            invariant
                at <= out@.len(),
                forall|k: int| at <= k < out@.len() ==> (#[trigger] out@[k]).number > n,
            decreases at,
        {
            at = at - 1;
        }
        let ghost e = (n, list@[i as int].text@);
        out.insert(at, Numbered { number: n, text: list[i].text.clone() });
        proof {
            assert forall|k: int| at <= k < before.len() implies (#[trigger] before[k]).0 > e.0 by {
                assert(out@[k + 1].number > n);
            }
            assert forall|k: int| 0 <= k < at implies (#[trigger] before[k]).0 <= e.0 by {
                if k < at - 1 {
                    assert(before[k].0 <= before[at - 1].0);
                }
                assert(out@[at - 1].number == before[at - 1].0);
            }
            lemma_insert_keeps_order(before, all.take(i as int), e, at as int);
            assert(numbered(out@) =~= before.insert(at as int, e));
            assert(all.take(i + 1) =~= all.take(i as int).push(e));
        }
    }
    assert(all.take(all.len() as int) =~= all);
    out
}

} // verus!
