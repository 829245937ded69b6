use vstd::prelude::*;

verus! {

/// Items with a three-way ranking that is a total preorder; items that rank
/// equal keep their input order when arranged (a stable sort).
pub trait Ranked: Sized {
    /// -1 when `a` goes before `b`, 1 when after, 0 when they rank equal.
    spec fn rank_sign(a: Self, b: Self) -> int;

    proof fn lemma_rank_sign(a: Self, b: Self, c: Self)
        ensures
            -1 <= Self::rank_sign(a, b) <= 1,
            Self::rank_sign(a, b) == -Self::rank_sign(b, a),
            Self::rank_sign(a, b) <= 0 && Self::rank_sign(b, c) <= 0 ==> Self::rank_sign(a, c) <= 0,
            Self::rank_sign(a, b) < 0 && Self::rank_sign(b, c) <= 0 ==> Self::rank_sign(a, c) < 0,
            Self::rank_sign(a, b) <= 0 && Self::rank_sign(b, c) < 0 ==> Self::rank_sign(a, c) < 0,
    ;

    fn compare(&self, other: &Self) -> (r: i8)
        ensures
            r as int == Self::rank_sign(*self, *other),
    ;
}

/// Whether the item at position `x` goes before the one at `y` in a stable
/// arrangement: it ranks lower, or ranks equal and comes earlier.
pub open spec fn goes_before<T: Ranked>(items: Seq<T>, x: int, y: int) -> bool {
    T::rank_sign(items[x], items[y]) < 0 || (T::rank_sign(items[x], items[y]) == 0 && x < y)
}

/// Whether position `x` occurs in `p`.
pub open spec fn listed(p: Seq<usize>, x: int) -> bool {
    exists|i: int| 0 <= i < p.len() && p[i] == x
}

/// Whether `p` lists the positions `0..m` of `items`, each once, in the
/// order of a stable sort.
pub open spec fn arranges_prefix<T: Ranked>(p: Seq<usize>, items: Seq<T>, m: int) -> bool {
    &&& 0 <= m <= items.len()
    &&& p.len() == m
    &&& forall|i: int| 0 <= i < p.len() ==> #[trigger] p[i] < m
    &&& forall|x: int| 0 <= x < m ==> #[trigger] listed(p, x)
    &&& forall|i: int, j: int|
        0 <= i < j < p.len() ==> goes_before(items, #[trigger] p[i] as int, #[trigger] p[j] as int)
}

/// Whether `p` lists every position of `items` once, in the order of a
/// stable sort by rank.
pub open spec fn arranges<T: Ranked>(p: Seq<usize>, items: Seq<T>) -> bool {
    arranges_prefix(p, items, items.len() as int)
}

/// The positions of `items` in stably sorted order.
pub open spec fn stable_arrangement<T: Ranked>(items: Seq<T>) -> Seq<usize> {
    choose|p: Seq<usize>| arranges(p, items)
}

/// The items in stably sorted order.
pub open spec fn stably_sorted<T: Ranked>(items: Seq<T>) -> Seq<T> {
    stable_arrangement(items).map_values(|i: usize| items[i as int])
}

/// Whether every item ranks no later than each item after it.
pub open spec fn in_rank_order<T: Ranked>(s: Seq<T>) -> bool {
    forall|i: int, j: int| 0 <= i < j < s.len() ==> T::rank_sign(#[trigger] s[i], #[trigger] s[j]) <= 0
}

/// Whether `a` and `b` have the same length and each item of one occurs in
/// the other.
pub open spec fn same_items<T>(a: Seq<T>, b: Seq<T>) -> bool {
    &&& a.len() == b.len()
    &&& forall|i: int| 0 <= i < a.len() ==> b.contains(#[trigger] a[i])
    &&& forall|j: int| 0 <= j < b.len() ==> a.contains(#[trigger] b[j])
}

proof fn lemma_arranged_same_items<T: Ranked>(p: Seq<usize>, items: Seq<T>)
    requires
        arranges(p, items),
    ensures
        same_items(p.map_values(|i: usize| items[i as int]), items),
{
    let s = p.map_values(|i: usize| items[i as int]);
    assert forall|i: int| 0 <= i < s.len() implies items.contains(#[trigger] s[i]) by {
        assert(items[p[i] as int] == s[i]);
    }
    assert forall|j: int| 0 <= j < items.len() implies s.contains(#[trigger] items[j]) by {
        assert(listed(p, j));
        let i = choose|i: int| 0 <= i < p.len() && p[i] == j;
        assert(s[i] == items[j]);
    }
}

proof fn lemma_arranged_in_order<T: Ranked>(p: Seq<usize>, items: Seq<T>)
    requires
        arranges(p, items),
    ensures
        in_rank_order(p.map_values(|i: usize| items[i as int])),
{
    let s = p.map_values(|i: usize| items[i as int]);
    assert forall|i: int, j: int| 0 <= i < j < s.len() implies T::rank_sign(
        #[trigger] s[i],
        #[trigger] s[j],
    ) <= 0 by {
        assert(goes_before(items, p[i] as int, p[j] as int));
    }
}

proof fn lemma_not_both_before<T: Ranked>(items: Seq<T>, x: int, y: int)
    requires
        0 <= x < items.len(),
        0 <= y < items.len(),
    ensures
        !(goes_before(items, x, y) && goes_before(items, y, x)),
        !goes_before(items, x, x),
{
    T::lemma_rank_sign(items[x], items[y], items[x]);
    T::lemma_rank_sign(items[x], items[x], items[x]);
}

proof fn lemma_agree_from<T: Ranked>(p: Seq<usize>, q: Seq<usize>, items: Seq<T>, i: int)
    requires
        arranges(p, items),
        arranges(q, items),
        0 <= i <= p.len(),
        forall|k: int| 0 <= k < i ==> p[k] == q[k],
    ensures
        p == q,
    decreases p.len() - i,
{
    if i < p.len() {
        let n = items.len() as int;
        let a = p[i];
        let b = q[i];
        assert(b < n);
        assert(a < n);
        assert(listed(p, b as int));
        assert(listed(q, a as int));
        let j = choose|j: int| 0 <= j < p.len() && p[j] == b;
        let k = choose|k: int| 0 <= k < q.len() && q[k] == a;
        lemma_not_both_before(items, a as int, b as int);
        lemma_not_both_before(items, b as int, b as int);
        lemma_not_both_before(items, a as int, a as int);
        if j < i {
            assert(q[j] == b);
            assert(goes_before(items, q[j] as int, q[i] as int));
        }
        if k < i {
            assert(p[k] == a);
            assert(goes_before(items, p[k] as int, p[i] as int));
        }
        if j > i && k > i {
            assert(goes_before(items, p[i] as int, p[j] as int));
            assert(goes_before(items, q[i] as int, q[k] as int));
        }
        assert(a == b);
        lemma_agree_from(p, q, items, i + 1);
    } else {
        assert(p =~= q);
    }
}

/// There is at most one stable arrangement of a list.
pub proof fn lemma_arrangement_unique<T: Ranked>(p: Seq<usize>, q: Seq<usize>, items: Seq<T>)
    requires
        arranges(p, items),
        arranges(q, items),
    ensures
        p == q,
{
    lemma_agree_from(p, q, items, 0);
}

/// The positions of `items` in stably sorted order, by insertion sort.
pub fn stable_order<T: Ranked>(items: &Vec<T>) -> (p: Vec<usize>)
    ensures
        arranges(p@, items@),
        p@ == stable_arrangement(items@),
        in_rank_order(stably_sorted(items@)),
        same_items(stably_sorted(items@), items@),
{
    let n = items.len();
    let mut p: Vec<usize> = Vec::new();
    for m in 0..n
        invariant
            n == items@.len(),
            arranges_prefix(p@, items@, m as int),
    {
        let mut k: usize = p.len();
        while k > 0 && items[m].compare(&items[p[k - 1]]) < 0
            invariant
                n == items@.len(),
                m < n,
                arranges_prefix(p@, items@, m as int),
                k <= p@.len(),
                forall|j: int|
                    k <= j < p@.len() ==> T::rank_sign(items@[m as int], items@[#[trigger] p@[j] as int])
                        < 0,
            decreases k,
        {
            k = k - 1;
        }
        let ghost old_p = p@;
        p.insert(k, m);
        proof {
            assert(p@ == old_p.insert(k as int, m));
            assert forall|i: int, j: int| 0 <= i < j < p@.len() implies goes_before(
                items@,
                #[trigger] p@[i] as int,
                #[trigger] p@[j] as int,
            ) by {
                let x = p@[i] as int;
                let y = p@[j] as int;
                if i < k && j < k {
                    assert(p@[i] == old_p[i] && p@[j] == old_p[j]);
                } else if i < k && j == k {
                    // old_p[i] goes before old_p[k - 1], which ranks no later than m
                    let e = old_p[k - 1] as int;
                    T::lemma_rank_sign(items@[e], items@[m as int], items@[e]);
                    T::lemma_rank_sign(items@[x], items@[e], items@[m as int]);
                    if i < k - 1 {
                        assert(goes_before(items@, old_p[i] as int, old_p[k - 1] as int));
                    }
                    assert(x < m);
                } else if i < k && j > k {
                    assert(p@[i] == old_p[i] && p@[j] == old_p[j - 1]);
                } else if i == k {
                    assert(p@[j] == old_p[j - 1]);
                    T::lemma_rank_sign(items@[m as int], items@[y], items@[m as int]);
                } else {
                    assert(p@[i] == old_p[i - 1] && p@[j] == old_p[j - 1]);
                }
            }
            assert forall|x: int| 0 <= x < m + 1 implies #[trigger] listed(p@, x) by {
                if x == m {
                    assert(p@[k as int] == m);
                } else {
                    assert(listed(old_p, x));
                    let i0 = choose|i: int| 0 <= i < old_p.len() && old_p[i] == x;
                    if i0 < k {
                        assert(p@[i0] == x);
                    } else {
                        assert(p@[i0 + 1] == x);
                    }
                }
            }
        }
    }
    proof {
        assert(p@.len() == n);
        assert(arranges(p@, items@));
        assert(exists|q: Seq<usize>| arranges(q, items@));
        lemma_arrangement_unique(p@, stable_arrangement(items@), items@);
        lemma_arranged_in_order(p@, items@);
        lemma_arranged_same_items(p@, items@);
    }
    p
}

} // verus!
