//! Searching, counting and stable sorting, as the DPB and its reference lists
//! use them.

use vstd::prelude::*;

verus! {

/// Position of the smallest key below `limit` among the first `n` keys, the
/// first one if several are equally small.
pub open spec fn least_upto(keys: Seq<Option<int>>, limit: int, n: nat) -> Option<int>
    decreases n,
{
    if n == 0 {
        None
    } else {
        let before = least_upto(keys, limit, (n - 1) as nat);
        let bound = match before {
            Some(p) => keys[p]->0,
            None => limit,
        };
        match keys[n - 1] {
            Some(k) if k < bound => Some(n - 1),
            _ => before,
        }
    }
}

/// Position of the first smallest key below `limit`.
pub open spec fn first_least(keys: Seq<Option<int>>, limit: int) -> Option<int> {
    least_upto(keys, limit, keys.len())
}

/// `first_least` finds a key below the limit exactly when there is one, no key
/// is smaller than the one it finds, and no earlier key is as small.
pub proof fn lemma_first_least(keys: Seq<Option<int>>, limit: int)
    ensures
        match first_least(keys, limit) {
            None => forall|i: int|
                0 <= i < keys.len() && (#[trigger] keys[i]) is Some ==> keys[i]->0 >= limit,
            Some(p) => {
                &&& 0 <= p < keys.len()
                &&& keys[p] is Some
                &&& keys[p]->0 < limit
                &&& forall|i: int|
                    0 <= i < keys.len() && (#[trigger] keys[i]) is Some ==> keys[i]->0 >= keys[p]->0
                &&& forall|i: int|
                    0 <= i < p && (#[trigger] keys[i]) is Some ==> keys[i]->0 > keys[p]->0
            },
        },
{
    lemma_least_upto(keys, limit, keys.len());
}

proof fn lemma_least_upto(keys: Seq<Option<int>>, limit: int, n: nat)
    requires
        n <= keys.len(),
    ensures
        match least_upto(keys, limit, n) {
            None => forall|i: int|
                0 <= i < n && (#[trigger] keys[i]) is Some ==> keys[i]->0 >= limit,
            Some(p) => {
                &&& 0 <= p < n
                &&& keys[p] is Some
                &&& keys[p]->0 < limit
                &&& forall|i: int|
                    0 <= i < n && (#[trigger] keys[i]) is Some ==> keys[i]->0 >= keys[p]->0
                &&& forall|i: int|
                    0 <= i < p && (#[trigger] keys[i]) is Some ==> keys[i]->0 > keys[p]->0
            },
        },
    decreases n,
{
    if n > 0 {
        lemma_least_upto(keys, limit, (n - 1) as nat);
    }
}

/// Number of flags that are set among the first `n`.
pub open spec fn count_upto(flags: Seq<bool>, n: nat) -> nat
    decreases n,
{
    if n == 0 {
        0
    } else {
        count_upto(flags, (n - 1) as nat) + if flags[n - 1] { 1nat } else { 0nat }
    }
}

/// Number of flags that are set.
pub open spec fn count_true(flags: Seq<bool>) -> nat {
    count_upto(flags, flags.len())
}

pub(crate) proof fn lemma_count_bound(flags: Seq<bool>, n: nat)
    requires
        n <= flags.len(),
    ensures
        count_upto(flags, n) <= n,
        count_upto(flags, n) == n <==> forall|i: int| 0 <= i < n ==> flags[i],
        count_upto(flags, n) == 0 <==> forall|i: int| 0 <= i < n ==> !flags[i],
    decreases n,
{
    if n > 0 {
        lemma_count_bound(flags, (n - 1) as nat);
    }
}

/// Flags that differ at one place only count the same up to that place.
pub(crate) proof fn lemma_count_change(a: Seq<bool>, b: Seq<bool>, p: int, n: nat)
    requires
        n <= a.len(),
        n <= b.len(),
        forall|i: int| 0 <= i < n && i != p ==> a[i] == b[i],
    ensures
        count_upto(b, n) == count_upto(a, n) + if 0 <= p < n {
            (if b[p] { 1int } else { 0 }) - (if a[p] { 1int } else { 0 })
        } else {
            0
        },
    decreases n,
{
    if n > 0 {
        lemma_count_change(a, b, p, (n - 1) as nat);
    }
}

/// Flags that hold nowhere but where others hold count no more than those.
pub(crate) proof fn lemma_count_fewer(a: Seq<bool>, b: Seq<bool>, n: nat)
    requires
        n <= a.len(),
        n <= b.len(),
        forall|i: int| 0 <= i < n && b[i] ==> a[i],
    ensures
        count_upto(b, n) <= count_upto(a, n),
    decreases n,
{
    if n > 0 {
        lemma_count_fewer(a, b, (n - 1) as nat);
    }
}

/// First position from `from` on whose flag is set.
pub open spec fn first_true_from(flags: Seq<bool>, from: int) -> Option<int>
    decreases flags.len() - from,
{
    if from < 0 || from >= flags.len() {
        None
    } else if flags[from] {
        Some(from)
    } else {
        first_true_from(flags, from + 1)
    }
}

/// First position whose flag is set.
pub open spec fn first_true(flags: Seq<bool>) -> Option<int> {
    first_true_from(flags, 0)
}

/// `first_true` finds a flag exactly when one is set, and none before it is set.
pub proof fn lemma_first_true(flags: Seq<bool>)
    ensures
        match first_true(flags) {
            None => forall|i: int| 0 <= i < flags.len() ==> !flags[i],
            Some(p) => 0 <= p < flags.len() && flags[p] && forall|i: int|
                0 <= i < p ==> !flags[i],
        },
{
    lemma_first_true_from(flags, 0);
}

proof fn lemma_first_true_from(flags: Seq<bool>, from: int)
    requires
        0 <= from <= flags.len(),
    ensures
        match first_true_from(flags, from) {
            None => forall|i: int| from <= i < flags.len() ==> !flags[i],
            Some(p) => from <= p < flags.len() && flags[p] && forall|i: int|
                from <= i < p ==> !flags[i],
        },
    decreases flags.len() - from,
{
    if from < flags.len() && !flags[from] {
        lemma_first_true_from(flags, from + 1);
    }
}

/// The values that are present among the first `n` items, in order.
pub open spec fn present_upto<T>(items: Seq<Option<T>>, n: nat) -> Seq<T>
    decreases n,
{
    if n == 0 {
        Seq::empty()
    } else {
        match items[n - 1] {
            Some(x) => present_upto(items, (n - 1) as nat).push(x),
            None => present_upto(items, (n - 1) as nat),
        }
    }
}

/// The values that are present, in order.
pub open spec fn present<T>(items: Seq<Option<T>>) -> Seq<T> {
    present_upto(items, items.len())
}

pub(crate) proof fn lemma_present_len<T>(items: Seq<Option<T>>, n: nat)
    requires
        n <= items.len(),
    ensures
        present_upto(items, n).len() <= n,
    decreases n,
{
    if n > 0 {
        lemma_present_len(items, (n - 1) as nat);
    }
}

/// Each present value stands at some item.
pub proof fn lemma_present_from<T>(items: Seq<Option<T>>, n: nat, k: int)
    requires
        n <= items.len(),
        0 <= k < present_upto(items, n).len(),
    ensures
        exists|i: int| 0 <= i < n && #[trigger] items[i] == Some(present_upto(items, n)[k]),
    decreases n,
{
    let before = present_upto(items, (n - 1) as nat);
    if k < before.len() {
        lemma_present_from(items, (n - 1) as nat, k);
        let i = choose|i: int| 0 <= i < n - 1 && #[trigger] items[i] == Some(before[k]);
        assert(items[i] == Some(present_upto(items, n)[k]));
    } else {
        assert(items[n - 1] == Some(present_upto(items, n)[k]));
    }
}

proof fn lemma_present_upto_skips<T>(items: Seq<Option<T>>, n: nat)
    requires
        1 <= n <= items.len(),
    ensures
        items[0] is None ==> present_upto(items, n) =~= present_upto(
            items.drop_first(),
            (n - 1) as nat,
        ),
        items[0] is Some ==> present_upto(items, n) =~= seq![items[0]->Some_0] + present_upto(
            items.drop_first(),
            (n - 1) as nat,
        ),
    decreases n,
{
    if n > 1 {
        lemma_present_upto_skips(items, (n - 1) as nat);
        assert(items.drop_first()[n - 2] == items[n - 1]);
    } else {
        assert(present_upto(items, 0) =~= Seq::<T>::empty());
        assert(present_upto(items.drop_first(), 0) =~= Seq::<T>::empty());
    }
}

/// Without its first item, the items hold the same values but for that of the
/// first item.
pub(crate) proof fn lemma_present_drop_first<T>(items: Seq<Option<T>>)
    requires
        items.len() >= 1,
    ensures
        items[0] is None ==> present(items.drop_first()) == present(items),
        items[0] is Some ==> present(items) == seq![items[0]->Some_0] + present(items.drop_first()),
        items[0] is Some ==> present(items).len() > 0 && present(items).drop_first() == present(
            items.drop_first(),
        ),
{
    lemma_present_upto_skips(items, items.len());
    if items[0] is Some {
        assert(present(items).drop_first() =~= present(items.drop_first()));
    }
}

proof fn lemma_present_upto_prefix<T>(items: Seq<Option<T>>, more: Seq<Option<T>>, n: nat)
    requires
        n <= items.len(),
        n <= more.len(),
        forall|i: int| 0 <= i < n ==> items[i] == more[i],
    ensures
        present_upto(items, n) == present_upto(more, n),
    decreases n,
{
    if n > 0 {
        lemma_present_upto_prefix(items, more, (n - 1) as nat);
    }
}

/// One more item adds its value, if it has one, behind the others.
pub(crate) proof fn lemma_present_push<T>(items: Seq<Option<T>>, x: Option<T>)
    ensures
        x is None ==> present(items.push(x)) == present(items),
        x is Some ==> present(items.push(x)) == present(items).push(x->Some_0),
{
    lemma_present_upto_prefix(items, items.push(x), items.len());
}

/// `s`, ordered by rank, with `x` put behind every value whose rank is no
/// greater than its own.
pub open spec fn insert_ranked<T>(s: Seq<(i64, T)>, x: (i64, T)) -> Seq<(i64, T)>
    decreases s.len(),
{
    if s.len() == 0 || s.last().0 <= x.0 {
        s.push(x)
    } else {
        insert_ranked(s.drop_last(), x).push(s.last())
    }
}

/// `s` in ascending order of rank; values of one rank keep their order.
pub open spec fn sort_ranked<T>(s: Seq<(i64, T)>) -> Seq<(i64, T)>
    decreases s.len(),
{
    if s.len() == 0 {
        s
    } else {
        insert_ranked(sort_ranked(s.drop_last()), s.last())
    }
}

/// The values without their ranks.
pub open spec fn unranked<T>(s: Seq<(i64, T)>) -> Seq<T> {
    s.map_values(|x: (i64, T)| x.1)
}

/// Ranks ascend.
pub open spec fn ordered<T>(s: Seq<(i64, T)>) -> bool {
    forall|i: int, j: int| 0 <= i < j < s.len() ==> (#[trigger] s[i]).0 <= (#[trigger] s[j]).0
}

proof fn lemma_insert_at<T>(s: Seq<(i64, T)>, x: (i64, T), p: int)
    requires
        0 <= p <= s.len(),
        forall|i: int| p <= i < s.len() ==> (#[trigger] s[i]).0 > x.0,
        p > 0 ==> s[p - 1].0 <= x.0,
    ensures
        insert_ranked(s, x) == s.insert(p, x),
    decreases s.len(),
{
    if p < s.len() {
        lemma_insert_at(s.drop_last(), x, p);
        assert(s.drop_last().insert(p, x).push(s.last()) =~= s.insert(p, x));
    } else {
        assert(s.insert(p, x) =~= s.push(x));
    }
}

proof fn lemma_insert_len<T>(s: Seq<(i64, T)>, x: (i64, T))
    ensures
        insert_ranked(s, x).len() == s.len() + 1,
        insert_ranked(s, x).to_multiset() == s.to_multiset().insert(x),
    decreases s.len(),
{
    broadcast use vstd::seq_lib::group_to_multiset_ensures;

    if s.len() == 0 || s.last().0 <= x.0 {
    } else {
        lemma_insert_len(s.drop_last(), x);
        assert(s.drop_last().push(s.last()) =~= s);
        assert(s.drop_last().to_multiset().insert(x).insert(s.last())
            =~= s.drop_last().to_multiset().insert(s.last()).insert(x));
    }
}

proof fn lemma_insert_ordered<T>(s: Seq<(i64, T)>, x: (i64, T))
    requires
        ordered(s),
    ensures
        ordered(insert_ranked(s, x)),
        forall|i: int|
            0 <= i < insert_ranked(s, x).len() ==> (#[trigger] insert_ranked(s, x)[i]).0 <= x.0 || (
            s.len() > 0 && insert_ranked(s, x)[i].0 <= s.last().0),
    decreases s.len(),
{
    if s.len() == 0 || s.last().0 <= x.0 {
    } else {
        lemma_insert_ordered(s.drop_last(), x);
        let t = insert_ranked(s.drop_last(), x);
        assert forall|i: int| 0 <= i < t.len() implies (#[trigger] t[i]).0 <= s.last().0 by {
            if s.len() > 1 {
                assert(s.drop_last().last() == s[s.len() - 2]);
            }
        }
    }
}

/// Sorting keeps every value and adds none.
pub proof fn lemma_sort_permutes<T>(s: Seq<(i64, T)>)
    ensures
        sort_ranked(s).len() == s.len(),
        sort_ranked(s).to_multiset() == s.to_multiset(),
    decreases s.len(),
{
    broadcast use vstd::seq_lib::group_to_multiset_ensures;

    if s.len() > 0 {
        lemma_sort_permutes(s.drop_last());
        lemma_insert_len(sort_ranked(s.drop_last()), s.last());
        assert(s.drop_last().push(s.last()) =~= s);
    }
}

/// Sorting puts the values in ascending order of rank.
pub proof fn lemma_sort_orders<T>(s: Seq<(i64, T)>)
    ensures
        ordered(sort_ranked(s)),
    decreases s.len(),
{
    if s.len() > 0 {
        lemma_sort_orders(s.drop_last());
        lemma_insert_ordered(sort_ranked(s.drop_last()), s.last());
    }
}

proof fn lemma_insert_stable<T>(s: Seq<(i64, T)>, x: (i64, T), rank: i64)
    requires
        ordered(s),
    ensures
        insert_ranked(s, x).filter(|y: (i64, T)| y.0 == rank) == if x.0 == rank {
            s.filter(|y: (i64, T)| y.0 == rank).push(x)
        } else {
            s.filter(|y: (i64, T)| y.0 == rank)
        },
    decreases s.len(),
{
    let f = |y: (i64, T)| y.0 == rank;
    reveal(Seq::filter);
    if s.len() == 0 || s.last().0 <= x.0 {
        assert(s.push(x).drop_last() =~= s);
    } else {
        let t = insert_ranked(s.drop_last(), x);
        lemma_insert_stable(s.drop_last(), x, rank);
        assert(t.push(s.last()).drop_last() =~= t);
        if s.last().0 == rank {
            assert(x.0 < rank);
        }
    }
}

/// Values of one rank come out of sorting in the order in which they went in.
pub proof fn law_sort_is_stable<T>(s: Seq<(i64, T)>, rank: i64)
    ensures
        sort_ranked(s).filter(|y: (i64, T)| y.0 == rank) == s.filter(
            |y: (i64, T)| y.0 == rank,
        ),
    decreases s.len(),
{
    reveal(Seq::filter);
    if s.len() > 0 {
        law_sort_is_stable(s.drop_last(), rank);
        lemma_sort_orders(s.drop_last());
        lemma_insert_stable(sort_ranked(s.drop_last()), s.last(), rank);
    }
}

/// Sort values by rank, ascending; values of one rank keep their order.
pub fn sort_by_rank<T: Copy>(items: &Vec<(i64, T)>) -> (sorted: Vec<(i64, T)>)
    ensures
        sorted@ == sort_ranked(items@),
{
    let mut sorted: Vec<(i64, T)> = Vec::new();
    let mut i: usize = 0;
    assert(items@.take(0) =~= Seq::<(i64, T)>::empty());
    while i < items.len()
        invariant
            i <= items.len(),
            sorted@ == sort_ranked(items@.take(i as int)),
        decreases items.len() - i,
    {
        let x = items[i];
        proof {
            lemma_sort_orders(items@.take(i as int));
            lemma_sort_permutes(items@.take(i as int));
            assert(items@.take(i + 1).drop_last() =~= items@.take(i as int));
        }
        let mut p: usize = sorted.len();
        while p > 0 && sorted[p - 1].0 > x.0
            invariant
                p <= sorted.len(),
                forall|j: int| p <= j < sorted.len() ==> (#[trigger] sorted@[j]).0 > x.0,
            decreases p,
        {
            p = p - 1;
        }
        proof {
            lemma_insert_at(sorted@, x, p as int);
        }
        sorted.insert(p, x);
        i = i + 1;
    }
    assert(items@.take(i as int) =~= items@);
    sorted
}

} // verus!
