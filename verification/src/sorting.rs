use vstd::prelude::*;

verus! {

/// `s` with `x` put in behind every item that `x` does not go before: `x`
/// passes, from the end, the items that it goes before and stops at the first
/// that it does not.
pub open spec fn insert_sorted<T>(s: Seq<T>, x: T, before: spec_fn(T, T) -> bool) -> Seq<T>
    decreases s.len(),
{
    if s.len() > 0 && before(x, s.last()) {
        insert_sorted(s.drop_last(), x, before).push(s.last())
    } else {
        s.push(x)
    }
}

/// The items of `s` in the order that `before` gives, items that neither goes
/// before the other staying as they stood in `s`.
pub open spec fn stable_sort<T>(s: Seq<T>, before: spec_fn(T, T) -> bool) -> Seq<T>
    decreases s.len(),
{
    if s.len() == 0 {
        s
    } else {
        insert_sorted(stable_sort(s.drop_last(), before), s.last(), before)
    }
}

/// No item of `s` goes before the one in front of it.
pub open spec fn ordered<T>(s: Seq<T>, before: spec_fn(T, T) -> bool) -> bool {
    forall|i: int| 0 <= i && i + 1 < s.len() ==> !before(#[trigger] s[i + 1], s[i])
}

/// `before` never holds both ways round.
pub open spec fn asymmetric<T>(before: spec_fn(T, T) -> bool) -> bool {
    forall|a: T, b: T| #[trigger] before(a, b) ==> !before(b, a)
}

/// Where `x` goes before every item from `j` on and not before the item in
/// front of `j`, inserting it in order puts it at `j`.
pub proof fn lemma_insert_position<T>(s: Seq<T>, x: T, before: spec_fn(T, T) -> bool, j: int)
    requires
        0 <= j <= s.len(),
        forall|k: int| j <= k < s.len() ==> before(x, #[trigger] s[k]),
        j > 0 ==> !before(x, s[j - 1]),
    ensures
        insert_sorted(s, x, before) == s.insert(j, x),
    decreases s.len(),
{
    if j == s.len() {
        assert(s.push(x) =~= s.insert(j, x));
    } else {
        assert(before(x, s.last()));
        let front = s.drop_last();
        assert forall|k: int| j <= k < front.len() implies before(x, #[trigger] front[k]) by {
            assert(front[k] == s[k]);
        }
        lemma_insert_position(front, x, before, j);
        assert(front.insert(j, x).push(s.last()) =~= s.insert(j, x));
    }
}

/// Inserting in order adds one item and keeps the others.
pub proof fn lemma_insert_sorted_len<T>(s: Seq<T>, x: T, before: spec_fn(T, T) -> bool)
    ensures
        insert_sorted(s, x, before).len() == s.len() + 1,
        insert_sorted(s, x, before).to_multiset() == s.to_multiset().insert(x),
    decreases s.len(),
{
    broadcast use vstd::seq_lib::group_to_multiset_ensures;

    if s.len() > 0 && before(x, s.last()) {
        let front = s.drop_last();
        lemma_insert_sorted_len(front, x, before);
        assert(front.push(s.last()) =~= s);
        assert(insert_sorted(front, x, before).push(s.last()).to_multiset() =~= s.to_multiset().insert(
            x,
        ));
    }
}

/// Sorting keeps the items: as many as before, each as often as before.
pub proof fn lemma_stable_sort_permutes<T>(s: Seq<T>, before: spec_fn(T, T) -> bool)
    ensures
        stable_sort(s, before).len() == s.len(),
        stable_sort(s, before).to_multiset() == s.to_multiset(),
    decreases s.len(),
{
    broadcast use vstd::seq_lib::group_to_multiset_ensures;

    if s.len() > 0 {
        let front = s.drop_last();
        lemma_stable_sort_permutes(front, before);
        lemma_insert_sorted_len(stable_sort(front, before), s.last(), before);
        assert(front.push(s.last()) =~= s);
    }
}

/// Inserting in order into an ordered sequence leaves it ordered.
pub proof fn lemma_insert_sorted_ordered<T>(s: Seq<T>, x: T, before: spec_fn(T, T) -> bool)
    requires
        asymmetric(before),
        ordered(s, before),
    ensures
        ordered(insert_sorted(s, x, before), before),
        insert_sorted(s, x, before).last() == x || (s.len() > 0 && insert_sorted(
            s,
            x,
            before,
        ).last() == s.last()),
    decreases s.len(),
{
    let r = insert_sorted(s, x, before);
    lemma_insert_sorted_len(s, x, before);
    if s.len() > 0 && before(x, s.last()) {
        let front = s.drop_last();
        assert forall|i: int| 0 <= i && i + 1 < front.len() implies !before(
            #[trigger] front[i + 1],
            front[i],
        ) by {
            assert(front[i + 1] == s[i + 1]);
        }
        lemma_insert_sorted_ordered(front, x, before);
        lemma_insert_sorted_len(front, x, before);
        let mid = insert_sorted(front, x, before);
        assert forall|i: int| 0 <= i && i + 1 < r.len() implies !before(#[trigger] r[i + 1], r[i]) by {
            if i + 1 < mid.len() {
                assert(r[i + 1] == mid[i + 1]);
                assert(r[i] == mid[i]);
            } else {
                assert(r[i + 1] == s.last());
                assert(r[i] == mid.last());
                if mid.last() == x {
                } else {
                    assert(front.len() > 0 && mid.last() == front.last());
                    assert(front.last() == s[s.len() - 2]);
                    assert(s.last() == s[(s.len() - 2) + 1]);
                }
            }
        }
    } else {
        assert forall|i: int| 0 <= i && i + 1 < r.len() implies !before(#[trigger] r[i + 1], r[i]) by {
            if i + 1 < s.len() {
                assert(r[i + 1] == s[i + 1]);
                assert(r[i] == s[i]);
            }
        }
    }
}

/// What `stable_sort` gives is ordered.
pub proof fn lemma_stable_sort_ordered<T>(s: Seq<T>, before: spec_fn(T, T) -> bool)
    requires
        asymmetric(before),
    ensures
        ordered(stable_sort(s, before), before),
    decreases s.len(),
{
    if s.len() > 0 {
        lemma_stable_sort_ordered(s.drop_last(), before);
        lemma_insert_sorted_ordered(stable_sort(s.drop_last(), before), s.last(), before);
    }
}

/// Every item of the sorted sequence is an item of the one that was sorted.
pub proof fn lemma_stable_sort_members<T>(s: Seq<T>, before: spec_fn(T, T) -> bool, i: int)
    requires
        0 <= i < s.len(),
    ensures
        stable_sort(s, before).len() == s.len(),
        s.contains(stable_sort(s, before)[i]),
{
    let r = stable_sort(s, before);
    lemma_stable_sort_permutes(s, before);
    vstd::seq_lib::to_multiset_contains(r, r[i]);
    vstd::seq_lib::to_multiset_contains(s, r[i]);
    assert(r.contains(r[i]));
}

} // verus!
