use crate::models::{entry_views, FileEntry, FileEntryView};
use crate::sorting::{
    asymmetric,
    insert_sorted,
    lemma_insert_position,
    lemma_stable_sort_ordered,
    lemma_stable_sort_permutes,
    ordered,
    stable_sort,
};
use crate::text::{lemma_text_before_asymmetric, str_before, text_before};
use crate::tree::FsNode;
use vstd::prelude::*;

verus! {

/// The order of a result sorted by size: the larger entry goes first.
pub open spec fn larger_first() -> spec_fn(FileEntry, FileEntry) -> bool {
    |a: FileEntry, b: FileEntry| a.size_raw > b.size_raw
}

/// `larger_first` on the views of entries.
pub open spec fn larger_view_first() -> spec_fn(FileEntryView, FileEntryView) -> bool {
    |a: FileEntryView, b: FileEntryView| a.size_raw > b.size_raw
}

/// The order in which the entries of a directory are worked on: by name.
pub open spec fn name_first() -> spec_fn(FsNode, FsNode) -> bool {
    |a: FsNode, b: FsNode| text_before(a.name@, b.name@)
}

/// The entries of a directory in the order of their names.
pub open spec fn by_name(entries: Seq<FsNode>) -> Seq<FsNode> {
    stable_sort(entries, name_first())
}

/// The nodes that a sequence of positions picks from `entries`.
pub open spec fn picked(entries: Seq<FsNode>, order: Seq<usize>) -> Seq<FsNode>
    recommends
        forall|k: int| 0 <= k < order.len() ==> order[k] < entries.len(),
{
    Seq::new(order.len(), |k: int| entries[order[k] as int])
}

/// Taking views and inserting in order by size can be done either way round.
pub proof fn lemma_insert_views(s: Seq<FileEntry>, x: FileEntry)
    ensures
        entry_views(insert_sorted(s, x, larger_first())) == insert_sorted(
            entry_views(s),
            x@,
            larger_view_first(),
        ),
    decreases s.len(),
{
    let sv = entry_views(s);
    if s.len() > 0 && larger_first()(x, s.last()) {
        assert(larger_view_first()(x@, sv.last()));
        lemma_insert_views(s.drop_last(), x);
        assert(entry_views(s.drop_last()) =~= sv.drop_last());
        assert(entry_views(insert_sorted(s.drop_last(), x, larger_first()).push(s.last()))
            =~= entry_views(insert_sorted(s.drop_last(), x, larger_first())).push(s.last()@));
    } else {
        if s.len() > 0 {
            assert(!larger_view_first()(x@, sv.last()));
        }
        assert(entry_views(s.push(x)) =~= sv.push(x@));
    }
}

/// Taking views and sorting by size can be done either way round.
pub proof fn lemma_sort_views(s: Seq<FileEntry>)
    ensures
        entry_views(stable_sort(s, larger_first())) == stable_sort(
            entry_views(s),
            larger_view_first(),
        ),
    decreases s.len(),
{
    if s.len() == 0 {
        assert(entry_views(s) =~= Seq::<FileEntryView>::empty());
    } else {
        lemma_sort_views(s.drop_last());
        lemma_insert_views(stable_sort(s.drop_last(), larger_first()), s.last());
        assert(entry_views(s.drop_last()) =~= entry_views(s).drop_last());
    }
}

/// Puts `entries` in order of size, the largest first. Entries of one size
/// stay in the order in which they stood.
pub fn sort_by_size(entries: &mut Vec<FileEntry>)
    ensures
        final(entries)@ == stable_sort(old(entries)@, larger_first()),
{
    let ghost start = entries@;
    let n: usize = entries.len();
    let mut i: usize = 0;
    while i < n
        invariant
            i <= n,
            n == start.len(),
            entries@ == stable_sort(start.take(i as int), larger_first()) + start.skip(i as int),
        decreases n - i,
    {
        let ghost done = stable_sort(start.take(i as int), larger_first());
        proof {
            lemma_stable_sort_permutes(start.take(i as int), larger_first());
        }
        let x = entries.remove(i);
        assert(x == start[i as int]);
        assert(entries@ =~= done + start.skip(i as int + 1));
        let mut j: usize = i;
        while j > 0 && x.size_raw > entries[j - 1].size_raw
            invariant
                j <= i,
                i < n,
                done.len() == i,
                entries@ == done + start.skip(i as int + 1),
                forall|k: int| j <= k < i ==> larger_first()(x, #[trigger] done[k]),
            decreases j,
        {
            assert(entries@[j - 1] == done[j - 1]);
            j = j - 1;
        }
        proof {
            if j > 0 {
                assert(entries@[j - 1] == done[j - 1]);
            }
            lemma_insert_position(done, x, larger_first(), j as int);
            assert(start.take(i as int + 1).drop_last() =~= start.take(i as int));
            assert(start.take(i as int + 1).last() == x);
        }
        entries.insert(j, x);
        assert(entries@ =~= stable_sort(start.take(i as int + 1), larger_first()) + start.skip(
            i as int + 1,
        ));
        i = i + 1;
    }
    proof {
        assert(start.take(n as int) =~= start);
        assert(entries@ =~= stable_sort(start, larger_first()));
    }
}

/// The positions of `entries` in the order of their names: the first position
/// is that of the entry whose name comes first, and entries of one name keep
/// the order in which they stood.
pub fn name_order(entries: &Vec<FsNode>) -> (order: Vec<usize>)
    ensures
        order@.len() == entries@.len(),
        forall|k: int| 0 <= k < order@.len() ==> order@[k] < entries@.len(),
        picked(entries@, order@) == by_name(entries@),
{
    let n: usize = entries.len();
    let mut order: Vec<usize> = Vec::new();
    let mut i: usize = 0;
    while i < n
        invariant
            i <= n,
            n == entries@.len(),
            order@.len() == i,
            forall|k: int| 0 <= k < order@.len() ==> order@[k] < n,
            picked(entries@, order@) == by_name(entries@.take(i as int)),
        decreases n - i,
    {
        let ghost done = picked(entries@, order@);
        let mut j: usize = i;
        while j > 0 && str_before(entries[i].name.as_str(), entries[order[j - 1]].name.as_str())
            invariant
                j <= i,
                i < n,
                n == entries@.len(),
                order@.len() == i,
                forall|k: int| 0 <= k < order@.len() ==> order@[k] < n,
                done == picked(entries@, order@),
                forall|k: int| j <= k < i ==> name_first()(entries@[i as int], #[trigger] done[k]),
            decreases j,
        {
            assert(done[j - 1] == entries@[order@[j - 1] as int]);
            j = j - 1;
        }
        proof {
            if j > 0 {
                assert(done[j - 1] == entries@[order@[j - 1] as int]);
            }
            lemma_insert_position(done, entries@[i as int], name_first(), j as int);
            assert(entries@.take(i as int + 1).drop_last() =~= entries@.take(i as int));
            assert(entries@.take(i as int + 1).last() == entries@[i as int]);
        }
        order.insert(j, i);
        assert(picked(entries@, order@) =~= done.insert(j as int, entries@[i as int]));
        i = i + 1;
    }
    proof {
        assert(entries@.take(n as int) =~= entries@);
    }
    order
}

/// Sorted by size, no entry is larger than one that stands before it.
pub proof fn lemma_sorted_by_size_descends(s: Seq<FileEntryView>, i: int, j: int)
    requires
        0 <= i <= j < s.len(),
    ensures
        stable_sort(s, larger_view_first()).len() == s.len(),
        stable_sort(s, larger_view_first())[i].size_raw >= stable_sort(
            s,
            larger_view_first(),
        )[j].size_raw,
    decreases j - i,
{
    let r = stable_sort(s, larger_view_first());
    lemma_stable_sort_permutes(s, larger_view_first());
    if i < j {
        lemma_sorted_by_size_descends(s, i, j - 1);
        assert(asymmetric(larger_view_first()));
        lemma_stable_sort_ordered(s, larger_view_first());
        assert(!larger_view_first()(r[(j - 1) + 1], r[j - 1]));
    }
}

/// In the order of their names, no entry's name comes before that of the entry
/// in front of it.
pub proof fn lemma_by_name_ordered(entries: Seq<FsNode>)
    ensures
        ordered(by_name(entries), name_first()),
        by_name(entries).len() == entries.len(),
        by_name(entries).to_multiset() == entries.to_multiset(),
{
    assert forall|a: FsNode, b: FsNode| #[trigger] name_first()(a, b) implies !name_first()(b, a) by {
        lemma_text_before_asymmetric(a.name@, b.name@);
    }
    lemma_stable_sort_ordered(entries, name_first());
    lemma_stable_sort_permutes(entries, name_first());
}

} // verus!
