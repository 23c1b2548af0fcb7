use crate::aggregate::{lemma_entry_size_bounded, process_entry};
use crate::entry::{entry_of, make_entry};
use crate::models::{entry_views, Cli, FileEntry, FileEntryView, ScanError};
use crate::order::{
    by_name,
    larger_first,
    larger_view_first,
    lemma_sort_views,
    lemma_sorted_by_size_descends,
    name_first,
    name_order,
    picked,
    sort_by_size,
};
use crate::sorting::{
    insert_sorted,
    lemma_stable_sort_members,
    lemma_stable_sort_permutes,
    stable_sort,
};
use crate::text::str_contains;
use crate::tree::{dir_size, entries_size, entry_size, FsNode};
use crate::walker::{collect_matches, matches_of};
use vstd::prelude::*;
use vstd::string::StringExecFns;

verus! {

/// The name filter of a scan, as a sequence of characters.
pub open spec fn filter_of(args: Cli) -> Option<Seq<char>> {
    match args.name {
        Some(n) => Some(n@),
        None => None,
    }
}

/// The entries that one entry of the root gives to the listing.
///
/// Without a filter it is listed itself, unless its stat failed: a file with
/// its length, a directory with the bytes summed under it. With a filter it
/// gives what a search for the filter reports of it.
pub open spec fn listed_of(node: FsNode, filter: Option<Seq<char>>, human: bool, with_time: bool) -> Seq<
    FileEntryView,
> {
    match filter {
        Some(f) => matches_of(node, f, human, with_time),
        None => match node.meta {
            None => Seq::empty(),
            Some(m) => seq![entry_of(node, m, entry_size(node) as u64, human, with_time)],
        },
    }
}

/// What a sequence of entries of the root gives to the listing, one after the
/// other.
pub open spec fn listed_among(
    s: Seq<FsNode>,
    filter: Option<Seq<char>>,
    human: bool,
    with_time: bool,
) -> Seq<FileEntryView>
    decreases s.len(),
{
    if s.len() == 0 {
        Seq::empty()
    } else {
        listed_among(s.drop_last(), filter, human, with_time) + listed_of(
            s.last(),
            filter,
            human,
            with_time,
        )
    }
}

/// The listing of a root that could be opened.
///
/// Without `long_format` it is empty. With it the root's entries are taken in
/// the order of their names and each gives its part; with `sort` the result is
/// then put in order of size, the largest first, entries of one size staying
/// in the order of their names.
pub open spec fn listing(root: FsNode, args: Cli, with_time: bool) -> Seq<FileEntryView>
    recommends
        root.children is Some,
{
    if !args.long_format {
        Seq::empty()
    } else {
        let found = listed_among(
            by_name(root.children->0@),
            filter_of(args),
            args.human_readable,
            with_time,
        );
        if args.sort {
            stable_sort(found, larger_view_first())
        } else {
            found
        }
    }
}

/// The listing takes the root's entries one by one.
pub proof fn lemma_listed_among_step(
    s: Seq<FsNode>,
    k: int,
    filter: Option<Seq<char>>,
    human: bool,
    with_time: bool,
)
    requires
        0 <= k < s.len(),
    ensures
        listed_among(s.take(k + 1), filter, human, with_time) == listed_among(
            s.take(k),
            filter,
            human,
            with_time,
        ) + listed_of(s[k], filter, human, with_time),
{
    assert(s.take(k + 1).drop_last() =~= s.take(k));
    assert(s.take(k + 1).last() == s[k]);
}

/// What the entries at the positions `order`, taken in that order, give to
/// the listing.
pub fn list_entries(
    children: &Vec<FsNode>,
    order: &Vec<usize>,
    args: &Cli,
    with_time: bool,
) -> (entries: Vec<FileEntry>)
    requires
        entries_size(children@) <= u64::MAX,
        forall|i: int| 0 <= i < order@.len() ==> order@[i] < children@.len(),
    ensures
        entry_views(entries@) == listed_among(
            picked(children@, order@),
            filter_of(*args),
            args.human_readable,
            with_time,
        ),
{
    let mut entries: Vec<FileEntry> = Vec::new();
    let ghost sorted = picked(children@, order@);
    let ghost filter = filter_of(*args);
    let human = args.human_readable;
    let mut k: usize = 0;
    proof {
        assert(entry_views(entries@) =~= Seq::<FileEntryView>::empty());
        assert(sorted.take(0) =~= Seq::<FsNode>::empty());
    }
    while k < order.len()
        invariant
            k <= order.len(),
            forall|i: int| 0 <= i < order@.len() ==> order@[i] < children@.len(),
            sorted == picked(children@, order@),
            entries_size(children@) <= u64::MAX,
            filter == filter_of(*args),
            human == args.human_readable,
            entry_views(entries@) == listed_among(sorted.take(k as int), filter, human, with_time),
        decreases order.len() - k,
    {
        let child = &children[order[k]];
        let ghost so_far = entry_views(entries@);
        proof {
            assert(sorted[k as int] == *child);
            lemma_listed_among_step(sorted, k as int, filter, human, with_time);
            lemma_entry_size_bounded(children@, order@[k as int] as int);
        }
        match child.meta {
            None => {
                assert(so_far + Seq::<FileEntryView>::empty() =~= so_far);
            },
            Some(m) => {
                match &args.name {
                    Some(name) => {
                        if !m.is_dir {
                            assert(so_far + Seq::<FileEntryView>::empty() =~= so_far);
                        } else if str_contains(child.name.as_str(), name.as_str()) {
                            let raw = process_entry(child, args.parallel);
                            let entry = make_entry(child, m, raw, human, with_time);
                            entries.push(entry);
                            assert(entry_views(entries@) =~= so_far + seq![entry@]);
                        } else {
                            collect_matches(
                                child,
                                human,
                                args.parallel,
                                name.as_str(),
                                with_time,
                                &mut entries,
                            );
                        }
                    },
                    None => {
                        let raw = process_entry(child, args.parallel);
                        let entry = make_entry(child, m, raw, human, with_time);
                        entries.push(entry);
                        assert(entry_views(entries@) =~= so_far + seq![entry@]);
                    },
                }
            },
        }
        k = k + 1;
    }
    proof {
        assert(sorted.take(k as int) =~= sorted);
    }
    entries
}

/// The listing of the entries `children` of a root, which `order` holds the
/// positions of in the order of their names.
pub fn listing_in_order(
    children: &Vec<FsNode>,
    order: &Vec<usize>,
    args: &Cli,
    with_time: bool,
) -> (entries: Vec<FileEntry>)
    requires
        entries_size(children@) <= u64::MAX,
        forall|i: int| 0 <= i < order@.len() ==> order@[i] < children@.len(),
    ensures
        entry_views(entries@) == if args.long_format {
            let found = listed_among(
                picked(children@, order@),
                filter_of(*args),
                args.human_readable,
                with_time,
            );
            if args.sort {
                stable_sort(found, larger_view_first())
            } else {
                found
            }
        } else {
            Seq::empty()
        },
{
    if !args.long_format {
        let entries: Vec<FileEntry> = Vec::new();
        assert(entry_views(entries@) =~= Seq::<FileEntryView>::empty());
        return entries;
    }
    let mut entries = list_entries(children, order, args, with_time);
    if args.sort {
        proof {
            lemma_sort_views(entries@);
        }
        sort_by_size(&mut entries);
    }
    entries
}

/// Lists the root's entries, with their creation times where `with_time` is
/// set.
pub fn scan(root: &FsNode, args: &Cli, with_time: bool) -> (r: Result<Vec<FileEntry>, ScanError>)
    requires
        dir_size(*root) <= u64::MAX,
    ensures
        r is Err <==> root.children is None,
        r is Err ==> r == Err::<Vec<FileEntry>, ScanError>(ScanError::RootUnreadable),
        r is Ok ==> entry_views(r->Ok_0@) == listing(*root, *args, with_time),
{
    match &root.children {
        None => Err(ScanError::RootUnreadable),
        Some(children) => {
            let order = name_order(children);
            Ok(listing_in_order(children, &order, args, with_time))
        },
    }
}

/// The names of a sequence of entries, in the same order.
pub open spec fn names_of(s: Seq<FsNode>) -> Seq<Seq<char>> {
    Seq::new(s.len(), |i: int| s[i].name@)
}

/// The views of a sequence of strings, in the same order.
pub open spec fn string_views(s: Seq<String>) -> Seq<Seq<char>> {
    Seq::new(s.len(), |i: int| s[i]@)
}

/// The names of the root's entries in their order: what a scan without
/// `long_format` has to show.
pub fn sorted_names(root: &FsNode) -> (r: Result<Vec<String>, ScanError>)
    ensures
        r is Err <==> root.children is None,
        r is Err ==> r == Err::<Vec<String>, ScanError>(ScanError::RootUnreadable),
        r is Ok ==> string_views(r->Ok_0@) == names_of(by_name(root.children->0@)),
{
    match &root.children {
        None => Err(ScanError::RootUnreadable),
        Some(children) => {
            let order = name_order(children);
            let mut names: Vec<String> = Vec::new();
            let mut k: usize = 0;
            while k < order.len()
                invariant
                    k <= order.len(),
                    names@.len() == k,
                    order@.len() == children@.len(),
                    forall|i: int| 0 <= i < order@.len() ==> order@[i] < children@.len(),
                    forall|i: int| 0 <= i < k ==> (#[trigger] names@[i])@ == children@[order@[i] as int].name@,
                decreases order.len() - k,
            {
                names.push(String::from_str(children[order[k]].name.as_str()));
                k = k + 1;
            }
            proof {
                assert(string_views(names@) =~= names_of(picked(children@, order@)));
            }
            Ok(names)
        },
    }
}

/// Lists the entries of the directory `root`.
///
/// The one failure is a root that could not be opened. Whatever fails below
/// it is passed over: the entries beside it are listed all the same.
pub fn list_directory(root: &FsNode, args: &Cli) -> (r: Result<Vec<FileEntry>, ScanError>)
    requires
        dir_size(*root) <= u64::MAX,
    ensures
        r is Err <==> root.children is None,
        r is Err ==> r == Err::<Vec<FileEntry>, ScanError>(ScanError::RootUnreadable),
        r is Ok ==> entry_views(r->Ok_0@) == listing(*root, *args, false),
{
    scan(root, args, false)
}

/// Where no filter is set and every stat succeeded, each entry gives exactly
/// one entry to the listing.
pub proof fn lemma_listed_among_len(s: Seq<FsNode>, human: bool, with_time: bool)
    requires
        forall|i: int| 0 <= i < s.len() ==> (#[trigger] s[i]).meta is Some,
    ensures
        listed_among(s, None, human, with_time).len() == s.len(),
    decreases s.len(),
{
    if s.len() > 0 {
        assert(s.last().meta is Some);
        assert forall|i: int| 0 <= i < s.drop_last().len() implies (#[trigger] s.drop_last()[i]).meta is Some by {
            assert(s.drop_last()[i] == s[i]);
        }
        lemma_listed_among_len(s.drop_last(), human, with_time);
    }
}

/// A root that could be opened and whose entries could all be read is listed
/// in full: without a filter, the listing has one entry for each entry of the
/// root.
pub proof fn lemma_listing_len(root: FsNode, args: Cli, with_time: bool)
    requires
        root.children is Some,
        forall|i: int| 0 <= i < root.children->0@.len() ==> (#[trigger] root.children->0@[i]).meta is Some,
        args.long_format,
        args.name is None,
    ensures
        listing(root, args, with_time).len() == root.children->0@.len(),
{
    let children = root.children->0@;
    let sorted = by_name(children);
    lemma_stable_sort_permutes(children, name_first());
    assert forall|i: int| 0 <= i < sorted.len() implies (#[trigger] sorted[i]).meta is Some by {
        lemma_stable_sort_members(children, name_first(), i);
        let j = choose|j: int| 0 <= j < children.len() && children[j] == sorted[i];
        assert(children[j].meta is Some);
    }
    lemma_listed_among_len(sorted, args.human_readable, with_time);
    let found = listed_among(sorted, None, args.human_readable, with_time);
    lemma_stable_sort_permutes(found, larger_view_first());
}

/// A listing depends on the tree and on four options only: `long_format`,
/// `human_readable`, `sort` and `name`. Above all it is the same whether the
/// sizes are summed on worker threads or one after the other.
pub proof fn lemma_listing_options(root: FsNode, a: Cli, b: Cli, with_time: bool)
    requires
        root.children is Some,
        a.long_format == b.long_format,
        a.human_readable == b.human_readable,
        a.sort == b.sort,
        filter_of(a) == filter_of(b),
    ensures
        listing(root, a, with_time) == listing(root, b, with_time),
{
}

/// Two scans of one tree with the same options list the same entries with the
/// same sizes.
pub proof fn lemma_rescan_same_sizes(
    root: FsNode,
    args: Cli,
    with_time: bool,
    first: Seq<FileEntry>,
    second: Seq<FileEntry>,
    i: int,
)
    requires
        root.children is Some,
        entry_views(first) == listing(root, args, with_time),
        entry_views(second) == listing(root, args, with_time),
        0 <= i < first.len(),
    ensures
        first.len() == second.len(),
        first[i].size_raw == second[i].size_raw,
        first[i]@ == second[i]@,
{
    assert(entry_views(first).len() == first.len());
    assert(entry_views(second).len() == second.len());
    assert(entry_views(first)[i] == first[i]@);
    assert(entry_views(second)[i] == second[i]@);
}

/// With `sort`, no entry of the listing is larger than one that stands before
/// it.
pub proof fn lemma_sorted_listing_descends(root: FsNode, args: Cli, with_time: bool, i: int, j: int)
    requires
        root.children is Some,
        args.long_format,
        args.sort,
        0 <= i <= j < listing(root, args, with_time).len(),
    ensures
        listing(root, args, with_time)[i].size_raw >= listing(root, args, with_time)[j].size_raw,
{
    let found = listed_among(
        by_name(root.children->0@),
        filter_of(args),
        args.human_readable,
        with_time,
    );
    lemma_stable_sort_permutes(found, larger_view_first());
    lemma_sorted_by_size_descends(found, i, j);
}

/// The sizes of a sequence of entries, added up.
pub open spec fn sizes_sum(s: Seq<FileEntryView>) -> nat
    decreases s.len(),
{
    if s.len() == 0 {
        0
    } else {
        sizes_sum(s.drop_last()) + s.last().size_raw as nat
    }
}

/// The sum over two sequences, one behind the other, is the sum of their sums.
pub proof fn lemma_sizes_sum_concat(a: Seq<FileEntryView>, b: Seq<FileEntryView>)
    ensures
        sizes_sum(a + b) == sizes_sum(a) + sizes_sum(b),
    decreases b.len(),
{
    if b.len() == 0 {
        assert(a + b =~= a);
    } else {
        lemma_sizes_sum_concat(a, b.drop_last());
        assert((a + b).drop_last() =~= a + b.drop_last());
        assert((a + b).last() == b.last());
    }
}

/// The sum over a prefix is no more than the sum over the whole.
pub proof fn lemma_sizes_sum_prefix(s: Seq<FileEntryView>, k: int)
    requires
        0 <= k <= s.len(),
    ensures
        sizes_sum(s.take(k)) <= sizes_sum(s),
{
    assert(s.take(k) + s.skip(k) =~= s);
    lemma_sizes_sum_concat(s.take(k), s.skip(k));
}

/// Inserting in order by size adds the entry's size to the sum.
pub proof fn lemma_sizes_sum_insert(s: Seq<FileEntryView>, x: FileEntryView)
    ensures
        sizes_sum(insert_sorted(s, x, larger_view_first())) == sizes_sum(s) + x.size_raw,
    decreases s.len(),
{
    if s.len() > 0 && larger_view_first()(x, s.last()) {
        lemma_sizes_sum_insert(s.drop_last(), x);
        let mid = insert_sorted(s.drop_last(), x, larger_view_first());
        assert(mid.push(s.last()).drop_last() =~= mid);
    } else {
        assert(s.push(x).drop_last() =~= s);
    }
}

/// Sorting by size leaves the sum as it was.
pub proof fn lemma_sizes_sum_sorted(s: Seq<FileEntryView>)
    ensures
        sizes_sum(stable_sort(s, larger_view_first())) == sizes_sum(s),
    decreases s.len(),
{
    if s.len() > 0 {
        lemma_sizes_sum_sorted(s.drop_last());
        lemma_sizes_sum_insert(stable_sort(s.drop_last(), larger_view_first()), s.last());
    }
}

/// Inserting in order by name adds what the entry adds.
pub proof fn lemma_entries_size_insert(s: Seq<FsNode>, x: FsNode)
    ensures
        entries_size(insert_sorted(s, x, name_first())) == entries_size(s) + entry_size(x),
    decreases s.len(),
{
    if s.len() > 0 && name_first()(x, s.last()) {
        lemma_entries_size_insert(s.drop_last(), x);
        let mid = insert_sorted(s.drop_last(), x, name_first());
        assert(mid.push(s.last()).drop_last() =~= mid);
    } else {
        assert(s.push(x).drop_last() =~= s);
    }
}

/// The order in which the entries are taken does not change their sum.
pub proof fn lemma_entries_size_by_name(s: Seq<FsNode>)
    ensures
        entries_size(by_name(s)) == entries_size(s),
    decreases s.len(),
{
    if s.len() > 0 {
        lemma_entries_size_by_name(s.drop_last());
        lemma_entries_size_insert(by_name(s.drop_last()), s.last());
    }
}

/// Without a filter, the sizes that a sequence of entries is listed with add up
/// to the sum of the entries.
pub proof fn lemma_listed_among_total(s: Seq<FsNode>, human: bool, with_time: bool)
    requires
        entries_size(s) <= u64::MAX,
    ensures
        sizes_sum(listed_among(s, None, human, with_time)) == entries_size(s),
    decreases s.len(),
{
    if s.len() > 0 {
        lemma_listed_among_total(s.drop_last(), human, with_time);
        let front = listed_among(s.drop_last(), None, human, with_time);
        let step = listed_of(s.last(), None, human, with_time);
        lemma_sizes_sum_concat(front, step);
        if s.last().meta is Some {
            assert(step.len() == 1);
            assert(step.drop_last().len() == 0);
            assert(sizes_sum(step.drop_last()) == 0);
            assert(sizes_sum(step) == step.last().size_raw);
        }
    }
}

/// Without a filter, the sizes in the listing of a root add up to the bytes
/// under the root: what fails to be read is missing from both.
pub proof fn lemma_listing_total(root: FsNode, args: Cli, with_time: bool)
    requires
        root.children is Some,
        dir_size(root) <= u64::MAX,
        args.long_format,
        args.name is None,
    ensures
        sizes_sum(listing(root, args, with_time)) == dir_size(root),
{
    let sorted = by_name(root.children->0@);
    lemma_entries_size_by_name(root.children->0@);
    lemma_listed_among_total(sorted, args.human_readable, with_time);
    lemma_sizes_sum_sorted(listed_among(sorted, None, args.human_readable, with_time));
}

/// The sizes of `entries` added up, where the sum fits in 64 bits, and nothing
/// where it does not.
pub fn checked_total(entries: &Vec<FileEntry>) -> (total: Option<u64>)
    ensures
        total is Some <==> sizes_sum(entry_views(entries@)) <= u64::MAX,
        total is Some ==> total->0 == sizes_sum(entry_views(entries@)),
{
    let ghost views = entry_views(entries@);
    let mut total: u64 = 0;
    let mut i: usize = 0;
    while i < entries.len()
        invariant
            i <= entries.len(),
            views == entry_views(entries@),
            total == sizes_sum(views.take(i as int)),
        decreases entries.len() - i,
    {
        proof {
            assert(views.take(i as int + 1).drop_last() =~= views.take(i as int));
            assert(views.take(i as int + 1).last() == entries@[i as int]@);
            lemma_sizes_sum_prefix(views, i as int + 1);
        }
        match total.checked_add(entries[i].size_raw) {
            None => {
                return None;
            },
            Some(t) => {
                total = t;
            },
        }
        i = i + 1;
    }
    proof {
        assert(views.take(i as int) =~= views);
    }
    Some(total)
}

} // verus!
