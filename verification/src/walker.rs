use crate::aggregate::{inner_calculate, lemma_entries_size_prefix, lemma_entry_size_bounded};
use crate::entry::{entry_of, make_entry};
use crate::models::{entry_views, FileEntry, FileEntryView};
use crate::text::{contains_text, str_contains};
use crate::tree::{dir_size, entries_size, entry_size, lemma_child_is_smaller, FsNode};
use vstd::prelude::*;

verus! {

/// The entries that a search for `filter` reports under the directory `dir`,
/// which itself did not match: those of its enumerated entries, in the order
/// in which they were enumerated. A directory that could not be opened gives
/// none.
pub open spec fn matches_under(dir: FsNode, filter: Seq<char>, human: bool, with_time: bool) -> Seq<
    FileEntryView,
>
    decreases dir, 0int,
{
    match dir.children {
        None => Seq::empty(),
        Some(v) => matches_among(v@, filter, human, with_time),
    }
}

/// What a search for `filter` reports of one entry. An entry whose stat failed
/// and one that is no directory give nothing. A directory whose name contains
/// `filter` gives one entry, with the bytes summed under it, and nothing of
/// what lies in it. Any other directory gives what the search reports under it.
pub open spec fn matches_of(node: FsNode, filter: Seq<char>, human: bool, with_time: bool) -> Seq<
    FileEntryView,
>
    decreases node, 1int,
{
    match node.meta {
        None => Seq::empty(),
        Some(m) => if !m.is_dir {
            Seq::empty()
        } else if contains_text(node.name@, filter) {
            seq![entry_of(node, m, dir_size(node) as u64, human, with_time)]
        } else {
            matches_under(node, filter, human, with_time)
        },
    }
}

/// What a search for `filter` reports of a sequence of entries, one after the
/// other.
pub open spec fn matches_among(s: Seq<FsNode>, filter: Seq<char>, human: bool, with_time: bool) -> Seq<
    FileEntryView,
>
    decreases s, 2int,
{
    if s.len() == 0 {
        Seq::empty()
    } else {
        matches_among(s.drop_last(), filter, human, with_time) + matches_of(
            s.last(),
            filter,
            human,
            with_time,
        )
    }
}

/// The search takes the entries one by one.
pub proof fn lemma_matches_among_step(
    s: Seq<FsNode>,
    k: int,
    filter: Seq<char>,
    human: bool,
    with_time: bool,
)
    requires
        0 <= k < s.len(),
    ensures
        matches_among(s.take(k + 1), filter, human, with_time) == matches_among(
            s.take(k),
            filter,
            human,
            with_time,
        ) + matches_of(s[k], filter, human, with_time),
{
    assert(s.take(k + 1).drop_last() =~= s.take(k));
    assert(s.take(k + 1).last() == s[k]);
}

/// Appends to `entries` what a search for `filter` reports under `dir`.
pub fn collect_matches(
    dir: &FsNode,
    human: bool,
    parallel: bool,
    filter: &str,
    with_time: bool,
    entries: &mut Vec<FileEntry>,
)
    requires
        dir_size(*dir) <= u64::MAX,
    ensures
        entry_views(final(entries)@) == entry_views(old(entries)@) + matches_under(
            *dir,
            filter@,
            human,
            with_time,
        ),
    decreases *dir,
{
    let ghost before = entry_views(entries@);
    match &dir.children {
        None => {
            assert(entry_views(entries@) =~= before + Seq::<FileEntryView>::empty());
        },
        Some(children) => {
            let mut i: usize = 0;
            proof {
                assert(matches_among(children@.take(0), filter@, human, with_time) =~= Seq::<
                    FileEntryView,
                >::empty());
                assert(entry_views(entries@) =~= before + Seq::<FileEntryView>::empty());
            }
            while i < children.len()
                invariant
                    i <= children.len(),
                    dir.children == Some(*children),
                    entries_size(children@) <= u64::MAX,
                    entry_views(entries@) == before + matches_among(
                        children@.take(i as int),
                        filter@,
                        human,
                        with_time,
                    ),
                decreases children.len() - i,
            {
                let child = &children[i];
                let ghost so_far = entry_views(entries@);
                proof {
                    lemma_matches_among_step(children@, i as int, filter@, human, with_time);
                    lemma_entry_size_bounded(children@, i as int);
                    lemma_child_is_smaller(*dir, i as int);
                }
                match child.meta {
                    None => {
                        assert(so_far + Seq::<FileEntryView>::empty() =~= so_far);
                    },
                    Some(m) => {
                        if !m.is_dir {
                            assert(so_far + Seq::<FileEntryView>::empty() =~= so_far);
                        } else if str_contains(child.name.as_str(), filter) {
                            let raw = inner_calculate(child, parallel);
                            let entry = make_entry(child, m, raw, human, with_time);
                            entries.push(entry);
                            assert(entry_views(entries@) =~= so_far + seq![entry@]);
                        } else {
                            collect_matches(child, human, parallel, filter, with_time, entries);
                        }
                    },
                }
                proof {
                    let step = matches_of(children@[i as int], filter@, human, with_time);
                    let done = matches_among(children@.take(i as int), filter@, human, with_time);
                    assert(before + done + step =~= before + (done + step));
                }
                i = i + 1;
            }
            proof {
                assert(children@.take(i as int) =~= children@);
            }
        },
    }
}

/// Appends to `entries` one entry for each directory under `dir` whose name
/// contains `name`, as far as the search reaches: it goes into the directories
/// that do not match and stops at those that do.
pub fn calculate_dir_size1(
    dir: &FsNode,
    human_readable: bool,
    parallel: bool,
    name: &str,
    entries: &mut Vec<FileEntry>,
)
    requires
        dir_size(*dir) <= u64::MAX,
    ensures
        entry_views(final(entries)@) == entry_views(old(entries)@) + matches_under(
            *dir,
            name@,
            human_readable,
            false,
        ),
{
    collect_matches(dir, human_readable, parallel, name, false, entries)
}

} // verus!
