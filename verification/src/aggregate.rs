use crate::format::{format_size, size_display};
use crate::tree::{dir_size, entries_size, entry_size, lemma_child_is_smaller, FsNode};
use rayon::iter::{IntoParallelRefIterator, ParallelIterator};
use vstd::prelude::*;

verus! {

/// The sum over a prefix is no more than the sum over the whole.
pub proof fn lemma_entries_size_prefix(s: Seq<FsNode>, k: int)
    requires
        0 <= k <= s.len(),
    ensures
        entries_size(s.take(k)) <= entries_size(s),
        k < s.len() ==> entries_size(s.take(k)) + entry_size(s[k]) == entries_size(s.take(k + 1)),
        k < s.len() ==> entries_size(s.take(k + 1)) <= entries_size(s),
    decreases s.len() - k,
{
    if k < s.len() {
        assert(s.take(k + 1).drop_last() =~= s.take(k));
        assert(s.take(k + 1).last() == s[k]);
        lemma_entries_size_prefix(s, k + 1);
    } else {
        assert(s.take(k) =~= s);
    }
}

/// No single entry adds more than the whole sequence sums to.
pub proof fn lemma_entry_size_bounded(s: Seq<FsNode>, k: int)
    requires
        0 <= k < s.len(),
    ensures
        entry_size(s[k]) <= entries_size(s),
{
    lemma_entries_size_prefix(s, k);
}

/// Sums the entries on rayon's worker threads: `par_iter`, `map` and `sum` of
/// rayon's `ParallelIterator`. `sum` adds the mapped values in an order of its
/// choosing; the total fits in `u64`, so every order gives the same number.
#[verifier::external_body]
fn par_sum_entries(entries: &Vec<FsNode>) -> (total: u64)
    requires
        entries_size(entries@) <= u64::MAX,
    ensures
        total == entries_size(entries@),
{
    entries.par_iter().map(|e| process_entry(e, true)).sum::<u64>()
}

/// What `entry` adds to the total of the directory that holds it.
pub fn process_entry(entry: &FsNode, parallel: bool) -> (size: u64)
    requires
        entry_size(*entry) <= u64::MAX,
    ensures
        size == entry_size(*entry),
    decreases *entry, 1int,
{
    match entry.meta {
        None => 0,
        Some(m) => if m.is_dir {
            inner_calculate(entry, parallel)
        } else {
            m.len
        },
    }
}

/// The bytes under the directory `dir`, summed over its entries one after the
/// other or, with `parallel`, on worker threads.
pub fn inner_calculate(dir: &FsNode, parallel: bool) -> (total: u64)
    requires
        dir_size(*dir) <= u64::MAX,
    ensures
        total == dir_size(*dir),
    decreases *dir, 0int,
{
    match &dir.children {
        None => 0,
        Some(entries) => {
            if parallel {
                par_sum_entries(entries)
            } else {
                let mut total: u64 = 0;
                let mut i: usize = 0;
                while i < entries.len()
                    invariant
                        i <= entries.len(),
                        dir.children == Some(*entries),
                        total == entries_size(entries@.take(i as int)),
                        entries_size(entries@) <= u64::MAX,
                    decreases entries.len() - i,
                {
                    proof {
                        lemma_entries_size_prefix(entries@, i as int);
                        lemma_entry_size_bounded(entries@, i as int);
                        lemma_child_is_smaller(*dir, i as int);
                    }
                    let size = process_entry(&entries[i], parallel);
                    total = total + size;
                    i = i + 1;
                }
                proof {
                    assert(entries@.take(i as int) =~= entries@);
                }
                total
            }
        },
    }
}

/// The bytes under the directory `dir`, as a number and as it is shown.
///
/// An entry whose stat failed and a directory that could not be opened add
/// nothing; whatever else lies beside them is counted. The total is the same
/// with and without `parallel`.
pub fn calculate_dir_size(dir: &FsNode, human_readable: bool, parallel: bool) -> (r: (u64, String))
    requires
        dir_size(*dir) <= u64::MAX,
    ensures
        r.0 == dir_size(*dir),
        r.1@ == size_display(dir_size(*dir), human_readable),
{
    let total = inner_calculate(dir, parallel);
    let converted = format_size(total, human_readable);
    (total, converted)
}

/// What `entry` adds to its directory's total, where that fits in 64 bits.
pub fn checked_entry_size(entry: &FsNode) -> (size: Option<u64>)
    ensures
        size is Some <==> entry_size(*entry) <= u64::MAX,
        size is Some ==> size->0 == entry_size(*entry),
    decreases *entry, 1int,
{
    match entry.meta {
        None => Some(0),
        Some(m) => if m.is_dir {
            checked_dir_size(entry)
        } else {
            Some(m.len)
        },
    }
}

/// The bytes under the directory `dir`, where the total fits in 64 bits, and
/// nothing where it does not.
pub fn checked_dir_size(dir: &FsNode) -> (total: Option<u64>)
    ensures
        total is Some <==> dir_size(*dir) <= u64::MAX,
        total is Some ==> total->0 == dir_size(*dir),
    decreases *dir, 0int,
{
    match &dir.children {
        None => Some(0),
        Some(entries) => {
            let mut total: u64 = 0;
            let mut i: usize = 0;
            while i < entries.len()
                invariant
                    i <= entries.len(),
                    dir.children == Some(*entries),
                    total == entries_size(entries@.take(i as int)),
                decreases entries.len() - i,
            {
                proof {
                    lemma_entries_size_prefix(entries@, i as int);
                    lemma_child_is_smaller(*dir, i as int);
                }
                let sum = match checked_entry_size(&entries[i]) {
                    None => None,
                    Some(size) => total.checked_add(size),
                };
                match sum {
                    None => {
                        return None;
                    },
                    Some(t) => {
                        total = t;
                    },
                }
                i = i + 1;
            }
            proof {
                assert(entries@.take(i as int) =~= entries@);
            }
            Some(total)
        },
    }
}

/// A sum of entries is the sum without one of them and what that one adds.
pub proof fn lemma_entries_size_remove(s: Seq<FsNode>, k: int)
    requires
        0 <= k < s.len(),
    ensures
        entries_size(s) == entries_size(s.remove(k)) + entry_size(s[k]),
    decreases s.len(),
{
    if k == s.len() - 1 {
        assert(s.remove(k) =~= s.drop_last());
    } else {
        lemma_entries_size_remove(s.drop_last(), k);
        assert(s.remove(k).drop_last() =~= s.drop_last().remove(k));
        assert(s.remove(k).last() == s.last());
    }
}

/// An entry whose stat failed adds nothing: the sum is that of the others.
pub proof fn lemma_unreadable_entry_adds_nothing(s: Seq<FsNode>, k: int)
    requires
        0 <= k < s.len(),
        s[k].meta is None,
    ensures
        entries_size(s) == entries_size(s.remove(k)),
{
    lemma_entries_size_remove(s, k);
}

/// A directory that could not be opened adds nothing to the sum.
pub proof fn lemma_unreadable_directory_adds_nothing(s: Seq<FsNode>, k: int)
    requires
        0 <= k < s.len(),
        s[k].meta is Some,
        s[k].meta->0.is_dir,
        s[k].children is None,
    ensures
        entries_size(s) == entries_size(s.remove(k)),
{
    lemma_entries_size_remove(s, k);
}

/// Two sequences of entries that differ in one place differ in their sums by
/// what the two entries at that place add. So what holds of the sum under an
/// entry holds, level by level, of every sum above it.
pub proof fn lemma_entries_size_replace(s: Seq<FsNode>, t: Seq<FsNode>, k: int)
    requires
        0 <= k < s.len(),
        s.len() == t.len(),
        forall|i: int| 0 <= i < s.len() && i != k ==> entry_size(s[i]) == entry_size(t[i]),
    ensures
        entries_size(s) - entry_size(s[k]) == entries_size(t) - entry_size(t[k]),
    decreases s.len(),
{
    if k == s.len() - 1 {
        lemma_entries_size_same(s.drop_last(), t.drop_last());
    } else {
        lemma_entries_size_replace(s.drop_last(), t.drop_last(), k);
    }
}

/// Sequences whose entries add the same, place by place, have the same sum.
pub proof fn lemma_entries_size_same(s: Seq<FsNode>, t: Seq<FsNode>)
    requires
        s.len() == t.len(),
        forall|i: int| 0 <= i < s.len() ==> entry_size(s[i]) == entry_size(t[i]),
    ensures
        entries_size(s) == entries_size(t),
    decreases s.len(),
{
    if s.len() > 0 {
        lemma_entries_size_same(s.drop_last(), t.drop_last());
    }
}

} // verus!
