use vstd::prelude::*;

verus! {

/// What a successful stat of one path told.
#[derive(Clone, Copy, Debug)]
pub struct Metadata {
    /// The path is a directory.
    pub is_dir: bool,
    /// The length in bytes that the file system reports for the path itself.
    pub len: u64,
    /// The read-only bit.
    pub readonly: bool,
    /// Creation time in seconds since the Unix epoch, where the platform gave one.
    pub created: Option<u64>,
}

/// One path of a directory tree as a scan found it: a snapshot in plain values.
///
/// Every failure that a scan tolerates has its place here: a stat that failed
/// leaves `meta` empty, a directory that could not be opened leaves `children`
/// empty, and a path that could not be canonicalised leaves `canonical` empty.
#[derive(Debug)]
pub struct FsNode {
    /// Base name.
    pub name: String,
    /// The path as it was reached: the parent's path joined with `name`.
    pub path: String,
    /// The canonical absolute path, where canonicalisation succeeded.
    pub canonical: Option<String>,
    /// The metadata, where the stat succeeded.
    pub meta: Option<Metadata>,
    /// The entries that were enumerated, where the path could be opened as a
    /// directory.
    pub children: Option<Vec<FsNode>>,
}

/// Bytes under the directory `node`: the sum over its enumerated entries, and
/// nothing where it could not be opened.
pub open spec fn dir_size(node: FsNode) -> nat
    decreases node, 0int,
{
    match node.children {
        None => 0,
        Some(v) => entries_size(v@),
    }
}

/// What one entry adds to its parent's total: nothing where its stat failed,
/// its length where it is a file, the bytes under it where it is a directory.
pub open spec fn entry_size(node: FsNode) -> nat
    decreases node, 1int,
{
    match node.meta {
        None => 0,
        Some(m) => if m.is_dir {
            dir_size(node)
        } else {
            m.len as nat
        },
    }
}

/// The sum of `entry_size` over a sequence of entries.
pub open spec fn entries_size(s: Seq<FsNode>) -> nat
    decreases s, 2int,
{
    if s.len() == 0 {
        0
    } else {
        entries_size(s.drop_last()) + entry_size(s.last())
    }
}

/// An enumerated entry of a directory is a smaller tree than the directory.
pub proof fn lemma_child_is_smaller(dir: FsNode, i: int)
    requires
        dir.children is Some,
        0 <= i < dir.children->0@.len(),
    ensures
        decreases_to!(dir => dir.children->0@[i]),
{
    assert(decreases_to!(dir => dir.children));
    assert(decreases_to!(dir.children => dir.children->0));
    assert(decreases_to!(dir.children->0 => dir.children->0@));
    assert(decreases_to!(dir.children->0@ => dir.children->0@[i]));
}

/// The entries that an enumeration gave, without the places at which it
/// failed, in the order in which they came.
pub open spec fn enumerated_entries(s: Seq<Option<FsNode>>) -> Seq<FsNode>
    decreases s.len(),
{
    if s.len() == 0 {
        Seq::empty()
    } else {
        match s.last() {
            Some(node) => enumerated_entries(s.drop_last()).push(node),
            None => enumerated_entries(s.drop_last()),
        }
    }
}

/// Drops from the outcome of an enumeration the places at which reading an
/// entry failed, and keeps the rest in order.
pub fn enumerated(entries: Vec<Option<FsNode>>) -> (kept: Vec<FsNode>)
    ensures
        kept@ == enumerated_entries(entries@),
{
    let ghost all = entries@;
    let mut rest = entries;
    let mut back: Vec<FsNode> = Vec::new();
    while rest.len() > 0
        invariant
            enumerated_entries(all) == enumerated_entries(rest@) + back@.reverse(),
        decreases rest.len(),
    {
        let ghost before = rest@;
        let ghost held = back@;
        let last = rest.pop();
        assert(rest@ =~= before.drop_last());
        match last {
            Some(Some(node)) => {
                back.push(node);
                assert(back@.reverse() =~= seq![node] + held.reverse());
                assert(enumerated_entries(rest@).push(node) + held.reverse() =~= enumerated_entries(
                    rest@,
                ) + back@.reverse());
            },
            _ => {},
        }
    }
    let mut kept: Vec<FsNode> = Vec::new();
    assert(enumerated_entries(all) =~= kept@ + back@.reverse());
    while back.len() > 0
        invariant
            enumerated_entries(all) == kept@ + back@.reverse(),
        decreases back.len(),
    {
        let ghost held = back@;
        let ghost done = kept@;
        let last = back.pop();
        match last {
            Some(node) => {
                kept.push(node);
                assert(held.reverse() =~= seq![node] + back@.reverse());
                assert(done + held.reverse() =~= kept@ + back@.reverse());
            },
            None => {},
        }
    }
    assert(enumerated_entries(all) =~= kept@);
    kept
}

} // verus!
