use crate::format::{format_size, size_display};
use crate::models::{FileEntry, FileEntryView};
use crate::text::{permission_flags, permission_string, strip_verbatim, without_verbatim_prefix};
use crate::tree::{FsNode, Metadata};
use vstd::prelude::*;
use vstd::string::StringExecFns;

verus! {

/// The path under which a node is listed: its canonical path without the
/// verbatim prefix, or, where it has no canonical path, the path as it was
/// reached.
pub open spec fn shown_path(node: FsNode) -> Seq<char> {
    match node.canonical {
        Some(c) => strip_verbatim(c@),
        None => node.path@,
    }
}

/// The entry that lists `node` with the size `size_raw`. The creation time is
/// taken over only where `with_time` is set.
pub open spec fn entry_of(
    node: FsNode,
    meta: Metadata,
    size_raw: u64,
    human: bool,
    with_time: bool,
) -> FileEntryView {
    FileEntryView {
        file_type: if meta.is_dir {
            'd'
        } else {
            '-'
        },
        permissions: permission_flags(meta.readonly),
        size_raw: size_raw,
        size_display: size_display(size_raw as nat, human),
        created_time: if with_time {
            meta.created
        } else {
            None
        },
        path: shown_path(node),
        name: node.name@,
    }
}

/// The path under which `node` is listed.
pub fn display_path(node: &FsNode) -> (path: String)
    ensures
        path@ == shown_path(*node),
{
    match &node.canonical {
        Some(c) => without_verbatim_prefix(c.as_str()),
        None => String::from_str(node.path.as_str()),
    }
}

/// Builds the entry that lists `node` with the size `size_raw`.
pub fn make_entry(
    node: &FsNode,
    meta: Metadata,
    size_raw: u64,
    human: bool,
    with_time: bool,
) -> (entry: FileEntry)
    ensures
        entry@ == entry_of(*node, meta, size_raw, human, with_time),
{
    FileEntry {
        file_type: if meta.is_dir {
            'd'
        } else {
            '-'
        },
        permissions: permission_string(meta.readonly),
        size_raw: size_raw,
        size_display: format_size(size_raw, human),
        created_time: if with_time {
            meta.created
        } else {
            None
        },
        path: display_path(node),
        name: String::from_str(node.name.as_str()),
    }
}

} // verus!
