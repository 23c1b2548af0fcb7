use vstd::prelude::*;

verus! {

/// Why a path is not deleted, before anything was removed.
#[derive(Clone, Copy, Debug, PartialEq, Eq, Structural)]
pub enum DeleteRefusal {
    /// Nothing is at the path.
    Missing,
    /// The path is read-only and the deletion was not forced.
    ReadOnly,
    /// The path is neither a file nor a directory.
    InvalidKind,
}

/// How a path is removed.
#[derive(Clone, Copy, Debug, PartialEq, Eq, Structural)]
pub enum Removal {
    /// It is a file: it is removed alone.
    File,
    /// It is a directory: it is removed with all that is in it.
    DirectoryTree,
}

/// Why a removal failed, as far as the platform's error code tells.
#[derive(Clone, Copy, Debug, PartialEq, Eq, Structural)]
pub enum DeleteFailure {
    PermissionDenied,
    ResourceBusy,
    NotFound,
    DirectoryNotEmpty,
    Other,
}

/// Whether the read-only bit stands in the way of a deletion.
///
/// A read-only path is refused unless the deletion is forced. Where it goes
/// ahead, the result says whether the bit has to be cleared first.
pub fn check_writable(exists: bool, readonly: bool, force: bool) -> (r: Result<bool, DeleteRefusal>)
    ensures
        !exists ==> r == Err::<bool, DeleteRefusal>(DeleteRefusal::Missing),
        exists && readonly && !force ==> r == Err::<bool, DeleteRefusal>(DeleteRefusal::ReadOnly),
        exists && (force || !readonly) ==> r == Ok::<bool, DeleteRefusal>(readonly),
{
    if !exists {
        Err(DeleteRefusal::Missing)
    } else if readonly && !force {
        Err(DeleteRefusal::ReadOnly)
    } else {
        Ok(readonly)
    }
}

/// How a path of the given kind is removed: a file alone, a directory with
/// what is in it, anything else not at all.
pub fn removal_for(is_file: bool, is_dir: bool) -> (r: Result<Removal, DeleteRefusal>)
    ensures
        is_file ==> r == Ok::<Removal, DeleteRefusal>(Removal::File),
        !is_file && is_dir ==> r == Ok::<Removal, DeleteRefusal>(Removal::DirectoryTree),
        !is_file && !is_dir ==> r == Err::<Removal, DeleteRefusal>(DeleteRefusal::InvalidKind),
{
    if is_file {
        Ok(Removal::File)
    } else if is_dir {
        Ok(Removal::DirectoryTree)
    } else {
        Err(DeleteRefusal::InvalidKind)
    }
}

/// The category of a platform error code.
pub open spec fn failure_of(code: Option<i32>) -> DeleteFailure {
    if code == Some(5i32) {
        DeleteFailure::PermissionDenied
    } else if code == Some(32i32) {
        DeleteFailure::ResourceBusy
    } else if code == Some(2i32) {
        DeleteFailure::NotFound
    } else if code == Some(145i32) {
        DeleteFailure::DirectoryNotEmpty
    } else {
        DeleteFailure::Other
    }
}

/// Sorts the platform's error code of a failed removal into its category:
/// 5 is a denied permission, 32 a path in use, 2 a missing path and 145 a
/// directory that is not empty.
pub fn classify_os_error(code: Option<i32>) -> (failure: DeleteFailure)
    ensures
        failure == failure_of(code),
{
    match code {
        Some(5) => DeleteFailure::PermissionDenied,
        Some(32) => DeleteFailure::ResourceBusy,
        Some(2) => DeleteFailure::NotFound,
        Some(145) => DeleteFailure::DirectoryNotEmpty,
        _ => DeleteFailure::Other,
    }
}

} // verus!
