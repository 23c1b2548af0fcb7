//! Disk usage of a directory tree.
//!
//! A scan works on a snapshot of the tree, an `FsNode`, in which every failure
//! that it tolerates is written down: a stat that failed, a directory that
//! could not be opened. From it the library lists the entries of the root with
//! the bytes summed under each, searches the tree for directories by name, and
//! tells which progress notifications the work gives rise to.

pub mod aggregate;
pub mod deletion;
pub mod entry;
pub mod format;
pub mod listing;
pub mod models;
pub mod order;
pub mod progress;
pub mod setup;
pub mod sorting;
pub mod text;
pub mod tree;
pub mod walker;
pub mod with_events;

pub use crate::aggregate::{calculate_dir_size, checked_dir_size};
pub use crate::format::{format_size, human_readable_size};
pub use crate::listing::{list_directory, sorted_names};
pub use crate::models::{Cli, FileEntry, ProgressEvent, ScanError};
pub use crate::tree::{FsNode, Metadata};
pub use crate::walker::calculate_dir_size1;
pub use crate::with_events::{
    calculate_dir_size_with_events,
    calculate_dir_size_with_events_simple,
    list_directory_with_events,
};
