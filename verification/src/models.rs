use vstd::prelude::*;

verus! {

/// The options of one scan. They are read and never changed while it runs.
#[derive(Clone, Debug)]
pub struct Cli {
    /// The path to scan, where one was given.
    pub file: Option<String>,
    /// Gather metadata and sizes; without it a scan only yields the names.
    pub long_format: bool,
    /// Show sizes scaled to a unit.
    pub human_readable: bool,
    /// Carried for the caller; the scan lists hidden entries either way.
    pub all: bool,
    /// Carried for the caller: whether it shows creation times.
    pub show_time: bool,
    /// Sum each directory's entries on worker threads.
    pub parallel: bool,
    /// Order the result by size, largest first.
    pub sort: bool,
    /// Report only directories whose name contains this text.
    pub name: Option<String>,
    /// Carried for the caller: whether it shows whole paths.
    pub full_path: bool,
}

/// One listed entry.
#[derive(Clone, Debug)]
pub struct FileEntry {
    /// `d` for a directory, `-` for anything else.
    pub file_type: char,
    /// Three characters: `r` or a space for the read-only bit, then `w` and `x`.
    pub permissions: String,
    /// The file's length, or the bytes summed under a directory.
    pub size_raw: u64,
    /// `size_raw` as it is shown.
    pub size_display: String,
    /// Creation time in seconds since the Unix epoch, where one is known.
    pub created_time: Option<u64>,
    /// The canonical path, or the path as it was reached.
    pub path: String,
    /// Base name.
    pub name: String,
}

/// A `FileEntry` with its strings as sequences of characters.
pub struct FileEntryView {
    pub file_type: char,
    pub permissions: Seq<char>,
    pub size_raw: u64,
    pub size_display: Seq<char>,
    pub created_time: Option<u64>,
    pub path: Seq<char>,
    pub name: Seq<char>,
}

impl View for FileEntry {
    type V = FileEntryView;

    open spec fn view(&self) -> FileEntryView {
        FileEntryView {
            file_type: self.file_type,
            permissions: self.permissions@,
            size_raw: self.size_raw,
            size_display: self.size_display@,
            created_time: self.created_time,
            path: self.path@,
            name: self.name@,
        }
    }
}

/// One progress notification: where the scan is, and at what stage.
#[derive(Clone, Debug)]
pub struct ProgressEvent {
    /// The directory that is being worked on.
    pub current_path: String,
    /// The entry that is being worked on.
    pub current_file: String,
    /// A short tag for the stage.
    pub status: String,
}

/// A `ProgressEvent` with its strings as sequences of characters.
pub struct ProgressEventView {
    pub current_path: Seq<char>,
    pub current_file: Seq<char>,
    pub status: Seq<char>,
}

impl View for ProgressEvent {
    type V = ProgressEventView;

    open spec fn view(&self) -> ProgressEventView {
        ProgressEventView {
            current_path: self.current_path@,
            current_file: self.current_file@,
            status: self.status@,
        }
    }
}

/// Why a scan gave no listing.
#[derive(Clone, Copy, Debug, PartialEq, Eq, Structural)]
pub enum ScanError {
    /// The root itself could not be opened for reading.
    RootUnreadable,
}

/// The views of a sequence of entries, in the same order.
pub open spec fn entry_views(entries: Seq<FileEntry>) -> Seq<FileEntryView> {
    entries.map_values(|e: FileEntry| e@)
}

/// The views of a sequence of notifications, in the same order.
pub open spec fn event_views(events: Seq<ProgressEvent>) -> Seq<ProgressEventView> {
    events.map_values(|e: ProgressEvent| e@)
}

} // verus!
