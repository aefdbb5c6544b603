//! Snapshots of directories: what a listing held, as plain values.

use vstd::prelude::*;
use vstd::string::*;
use crate::names::{
    is_subs_folder_name, is_subs_name, is_subtitle_file_name, is_video_file, is_video_name,
    SUBTITLE_FILE_NAME,
};

verus! {

/// What kind of thing a directory entry is.
#[derive(Clone, Copy, Debug, PartialEq, Eq, Structural)]
pub enum EntryKind {
    /// A regular file.
    File,
    /// A directory.
    Directory,
    /// Anything else, or an entry whose kind could not be read.
    Other,
}

/// One entry of a directory listing. For a directory, `children` holds its own
/// listing, in the order in which the directory was walked.
#[derive(Debug, PartialEq, Eq)]
pub struct Entry {
    /// The entry's name inside its directory.
    pub name: String,
    /// The entry's full path, as the listing gave it.
    pub path: String,
    /// File, directory or something else.
    pub kind: EntryKind,
    /// The listing of the entry itself; empty for anything but a directory.
    pub children: Vec<Entry>,
}

impl Entry {
    /// A regular file with a recognized video extension.
    pub open spec fn is_video(&self) -> bool {
        self.kind == EntryKind::File && is_video_name(self.name@)
    }

    /// A directory, whatever its name.
    pub open spec fn is_folder(&self) -> bool {
        self.kind == EntryKind::Directory
    }

    /// A directory that holds subtitles.
    pub open spec fn is_subs_folder(&self) -> bool {
        self.kind == EntryKind::Directory && is_subs_name(self.name@)
    }

    /// A directory that may hold a season: any but one that holds subtitles.
    pub open spec fn is_season_candidate(&self) -> bool {
        self.kind == EntryKind::Directory && !is_subs_name(self.name@)
    }

    /// A regular file that carries the subtitle file's name.
    pub open spec fn is_subtitle_file(&self) -> bool {
        self.kind == EntryKind::File && self.name@ == SUBTITLE_FILE_NAME@
    }

    /// A regular file.
    pub fn file(name: &str, path: &str) -> (entry: Entry)
        ensures
            entry.name@ == name@,
            entry.path@ == path@,
            entry.kind == EntryKind::File,
            entry.children@.len() == 0,
    {
        Entry {
            name: String::from_str(name),
            path: String::from_str(path),
            kind: EntryKind::File,
            children: Vec::new(),
        }
    }

    /// A directory with its listing.
    pub fn directory(name: &str, path: &str, children: Vec<Entry>) -> (entry: Entry)
        ensures
            entry.name@ == name@,
            entry.path@ == path@,
            entry.kind == EntryKind::Directory,
            entry.children == children,
    {
        Entry {
            name: String::from_str(name),
            path: String::from_str(path),
            kind: EntryKind::Directory,
            children,
        }
    }

    /// An entry that is neither a regular file nor a directory.
    pub fn other(name: &str, path: &str) -> (entry: Entry)
        ensures
            entry.name@ == name@,
            entry.path@ == path@,
            entry.kind == EntryKind::Other,
            entry.children@.len() == 0,
    {
        Entry {
            name: String::from_str(name),
            path: String::from_str(path),
            kind: EntryKind::Other,
            children: Vec::new(),
        }
    }

    /// Whether the entry is a regular file with a recognized video extension.
    pub fn is_video_entry(&self) -> (video: bool)
        ensures
            video == self.is_video(),
    {
        self.kind == EntryKind::File && is_video_file(self.name.as_str())
    }

    /// Whether the entry is a directory.
    pub fn is_directory(&self) -> (folder: bool)
        ensures
            folder == self.is_folder(),
    {
        self.kind == EntryKind::Directory
    }

    /// Whether the entry is a directory that holds subtitles.
    pub fn is_subs_entry(&self) -> (subs: bool)
        ensures
            subs == self.is_subs_folder(),
    {
        self.kind == EntryKind::Directory && is_subs_folder_name(self.name.as_str())
    }

    /// Whether the entry is a directory that may hold a season.
    pub fn is_season_entry(&self) -> (season: bool)
        ensures
            season == self.is_season_candidate(),
    {
        self.kind == EntryKind::Directory && !is_subs_folder_name(self.name.as_str())
    }

    /// Whether the entry is a regular file that carries the subtitle file's name.
    pub fn is_subtitle_entry(&self) -> (subtitle: bool)
        ensures
            subtitle == self.is_subtitle_file(),
    {
        self.kind == EntryKind::File && is_subtitle_file_name(&self.name)
    }
}

} // verus!
