//! Deciding from a folder's listing what kind of title it holds.

use vstd::prelude::*;
use crate::entry::Entry;
use crate::error::{ProcessingError, ProcessingErrorView};
use crate::names::{lemma_video_base_name_is_stem, remove_file_extension, stem, without_last_four};
use crate::seqs::{lemma_filter_take_ends, lemma_filter_take_next, lemma_map_values_push,
    lemma_texts_push, texts};

verus! {

/// The shape of a title folder.
#[derive(Debug, Clone, PartialEq, Eq)]
pub enum FolderType {
    /// One video file, known by its base name.
    Movie(String),
    /// Several video files, known by their base names in listing order.
    Show(Vec<String>),
    /// No video file, but folders that may be seasons.
    ShowWithSeasons,
}

/// A [`FolderType`] with its names as sequences of characters.
pub enum FolderTypeView {
    Movie(Seq<char>),
    Show(Seq<Seq<char>>),
    ShowWithSeasons,
}

impl View for FolderType {
    type V = FolderTypeView;

    open spec fn view(&self) -> FolderTypeView {
        match self {
            FolderType::Movie(name) => FolderTypeView::Movie(name@),
            FolderType::Show(names) => FolderTypeView::Show(texts(names@)),
            FolderType::ShowWithSeasons => FolderTypeView::ShowWithSeasons,
        }
    }
}

/// The test for a regular file with a recognized video extension.
pub open spec fn video_test() -> spec_fn(Entry) -> bool {
    |entry: Entry| entry.is_video()
}

/// The video files of a listing, in listing order.
pub open spec fn video_entries(entries: Seq<Entry>) -> Seq<Entry> {
    entries.filter(video_test())
}

/// The base names of some video files, in the same order.
pub open spec fn base_names_of(videos: Seq<Entry>) -> Seq<Seq<char>> {
    videos.map_values(|video: Entry| without_last_four(video.name@))
}

/// The names of some files up to their extensions, in the same order.
pub open spec fn stems_of(videos: Seq<Entry>) -> Seq<Seq<char>> {
    videos.map_values(|video: Entry| stem(video.name@))
}

/// The base names of the video files of a listing, in listing order.
pub open spec fn video_base_names(entries: Seq<Entry>) -> Seq<Seq<char>> {
    base_names_of(video_entries(entries))
}

/// Whether a listing holds a directory that may be a season.
pub open spec fn has_season_candidate(entries: Seq<Entry>) -> bool {
    exists|at: int| 0 <= at < entries.len() && (#[trigger] entries[at]).is_season_candidate()
}

/// The shape of a folder with the listing `entries`, or why it has none.
pub open spec fn folder_type_of(entries: Seq<Entry>) -> Result<FolderTypeView, ProcessingErrorView> {
    let names = video_base_names(entries);
    if names.len() == 0 {
        if has_season_candidate(entries) {
            Ok(FolderTypeView::ShowWithSeasons)
        } else {
            Err(ProcessingErrorView::NoVideoFilesAndNoSeasonFoldersFound)
        }
    } else if names.len() == 1 {
        Ok(FolderTypeView::Movie(names[0]))
    } else {
        Ok(FolderTypeView::Show(names))
    }
}

/// The view of a classification's outcome.
pub open spec fn classified(outcome: Result<FolderType, ProcessingError>) -> Result<
    FolderTypeView,
    ProcessingErrorView,
> {
    match outcome {
        Ok(shape) => Ok(shape@),
        Err(error) => Err(error@),
    }
}

/// Every base name of a listing belongs to one of its video files, and is that
/// file's name up to its extension.
pub proof fn lemma_base_names_are_stems(entries: Seq<Entry>)
    ensures
        video_base_names(entries).len() == video_entries(entries).len(),
        video_base_names(entries) == stems_of(video_entries(entries)),
        forall|at: int|
            0 <= at < video_entries(entries).len() ==> {
                &&& (#[trigger] video_entries(entries)[at]).is_video()
                &&& entries.contains(video_entries(entries)[at])
                &&& video_base_names(entries)[at] == stem(video_entries(entries)[at].name@)
            },
{
    let videos = video_entries(entries);
    broadcast use vstd::seq_lib::group_filter_ensures;
    assert forall|at: int| 0 <= at < videos.len() implies {
        &&& (#[trigger] videos[at]).is_video()
        &&& entries.contains(videos[at])
        &&& video_base_names(entries)[at] == stem(videos[at].name@)
    } by {
        assert(video_test()(videos[at]));
        lemma_video_base_name_is_stem(videos[at].name@);
        entries.lemma_filter_contains_rev(video_test(), videos[at]);
    }
    assert(video_base_names(entries) =~= stems_of(videos));
}

/// The base names of the video files in a listing, in listing order.
pub fn video_file_names(entries: &Vec<Entry>) -> (names: Vec<String>)
    ensures
        texts(names@) == video_base_names(entries@),
        names@.len() == video_entries(entries@).len(),
{
    let mut names: Vec<String> = Vec::new();
    let mut at: usize = 0;
    proof {
        lemma_filter_take_ends(entries@, video_test());
        assert(texts(names@) =~= video_base_names(entries@.take(0)));
    }
    while at < entries.len()
        invariant
            at <= entries@.len(),
            texts(names@) == video_base_names(entries@.take(at as int)),
        decreases entries@.len() - at,
    {
        let entry = &entries[at];
        proof {
            lemma_filter_take_next(entries@, video_test(), at as int);
        }
        if entry.is_video_entry() {
            let name = remove_file_extension(entry.name.clone());
            proof {
                lemma_texts_push(names@, name);
                lemma_map_values_push(
                    video_entries(entries@.take(at as int)),
                    *entry,
                    |video: Entry| without_last_four(video.name@),
                );
            }
            names.push(name);
        }
        at = at + 1;
    }
    proof {
        lemma_filter_take_ends(entries@, video_test());
    }
    names
}

/// Whether a listing holds a directory whose name in lower case is not `subs`.
pub fn has_season_folder(entries: &Vec<Entry>) -> (found: bool)
    ensures
        found == has_season_candidate(entries@),
{
    let mut at: usize = 0;
    while at < entries.len()
        invariant
            at <= entries@.len(),
            forall|before: int|
                0 <= before < at ==> !(#[trigger] entries@[before]).is_season_candidate(),
        decreases entries@.len() - at,
    {
        if entries[at].is_season_entry() {
            return true;
        }
        at = at + 1;
    }
    false
}

/// Decides the shape of a title folder from its listing.
///
/// One video file makes a movie, known by that file's name without its
/// extension. Several make a show, known by their base names in listing order.
/// None makes a show with seasons where some directory is not named `subs` in
/// any case, and otherwise no title at all.
pub fn get_folder_type(folder: &Entry) -> (outcome: Result<FolderType, ProcessingError>)
    ensures
        classified(outcome) == folder_type_of(folder.children@),
        video_entries(folder.children@).len() == 1 ==> classified(outcome) == Ok::<
            FolderTypeView,
            ProcessingErrorView,
        >(FolderTypeView::Movie(stem(video_entries(folder.children@)[0].name@))),
        video_entries(folder.children@).len() >= 2 ==> classified(outcome) == Ok::<
            FolderTypeView,
            ProcessingErrorView,
        >(FolderTypeView::Show(stems_of(video_entries(folder.children@)))),
        video_entries(folder.children@).len() == 0 && has_season_candidate(folder.children@)
            ==> outcome == Ok::<FolderType, ProcessingError>(FolderType::ShowWithSeasons),
        video_entries(folder.children@).len() == 0 && !has_season_candidate(folder.children@)
            ==> outcome == Err::<FolderType, ProcessingError>(
            ProcessingError::NoVideoFilesAndNoSeasonFoldersFound,
        ),
{
    let mut names = video_file_names(&folder.children);
    proof {
        lemma_base_names_are_stems(folder.children@);
    }
    if names.len() == 0 {
        if has_season_folder(&folder.children) {
            Ok(FolderType::ShowWithSeasons)
        } else {
            Err(ProcessingError::NoVideoFilesAndNoSeasonFoldersFound)
        }
    } else if names.len() == 1 {
        let ghost listed = names@;
        let name = names.pop().unwrap();
        assert(name@ == texts(listed)[0]);
        Ok(FolderType::Movie(name))
    } else {
        Ok(FolderType::Show(names))
    }
}

} // verus!
