//! Movies: one video, one subtitle file in the folder that holds subtitles.

use vstd::prelude::*;
use crate::entry::Entry;
use crate::error::{ProcessingError, ProcessingErrorView};
use crate::locate::{find_movie_subtitle, find_subs_folder, is_first_match,
    lemma_first_match_found, subs_folder_index, subs_folder_test, subtitle_file_index,
    subtitle_file_test};
use crate::mover::{move_subtitle_file, subtitle_copy, SubtitleCopy, SubtitleCopyView};
use crate::names::subtitle_name;

verus! {

/// The copy to make for the movie `base` in `folder`, or why there is none.
///
/// The subtitle is looked for in the first directory of the folder that holds
/// subtitles, and is the first regular file there with the subtitle file's name.
pub open spec fn movie_copy(folder: Entry, base: Seq<char>) -> Result<
    SubtitleCopyView,
    ProcessingErrorView,
> {
    match subs_folder_index(folder.children@) {
        None => Err(ProcessingErrorView::NoSubFolderFoundForMovie),
        Some(subs) => {
            let held = folder.children@[subs].children@;
            match subtitle_file_index(held) {
                None => Err(ProcessingErrorView::NoSubFileFoundForMovie),
                Some(file) => Ok(subtitle_copy(base, folder.path@, held[file].path@)),
            }
        },
    }
}

/// The view of a planned copy or of the error in its place.
pub open spec fn planned(outcome: Result<SubtitleCopy, ProcessingError>) -> Result<
    SubtitleCopyView,
    ProcessingErrorView,
> {
    match outcome {
        Ok(copy) => Ok(copy@),
        Err(error) => Err(error@),
    }
}

/// A movie's copy takes a regular file named like the subtitle file out of the
/// first directory of the folder that holds subtitles, and puts it into the
/// folder itself under the movie's name. There is no copy where the folder has
/// no such directory, and none where the first of them holds no such file; a
/// directory of that name is no subtitle file.
pub proof fn lemma_movie_copy_source(folder: Entry, base: Seq<char>)
    ensures
        match movie_copy(folder, base) {
            Ok(copy) => {
                &&& copy.to_folder == folder.path@
                &&& copy.file_name == subtitle_name(base)
                &&& exists|subs: int, file: int|
                    {
                        &&& is_first_match(folder.children@, subs_folder_test(), subs)
                        &&& #[trigger] is_first_match(
                            folder.children@[subs].children@,
                            subtitle_file_test(),
                            file,
                        )
                        &&& folder.children@[subs].is_subs_folder()
                        &&& folder.children@[subs].children@[file].is_subtitle_file()
                        &&& copy.from == folder.children@[subs].children@[file].path@
                    }
            },
            Err(error) => {
                ||| {
                    &&& error == ProcessingErrorView::NoSubFolderFoundForMovie
                    &&& forall|at: int|
                        0 <= at < folder.children@.len() ==> !(
                        #[trigger] folder.children@[at]).is_subs_folder()
                }
                ||| {
                    &&& error == ProcessingErrorView::NoSubFileFoundForMovie
                    &&& exists|subs: int|
                        {
                            &&& #[trigger] is_first_match(
                                folder.children@,
                                subs_folder_test(),
                                subs,
                            )
                            &&& forall|file: int|
                                0 <= file < folder.children@[subs].children@.len() ==> !(
                                #[trigger] folder.children@[subs].children@[file]).is_subtitle_file()
                        }
                }
            },
        },
{
    lemma_first_match_found(folder.children@, subs_folder_test());
    match subs_folder_index(folder.children@) {
        None => {},
        Some(subs) => {
            let held = folder.children@[subs].children@;
            lemma_first_match_found(held, subtitle_file_test());
            match subtitle_file_index(held) {
                None => {
                    assert(is_first_match(folder.children@, subs_folder_test(), subs));
                },
                Some(file) => {
                    assert(is_first_match(held, subtitle_file_test(), file));
                    assert(folder.children@[subs].is_subs_folder());
                    assert(held[file].is_subtitle_file());
                },
            }
        },
    }
}

/// Finds the subtitle of a movie and describes the copy that stores it in the
/// movie's folder as `<file_name>.srt`.
///
/// Fails with `NoSubFolderFoundForMovie` where the folder has no directory
/// named `subs` in any case, and with `NoSubFileFoundForMovie` where the first
/// such directory has no regular file named `2_English.srt`.
pub fn process_movie(folder: &Entry, file_name: &String) -> (outcome: Result<
    SubtitleCopy,
    ProcessingError,
>)
    ensures
        planned(outcome) == movie_copy(*folder, file_name@),
{
    match find_subs_folder(&folder.children) {
        None => Err(ProcessingError::NoSubFolderFoundForMovie),
        Some(subs) => {
            let held = &folder.children[subs].children;
            match find_movie_subtitle(held) {
                None => Err(ProcessingError::NoSubFileFoundForMovie),
                Some(file) => Ok(move_subtitle_file(file_name, &folder.path, &held[file].path)),
            }
        },
    }
}

} // verus!
