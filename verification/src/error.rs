//! What can go wrong while a title folder is processed.

use vstd::prelude::*;

verus! {

/// Why a title folder, or one season of it, could not be processed.
#[derive(Debug, Clone, PartialEq, Eq)]
pub enum ProcessingError {
    /// The folder holds neither a video file nor a folder that may be a season.
    NoVideoFilesAndNoSeasonFoldersFound,
    /// A movie folder has no folder that holds subtitles.
    NoSubFolderFoundForMovie,
    /// A show folder has no folder that holds subtitles.
    NoSubFolderFoundForShow,
    /// The subtitle folder of a movie lacks the subtitle file.
    NoSubFileFoundForMovie,
    /// The subtitle folder of an episode, given by its path, lacks the subtitle file.
    NoSubFileFoundForShow(String),
    /// Copying a subtitle file failed, for the reason given.
    FailedToCopySubFile(String),
    /// A folder under the subtitle folder of a show, given by its name, is named
    /// after none of the show's episodes.
    SubFolderForShowWithUnknownName(String),
}

/// A [`ProcessingError`] with its texts as sequences of characters.
pub enum ProcessingErrorView {
    NoVideoFilesAndNoSeasonFoldersFound,
    NoSubFolderFoundForMovie,
    NoSubFolderFoundForShow,
    NoSubFileFoundForMovie,
    NoSubFileFoundForShow(Seq<char>),
    FailedToCopySubFile(Seq<char>),
    SubFolderForShowWithUnknownName(Seq<char>),
}

impl View for ProcessingError {
    type V = ProcessingErrorView;

    open spec fn view(&self) -> ProcessingErrorView {
        match self {
            ProcessingError::NoVideoFilesAndNoSeasonFoldersFound =>
                ProcessingErrorView::NoVideoFilesAndNoSeasonFoldersFound,
            ProcessingError::NoSubFolderFoundForMovie =>
                ProcessingErrorView::NoSubFolderFoundForMovie,
            ProcessingError::NoSubFolderFoundForShow =>
                ProcessingErrorView::NoSubFolderFoundForShow,
            ProcessingError::NoSubFileFoundForMovie =>
                ProcessingErrorView::NoSubFileFoundForMovie,
            ProcessingError::NoSubFileFoundForShow(path) =>
                ProcessingErrorView::NoSubFileFoundForShow(path@),
            ProcessingError::FailedToCopySubFile(reason) =>
                ProcessingErrorView::FailedToCopySubFile(reason@),
            ProcessingError::SubFolderForShowWithUnknownName(name) =>
                ProcessingErrorView::SubFolderForShowWithUnknownName(name@),
        }
    }
}

} // verus!
