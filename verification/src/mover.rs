//! The copy that brings a subtitle file next to its video.

use vstd::prelude::*;
use crate::error::{ProcessingError, ProcessingErrorView};
use crate::names::{subtitle_name, subtitle_name_for};

verus! {

/// One copy to make: the file at `from` is copied into the folder `to_folder`
/// under the name `file_name`. The source stays where it is.
#[derive(Debug, Clone, PartialEq, Eq)]
pub struct SubtitleCopy {
    /// Path of the subtitle file to copy.
    pub from: String,
    /// Path of the folder that receives the copy.
    pub to_folder: String,
    /// Name of the copy inside that folder.
    pub file_name: String,
}

/// A [`SubtitleCopy`] with its texts as sequences of characters.
pub struct SubtitleCopyView {
    pub from: Seq<char>,
    pub to_folder: Seq<char>,
    pub file_name: Seq<char>,
}

impl View for SubtitleCopy {
    type V = SubtitleCopyView;

    open spec fn view(&self) -> SubtitleCopyView {
        SubtitleCopyView { from: self.from@, to_folder: self.to_folder@, file_name: self.file_name@ }
    }
}

/// The views of a sequence of copies.
pub open spec fn copy_views(copies: Seq<SubtitleCopy>) -> Seq<SubtitleCopyView> {
    copies.map_values(|copy: SubtitleCopy| copy@)
}

/// The copy that stores the file at `from` in the folder `to` as the subtitle
/// of the video `base`.
pub open spec fn subtitle_copy(base: Seq<char>, to: Seq<char>, from: Seq<char>) -> SubtitleCopyView {
    SubtitleCopyView { from, to_folder: to, file_name: subtitle_name(base) }
}

/// What a finished copy means for the folder: an error with the reason where
/// it failed.
pub open spec fn copy_outcome(copied: Result<u64, String>) -> Result<(), ProcessingErrorView> {
    match copied {
        Ok(_) => Ok(()),
        Err(reason) => Err(ProcessingErrorView::FailedToCopySubFile(reason@)),
    }
}

/// Describes the copy that puts the subtitle file at `from` into the folder
/// `to`, named after the video `file_name` with `.srt` appended.
pub fn move_subtitle_file(file_name: &String, to: &String, from: &String) -> (copy: SubtitleCopy)
    ensures
        copy@ == subtitle_copy(file_name@, to@, from@),
{
    SubtitleCopy { from: from.clone(), to_folder: to.clone(), file_name: subtitle_name_for(file_name) }
}

/// Turns the result of a copy into the result of moving the subtitle: success
/// whatever the number of bytes, and `FailedToCopySubFile` with the reason
/// unchanged where the copy failed.
pub fn copy_result(copied: Result<u64, String>) -> (outcome: Result<(), ProcessingError>)
    ensures
        match outcome {
            Ok(_) => copy_outcome(copied) is Ok,
            Err(error) => copy_outcome(copied) == Err::<(), ProcessingErrorView>(error@),
        },
        outcome is Ok <==> copied is Ok,
{
    match copied {
        Ok(_) => Ok(()),
        Err(reason) => Err(ProcessingError::FailedToCopySubFile(reason)),
    }
}

} // verus!
