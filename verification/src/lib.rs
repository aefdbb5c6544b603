//! Decision rules for pairing the videos of a media library with their English
//! subtitle files.
//!
//! The library works on snapshots of directories ([`Entry`]) and answers with
//! plain values: how a title folder is shaped, which subtitle file belongs to
//! which video, and which copies have to be made. Reading directories and
//! copying files is left to the caller.

pub mod classify;
pub mod closed;
pub mod entry;
pub mod error;
pub mod locate;
pub mod mover;
pub mod movie;
pub mod names;
pub mod opening;
pub mod seasons;
pub mod seqs;
pub mod show;
pub mod steps;
pub mod title;

pub use classify::{get_folder_type, has_season_folder, video_file_names, FolderType};
pub use entry::{Entry, EntryKind};
pub use error::ProcessingError;
pub use locate::{find_episode_subtitle, find_movie_subtitle, find_subs_folder};
pub use mover::{copy_result, move_subtitle_file, SubtitleCopy};
pub use movie::process_movie;
pub use names::{
    file_extension, is_subs_folder_name, is_subtitle_file_name, is_video_file,
    remove_file_extension, subtitle_name_for,
};
pub use opening::{folders_to_open, FolderRole, Opening};
pub use seasons::{collect_errors, process_show_with_seasons};
pub use show::{is_known_name, process_show, ShowPlan};
pub use steps::ShowStep;
pub use title::{plan_title, TitlePlan};
