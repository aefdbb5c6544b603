//! Which directories of a title have to be listed before it can be planned.
//!
//! A plan looks into few of the directories under a title folder. Whoever takes
//! the snapshot lists a folder, asks here which of its directories to list
//! next and in what role, and leaves every other directory closed.

use vstd::prelude::*;
use crate::classify::{folder_type_of, has_season_folder, video_file_names, FolderTypeView};
use crate::entry::Entry;
use crate::locate::{find_subs_folder, lemma_first_match_found, subs_folder_index, subs_folder_test};
use crate::seqs::{lemma_filter_take_ends, lemma_filter_take_next, lemma_map_values_push};

verus! {

/// What a listed folder is taken for.
#[derive(Clone, Copy, Debug, PartialEq, Eq, Structural)]
pub enum FolderRole {
    /// A title folder, whose shape is still to be decided.
    Title,
    /// A season of a show: a show of its own.
    Season,
    /// The folder that holds the subtitle of a movie.
    MovieSubtitles,
    /// The folder that holds the subtitles of a show, one folder per episode.
    ShowSubtitles,
    /// The folder that holds the subtitle of one episode.
    Episode,
}

/// A directory to list: its position in the listing of its folder, and the role
/// in which it is listed.
#[derive(Clone, Copy, Debug, PartialEq, Eq)]
pub struct Opening {
    /// Position of the directory in the listing.
    pub at: usize,
    /// What the directory is taken for.
    pub role: FolderRole,
}

/// An [`Opening`] with its position as a mathematical integer.
pub struct OpeningView {
    pub at: int,
    pub role: FolderRole,
}

impl View for Opening {
    type V = OpeningView;

    open spec fn view(&self) -> OpeningView {
        OpeningView { at: self.at as int, role: self.role }
    }
}

/// The views of a sequence of openings.
pub open spec fn opening_views(openings: Seq<Opening>) -> Seq<OpeningView> {
    openings.map_values(|opening: Opening| opening@)
}

/// The test for the position of a directory in a listing.
pub open spec fn folder_at_test(entries: Seq<Entry>) -> spec_fn(int) -> bool {
    |at: int| 0 <= at < entries.len() && entries[at].is_folder()
}

/// The positions of a listing, in order.
pub open spec fn positions(entries: Seq<Entry>) -> Seq<int> {
    Seq::new(entries.len(), |at: int| at)
}

/// Every directory of a listing, in listing order, to be listed in one role.
pub open spec fn folder_openings(entries: Seq<Entry>, role: FolderRole) -> Seq<OpeningView> {
    positions(entries).filter(folder_at_test(entries)).map_values(
        |at: int| OpeningView { at, role },
    )
}

/// The first directory of a listing that holds subtitles, if there is one, to
/// be listed in one role.
pub open spec fn subs_opening(entries: Seq<Entry>, role: FolderRole) -> Seq<OpeningView> {
    match subs_folder_index(entries) {
        Some(at) => seq![OpeningView { at, role }],
        None => Seq::empty(),
    }
}

/// The directories to list inside a folder that was listed in `role` and holds
/// `entries`.
///
/// A movie and a show open the first folder that holds subtitles; a show with
/// seasons opens every directory as a season. A season opens its first folder
/// that holds subtitles. The subtitle folder of a show opens every directory as
/// an episode. Nothing is opened in a folder without a shape, in the subtitle
/// folder of a movie, or in an episode's folder.
pub open spec fn openings(entries: Seq<Entry>, role: FolderRole) -> Seq<OpeningView> {
    match role {
        FolderRole::Title => match folder_type_of(entries) {
            Ok(FolderTypeView::Movie(_)) => subs_opening(entries, FolderRole::MovieSubtitles),
            Ok(FolderTypeView::Show(_)) => subs_opening(entries, FolderRole::ShowSubtitles),
            Ok(FolderTypeView::ShowWithSeasons) => folder_openings(entries, FolderRole::Season),
            Err(_) => Seq::empty(),
        },
        FolderRole::Season => subs_opening(entries, FolderRole::ShowSubtitles),
        FolderRole::ShowSubtitles => folder_openings(entries, FolderRole::Episode),
        FolderRole::MovieSubtitles => Seq::empty(),
        FolderRole::Episode => Seq::empty(),
    }
}

/// Only directories of the listing are opened, each at most once and in
/// listing order.
pub proof fn lemma_openings_are_folders(entries: Seq<Entry>, role: FolderRole)
    ensures
        openings(entries, role).len() <= entries.len(),
        forall|nth: int|
            0 <= nth < openings(entries, role).len() ==> {
                let at = (#[trigger] openings(entries, role)[nth]).at;
                0 <= at < entries.len() && entries[at].is_folder()
            },
{
    broadcast use vstd::seq_lib::group_filter_ensures;

    let kept = positions(entries).filter(folder_at_test(entries));
    assert forall|nth: int| 0 <= nth < kept.len() implies folder_at_test(entries)(
        #[trigger] kept[nth],
    ) by {}
    lemma_first_match_found(entries, subs_folder_test());
}

fn subs_opening_of(entries: &Vec<Entry>, role: FolderRole) -> (found: Vec<Opening>)
    ensures
        opening_views(found@) == subs_opening(entries@, role),
{
    let mut found: Vec<Opening> = Vec::new();
    match find_subs_folder(entries) {
        Some(at) => {
            found.push(Opening { at, role });
            assert(opening_views(found@) =~= subs_opening(entries@, role));
        },
        None => {
            assert(opening_views(found@) =~= subs_opening(entries@, role));
        },
    }
    found
}

fn folder_openings_of(entries: &Vec<Entry>, role: FolderRole) -> (found: Vec<Opening>)
    ensures
        opening_views(found@) == folder_openings(entries@, role),
{
    let mut found: Vec<Opening> = Vec::new();
    let mut at: usize = 0;
    let ghost all = positions(entries@);
    let ghost keep = folder_at_test(entries@);
    proof {
        lemma_filter_take_ends(all, keep);
        assert(opening_views(found@) =~= all.take(0).filter(keep).map_values(
            |at: int| OpeningView { at, role },
        ));
    }
    while at < entries.len()
        invariant
            at <= entries@.len(),
            all == positions(entries@),
            keep == folder_at_test(entries@),
            opening_views(found@) == all.take(at as int).filter(keep).map_values(
                |at: int| OpeningView { at, role },
            ),
        decreases entries@.len() - at,
    {
        proof {
            lemma_filter_take_next(all, keep, at as int);
        }
        if entries[at].is_directory() {
            let opening = Opening { at, role };
            proof {
                lemma_map_values_push(found@, opening, |opening: Opening| opening@);
                lemma_map_values_push(
                    all.take(at as int).filter(keep),
                    at as int,
                    |at: int| OpeningView { at, role },
                );
            }
            found.push(opening);
        }
        at = at + 1;
    }
    proof {
        lemma_filter_take_ends(all, keep);
    }
    found
}

/// The directories to list inside a folder that was listed in `role` and holds
/// `entries`, each with the role in which to list it.
pub fn folders_to_open(entries: &Vec<Entry>, role: FolderRole) -> (found: Vec<Opening>)
    ensures
        opening_views(found@) == openings(entries@, role),
        forall|nth: int|
            0 <= nth < found@.len() ==> (#[trigger] found@[nth]).at < entries@.len()
                && entries@[found@[nth].at as int].is_folder(),
{
    proof {
        lemma_openings_are_folders(entries@, role);
    }
    let found = match role {
        FolderRole::Title => {
            let videos = video_file_names(entries);
            if videos.len() == 1 {
                subs_opening_of(entries, FolderRole::MovieSubtitles)
            } else if videos.len() > 1 {
                subs_opening_of(entries, FolderRole::ShowSubtitles)
            } else if has_season_folder(entries) {
                folder_openings_of(entries, FolderRole::Season)
            } else {
                Vec::new()
            }
        },
        FolderRole::Season => subs_opening_of(entries, FolderRole::ShowSubtitles),
        FolderRole::ShowSubtitles => folder_openings_of(entries, FolderRole::Episode),
        FolderRole::MovieSubtitles => Vec::new(),
        FolderRole::Episode => Vec::new(),
    };
    assert(opening_views(found@) =~= openings(entries@, role));
    assert forall|nth: int| 0 <= nth < found@.len() implies (#[trigger] found@[nth]).at
        < entries@.len() && entries@[found@[nth].at as int].is_folder() by {
        assert(opening_views(found@)[nth] == found@[nth]@);
    }
    found
}

} // verus!
