//! Shows: several episodes, each with a folder of its own under the folder that
//! holds subtitles.

use vstd::prelude::*;
use crate::entry::Entry;
use crate::error::{ProcessingError, ProcessingErrorView};
use crate::locate::{subtitle_file_index, find_episode_subtitle, find_subs_folder,
    subs_folder_index};
use crate::mover::{copy_views, move_subtitle_file, subtitle_copy,
    SubtitleCopy, SubtitleCopyView};
use crate::names::subtitle_name;
use crate::seqs::{lemma_filter_prefix, lemma_filter_take_ends, lemma_filter_take_next,
    lemma_texts_contains, texts};

verus! {

/// What processing a show comes to: the copies to make, in order, and the error
/// that ended the work, if one did. The copies stand before the error: they
/// belong to the episodes that were matched before it was met.
#[derive(Debug, Clone, PartialEq, Eq)]
pub struct ShowPlan {
    /// The copies to make, one per matched episode, in listing order.
    pub copies: Vec<SubtitleCopy>,
    /// The error that stopped the matching, if any.
    pub failure: Option<ProcessingError>,
}

/// A [`ShowPlan`] with its texts as sequences of characters.
pub struct ShowPlanView {
    pub copies: Seq<SubtitleCopyView>,
    pub failure: Option<ProcessingErrorView>,
}

impl View for ShowPlan {
    type V = ShowPlanView;

    open spec fn view(&self) -> ShowPlanView {
        ShowPlanView {
            copies: copy_views(self.copies@),
            failure: match self.failure {
                Some(error) => Some(error@),
                None => None,
            },
        }
    }
}

/// The test for a directory.
pub open spec fn folder_test() -> spec_fn(Entry) -> bool {
    |entry: Entry| entry.is_folder()
}

/// The directories of a listing, in listing order. Under the folder that holds
/// the subtitles of a show, each of them stands for one episode.
pub open spec fn folders_of(entries: Seq<Entry>) -> Seq<Entry> {
    entries.filter(folder_test())
}

/// What is wrong with an episode's subtitle folder, if anything: it is named
/// after no episode, or it holds no subtitle file.
pub open spec fn episode_problem(episode: Entry, names: Seq<Seq<char>>) -> Option<
    ProcessingErrorView,
> {
    if !names.contains(episode.name@) {
        Some(ProcessingErrorView::SubFolderForShowWithUnknownName(episode.name@))
    } else if subtitle_file_index(episode.children@) is None {
        Some(ProcessingErrorView::NoSubFileFoundForShow(episode.path@))
    } else {
        None
    }
}

/// The copy for an episode whose subtitle folder has no problem: its first
/// subtitle file goes to the folder `to`, under the episode's name.
pub open spec fn episode_copy(to: Seq<char>, episode: Entry) -> SubtitleCopyView {
    let file = subtitle_file_index(episode.children@)->Some_0;
    subtitle_copy(episode.name@, to, episode.children@[file].path@)
}

/// True where `stop` is the position of the first episode folder with a
/// problem, or the number of folders where none has one.
pub open spec fn is_first_problem(episodes: Seq<Entry>, names: Seq<Seq<char>>, stop: int) -> bool {
    &&& 0 <= stop <= episodes.len()
    &&& forall|before: int|
        0 <= before < stop ==> episode_problem(#[trigger] episodes[before], names) is None
    &&& stop < episodes.len() ==> episode_problem(episodes[stop], names) is Some
}

/// The position of the first episode folder with a problem, or the number of
/// folders where none has one.
pub open spec fn first_problem(episodes: Seq<Entry>, names: Seq<Seq<char>>) -> int {
    choose|stop: int| is_first_problem(episodes, names, stop)
}

/// The plan for the episode folders of a show: a copy for each folder before
/// the first one with a problem, and that problem.
pub open spec fn episodes_plan(to: Seq<char>, episodes: Seq<Entry>, names: Seq<Seq<char>>) -> ShowPlanView {
    let stop = first_problem(episodes, names);
    ShowPlanView {
        copies: Seq::new(stop as nat, |at: int| episode_copy(to, episodes[at])),
        failure: if stop < episodes.len() {
            episode_problem(episodes[stop], names)
        } else {
            None
        },
    }
}

/// The plan for the show in `folder` whose episodes have the base names `names`.
pub open spec fn show_plan(folder: Entry, names: Seq<Seq<char>>) -> ShowPlanView {
    match subs_folder_index(folder.children@) {
        None => ShowPlanView {
            copies: Seq::empty(),
            failure: Some(ProcessingErrorView::NoSubFolderFoundForShow),
        },
        Some(subs) => episodes_plan(
            folder.path@,
            folders_of(folder.children@[subs].children@),
            names,
        ),
    }
}

/// A position that is a first problem is the first problem.
pub proof fn lemma_first_problem_is(episodes: Seq<Entry>, names: Seq<Seq<char>>, stop: int)
    requires
        is_first_problem(episodes, names, stop),
    ensures
        first_problem(episodes, names) == stop,
{
    let chosen = first_problem(episodes, names);
    if chosen < stop {
        assert(episode_problem(episodes[chosen], names) is None);
    } else if stop < chosen {
        assert(episode_problem(episodes[stop], names) is None);
    }
}

/// Every list of episode folders has a first problem or none at all.
pub proof fn lemma_first_problem_exists(episodes: Seq<Entry>, names: Seq<Seq<char>>)
    ensures
        is_first_problem(episodes, names, first_problem(episodes, names)),
{
    lemma_first_problem_from(episodes, names, 0);
}

proof fn lemma_first_problem_from(episodes: Seq<Entry>, names: Seq<Seq<char>>, clean: int)
    requires
        0 <= clean <= episodes.len(),
        forall|before: int|
            0 <= before < clean ==> episode_problem(#[trigger] episodes[before], names) is None,
    ensures
        exists|stop: int| is_first_problem(episodes, names, stop),
    decreases episodes.len() - clean,
{
    if clean < episodes.len() && episode_problem(episodes[clean], names) is None {
        lemma_first_problem_from(episodes, names, clean + 1);
    } else {
        assert(is_first_problem(episodes, names, clean));
    }
}

/// Matching is fail-fast: a show's plan holds one copy for each episode folder
/// that stands before the first one with a problem, each under the name of a
/// known episode, and none for that folder or any after it. The plan is free of
/// failure exactly where the show has a folder that holds subtitles and none of
/// the episode folders in it has a problem.
pub proof fn lemma_show_plan_is_fail_fast(folder: Entry, names: Seq<Seq<char>>)
    ensures
        match subs_folder_index(folder.children@) {
            None => show_plan(folder, names).copies.len() == 0 && show_plan(folder, names).failure
                == Some(ProcessingErrorView::NoSubFolderFoundForShow),
            Some(subs) => {
                let episodes = folders_of(folder.children@[subs].children@);
                let plan = show_plan(folder, names);
                &&& plan.copies.len() <= episodes.len()
                &&& is_first_problem(episodes, names, plan.copies.len() as int)
                &&& forall|at: int|
                    0 <= at < plan.copies.len() ==> {
                        &&& names.contains(episodes[at].name@)
                        &&& (#[trigger] plan.copies[at]).file_name == subtitle_name(
                            episodes[at].name@,
                        )
                        &&& plan.copies[at].to_folder == folder.path@
                    }
                &&& plan.failure is None <==> plan.copies.len() == episodes.len()
                &&& plan.failure is None <==> forall|at: int|
                    0 <= at < episodes.len() ==> episode_problem(
                        #[trigger] episodes[at],
                        names,
                    ) is None
            },
        },
{
    match subs_folder_index(folder.children@) {
        None => {},
        Some(subs) => {
            let episodes = folders_of(folder.children@[subs].children@);
            lemma_first_problem_exists(episodes, names);
            let plan = show_plan(folder, names);
            let stop = first_problem(episodes, names);
            assert(plan.copies.len() == stop);
            assert forall|at: int| 0 <= at < plan.copies.len() implies {
                &&& names.contains(episodes[at].name@)
                &&& (#[trigger] plan.copies[at]).file_name == subtitle_name(episodes[at].name@)
                &&& plan.copies[at].to_folder == folder.path@
            } by {
                assert(episode_problem(episodes[at], names) is None);
            }
        },
    }
}

/// Whether `name` is one of `names`, letter for letter.
pub fn is_known_name(names: &Vec<String>, name: &String) -> (known: bool)
    ensures
        known == texts(names@).contains(name@),
{
    let mut at: usize = 0;
    while at < names.len()
        invariant
            at <= names@.len(),
            forall|before: int| 0 <= before < at ==> (#[trigger] names@[before])@ != name@,
        decreases names@.len() - at,
    {
        if names[at] == *name {
            proof {
                lemma_texts_contains(names@, name@);
            }
            return true;
        }
        at = at + 1;
    }
    proof {
        lemma_texts_contains(names@, name@);
    }
    false
}

/// Matches the episodes of a show with their subtitle files.
///
/// The subtitles are looked for in the first directory of `folder` named `subs`
/// in any case; without one the plan fails with `NoSubFolderFoundForShow`. Each
/// directory in it, in listing order, stands for one episode: it has to be
/// named after one of `file_names`, else the plan fails with
/// `SubFolderForShowWithUnknownName` and the name, and it has to hold a regular
/// file named `2_English.srt`, else the plan fails with `NoSubFileFoundForShow`
/// and the directory's path. The first failure ends the matching; the plan holds
/// the copies for the directories before it.
pub fn process_show(folder: &Entry, file_names: &Vec<String>) -> (plan: ShowPlan)
    ensures
        plan@ == show_plan(*folder, texts(file_names@)),
{
    let subs_at = match find_subs_folder(&folder.children) {
        None => {
            let plan = ShowPlan {
                copies: Vec::new(),
                failure: Some(ProcessingError::NoSubFolderFoundForShow),
            };
            assert(plan@.copies =~= Seq::empty());
            return plan;
        },
        Some(subs_at) => subs_at,
    };
    let subs = &folder.children[subs_at];
    let ghost names = texts(file_names@);
    let ghost to = folder.path@;
    let ghost episodes = folders_of(subs.children@);
    let mut copies: Vec<SubtitleCopy> = Vec::new();
    let mut at: usize = 0;
    proof {
        lemma_filter_take_ends(subs.children@, folder_test());
    }
    while at < subs.children.len()
        invariant
            at <= subs.children@.len(),
            subs_folder_index(folder.children@) == Some(subs_at as int),
            *subs == folder.children@[subs_at as int],
            names == texts(file_names@),
            to == folder.path@,
            episodes == folders_of(subs.children@),
            copies@.len() == folders_of(subs.children@.take(at as int)).len(),
            forall|seen: int|
                0 <= seen < copies@.len() ==> {
                    let episode = #[trigger] folders_of(subs.children@.take(at as int))[seen];
                    &&& episode_problem(episode, names) is None
                    &&& copies@[seen]@ == episode_copy(to, episode)
                },
        decreases subs.children@.len() - at,
    {
        let episode = &subs.children[at];
        let ghost seen_before = folders_of(subs.children@.take(at as int));
        proof {
            lemma_filter_take_next(subs.children@, folder_test(), at as int);
            lemma_filter_prefix(subs.children@, folder_test(), at as int + 1);
        }
        if episode.is_directory() {
            let known = is_known_name(file_names, &episode.name);
            let found = if known {
                find_episode_subtitle(&episode.children)
            } else {
                None
            };
            match found {
                Some(file) => {
                    let copy = move_subtitle_file(
                        &episode.name,
                        &folder.path,
                        &episode.children[file].path,
                    );
                    copies.push(copy);
                },
                None => {
                    let failure = if known {
                        ProcessingError::NoSubFileFoundForShow(episode.path.clone())
                    } else {
                        ProcessingError::SubFolderForShowWithUnknownName(episode.name.clone())
                    };
                    let plan = ShowPlan { copies, failure: Some(failure) };
                    proof {
                        let stop = seen_before.len() as int;
                        assert(episodes[stop] == *episode);
                        assert forall|before: int| 0 <= before < stop implies episode_problem(
                            #[trigger] episodes[before],
                            names,
                        ) is None by {
                            assert(episodes[before] == seen_before[before]);
                        }
                        lemma_first_problem_is(episodes, names, stop);
                        assert forall|k: int| 0 <= k < stop implies plan@.copies[k]
                            == episode_copy(to, episodes[k]) by {
                            assert(episodes[k] == seen_before[k]);
                        }
                        assert(plan@.copies =~= episodes_plan(to, episodes, names).copies);
                    }
                    return plan;
                },
            }
        }
        at = at + 1;
    }
    let plan = ShowPlan { copies, failure: None };
    proof {
        lemma_filter_take_ends(subs.children@, folder_test());
        lemma_first_problem_is(episodes, names, episodes.len() as int);
        assert(plan@.copies =~= episodes_plan(to, episodes, names).copies);
    }
    plan
}

} // verus!
