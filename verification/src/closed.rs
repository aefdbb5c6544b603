//! Directories that stay closed do not matter: the plan of a title is the same
//! on any two snapshots that agree on the folders that are opened.

use vstd::prelude::*;
use crate::classify::{folder_type_of, has_season_candidate, video_base_names,
    video_entries, video_test, FolderTypeView};
use crate::entry::Entry;
use crate::locate::{first_match, is_first_match, lemma_first_match_found, lemma_first_match_is,
    lemma_first_match_none, subs_folder_index, subs_folder_test, subtitle_file_index,
    subtitle_file_test};
use crate::movie::movie_copy;
use crate::opening::{folder_at_test, folder_openings, openings, positions, subs_opening,
    FolderRole, OpeningView};
use crate::seasons::{season_plan, season_plans};
use crate::show::{episode_copy, episode_problem, episodes_plan, first_problem, folder_test,
    folders_of, is_first_problem, lemma_first_problem_exists, lemma_first_problem_is, show_plan};
use crate::title::title_plan;

verus! {

/// Two entries that a listing does not tell apart: they have the same name,
/// path and kind.
pub open spec fn same_head(a: Entry, b: Entry) -> bool {
    a.name@ == b.name@ && a.path@ == b.path@ && a.kind == b.kind
}

/// Two listings with the same entries in the same order, whatever lies inside
/// their directories.
pub open spec fn same_listing(a: Seq<Entry>, b: Seq<Entry>) -> bool {
    &&& a.len() == b.len()
    &&& forall|at: int| 0 <= at < a.len() ==> same_head(#[trigger] a[at], b[at])
}

/// Two listings of a folder in `role` that agree on all that is opened, down to
/// `levels` levels of directories below them: they are the same listing, and
/// each directory that is opened in them holds listings that agree in turn.
pub open spec fn alike(a: Seq<Entry>, b: Seq<Entry>, role: FolderRole, levels: nat) -> bool
    decreases levels,
{
    &&& same_listing(a, b)
    &&& levels > 0 ==> forall|nth: int|
        #![trigger openings(a, role)[nth]]
        0 <= nth < openings(a, role).len() ==> alike(
            a[openings(a, role)[nth].at].children@,
            b[openings(a, role)[nth].at].children@,
            openings(a, role)[nth].role,
            (levels - 1) as nat,
        )
}

/// True where the `nth` entry that a filter keeps of `a` and of `b` stands at
/// the position `at` in both.
pub open spec fn kept_at(
    a: Seq<Entry>,
    b: Seq<Entry>,
    keep: spec_fn(Entry) -> bool,
    nth: int,
    at: int,
) -> bool {
    &&& 0 <= at < a.len()
    &&& keep(a[at])
    &&& a.filter(keep)[nth] == a[at]
    &&& b.filter(keep)[nth] == b[at]
}

/// True where the `nth` entry that a filter keeps of `a` and of `b` stands at
/// one position in both.
pub open spec fn kept_alike(
    a: Seq<Entry>,
    b: Seq<Entry>,
    keep: spec_fn(Entry) -> bool,
    nth: int,
) -> bool {
    exists|at: int| kept_at(a, b, keep, nth, at)
}

/// A filter that cannot tell two listings apart keeps the entries at the same
/// positions of both.
pub proof fn lemma_filter_alike(a: Seq<Entry>, b: Seq<Entry>, keep: spec_fn(Entry) -> bool)
    requires
        a.len() == b.len(),
        forall|at: int| 0 <= at < a.len() ==> keep(#[trigger] a[at]) == keep(b[at]),
    ensures
        a.filter(keep).len() == b.filter(keep).len(),
        forall|nth: int|
            0 <= nth < a.filter(keep).len() ==> #[trigger] kept_alike(a, b, keep, nth),
    decreases a.len(),
{
    reveal(Seq::filter);
    if a.len() > 0 {
        let a_front = a.drop_last();
        let b_front = b.drop_last();
        assert forall|at: int| 0 <= at < a_front.len() implies keep(#[trigger] a_front[at])
            == keep(b_front[at]) by {
            assert(a_front[at] == a[at]);
            assert(b_front[at] == b[at]);
        }
        lemma_filter_alike(a_front, b_front, keep);
        assert(keep(a.last()) == keep(b.last())) by {
            assert(a[a.len() - 1] == a.last());
        }
        assert forall|nth: int| 0 <= nth < a.filter(keep).len() implies #[trigger] kept_alike(
            a,
            b,
            keep,
            nth,
        ) by {
            if nth < a_front.filter(keep).len() {
                assert(kept_alike(a_front, b_front, keep, nth));
                let at = choose|at: int| kept_at(a_front, b_front, keep, nth, at);
                assert(a_front[at] == a[at]);
                assert(b_front[at] == b[at]);
                assert(kept_at(a, b, keep, nth, at));
            } else {
                assert(kept_at(a, b, keep, nth, a.len() - 1));
            }
        }
    }
}

/// A test that cannot tell two listings apart finds its first match at the same
/// position of both.
pub proof fn lemma_first_match_alike(a: Seq<Entry>, b: Seq<Entry>, wanted: spec_fn(Entry) -> bool)
    requires
        a.len() == b.len(),
        forall|at: int| 0 <= at < a.len() ==> wanted(#[trigger] a[at]) == wanted(b[at]),
    ensures
        first_match(a, wanted) == first_match(b, wanted),
{
    lemma_first_match_found(a, wanted);
    match first_match(a, wanted) {
        Some(at) => {
            assert(wanted(a[at]) == wanted(b[at]));
            assert forall|before: int| 0 <= before < at implies !wanted(#[trigger] b[before]) by {
                assert(wanted(a[before]) == wanted(b[before]));
            }
            assert(is_first_match(b, wanted, at));
            lemma_first_match_is(b, wanted, at);
        },
        None => {
            assert forall|at: int| 0 <= at < b.len() implies !wanted(#[trigger] b[at]) by {
                assert(wanted(a[at]) == wanted(b[at]));
            }
            lemma_first_match_none(b, wanted);
        },
    }
}

/// What is read off a listing itself is the same for two listings with the
/// same entries: where the subtitle folder and the subtitle file stand, the
/// base names of the videos, and the shape of the folder.
pub proof fn lemma_same_listing(a: Seq<Entry>, b: Seq<Entry>)
    requires
        same_listing(a, b),
    ensures
        subs_folder_index(a) == subs_folder_index(b),
        subtitle_file_index(a) == subtitle_file_index(b),
        video_base_names(a) == video_base_names(b),
        has_season_candidate(a) == has_season_candidate(b),
        folder_type_of(a) == folder_type_of(b),
{
    assert forall|at: int| 0 <= at < a.len() implies {
        &&& subs_folder_test()(#[trigger] a[at]) == subs_folder_test()(b[at])
        &&& subtitle_file_test()(a[at]) == subtitle_file_test()(b[at])
        &&& video_test()(a[at]) == video_test()(b[at])
        &&& a[at].is_season_candidate() == b[at].is_season_candidate()
    } by {
        assert(same_head(a[at], b[at]));
    }
    lemma_first_match_alike(a, b, subs_folder_test());
    lemma_first_match_alike(a, b, subtitle_file_test());
    lemma_filter_alike(a, b, video_test());
    assert forall|nth: int| 0 <= nth < video_entries(a).len() implies video_base_names(a)[nth]
        == video_base_names(b)[nth] by {
        assert(kept_alike(a, b, video_test(), nth));
        let at = choose|at: int| kept_at(a, b, video_test(), nth, at);
        assert(same_head(a[at], b[at]));
    }
    assert(video_base_names(a) =~= video_base_names(b));
    if has_season_candidate(a) {
        let at = choose|at: int| 0 <= at < a.len() && (#[trigger] a[at]).is_season_candidate();
        assert(b[at].is_season_candidate());
    }
    if has_season_candidate(b) {
        let at = choose|at: int| 0 <= at < b.len() && (#[trigger] b[at]).is_season_candidate();
        assert(a[at].is_season_candidate() == b[at].is_season_candidate());
    }
}

/// Listings that agree are the same listing.
pub proof fn lemma_alike_same_listing(a: Seq<Entry>, b: Seq<Entry>, role: FolderRole, levels: nat)
    requires
        alike(a, b, role, levels),
    ensures
        same_listing(a, b),
{
}

/// Where a folder opens its subtitle folder, listings that agree hold subtitle
/// folders that agree.
pub proof fn lemma_alike_in_subs(
    a: Seq<Entry>,
    b: Seq<Entry>,
    role: FolderRole,
    below: FolderRole,
    levels: nat,
)
    requires
        alike(a, b, role, levels),
        levels > 0,
        openings(a, role) == subs_opening(a, below),
        subs_folder_index(a) is Some,
    ensures
        alike(
            a[subs_folder_index(a)->Some_0].children@,
            b[subs_folder_index(a)->Some_0].children@,
            below,
            (levels - 1) as nat,
        ),
{
    let at = subs_folder_index(a)->Some_0;
    assert(openings(a, role)[0] == OpeningView { at, role: below });
}

/// Where a folder opens each of its directories, listings that agree hold
/// directories that agree.
pub proof fn lemma_alike_in_folder(
    a: Seq<Entry>,
    b: Seq<Entry>,
    role: FolderRole,
    below: FolderRole,
    levels: nat,
    at: int,
)
    requires
        alike(a, b, role, levels),
        levels > 0,
        openings(a, role) == folder_openings(a, below),
        0 <= at < a.len(),
        a[at].is_folder(),
    ensures
        alike(a[at].children@, b[at].children@, below, (levels - 1) as nat),
{
    broadcast use vstd::seq_lib::group_filter_ensures;

    let kept = positions(a).filter(folder_at_test(a));
    assert(positions(a)[at] == at);
    assert(folder_at_test(a)(positions(a)[at]));
    assert(kept.contains(positions(a)[at]));
    let nth = choose|nth: int| 0 <= nth < kept.len() && kept[nth] == at;
    assert(openings(a, role)[nth] == OpeningView { at, role: below });
}

/// A show's plan is the same on two folders with the same path whose listings
/// agree on the subtitle folder and on the episode folders in it.
pub proof fn lemma_show_plan_alike(
    a: Entry,
    b: Entry,
    names: Seq<Seq<char>>,
    role: FolderRole,
    levels: nat,
)
    requires
        a.path@ == b.path@,
        alike(a.children@, b.children@, role, levels),
        levels >= 2,
        openings(a.children@, role) == subs_opening(a.children@, FolderRole::ShowSubtitles),
    ensures
        show_plan(a, names) == show_plan(b, names),
{
    lemma_same_listing(a.children@, b.children@);
    match subs_folder_index(a.children@) {
        None => {},
        Some(subs) => {
            lemma_first_match_found(a.children@, subs_folder_test());
            let held_a = a.children@[subs].children@;
            let held_b = b.children@[subs].children@;
            lemma_alike_in_subs(a.children@, b.children@, role, FolderRole::ShowSubtitles, levels);
            let below = (levels - 1) as nat;
            assert(same_listing(held_a, held_b));
            let eps_a = folders_of(held_a);
            let eps_b = folders_of(held_b);
            assert forall|at: int| 0 <= at < held_a.len() implies folder_test()(
                #[trigger] held_a[at],
            ) == folder_test()(held_b[at]) by {
                assert(same_head(held_a[at], held_b[at]));
            }
            lemma_filter_alike(held_a, held_b, folder_test());
            assert forall|nth: int| 0 <= nth < eps_a.len() implies {
                &&& episode_problem(#[trigger] eps_a[nth], names) == episode_problem(
                    eps_b[nth],
                    names,
                )
                &&& episode_problem(eps_a[nth], names) is None ==> episode_copy(
                    a.path@,
                    eps_a[nth],
                ) == episode_copy(b.path@, eps_b[nth])
            } by {
                assert(kept_alike(held_a, held_b, folder_test(), nth));
                let at = choose|at: int| kept_at(held_a, held_b, folder_test(), nth, at);
                assert(same_head(held_a[at], held_b[at]));
                lemma_alike_in_folder(
                    held_a,
                    held_b,
                    FolderRole::ShowSubtitles,
                    FolderRole::Episode,
                    below,
                    at,
                );
                let files_a = held_a[at].children@;
                let files_b = held_b[at].children@;
                assert(same_listing(files_a, files_b));
                lemma_same_listing(files_a, files_b);
                lemma_first_match_found(files_a, subtitle_file_test());
                if subtitle_file_index(files_a) is Some {
                    let file = subtitle_file_index(files_a)->Some_0;
                    assert(same_head(files_a[file], files_b[file]));
                }
            }
            lemma_first_problem_exists(eps_a, names);
            let stop = first_problem(eps_a, names);
            assert forall|before: int| 0 <= before < stop implies episode_problem(
                #[trigger] eps_b[before],
                names,
            ) is None by {
                assert(episode_problem(eps_a[before], names) is None);
            }
            if stop < eps_a.len() {
                assert(episode_problem(eps_a[stop], names) == episode_problem(eps_b[stop], names));
            }
            assert(is_first_problem(eps_b, names, stop));
            lemma_first_problem_is(eps_b, names, stop);
            assert(episodes_plan(a.path@, eps_a, names).copies =~= episodes_plan(
                b.path@,
                eps_b,
                names,
            ).copies) by {
                assert forall|nth: int| 0 <= nth < stop implies episode_copy(a.path@, eps_a[nth])
                    == episode_copy(b.path@, eps_b[nth]) by {
                    assert(episode_problem(eps_a[nth], names) is None);
                }
            }
        },
    }
}

/// Directories that stay closed do not matter: two title folders with the same
/// path, whose listings agree on every folder that is opened, have the same
/// plan. What lies in any other directory of the title is never looked at.
pub proof fn lemma_title_plan_sees_opened_folders_only(a: Entry, b: Entry)
    requires
        a.path@ == b.path@,
        alike(a.children@, b.children@, FolderRole::Title, 3),
    ensures
        title_plan(a) == title_plan(b),
{
    let in_a = a.children@;
    let in_b = b.children@;
    lemma_same_listing(in_a, in_b);
    match folder_type_of(in_a) {
        Err(_) => {},
        Ok(FolderTypeView::Movie(name)) => {
            match subs_folder_index(in_a) {
                None => {},
                Some(subs) => {
                    lemma_first_match_found(in_a, subs_folder_test());
                    lemma_alike_in_subs(in_a, in_b, FolderRole::Title, FolderRole::MovieSubtitles, 3);
                    let held_a = in_a[subs].children@;
                    let held_b = in_b[subs].children@;
                    assert(same_listing(held_a, held_b));
                    lemma_same_listing(held_a, held_b);
                    lemma_first_match_found(held_a, subtitle_file_test());
                    if subtitle_file_index(held_a) is Some {
                        let file = subtitle_file_index(held_a)->Some_0;
                        assert(same_head(held_a[file], held_b[file]));
                    }
                    assert(movie_copy(a, name) == movie_copy(b, name));
                },
            }
        },
        Ok(FolderTypeView::Show(names)) => {
            lemma_show_plan_alike(a, b, names, FolderRole::Title, 3);
        },
        Ok(FolderTypeView::ShowWithSeasons) => {
            assert forall|at: int| 0 <= at < in_a.len() implies folder_test()(#[trigger] in_a[at])
                == folder_test()(in_b[at]) by {
                assert(same_head(in_a[at], in_b[at]));
            }
            lemma_filter_alike(in_a, in_b, folder_test());
            let seasons_a = folders_of(in_a);
            let seasons_b = folders_of(in_b);
            assert forall|nth: int| 0 <= nth < seasons_a.len() implies season_plan(
                #[trigger] seasons_a[nth],
            ) == season_plan(seasons_b[nth]) by {
                assert(kept_alike(in_a, in_b, folder_test(), nth));
                let at = choose|at: int| kept_at(in_a, in_b, folder_test(), nth, at);
                assert(same_head(in_a[at], in_b[at]));
                lemma_alike_in_folder(in_a, in_b, FolderRole::Title, FolderRole::Season, 3, at);
                lemma_alike_same_listing(
                    in_a[at].children@,
                    in_b[at].children@,
                    FolderRole::Season,
                    2,
                );
                lemma_same_listing(in_a[at].children@, in_b[at].children@);
                lemma_show_plan_alike(
                    in_a[at],
                    in_b[at],
                    video_base_names(in_a[at].children@),
                    FolderRole::Season,
                    2,
                );
            }
            assert(season_plans(a) =~= season_plans(b));
        },
    }
}

} // verus!
