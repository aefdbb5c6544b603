//! Shows with seasons: every directory of the title folder is a show of its own.

use vstd::prelude::*;
use crate::classify::{video_base_names, video_file_names};
use crate::entry::Entry;
use crate::error::{ProcessingError, ProcessingErrorView};
use crate::seqs::{lemma_filter_take_ends, lemma_filter_take_next, lemma_map_values_push};
use crate::show::{folder_test, folders_of, process_show, show_plan, ShowPlan, ShowPlanView};

verus! {

/// The views of a sequence of plans.
pub open spec fn plan_views(plans: Seq<ShowPlan>) -> Seq<ShowPlanView> {
    plans.map_values(|plan: ShowPlan| plan@)
}

/// The views of a sequence of errors.
pub open spec fn error_views(errors: Seq<ProcessingError>) -> Seq<ProcessingErrorView> {
    errors.map_values(|error: ProcessingError| error@)
}

/// The plan for one season folder: that of a show whose episodes are the video
/// files directly inside it.
pub open spec fn season_plan(season: Entry) -> ShowPlanView {
    show_plan(season, video_base_names(season.children@))
}

/// The plans for the seasons of a title: one for each directory of the title
/// folder, in listing order, whatever the directory's name.
pub open spec fn season_plans(folder: Entry) -> Seq<ShowPlanView> {
    folders_of(folder.children@).map_values(|season: Entry| season_plan(season))
}

/// The test for a season that failed.
pub open spec fn failed_test() -> spec_fn(Result<(), ProcessingError>) -> bool {
    |outcome: Result<(), ProcessingError>| outcome is Err
}

/// The errors among the outcomes of the seasons, in the seasons' order.
pub open spec fn errors_among(outcomes: Seq<Result<(), ProcessingError>>) -> Seq<
    ProcessingErrorView,
> {
    outcomes.filter(failed_test()).map_values(
        |outcome: Result<(), ProcessingError>| outcome->Err_0@,
    )
}

/// Plans every season of a title like a show of its own.
///
/// Each directory of `folder`, in listing order and whatever its name, is taken
/// for a season: its episodes are the video files directly inside it, by their
/// base names. A season's plan does not depend on any other season's.
pub fn process_show_with_seasons(folder: &Entry) -> (plans: Vec<ShowPlan>)
    ensures
        plan_views(plans@) == season_plans(*folder),
        plans@.len() == folders_of(folder.children@).len(),
{
    let mut plans: Vec<ShowPlan> = Vec::new();
    let mut at: usize = 0;
    proof {
        lemma_filter_take_ends(folder.children@, folder_test());
        assert(plan_views(plans@) =~= folders_of(folder.children@.take(0)).map_values(
            |season: Entry| season_plan(season),
        ));
    }
    while at < folder.children.len()
        invariant
            at <= folder.children@.len(),
            plan_views(plans@) == folders_of(folder.children@.take(at as int)).map_values(
                |season: Entry| season_plan(season),
            ),
        decreases folder.children@.len() - at,
    {
        let season = &folder.children[at];
        proof {
            lemma_filter_take_next(folder.children@, folder_test(), at as int);
        }
        if season.is_directory() {
            let names = video_file_names(&season.children);
            let plan = process_show(season, &names);
            proof {
                lemma_map_values_push(plans@, plan, |plan: ShowPlan| plan@);
                lemma_map_values_push(
                    folders_of(folder.children@.take(at as int)),
                    *season,
                    |season: Entry| season_plan(season),
                );
            }
            plans.push(plan);
        }
        at = at + 1;
    }
    proof {
        lemma_filter_take_ends(folder.children@, folder_test());
    }
    plans
}

/// Gathers the errors of the seasons of a title: success where every season
/// went well, else the errors of those that did not, one for each, in the
/// seasons' order.
pub fn collect_errors(outcomes: Vec<Result<(), ProcessingError>>) -> (gathered: Result<
    (),
    Vec<ProcessingError>,
>)
    ensures
        match gathered {
            Ok(_) => errors_among(outcomes@).len() == 0,
            Err(errors) => error_views(errors@) == errors_among(outcomes@) && errors@.len() > 0,
        },
        gathered is Ok <==> forall|at: int|
            0 <= at < outcomes@.len() ==> (#[trigger] outcomes@[at]) is Ok,
{
    let mut errors: Vec<ProcessingError> = Vec::new();
    let mut outcomes = outcomes;
    let ghost all = outcomes@;
    let mut at: usize = 0;
    proof {
        lemma_filter_take_ends(all, failed_test());
        assert(error_views(errors@) =~= errors_among(all.take(0)));
    }
    while at < outcomes.len()
        invariant
            at <= all.len(),
            outcomes@.len() == all.len(),
            forall|later: int| at <= later < all.len() ==> outcomes@[later] == all[later],
            error_views(errors@) == errors_among(all.take(at as int)),
            errors@.len() == 0 <==> forall|before: int|
                0 <= before < at ==> (#[trigger] all[before]) is Ok,
        decreases all.len() - at,
    {
        let mut outcome: Result<(), ProcessingError> = Ok(());
        outcomes.set_and_swap(at, &mut outcome);
        proof {
            lemma_filter_take_next(all, failed_test(), at as int);
        }
        match outcome {
            Ok(_) => {},
            Err(error) => {
                proof {
                    lemma_map_values_push(errors@, error, |error: ProcessingError| error@);
                    lemma_map_values_push(
                        all.take(at as int).filter(failed_test()),
                        all[at as int],
                        |outcome: Result<(), ProcessingError>| outcome->Err_0@,
                    );
                }
                errors.push(error);
            },
        }
        at = at + 1;
    }
    proof {
        lemma_filter_take_ends(all, failed_test());
    }
    if errors.len() == 0 {
        Ok(())
    } else {
        Err(errors)
    }
}

} // verus!
