//! Carrying out the plan of a show, one copy at a time.

use vstd::prelude::*;
use crate::error::{ProcessingError, ProcessingErrorView};
use crate::show::{ShowPlan, ShowPlanView};

verus! {

/// What comes next while the copies of a plan are made.
#[derive(Debug, PartialEq, Eq)]
pub enum ShowStep {
    /// Try the copy at this position of the plan.
    Copy(usize),
    /// Try nothing more: this is what the show comes to.
    Done(Result<(), ProcessingError>),
}

/// A [`ShowStep`] with its texts as sequences of characters.
pub enum ShowStepView {
    Copy(int),
    Done(Result<(), ProcessingErrorView>),
}

impl View for ShowStep {
    type V = ShowStepView;

    open spec fn view(&self) -> ShowStepView {
        match self {
            ShowStep::Copy(at) => ShowStepView::Copy(*at as int),
            ShowStep::Done(Ok(_)) => ShowStepView::Done(Ok(())),
            ShowStep::Done(Err(error)) => ShowStepView::Done(Err(error@)),
        }
    }
}

/// The view of a failed copy's reason, if there is one.
pub open spec fn reason_view(failure: Option<String>) -> Option<Seq<char>> {
    match failure {
        Some(reason) => Some(reason@),
        None => None,
    }
}

/// What a show comes to where every copy of its plan went well: the failure
/// that the plan holds, or success.
pub open spec fn plan_outcome(plan: ShowPlanView) -> Result<(), ProcessingErrorView> {
    match plan.failure {
        Some(error) => Err(error),
        None => Ok(()),
    }
}

/// The step that follows once `tried` copies of the plan were tried, the last
/// of them ending as `last_failure` says.
///
/// A failed copy ends the work at once, whatever is left of the plan. Else the
/// next copy of the plan is due, and after the last one the plan's own outcome.
pub open spec fn show_step(plan: ShowPlanView, tried: int, last_failure: Option<Seq<char>>) -> ShowStepView {
    match last_failure {
        Some(reason) => ShowStepView::Done(Err(ProcessingErrorView::FailedToCopySubFile(reason))),
        None => if tried < plan.copies.len() {
            ShowStepView::Copy(tried)
        } else {
            ShowStepView::Done(plan_outcome(plan))
        },
    }
}

/// Following the steps from the point where `tried` copies were tried: how many
/// copies are tried in the end, and what the show comes to. `ends` says for
/// each copy of the plan how it ends when tried: with the reason of its
/// failure, or well.
pub open spec fn run_from(
    plan: ShowPlanView,
    ends: Seq<Option<Seq<char>>>,
    tried: int,
    last_failure: Option<Seq<char>>,
) -> (int, Result<(), ProcessingErrorView>)
    recommends
        ends.len() == plan.copies.len(),
    decreases plan.copies.len() - tried,
{
    match show_step(plan, tried, last_failure) {
        ShowStepView::Copy(at) => if 0 <= at < ends.len() {
            run_from(plan, ends, at + 1, ends[at])
        } else {
            (tried, plan_outcome(plan))
        },
        ShowStepView::Done(outcome) => (tried, outcome),
    }
}

/// Following the steps of a plan from its start.
pub open spec fn run(plan: ShowPlanView, ends: Seq<Option<Seq<char>>>) -> (
    int,
    Result<(), ProcessingErrorView>,
) {
    run_from(plan, ends, 0, None)
}

/// True where `stop` is the position of the first copy that fails, or the
/// number of copies where none does.
pub open spec fn is_first_failure(ends: Seq<Option<Seq<char>>>, stop: int) -> bool {
    &&& 0 <= stop <= ends.len()
    &&& forall|before: int| 0 <= before < stop ==> (#[trigger] ends[before]) is None
    &&& stop < ends.len() ==> ends[stop] is Some
}

proof fn lemma_run_from(
    plan: ShowPlanView,
    ends: Seq<Option<Seq<char>>>,
    stop: int,
    tried: int,
)
    requires
        ends.len() == plan.copies.len(),
        is_first_failure(ends, stop),
        0 <= tried <= stop,
    ensures
        run_from(plan, ends, tried, None) == if stop < ends.len() {
            (stop + 1, Err::<(), ProcessingErrorView>(
                ProcessingErrorView::FailedToCopySubFile(ends[stop]->Some_0),
            ))
        } else {
            (stop, plan_outcome(plan))
        },
    decreases stop - tried,
{
    if tried < stop {
        assert(ends[tried] is None);
        lemma_run_from(plan, ends, stop, tried + 1);
    } else if stop < ends.len() {
        assert(show_step(plan, stop, None) == ShowStepView::Copy(stop));
        assert(run_from(plan, ends, stop, None) == run_from(plan, ends, stop + 1, ends[stop]));
    }
}

/// Copying is fail-fast: following the steps of a plan tries its copies in
/// order, up to and with the first that fails, and none after it. The show then
/// comes to `FailedToCopySubFile` with that copy's reason, whatever failure the
/// plan holds. Where no copy fails every copy is tried, and the show comes to
/// the plan's own outcome.
pub proof fn lemma_run_stops_at_first_failure(
    plan: ShowPlanView,
    ends: Seq<Option<Seq<char>>>,
    stop: int,
)
    requires
        ends.len() == plan.copies.len(),
        is_first_failure(ends, stop),
    ensures
        stop < ends.len() ==> run(plan, ends) == (
            stop + 1,
            Err::<(), ProcessingErrorView>(
                ProcessingErrorView::FailedToCopySubFile(ends[stop]->Some_0),
            ),
        ),
        stop == ends.len() ==> run(plan, ends) == (stop, plan_outcome(plan)),
{
    lemma_run_from(plan, ends, stop, 0);
}

impl ProcessingError {
    /// The same error once more.
    pub fn duplicate(&self) -> (same: ProcessingError)
        ensures
            same@ == self@,
    {
        match self {
            ProcessingError::NoVideoFilesAndNoSeasonFoldersFound =>
                ProcessingError::NoVideoFilesAndNoSeasonFoldersFound,
            ProcessingError::NoSubFolderFoundForMovie => ProcessingError::NoSubFolderFoundForMovie,
            ProcessingError::NoSubFolderFoundForShow => ProcessingError::NoSubFolderFoundForShow,
            ProcessingError::NoSubFileFoundForMovie => ProcessingError::NoSubFileFoundForMovie,
            ProcessingError::NoSubFileFoundForShow(path) => ProcessingError::NoSubFileFoundForShow(
                path.clone(),
            ),
            ProcessingError::FailedToCopySubFile(reason) => ProcessingError::FailedToCopySubFile(
                reason.clone(),
            ),
            ProcessingError::SubFolderForShowWithUnknownName(name) =>
                ProcessingError::SubFolderForShowWithUnknownName(name.clone()),
        }
    }
}

impl ShowPlan {
    /// What to do next while the copies of the plan are made in order.
    ///
    /// `tried` is the number of copies tried so far, and `last_failure` the
    /// reason for which the last of them failed, if it did. After a failed copy
    /// nothing more is tried: the show comes to `FailedToCopySubFile` with that
    /// reason. Else the copy at position `tried` is next. Once all are made the
    /// show comes to the failure that the plan holds, or to success.
    pub fn next_step(&self, tried: usize, last_failure: Option<String>) -> (step: ShowStep)
        ensures
            step@ == show_step(self@, tried as int, reason_view(last_failure)),
            last_failure matches Some(reason) ==> step@ == ShowStepView::Done(
                Err(ProcessingErrorView::FailedToCopySubFile(reason@)),
            ),
            last_failure is None && tried < self.copies@.len() ==> step == ShowStep::Copy(tried),
            last_failure is None && tried >= self.copies@.len() ==> step@ == ShowStepView::Done(
                plan_outcome(self@),
            ),
            step matches ShowStep::Copy(at) ==> at < self.copies@.len(),
    {
        match last_failure {
            Some(reason) => ShowStep::Done(Err(ProcessingError::FailedToCopySubFile(reason))),
            None => if tried < self.copies.len() {
                ShowStep::Copy(tried)
            } else {
                match &self.failure {
                    Some(error) => ShowStep::Done(Err(error.duplicate())),
                    None => ShowStep::Done(Ok(())),
                }
            },
        }
    }
}

} // verus!
