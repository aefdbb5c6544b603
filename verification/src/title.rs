//! One title folder from listing to plan: classify it, then plan by its shape.

use vstd::prelude::*;
use crate::classify::{folder_type_of, get_folder_type, FolderType, FolderTypeView};
use crate::entry::Entry;
use crate::error::{ProcessingError, ProcessingErrorView};
use crate::mover::{SubtitleCopy, SubtitleCopyView};
use crate::movie::{movie_copy, process_movie};
use crate::seasons::{plan_views, process_show_with_seasons, season_plans};
use crate::show::{process_show, show_plan, ShowPlan, ShowPlanView};

verus! {

/// What is to be done for one title folder.
#[derive(Debug, Clone, PartialEq, Eq)]
pub enum TitlePlan {
    /// Nothing: the folder has no shape, or it is a movie without its subtitle.
    Failed(ProcessingError),
    /// The folder is a movie, and this copy brings it its subtitle.
    Movie(SubtitleCopy),
    /// The folder is a show, with this plan.
    Show(ShowPlan),
    /// The folder is a show with seasons, with one plan for each of them.
    Seasons(Vec<ShowPlan>),
}

/// A [`TitlePlan`] with its texts as sequences of characters.
pub enum TitlePlanView {
    Failed(ProcessingErrorView),
    Movie(SubtitleCopyView),
    Show(ShowPlanView),
    Seasons(Seq<ShowPlanView>),
}

impl View for TitlePlan {
    type V = TitlePlanView;

    open spec fn view(&self) -> TitlePlanView {
        match self {
            TitlePlan::Failed(error) => TitlePlanView::Failed(error@),
            TitlePlan::Movie(copy) => TitlePlanView::Movie(copy@),
            TitlePlan::Show(plan) => TitlePlanView::Show(plan@),
            TitlePlan::Seasons(plans) => TitlePlanView::Seasons(plan_views(plans@)),
        }
    }
}

/// The plan for a title folder: by its shape that of a movie, of a show with
/// the base names of its videos, or of its seasons; the error where it has no
/// shape.
pub open spec fn title_plan(folder: Entry) -> TitlePlanView {
    match folder_type_of(folder.children@) {
        Err(error) => TitlePlanView::Failed(error),
        Ok(FolderTypeView::Movie(name)) => match movie_copy(folder, name) {
            Ok(copy) => TitlePlanView::Movie(copy),
            Err(error) => TitlePlanView::Failed(error),
        },
        Ok(FolderTypeView::Show(names)) => TitlePlanView::Show(show_plan(folder, names)),
        Ok(FolderTypeView::ShowWithSeasons) => TitlePlanView::Seasons(season_plans(folder)),
    }
}

/// Classifies a title folder and plans it by its shape.
pub fn plan_title(folder: &Entry) -> (plan: TitlePlan)
    ensures
        plan@ == title_plan(*folder),
{
    match get_folder_type(folder) {
        Err(error) => TitlePlan::Failed(error),
        Ok(FolderType::Movie(name)) => match process_movie(folder, &name) {
            Ok(copy) => TitlePlan::Movie(copy),
            Err(error) => TitlePlan::Failed(error),
        },
        Ok(FolderType::Show(names)) => TitlePlan::Show(process_show(folder, &names)),
        Ok(FolderType::ShowWithSeasons) => TitlePlan::Seasons(process_show_with_seasons(folder)),
    }
}

} // verus!
