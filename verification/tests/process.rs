use subtitle_mover::{
    collect_errors, copy_result, find_episode_subtitle, find_movie_subtitle, find_subs_folder,
    is_known_name, move_subtitle_file, plan_title, process_movie, process_show,
    process_show_with_seasons, Entry, ProcessingError, ShowPlan, ShowStep, SubtitleCopy,
    TitlePlan,
};

fn file(folder: &str, name: &str) -> Entry {
    Entry::file(name, &format!("{}/{}", folder, name))
}

fn dir(folder: &str, name: &str, children: Vec<Entry>) -> Entry {
    Entry::directory(name, &format!("{}/{}", folder, name), children)
}

fn copy(from: &str, to_folder: &str, file_name: &str) -> SubtitleCopy {
    SubtitleCopy {
        from: from.to_string(),
        to_folder: to_folder.to_string(),
        file_name: file_name.to_string(),
    }
}

/// Follows the steps of a plan; `ends[i]` is the reason for which copy `i`
/// fails when tried, if it does. Gives the copies tried and the outcome.
fn follow(plan: &ShowPlan, ends: &[Option<&str>]) -> (Vec<usize>, Result<(), ProcessingError>) {
    let mut tried = Vec::new();
    let mut last_failure = None;
    loop {
        match plan.next_step(tried.len(), last_failure.take()) {
            ShowStep::Copy(at) => {
                tried.push(at);
                last_failure = ends[at].map(|reason| reason.to_string());
            }
            ShowStep::Done(outcome) => return (tried, outcome),
        }
    }
}

fn names(of: &[&str]) -> Vec<String> {
    of.iter().map(|name| name.to_string()).collect()
}

fn episode(subs: &str, name: &str) -> Entry {
    let path = format!("{}/{}", subs, name);
    dir(subs, name, vec![file(&path, "2_English.srt")])
}

fn movie_folder() -> Entry {
    Entry::directory(
        "M",
        "M",
        vec![file("M", "video.mp4"), dir("M", "subs", vec![file("M/subs", "2_English.srt")])],
    )
}

fn show_folder(path: &str, subs_children: Vec<Entry>) -> Entry {
    Entry::directory(
        path,
        path,
        vec![
            file(path, "ep1.mp4"),
            file(path, "ep2.mp4"),
            dir(path, "subs", subs_children),
        ],
    )
}

#[test]
fn subs_folder_is_the_first_folder_named_subs() {
    let entries = vec![
        file("M", "subs"),
        dir("M", "Extras", vec![]),
        dir("M", "SUBS", vec![]),
        dir("M", "subs", vec![]),
    ];
    assert_eq!(find_subs_folder(&entries), Some(2));
    assert_eq!(find_subs_folder(&vec![file("M", "subs"), dir("M", "Extras", vec![])]), None);
    assert_eq!(find_subs_folder(&vec![]), None);
}

#[test]
fn movie_subtitle_is_the_first_regular_file_with_the_name() {
    let entries = vec![
        file("s", "1_English.srt"),
        file("s", "2_english.srt"),
        dir("s", "2_English.srt", vec![]),
        Entry::other("2_English.srt", "s/2_English.srt"),
        file("s", "2_English.srt"),
        file("s", "2_English.srt"),
    ];
    assert_eq!(find_movie_subtitle(&entries), Some(4));
    assert_eq!(find_movie_subtitle(&vec![dir("s", "2_English.srt", vec![])]), None);
    assert_eq!(find_movie_subtitle(&vec![file("s", "3_English.srt")]), None);
    assert_eq!(find_movie_subtitle(&vec![]), None);
}

#[test]
fn movie_and_episode_subtitles_are_found_alike() {
    let listings = vec![
        vec![],
        vec![file("s", "2_English.srt")],
        vec![dir("s", "2_English.srt", vec![]), file("s", "2_English.srt")],
        vec![Entry::other("2_English.srt", "s/2_English.srt")],
        vec![file("s", "a.srt"), file("s", "b.srt")],
    ];
    for entries in &listings {
        assert_eq!(find_movie_subtitle(entries), find_episode_subtitle(entries));
    }
}

#[test]
fn episode_subtitle_is_the_first_regular_file_with_the_name() {
    let entries = vec![
        file("s", "1_English.srt"),
        dir("s", "2_English.srt", vec![]),
        Entry::other("2_English.srt", "s/2_English.srt"),
        file("s", "2_English.srt"),
    ];
    assert_eq!(find_episode_subtitle(&entries), Some(3));
    assert_eq!(find_episode_subtitle(&vec![dir("s", "2_English.srt", vec![])]), None);
    assert_eq!(find_episode_subtitle(&vec![]), None);
}

#[test]
fn known_names_are_compared_exactly() {
    let known = names(&["ep1", "ep2"]);
    assert!(is_known_name(&known, &"ep1".to_string()));
    assert!(is_known_name(&known, &"ep2".to_string()));
    assert!(!is_known_name(&known, &"ep3".to_string()));
    assert!(!is_known_name(&known, &"EP1".to_string()));
    assert!(!is_known_name(&known, &"ep".to_string()));
    assert!(!is_known_name(&vec![], &"ep1".to_string()));
}

#[test]
fn move_names_the_copy_after_the_video() {
    assert_eq!(
        move_subtitle_file(&"video".to_string(), &"M".to_string(), &"M/subs/2_English.srt".to_string()),
        copy("M/subs/2_English.srt", "M", "video.srt")
    );
}

#[test]
fn movie_subtitle_goes_next_to_the_video() {
    let folder = movie_folder();
    assert_eq!(
        process_movie(&folder, &"video".to_string()),
        Ok(copy("M/subs/2_English.srt", "M", "video.srt"))
    );
}

#[test]
fn movie_plan_leaves_the_snapshot_as_it_was() {
    let folder = movie_folder();
    let _ = process_movie(&folder, &"video".to_string());
    assert_eq!(folder, movie_folder());
}

#[test]
fn movie_finds_subs_folder_in_any_case() {
    let folder = Entry::directory(
        "M",
        "M",
        vec![dir("M", "Subs", vec![file("M/Subs", "2_English.srt")]), file("M", "video.mkv")],
    );
    assert_eq!(
        process_movie(&folder, &"video".to_string()),
        Ok(copy("M/Subs/2_English.srt", "M", "video.srt"))
    );
}

#[test]
fn movie_without_subs_folder_fails() {
    let folder = Entry::directory("M", "M", vec![file("M", "video.mp4"), file("M", "subs")]);
    assert_eq!(
        process_movie(&folder, &"video".to_string()),
        Err(ProcessingError::NoSubFolderFoundForMovie)
    );
}

#[test]
fn movie_without_subtitle_file_fails() {
    let folder = Entry::directory(
        "M",
        "M",
        vec![file("M", "video.mp4"), dir("M", "subs", vec![file("M/subs", "3_French.srt")])],
    );
    assert_eq!(
        process_movie(&folder, &"video".to_string()),
        Err(ProcessingError::NoSubFileFoundForMovie)
    );
}

#[test]
fn a_folder_named_like_the_subtitle_is_no_subtitle_of_a_movie() {
    let folder = Entry::directory(
        "M",
        "M",
        vec![
            file("M", "video.mp4"),
            dir("M", "subs", vec![dir("M/subs", "2_English.srt", vec![])]),
        ],
    );
    assert_eq!(
        process_movie(&folder, &"video".to_string()),
        Err(ProcessingError::NoSubFileFoundForMovie)
    );
    assert_eq!(plan_title(&folder), TitlePlan::Failed(ProcessingError::NoSubFileFoundForMovie));
}

#[test]
fn movie_takes_the_file_after_a_folder_of_the_same_name() {
    let folder = Entry::directory(
        "M",
        "M",
        vec![dir(
            "M",
            "subs",
            vec![dir("M/subs", "2_English.srt", vec![]), file("M/subs", "2_English.srt")],
        )],
    );
    assert_eq!(
        process_movie(&folder, &"video".to_string()),
        Ok(copy("M/subs/2_English.srt", "M", "video.srt"))
    );
}

#[test]
fn movie_looks_into_the_first_subs_folder_only() {
    let folder = Entry::directory(
        "M",
        "M",
        vec![dir("M", "SUBS", vec![]), dir("M", "subs", vec![file("M/subs", "2_English.srt")])],
    );
    assert_eq!(
        process_movie(&folder, &"video".to_string()),
        Err(ProcessingError::NoSubFileFoundForMovie)
    );
}

#[test]
fn show_gets_one_copy_per_episode() {
    let folder = show_folder("S", vec![episode("S/subs", "ep1"), episode("S/subs", "ep2")]);
    let plan = process_show(&folder, &names(&["ep1", "ep2"]));
    assert_eq!(
        plan,
        ShowPlan {
            copies: vec![
                copy("S/subs/ep1/2_English.srt", "S", "ep1.srt"),
                copy("S/subs/ep2/2_English.srt", "S", "ep2.srt"),
            ],
            failure: None,
        }
    );
}

#[test]
fn show_stops_at_a_folder_with_unknown_name() {
    let folder = show_folder(
        "S",
        vec![episode("S/subs", "ep1"), episode("S/subs", "ep3"), episode("S/subs", "ep2")],
    );
    let plan = process_show(&folder, &names(&["ep1", "ep2"]));
    assert_eq!(plan.copies, vec![copy("S/subs/ep1/2_English.srt", "S", "ep1.srt")]);
    assert_eq!(
        plan.failure,
        Some(ProcessingError::SubFolderForShowWithUnknownName("ep3".to_string()))
    );
}

#[test]
fn show_with_unknown_folder_first_plans_no_copy() {
    let folder = show_folder(
        "S",
        vec![episode("S/subs", "ep3"), episode("S/subs", "ep1"), episode("S/subs", "ep2")],
    );
    let plan = process_show(&folder, &names(&["ep1", "ep2"]));
    assert!(plan.copies.is_empty());
    assert_eq!(
        plan.failure,
        Some(ProcessingError::SubFolderForShowWithUnknownName("ep3".to_string()))
    );
}

#[test]
fn show_with_unknown_folder_last_plans_the_others() {
    let folder = show_folder(
        "S",
        vec![episode("S/subs", "ep1"), episode("S/subs", "ep2"), episode("S/subs", "ep3")],
    );
    let plan = process_show(&folder, &names(&["ep1", "ep2"]));
    assert_eq!(plan.copies.len(), 2);
    assert_eq!(
        follow(&plan, &[None, None]),
        (vec![0, 1], Err(ProcessingError::SubFolderForShowWithUnknownName("ep3".to_string())))
    );
}

#[test]
fn show_stops_at_an_episode_without_subtitle_file() {
    let folder = show_folder(
        "S",
        vec![
            episode("S/subs", "ep2"),
            dir("S/subs", "ep1", vec![file("S/subs/ep1", "3_French.srt")]),
            episode("S/subs", "ep3"),
        ],
    );
    let plan = process_show(&folder, &names(&["ep1", "ep2"]));
    assert_eq!(plan.copies, vec![copy("S/subs/ep2/2_English.srt", "S", "ep2.srt")]);
    assert_eq!(
        plan.failure,
        Some(ProcessingError::NoSubFileFoundForShow("S/subs/ep1".to_string()))
    );
}

#[test]
fn show_episode_subtitle_has_to_be_a_regular_file() {
    let folder = show_folder(
        "S",
        vec![dir("S/subs", "ep1", vec![dir("S/subs/ep1", "2_English.srt", vec![])])],
    );
    let plan = process_show(&folder, &names(&["ep1", "ep2"]));
    assert!(plan.copies.is_empty());
    assert_eq!(
        plan.failure,
        Some(ProcessingError::NoSubFileFoundForShow("S/subs/ep1".to_string()))
    );
}

#[test]
fn show_skips_files_in_the_subs_folder() {
    let folder = show_folder(
        "S",
        vec![
            file("S/subs", "ep3"),
            file("S/subs", "2_English.srt"),
            episode("S/subs", "ep2"),
            Entry::other("ep4", "S/subs/ep4"),
        ],
    );
    let plan = process_show(&folder, &names(&["ep1", "ep2"]));
    assert_eq!(plan.copies, vec![copy("S/subs/ep2/2_English.srt", "S", "ep2.srt")]);
    assert_eq!(plan.failure, None);
}

#[test]
fn show_without_subs_folder_fails() {
    let folder = Entry::directory("S", "S", vec![file("S", "ep1.mp4"), file("S", "ep2.mp4")]);
    let plan = process_show(&folder, &names(&["ep1", "ep2"]));
    assert!(plan.copies.is_empty());
    assert_eq!(plan.failure, Some(ProcessingError::NoSubFolderFoundForShow));
}

#[test]
fn show_with_empty_subs_folder_has_nothing_to_do() {
    let folder = show_folder("S", vec![]);
    let plan = process_show(&folder, &names(&["ep1", "ep2"]));
    assert_eq!(plan, ShowPlan { copies: vec![], failure: None });
    assert_eq!(plan.next_step(0, None), ShowStep::Done(Ok(())));
}

#[test]
fn show_may_match_an_episode_twice() {
    let folder = show_folder("S", vec![episode("S/subs", "ep1"), episode("S/subs", "ep1")]);
    let plan = process_show(&folder, &names(&["ep1", "ep2"]));
    assert_eq!(plan.copies.len(), 2);
    assert_eq!(plan.copies[0], plan.copies[1]);
    assert_eq!(plan.failure, None);
}

#[test]
fn seasons_are_planned_one_by_one() {
    let season_one = dir(
        "T",
        "Season 1",
        vec![
            file("T/Season 1", "ep1.mp4"),
            file("T/Season 1", "ep2.mkv"),
            dir(
                "T/Season 1",
                "Subs",
                vec![episode("T/Season 1/Subs", "ep1"), episode("T/Season 1/Subs", "ep2")],
            ),
        ],
    );
    let season_two = dir(
        "T",
        "Season 2",
        vec![file("T/Season 2", "ep1.mp4"), file("T/Season 2", "ep2.mp4")],
    );
    let folder = Entry::directory("T", "T", vec![season_one, file("T", "notes.txt"), season_two]);
    let plans = process_show_with_seasons(&folder);
    assert_eq!(plans.len(), 2);
    assert_eq!(
        plans[0],
        ShowPlan {
            copies: vec![
                copy("T/Season 1/Subs/ep1/2_English.srt", "T/Season 1", "ep1.srt"),
                copy("T/Season 1/Subs/ep2/2_English.srt", "T/Season 1", "ep2.srt"),
            ],
            failure: None,
        }
    );
    assert_eq!(
        plans[1],
        ShowPlan { copies: vec![], failure: Some(ProcessingError::NoSubFolderFoundForShow) }
    );
    let outcomes = plans.iter().map(|plan| follow(plan, &[None, None]).1).collect();
    let gathered = collect_errors(outcomes);
    assert_eq!(gathered, Err(vec![ProcessingError::NoSubFolderFoundForShow]));
    assert_eq!(gathered.unwrap_err().len(), 1);
}

#[test]
fn a_failing_season_does_not_stop_the_next() {
    let broken = dir("T", "Season 1", vec![file("T/Season 1", "ep1.mp4")]);
    let fine = dir(
        "T",
        "Season 2",
        vec![
            file("T/Season 2", "ep1.mp4"),
            dir("T/Season 2", "subs", vec![episode("T/Season 2/subs", "ep1")]),
        ],
    );
    let plans = process_show_with_seasons(&Entry::directory("T", "T", vec![broken, fine]));
    assert_eq!(plans.len(), 2);
    assert_eq!(plans[0].failure, Some(ProcessingError::NoSubFolderFoundForShow));
    assert_eq!(
        plans[1].copies,
        vec![copy("T/Season 2/subs/ep1/2_English.srt", "T/Season 2", "ep1.srt")]
    );
    assert_eq!(plans[1].failure, None);
}

#[test]
fn a_subs_folder_beside_the_seasons_is_taken_for_a_season() {
    let folder = Entry::directory(
        "T",
        "T",
        vec![dir("T", "subs", vec![]), dir("T", "Season 1", vec![dir("T/Season 1", "subs", vec![])])],
    );
    let plans = process_show_with_seasons(&folder);
    assert_eq!(plans.len(), 2);
    assert_eq!(plans[0].failure, Some(ProcessingError::NoSubFolderFoundForShow));
    assert_eq!(plans[1], ShowPlan { copies: vec![], failure: None });
}

#[test]
fn a_title_without_folders_has_no_seasons() {
    let folder = Entry::directory("T", "T", vec![file("T", "a.mp4")]);
    assert!(process_show_with_seasons(&folder).is_empty());
    assert_eq!(collect_errors(vec![]), Ok(()));
}

#[test]
fn collect_keeps_the_errors_in_order() {
    let outcomes = vec![
        Err(ProcessingError::NoSubFolderFoundForShow),
        Ok(()),
        Err(ProcessingError::SubFolderForShowWithUnknownName("ep9".to_string())),
        Ok(()),
        Err(ProcessingError::FailedToCopySubFile("disk full".to_string())),
    ];
    assert_eq!(
        collect_errors(outcomes),
        Err(vec![
            ProcessingError::NoSubFolderFoundForShow,
            ProcessingError::SubFolderForShowWithUnknownName("ep9".to_string()),
            ProcessingError::FailedToCopySubFile("disk full".to_string()),
        ])
    );
    assert_eq!(collect_errors(vec![Ok(()), Ok(())]), Ok(()));
}

#[test]
fn a_failed_copy_becomes_an_error_with_its_reason() {
    let outcome = copy_result(Err("Permission denied (os error 13)".to_string()));
    assert_eq!(
        outcome,
        Err(ProcessingError::FailedToCopySubFile("Permission denied (os error 13)".to_string()))
    );
    match outcome {
        Err(ProcessingError::FailedToCopySubFile(reason)) => assert!(!reason.is_empty()),
        other => panic!("unexpected {:?}", other),
    }
}

#[test]
fn a_finished_copy_is_a_success() {
    assert_eq!(copy_result(Ok(0)), Ok(()));
    assert_eq!(copy_result(Ok(4096)), Ok(()));
}

#[test]
fn a_failed_copy_goes_before_the_plans_failure() {
    let plan = ShowPlan {
        copies: vec![copy("S/subs/ep1/2_English.srt", "S", "ep1.srt")],
        failure: Some(ProcessingError::SubFolderForShowWithUnknownName("ep3".to_string())),
    };
    assert_eq!(
        plan.next_step(1, Some("read-only file system".to_string())),
        ShowStep::Done(Err(ProcessingError::FailedToCopySubFile(
            "read-only file system".to_string()
        )))
    );
    assert_eq!(
        plan.next_step(1, None),
        ShowStep::Done(Err(ProcessingError::SubFolderForShowWithUnknownName("ep3".to_string())))
    );
}

fn three_copies(failure: Option<ProcessingError>) -> ShowPlan {
    ShowPlan {
        copies: vec![
            copy("S/subs/ep1/2_English.srt", "S", "ep1.srt"),
            copy("S/subs/ep2/2_English.srt", "S", "ep2.srt"),
            copy("S/subs/ep3/2_English.srt", "S", "ep3.srt"),
        ],
        failure,
    }
}

#[test]
fn steps_go_through_the_copies_in_order() {
    let plan = three_copies(None);
    assert_eq!(plan.next_step(0, None), ShowStep::Copy(0));
    assert_eq!(plan.next_step(1, None), ShowStep::Copy(1));
    assert_eq!(plan.next_step(2, None), ShowStep::Copy(2));
    assert_eq!(plan.next_step(3, None), ShowStep::Done(Ok(())));
    assert_eq!(plan.next_step(7, None), ShowStep::Done(Ok(())));
    assert_eq!(follow(&plan, &[None, None, None]), (vec![0, 1, 2], Ok(())));
}

#[test]
fn no_copy_is_tried_after_one_that_failed() {
    let plan = three_copies(None);
    assert_eq!(
        plan.next_step(1, Some("disk full".to_string())),
        ShowStep::Done(Err(ProcessingError::FailedToCopySubFile("disk full".to_string())))
    );
    assert_eq!(
        follow(&plan, &[Some("disk full"), None, None]),
        (vec![0], Err(ProcessingError::FailedToCopySubFile("disk full".to_string())))
    );
    assert_eq!(
        follow(&plan, &[None, Some("permission denied"), Some("disk full")]),
        (vec![0, 1], Err(ProcessingError::FailedToCopySubFile("permission denied".to_string())))
    );
    assert_eq!(
        follow(&plan, &[None, None, Some("gone")]),
        (vec![0, 1, 2], Err(ProcessingError::FailedToCopySubFile("gone".to_string())))
    );
}

#[test]
fn a_failed_copy_hides_the_failure_of_the_plan() {
    let plan = three_copies(Some(ProcessingError::NoSubFileFoundForShow("S/subs/ep4".to_string())));
    assert_eq!(
        follow(&plan, &[None, Some("disk full"), None]),
        (vec![0, 1], Err(ProcessingError::FailedToCopySubFile("disk full".to_string())))
    );
    assert_eq!(
        follow(&plan, &[None, None, None]),
        (vec![0, 1, 2], Err(ProcessingError::NoSubFileFoundForShow("S/subs/ep4".to_string())))
    );
}

#[test]
fn a_plan_without_copies_is_done_at_once() {
    let plan = ShowPlan { copies: vec![], failure: Some(ProcessingError::NoSubFolderFoundForShow) };
    assert_eq!(follow(&plan, &[]), (vec![], Err(ProcessingError::NoSubFolderFoundForShow)));
}

#[test]
fn duplicate_gives_the_same_error() {
    let errors = vec![
        ProcessingError::NoVideoFilesAndNoSeasonFoldersFound,
        ProcessingError::NoSubFolderFoundForMovie,
        ProcessingError::NoSubFolderFoundForShow,
        ProcessingError::NoSubFileFoundForMovie,
        ProcessingError::NoSubFileFoundForShow("S/subs/ep1".to_string()),
        ProcessingError::FailedToCopySubFile("disk full".to_string()),
        ProcessingError::SubFolderForShowWithUnknownName("ep3".to_string()),
    ];
    for error in &errors {
        assert_eq!(&error.duplicate(), error);
    }
}

#[test]
fn title_plan_of_a_movie() {
    assert_eq!(
        plan_title(&movie_folder()),
        TitlePlan::Movie(copy("M/subs/2_English.srt", "M", "video.srt"))
    );
}

#[test]
fn title_plan_of_a_movie_without_subtitle() {
    let folder = Entry::directory("M", "M", vec![file("M", "video.mp4")]);
    assert_eq!(plan_title(&folder), TitlePlan::Failed(ProcessingError::NoSubFolderFoundForMovie));
}

#[test]
fn title_plan_of_a_show() {
    let folder = show_folder("S", vec![episode("S/subs", "ep2"), episode("S/subs", "ep1")]);
    assert_eq!(
        plan_title(&folder),
        TitlePlan::Show(ShowPlan {
            copies: vec![
                copy("S/subs/ep2/2_English.srt", "S", "ep2.srt"),
                copy("S/subs/ep1/2_English.srt", "S", "ep1.srt"),
            ],
            failure: None,
        })
    );
}

#[test]
fn title_plan_of_a_show_with_seasons() {
    let folder = Entry::directory(
        "T",
        "T",
        vec![dir(
            "T",
            "Season 1",
            vec![
                file("T/Season 1", "ep1.mp4"),
                dir("T/Season 1", "subs", vec![episode("T/Season 1/subs", "ep1")]),
            ],
        )],
    );
    assert_eq!(
        plan_title(&folder),
        TitlePlan::Seasons(vec![ShowPlan {
            copies: vec![copy("T/Season 1/subs/ep1/2_English.srt", "T/Season 1", "ep1.srt")],
            failure: None,
        }])
    );
}

#[test]
fn title_plan_of_a_folder_without_shape() {
    let folder = Entry::directory("E", "E", vec![dir("E", "Subs", vec![])]);
    assert_eq!(
        plan_title(&folder),
        TitlePlan::Failed(ProcessingError::NoVideoFilesAndNoSeasonFoldersFound)
    );
}
