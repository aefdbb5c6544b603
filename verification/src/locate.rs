//! Finding the subtitle folder of a title and the subtitle file inside a folder.

use vstd::prelude::*;
use crate::entry::Entry;

verus! {

/// True where `at` is the position of the first entry that meets `wanted`.
pub open spec fn is_first_match(
    entries: Seq<Entry>,
    wanted: spec_fn(Entry) -> bool,
    at: int,
) -> bool {
    &&& 0 <= at < entries.len()
    &&& wanted(entries[at])
    &&& forall|before: int| 0 <= before < at ==> !wanted(#[trigger] entries[before])
}

/// The position of the first entry that meets `wanted`, if there is one.
pub open spec fn first_match(entries: Seq<Entry>, wanted: spec_fn(Entry) -> bool) -> Option<int> {
    if exists|at: int| is_first_match(entries, wanted, at) {
        Some(choose|at: int| is_first_match(entries, wanted, at))
    } else {
        None
    }
}

/// The test for a directory that holds subtitles.
pub open spec fn subs_folder_test() -> spec_fn(Entry) -> bool {
    |entry: Entry| entry.is_subs_folder()
}

/// The test for a regular file with the subtitle file's name.
pub open spec fn subtitle_file_test() -> spec_fn(Entry) -> bool {
    |entry: Entry| entry.is_subtitle_file()
}

/// Where the first directory that holds subtitles stands in a listing.
pub open spec fn subs_folder_index(entries: Seq<Entry>) -> Option<int> {
    first_match(entries, subs_folder_test())
}

/// Where the subtitle file stands in a listing: the first regular file with
/// the subtitle file's name. A movie's subtitle folder and an episode's are
/// searched alike.
pub open spec fn subtitle_file_index(entries: Seq<Entry>) -> Option<int> {
    first_match(entries, subtitle_file_test())
}

/// The first match is the only position that is one.
pub proof fn lemma_first_match_is(entries: Seq<Entry>, wanted: spec_fn(Entry) -> bool, at: int)
    requires
        is_first_match(entries, wanted, at),
    ensures
        first_match(entries, wanted) == Some(at),
{
    let chosen = choose|at: int| is_first_match(entries, wanted, at);
    if chosen < at {
        assert(!wanted(entries[chosen]));
    } else if at < chosen {
        assert(!wanted(entries[at]));
    }
}

/// A listing in which no entry meets the test has no first match.
pub proof fn lemma_first_match_none(entries: Seq<Entry>, wanted: spec_fn(Entry) -> bool)
    requires
        forall|at: int| 0 <= at < entries.len() ==> !wanted(#[trigger] entries[at]),
    ensures
        first_match(entries, wanted) is None,
{
}

/// What a first match says of the listing: the entry found meets the test and
/// none before it does; without a match no entry meets it.
pub proof fn lemma_first_match_found(entries: Seq<Entry>, wanted: spec_fn(Entry) -> bool)
    ensures
        match first_match(entries, wanted) {
            Some(at) => is_first_match(entries, wanted, at),
            None => forall|at: int| 0 <= at < entries.len() ==> !wanted(#[trigger] entries[at]),
        },
{
    if first_match(entries, wanted) is None {
        assert forall|at: int| 0 <= at < entries.len() implies !wanted(#[trigger] entries[at]) by {
            if wanted(entries[at]) {
                lemma_some_match_has_first(entries, wanted, at);
            }
        }
    }
}

/// Where some entry meets the test, there is a first one, at or before it.
pub proof fn lemma_some_match_has_first(
    entries: Seq<Entry>,
    wanted: spec_fn(Entry) -> bool,
    at: int,
)
    requires
        0 <= at < entries.len(),
        wanted(entries[at]),
    ensures
        exists|first: int| first <= at && is_first_match(entries, wanted, first),
    decreases at,
{
    if exists|before: int| 0 <= before < at && wanted(#[trigger] entries[before]) {
        let before = choose|before: int| 0 <= before < at && wanted(#[trigger] entries[before]);
        lemma_some_match_has_first(entries, wanted, before);
    } else {
        assert(is_first_match(entries, wanted, at));
    }
}

/// The position of the first directory in `entries` whose name in lower case is
/// `subs`.
pub fn find_subs_folder(entries: &Vec<Entry>) -> (found: Option<usize>)
    ensures
        match found {
            Some(at) => subs_folder_index(entries@) == Some(at as int)
                && at < entries@.len() && entries@[at as int].is_subs_folder(),
            None => subs_folder_index(entries@) is None,
        },
        found is None <==> forall|at: int|
            0 <= at < entries@.len() ==> !(#[trigger] entries@[at]).is_subs_folder(),
{
    let mut at: usize = 0;
    while at < entries.len()
        invariant
            at <= entries@.len(),
            forall|before: int| 0 <= before < at ==> !(#[trigger] entries@[before]).is_subs_folder(),
        decreases entries@.len() - at,
    {
        if entries[at].is_subs_entry() {
            proof {
                lemma_first_match_is(entries@, subs_folder_test(), at as int);
            }
            return Some(at);
        }
        at = at + 1;
    }
    proof {
        lemma_first_match_none(entries@, subs_folder_test());
    }
    None
}

/// The position of the first regular file in `entries` that is named
/// `2_English.srt`: the subtitle of a movie, searched in the folder that holds
/// its subtitles.
pub fn find_movie_subtitle(entries: &Vec<Entry>) -> (found: Option<usize>)
    ensures
        match found {
            Some(at) => subtitle_file_index(entries@) == Some(at as int)
                && at < entries@.len() && entries@[at as int].is_subtitle_file(),
            None => subtitle_file_index(entries@) is None,
        },
        found is None <==> forall|at: int|
            0 <= at < entries@.len() ==> !(#[trigger] entries@[at]).is_subtitle_file(),
{
    let mut at: usize = 0;
    while at < entries.len()
        invariant
            at <= entries@.len(),
            forall|before: int| 0 <= before < at ==> !(#[trigger] entries@[before]).is_subtitle_file(),
        decreases entries@.len() - at,
    {
        if entries[at].is_subtitle_entry() {
            proof {
                lemma_first_match_is(entries@, subtitle_file_test(), at as int);
            }
            return Some(at);
        }
        at = at + 1;
    }
    proof {
        lemma_first_match_none(entries@, subtitle_file_test());
    }
    None
}

/// The position of the first regular file in `entries` that is named
/// `2_English.srt`: the subtitle of an episode, searched in the episode's own
/// folder. The lookup is that of a movie's subtitle.
pub fn find_episode_subtitle(entries: &Vec<Entry>) -> (found: Option<usize>)
    ensures
        match found {
            Some(at) => subtitle_file_index(entries@) == Some(at as int)
                && at < entries@.len() && entries@[at as int].is_subtitle_file(),
            None => subtitle_file_index(entries@) is None,
        },
        found is None <==> forall|at: int|
            0 <= at < entries@.len() ==> !(#[trigger] entries@[at]).is_subtitle_file(),
{
    find_movie_subtitle(entries)
}

} // verus!
