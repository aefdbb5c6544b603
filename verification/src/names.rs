//! File-name conventions: video extensions, base names, the subtitle holder
//! folder and the subtitle file.

use vstd::prelude::*;
use vstd::string::*;

verus! {

/// Name of the subtitle file that is looked for, compared exactly.
pub const SUBTITLE_FILE_NAME: &'static str = "2_English.srt";

/// Name of the folder that holds subtitles, compared after lower-casing.
pub const SUBS_FOLDER_NAME: &'static str = "subs";

/// What is appended to a base name to name the copied subtitle file.
pub const SUBTITLE_SUFFIX: &'static str = ".srt";

/// The lower-case form of a text, as `str::to_lowercase` computes it.
pub uninterp spec fn lowercase_of(text: Seq<char>) -> Seq<char>;

/// `str::to_lowercase` lower-cases a text by the Unicode tables; a character's
/// place in its word may count, but nothing outside the text does. The contract
/// only gives the result its name.
pub assume_specification[ str::to_lowercase ](text: &str) -> (lowered: String)
    ensures
        lowered@ == lowercase_of(text@),
;

/// True where `at` is the position of the dot that starts the extension of
/// `name`: the last dot of the name, and not its first character.
pub open spec fn is_extension_dot(name: Seq<char>, at: int) -> bool {
    &&& 0 < at < name.len()
    &&& name[at] == '.'
    &&& forall|later: int| at < later < name.len() ==> name[later] != '.'
}

/// The extension of a file name: what follows its last dot. A name without a
/// dot has none, nor has one whose only dot is its first character.
pub open spec fn extension(name: Seq<char>) -> Option<Seq<char>> {
    if exists|at: int| is_extension_dot(name, at) {
        let at = choose|at: int| is_extension_dot(name, at);
        Some(name.skip(at + 1))
    } else {
        None
    }
}

/// The name up to the dot that starts its extension; the whole name where it
/// has no extension.
pub open spec fn stem(name: Seq<char>) -> Seq<char> {
    if exists|at: int| is_extension_dot(name, at) {
        let at = choose|at: int| is_extension_dot(name, at);
        name.take(at)
    } else {
        name
    }
}

/// The extensions by which a video file is recognized, compared exactly.
pub open spec fn is_video_extension(ext: Seq<char>) -> bool {
    ext == "mp4"@ || ext == "mkv"@
}

/// A name is a video name where it has an extension and that is recognized.
pub open spec fn is_video_name(name: Seq<char>) -> bool {
    match extension(name) {
        Some(ext) => is_video_extension(ext),
        None => false,
    }
}

/// The name without its last four characters; empty where it has fewer.
pub open spec fn without_last_four(name: Seq<char>) -> Seq<char> {
    if name.len() >= 4 {
        name.take(name.len() - 4)
    } else {
        Seq::empty()
    }
}

/// A folder holds subtitles where its name in lower case is `subs`.
pub open spec fn is_subs_name(name: Seq<char>) -> bool {
    lowercase_of(name) == SUBS_FOLDER_NAME@
}

/// The name under which the subtitle of the video `base` is stored.
pub open spec fn subtitle_name(base: Seq<char>) -> Seq<char> {
    base + SUBTITLE_SUFFIX@
}

/// A name has at most one extension dot.
pub proof fn lemma_extension_dot_unique(name: Seq<char>, a: int, b: int)
    requires
        is_extension_dot(name, a),
        is_extension_dot(name, b),
    ensures
        a == b,
{
    if a < b {
        assert(name[b] != '.');
    } else if b < a {
        assert(name[a] != '.');
    }
}

/// Where a name has its extension dot at `at`, the extension is what follows
/// and the stem is what precedes.
pub proof fn lemma_extension_at(name: Seq<char>, at: int)
    requires
        is_extension_dot(name, at),
    ensures
        extension(name) == Some(name.skip(at + 1)),
        stem(name) == name.take(at),
{
    let chosen = choose|at: int| is_extension_dot(name, at);
    lemma_extension_dot_unique(name, at, chosen);
}

/// For a video name, dropping the last four characters drops exactly the
/// extension and its dot: the base name is the stem, it is not empty, and the
/// name is the base name, a dot and the extension.
pub proof fn lemma_video_base_name_is_stem(name: Seq<char>)
    requires
        is_video_name(name),
    ensures
        without_last_four(name) == stem(name),
        without_last_four(name).len() >= 1,
        extension(name) is Some,
        name == without_last_four(name) + seq!['.'] + extension(name)->Some_0,
{
    reveal_strlit("mp4");
    reveal_strlit("mkv");
    let at = choose|at: int| is_extension_dot(name, at);
    let ext = name.skip(at + 1);
    assert(ext.len() == 3);
    assert(at == name.len() - 4);
    assert(name =~= name.take(at) + seq!['.'] + ext);
}

/// The extension of a file name: what follows its last dot, unless the name has
/// no dot or its only dot is its first character.
pub fn file_extension(name: &str) -> (found: Option<String>)
    ensures
        match found {
            Some(ext) => extension(name@) == Some(ext@),
            None => extension(name@) is None,
        },
{
    let total: usize = name.unicode_len();
    let mut at: usize = total;
    while at > 0
        invariant
            at <= total,
            total == name@.len(),
            forall|later: int| at <= later < total ==> name@[later] != '.',
        decreases at,
    {
        at = at - 1;
        if name.get_char(at) == '.' {
            if at == 0 {
                assert forall|dot: int| !is_extension_dot(name@, dot) by {
                    if is_extension_dot(name@, dot) {
                        assert(name@[dot] != '.');
                    }
                }
                return None;
            }
            proof {
                lemma_extension_at(name@, at as int);
            }
            let ext = name.substring_char(at + 1, total).to_owned();
            assert(ext@ =~= name@.skip(at + 1));
            return Some(ext);
        }
    }
    assert forall|dot: int| !is_extension_dot(name@, dot) by {
        if is_extension_dot(name@, dot) {
            assert(name@[dot] != '.');
        }
    }
    None
}

/// Whether a file name carries a recognized video extension.
pub fn is_video_file(name: &str) -> (video: bool)
    ensures
        video == is_video_name(name@),
{
    match file_extension(name) {
        Some(ext) => ext == String::from_str("mp4") || ext == String::from_str("mkv"),
        None => false,
    }
}

/// Removes the last four characters of a name: a three-letter extension and
/// its dot. A name of fewer than four characters comes back empty.
pub fn remove_file_extension(value: String) -> (base: String)
    ensures
        base@ == without_last_four(value@),
        is_video_name(value@) ==> base@ == stem(value@),
{
    let text = value.as_str();
    let total: usize = text.unicode_len();
    let keep: usize = if total >= 4 {
        total - 4
    } else {
        0
    };
    let base = text.substring_char(0, keep).to_owned();
    proof {
        assert(base@ =~= without_last_four(value@));
        if is_video_name(value@) {
            lemma_video_base_name_is_stem(value@);
        }
    }
    base
}

/// Whether a folder of this name holds subtitles: its lower-case form is `subs`.
pub fn is_subs_folder_name(name: &str) -> (subs: bool)
    ensures
        subs == is_subs_name(name@),
{
    name.to_lowercase() == String::from_str(SUBS_FOLDER_NAME)
}

/// Whether this is the name of the subtitle file, letter for letter.
pub fn is_subtitle_file_name(name: &String) -> (matches: bool)
    ensures
        matches == (name@ == SUBTITLE_FILE_NAME@),
{
    *name == String::from_str(SUBTITLE_FILE_NAME)
}

/// The file name under which the subtitle of the video `base` is stored.
pub fn subtitle_name_for(base: &String) -> (name: String)
    ensures
        name@ == subtitle_name(base@),
{
    let mut name = base.clone();
    name.append(SUBTITLE_SUFFIX);
    name
}

} // verus!
