//! The library scanner: what a show directory's files say about the show,
//! and how the shows that a scan found go into the index.
//!
//! The walk of the directories is done by the program around the library,
//! which hands in what it found as plain values.

use vstd::prelude::*;
use crate::config::{opt_text, Config};
use crate::index::{
    lemma_position_of_path, position_of_path, upserted, CandidateView, IndexStore, Provenance,
    ShowCandidate, ShowView, UpsertResult,
};
use crate::nfo::{extract_title_from_nfo, title_of};
use crate::paths::{
    begins_with, components, extension, extension_of, file_name, file_name_of, is_name,
    join_path, joined_path, lemma_texts_push, split_components,
};
use crate::text::{
    chars_of, contains_str, eq_ignore_ascii_case, eq_ignoring_ascii_case, is_blank, str_eq, texts,
    trim, trimmed,
};
use crate::tier::{determine_location, location_of, root_of, trimmed_root};
use crate::worker::clamp_to_i64;

verus! {

/// What a scan did.
#[derive(Clone, Copy, Debug, PartialEq, Eq, Structural)]
pub struct ScanSummary {
    /// Library roots that were there to be listed.
    pub scanned_libraries: usize,
    /// Shows that were handed to the index.
    pub shows_processed: usize,
    /// Shows that the index did not have.
    pub inserted: u64,
    /// Shows that the index had.
    pub updated: u64,
}

/// One entry of the walk of a show directory.
#[derive(Debug, Clone)]
pub struct WalkEntry {
    pub path: String,
    pub is_file: bool,
    pub size: u64,
}

/// An entry as plain values.
pub struct EntryView {
    pub path: Seq<char>,
    pub is_file: bool,
    pub size: u64,
}

impl View for WalkEntry {
    type V = EntryView;

    open spec fn view(&self) -> EntryView {
        EntryView { path: self.path@, is_file: self.is_file, size: self.size }
    }
}

/// The views of a list of entries.
pub open spec fn entry_views(entries: Seq<WalkEntry>) -> Seq<EntryView> {
    Seq::new(entries.len(), |i: int| entries[i]@)
}

/// What the files of a show directory add up to.
#[derive(Clone, Copy, Debug, PartialEq, Eq, Structural)]
pub struct ShowStats {
    pub total_bytes: i64,
    pub video_episode_count: i64,
    pub season_count: i64,
}

/// Whether an extension is one of a video file, in any case.
pub open spec fn is_video_extension(ext: Seq<char>) -> bool {
    ||| eq_ignoring_ascii_case(ext, seq!['m', 'k', 'v'])
    ||| eq_ignoring_ascii_case(ext, seq!['m', 'p', '4'])
    ||| eq_ignoring_ascii_case(ext, seq!['a', 'v', 'i'])
    ||| eq_ignoring_ascii_case(ext, seq!['m', 'o', 'v'])
    ||| eq_ignoring_ascii_case(ext, seq!['m', '4', 'v'])
    ||| eq_ignoring_ascii_case(ext, seq!['w', 'm', 'v'])
}

/// Whether a path names a video file, by its extension.
pub open spec fn is_video_path(path: Seq<char>) -> bool {
    extension_of(path) matches Some(ext) && is_video_extension(ext)
}

/// Whether a path names a metadata file, by its extension.
pub open spec fn is_nfo_path(path: Seq<char>) -> bool {
    extension_of(path) matches Some(ext) && eq_ignoring_ascii_case(ext, seq!['n', 'f', 'o'])
}

/// Whether the file that a path names has the expected name, in any case.
pub open spec fn is_named(path: Seq<char>, expected: Seq<char>) -> bool {
    file_name_of(path) matches Some(name) && eq_ignoring_ascii_case(name, expected)
}

/// The name of the metadata file of a show.
pub open spec fn show_nfo_name() -> Seq<char> {
    seq!['t', 'v', 's', 'h', 'o', 'w', '.', 'n', 'f', 'o']
}

/// Whether a path names the metadata file of an episode: a metadata file
/// that is not the show's.
pub open spec fn is_episode_nfo_path(path: Seq<char>) -> bool {
    is_nfo_path(path) && !is_named(path, show_nfo_name())
}

/// Whether an entry is a video file.
pub open spec fn is_video_entry(e: EntryView) -> bool {
    e.is_file && is_video_path(e.path)
}

/// The season that a file belongs to: the directory directly below the show
/// directory that the file lies in or under, if there is one.
pub open spec fn season_of(path: Seq<char>, show_path: Seq<char>) -> Option<Seq<char>> {
    let e = components(path);
    let s = components(show_path);
    if e.len() > 0 && e.last() != seq!['/'] && s.is_prefix_of(e.drop_last()) && e.len() - 1
        > s.len() && is_name(e[s.len() as int]) {
        Some(e[s.len() as int])
    } else {
        None
    }
}

/// The sizes of the first `upto` entries that are files, added up.
pub open spec fn size_sum(entries: Seq<EntryView>, upto: int) -> int
    decreases upto,
{
    if upto <= 0 {
        0
    } else {
        size_sum(entries, upto - 1) + if entries[upto - 1].is_file {
            entries[upto - 1].size as int
        } else {
            0
        }
    }
}

/// How many of the first `upto` entries are video files.
pub open spec fn video_count(entries: Seq<EntryView>, upto: int) -> int
    decreases upto,
{
    if upto <= 0 {
        0
    } else {
        video_count(entries, upto - 1) + if is_video_entry(entries[upto - 1]) {
            1int
        } else {
            0int
        }
    }
}

/// How many of the first `upto` entries are metadata files of episodes.
pub open spec fn episode_nfo_count(entries: Seq<EntryView>, upto: int) -> int
    decreases upto,
{
    if upto <= 0 {
        0
    } else {
        episode_nfo_count(entries, upto - 1) + if entries[upto - 1].is_file
            && is_episode_nfo_path(entries[upto - 1].path) {
            1int
        } else {
            0int
        }
    }
}

/// The seasons of the video files among the first `upto` entries, each once,
/// in the order in which they are first met.
pub open spec fn seasons(entries: Seq<EntryView>, show_path: Seq<char>, upto: int) -> Seq<
    Seq<char>,
>
    decreases upto,
{
    if upto <= 0 {
        seq![]
    } else {
        let before = seasons(entries, show_path, upto - 1);
        let e = entries[upto - 1];
        match season_of(e.path, show_path) {
            Some(name) => if is_video_entry(e) && !before.contains(name) {
                before.push(name)
            } else {
                before
            },
            None => before,
        }
    }
}

/// A count as a signed count, capped at the largest one.
pub open spec fn capped(n: int) -> i64 {
    if n > i64::MAX {
        i64::MAX
    } else {
        n as i64
    }
}

/// What the entries of a show directory add up to: the bytes of all files,
/// the number of video files, and the number of seasons. Video files that
/// lie in no season directory make one season.
pub open spec fn stats_of(entries: Seq<EntryView>, show_path: Seq<char>) -> ShowStats {
    let n = entries.len() as int;
    let videos = video_count(entries, n);
    let named = seasons(entries, show_path, n).len() as int;
    ShowStats {
        total_bytes: capped(size_sum(entries, n)),
        video_episode_count: capped(videos),
        season_count: if named > 0 {
            capped(named)
        } else if videos > 0 {
            1
        } else {
            0
        },
    }
}

pub proof fn lemma_counts_bounded(entries: Seq<EntryView>, show_path: Seq<char>, upto: int)
    requires
        0 <= upto <= entries.len(),
    ensures
        0 <= video_count(entries, upto) <= upto,
        0 <= episode_nfo_count(entries, upto) <= upto,
        0 <= size_sum(entries, upto),
        seasons(entries, show_path, upto).len() <= video_count(entries, upto),
    decreases upto,
{
    if upto > 0 {
        lemma_counts_bounded(entries, show_path, upto - 1);
    }
}

/// The seasons hold no name twice, and hold a name exactly when one of the
/// video files lies in the season of that name.
pub proof fn lemma_seasons_distinct(entries: Seq<EntryView>, show_path: Seq<char>, upto: int)
    requires
        0 <= upto <= entries.len(),
    ensures
        seasons(entries, show_path, upto).no_duplicates(),
        forall|name: Seq<char>|
            seasons(entries, show_path, upto).contains(name) <==> exists|k: int|
                0 <= k < upto && is_video_entry(#[trigger] entries[k]) && season_of(
                    entries[k].path,
                    show_path,
                ) == Some(name),
    decreases upto,
{
    if upto > 0 {
        lemma_seasons_distinct(entries, show_path, upto - 1);
        let before = seasons(entries, show_path, upto - 1);
        let now = seasons(entries, show_path, upto);
        let e = entries[upto - 1];
        let adds = season_of(e.path, show_path) is Some && is_video_entry(e) && !before.contains(
            season_of(e.path, show_path)->0,
        );
        assert forall|name: Seq<char>| now.contains(name) <==> exists|k: int|
            0 <= k < upto && is_video_entry(#[trigger] entries[k]) && season_of(
                entries[k].path,
                show_path,
            ) == Some(name) by {
            if now.contains(name) {
                if before.contains(name) {
                    let k = choose|k: int|
                        0 <= k < upto - 1 && is_video_entry(#[trigger] entries[k]) && season_of(
                            entries[k].path,
                            show_path,
                        ) == Some(name);
                    assert(0 <= k < upto && is_video_entry(entries[k]));
                } else {
                    assert(adds);
                    let i = choose|i: int| 0 <= i < now.len() && now[i] == name;
                    assert(i == before.len());
                    assert(is_video_entry(entries[upto - 1]));
                }
            }
            if exists|k: int|
                0 <= k < upto && is_video_entry(#[trigger] entries[k]) && season_of(
                    entries[k].path,
                    show_path,
                ) == Some(name) {
                let k = choose|k: int|
                    0 <= k < upto && is_video_entry(#[trigger] entries[k]) && season_of(
                        entries[k].path,
                        show_path,
                    ) == Some(name);
                if k < upto - 1 {
                    assert(before.contains(name));
                    let i = choose|i: int| 0 <= i < before.len() && before[i] == name;
                    assert(now[i] == name);
                } else {
                    if before.contains(name) {
                        let i = choose|i: int| 0 <= i < before.len() && before[i] == name;
                        assert(now[i] == name);
                    } else {
                        assert(now[before.len() as int] == name);
                    }
                }
            }
        }
    }
}

/// Whether an extension is one of a video file, in any case.
pub fn is_video_ext(ext: &str) -> (r: bool)
    ensures
        r == is_video_extension(ext@),
{
    proof {
        reveal_strlit("mkv");
        reveal_strlit("mp4");
        reveal_strlit("avi");
        reveal_strlit("mov");
        reveal_strlit("m4v");
        reveal_strlit("wmv");
        assert("mkv"@ =~= seq!['m', 'k', 'v']);
        assert("mp4"@ =~= seq!['m', 'p', '4']);
        assert("avi"@ =~= seq!['a', 'v', 'i']);
        assert("mov"@ =~= seq!['m', 'o', 'v']);
        assert("m4v"@ =~= seq!['m', '4', 'v']);
        assert("wmv"@ =~= seq!['w', 'm', 'v']);
    }
    eq_ignore_ascii_case(ext, "mkv") || eq_ignore_ascii_case(ext, "mp4") || eq_ignore_ascii_case(
        ext,
        "avi",
    ) || eq_ignore_ascii_case(ext, "mov") || eq_ignore_ascii_case(ext, "m4v")
        || eq_ignore_ascii_case(ext, "wmv")
}

/// Whether a path names a video file, by its extension.
pub fn is_video_file(path: &str) -> (r: bool)
    ensures
        r == is_video_path(path@),
{
    match extension(path) {
        Some(ext) => is_video_ext(ext.as_str()),
        None => false,
    }
}

/// Whether a path names a metadata file, by its extension.
pub fn is_nfo_file(path: &str) -> (r: bool)
    ensures
        r == is_nfo_path(path@),
{
    proof {
        reveal_strlit("nfo");
        assert("nfo"@ =~= seq!['n', 'f', 'o']);
    }
    match extension(path) {
        Some(ext) => eq_ignore_ascii_case(ext.as_str(), "nfo"),
        None => false,
    }
}

/// Whether the file that a path names has the expected name, in any case.
pub fn file_name_equals(path: &str, expected: &str) -> (r: bool)
    ensures
        r == is_named(path@, expected@),
{
    match file_name(path) {
        Some(name) => eq_ignore_ascii_case(name.as_str(), expected),
        None => false,
    }
}

/// Whether a path names the metadata file of an episode.
pub fn is_episode_nfo(path: &str) -> (r: bool)
    ensures
        r == is_episode_nfo_path(path@),
{
    proof {
        reveal_strlit("tvshow.nfo");
        assert("tvshow.nfo"@ =~= show_nfo_name());
    }
    is_nfo_file(path) && !file_name_equals(path, "tvshow.nfo")
}

/// How many of the entries are metadata files of episodes.
pub fn count_episode_nfo_files(entries: &Vec<WalkEntry>) -> (r: u64)
    ensures
        r == episode_nfo_count(entry_views(entries@), entries@.len() as int),
{
    let ghost all = entry_views(entries@);
    let mut count: u64 = 0;
    let mut i: usize = 0;
    while i < entries.len()
        invariant
            i <= entries.len(),
            all == entry_views(entries@),
            count == episode_nfo_count(all, i as int),
            count <= i,
        decreases entries.len() - i,
    {
        assert(all[i as int] == entries@[i as int]@);
        if entries[i].is_file && is_episode_nfo(entries[i].path.as_str()) {
            count = count + 1;
        }
        i = i + 1;
    }
    count
}

/// The season that a file belongs to, given the components of the show
/// directory.
pub fn season_directory(path: &str, show_path: &str) -> (r: Option<String>)
    ensures
        opt_text(r) == season_of(path@, show_path@),
{
    let mut e = split_components(path);
    let s = split_components(show_path);
    let ghost all = texts(e@);
    if e.len() == 0 {
        return None;
    }
    proof {
        reveal_strlit("/");
        reveal_strlit(".");
        reveal_strlit("..");
        assert("/"@ =~= seq!['/']);
        assert("."@ =~= seq!['.']);
        assert(".."@ =~= seq!['.', '.']);
    }
    let last = e.pop().unwrap();
    assert(texts(e@) =~= all.drop_last());
    assert(last@ == all.last());
    if str_eq(last.as_str(), "/") {
        return None;
    }
    if !begins_with(&e, &s) || e.len() <= s.len() {
        return None;
    }
    let name = &e[s.len()];
    assert(name@ == all[s.len() as int]);
    let chars = chars_of(name.as_str());
    let mut has_slash = false;
    let mut k: usize = 0;
    while k < chars.len()
        invariant
            k <= chars.len(),
            chars@ == name@,
            has_slash == exists|j: int| 0 <= j < k && name@[j] == '/',
        decreases chars.len() - k,
    {
        if chars[k] == '/' {
            has_slash = true;
        }
        k = k + 1;
    }
    assert(has_slash == name@.contains('/'));
    if chars.len() == 0 || has_slash || str_eq(name.as_str(), ".") || str_eq(name.as_str(), "..") {
        None
    } else {
        Some(name.clone())
    }
}

/// What the entries of a show directory add up to.
pub fn gather_stats(show_path: &str, entries: &Vec<WalkEntry>) -> (r: ShowStats)
    ensures
        r == stats_of(entry_views(entries@), show_path@),
{
    let ghost all = entry_views(entries@);
    let mut total_bytes: u64 = 0;
    let mut episode_count: u64 = 0;
    let mut season_directories: Vec<String> = Vec::new();
    let mut i: usize = 0;
    assert(texts(season_directories@) =~= seasons(all, show_path@, 0));
    while i < entries.len()
        invariant
            i <= entries.len(),
            all == entry_views(entries@),
            total_bytes == if size_sum(all, i as int) > u64::MAX {
                u64::MAX as int
            } else {
                size_sum(all, i as int)
            },
            episode_count == video_count(all, i as int),
            episode_count <= i,
            texts(season_directories@) == seasons(all, show_path@, i as int),
        decreases entries.len() - i,
    {
        let entry = &entries[i];
        assert(all[i as int] == entry@);
        proof {
            lemma_counts_bounded(all, show_path@, i as int);
        }
        if entry.is_file {
            total_bytes = total_bytes.saturating_add(entry.size);
            if is_video_file(entry.path.as_str()) {
                episode_count = episode_count + 1;
                match season_directory(entry.path.as_str(), show_path) {
                    Some(name) => {
                        if !contains_str(&season_directories, name.as_str()) {
                            proof {
                                lemma_texts_push(season_directories@, name);
                            }
                            season_directories.push(name);
                        }
                    },
                    None => {},
                }
            }
        }
        i = i + 1;
    }
    proof {
        lemma_counts_bounded(all, show_path@, entries.len() as int);
    }
    let named = season_directories.len();
    let season_count: u64 = if named == 0 {
        if episode_count > 0 {
            1
        } else {
            0
        }
    } else {
        named as u64
    };
    ShowStats {
        total_bytes: clamp_to_i64(total_bytes),
        video_episode_count: clamp_to_i64(episode_count),
        season_count: clamp_to_i64(season_count),
    }
}

/// The names under which a show's picture is looked for, in order of
/// preference.
pub open spec fn thumbnail_name(i: int) -> Seq<char> {
    if i == 0 {
        "folder.jpg"@
    } else if i == 1 {
        "poster.jpg"@
    } else if i == 2 {
        "cover.jpg"@
    } else {
        "thumb.jpg"@
    }
}

/// The first of the picture names, from index `from` on, under which a file
/// was found. `found` says for each name, in order, whether a file is there.
pub open spec fn first_found(found: Seq<bool>, from: int) -> Option<int>
    decreases 4 - from,
{
    if from >= 4 || from < 0 || from >= found.len() {
        None
    } else if found[from] {
        Some(from)
    } else {
        first_found(found, from + 1)
    }
}

/// The path of a show's picture: the first of the picture names under which
/// a file was found in the show directory.
pub open spec fn thumbnail_of(show_path: Seq<char>, found: Seq<bool>) -> Option<Seq<char>> {
    match first_found(found, 0) {
        Some(i) => Some(joined_path(show_path, thumbnail_name(i))),
        None => None,
    }
}

/// The name under which a show's picture is looked for at a place in the
/// order of preference.
pub fn thumbnail_file_name(i: usize) -> (r: &'static str)
    ensures
        r@ == thumbnail_name(i as int),
{
    if i == 0 {
        "folder.jpg"
    } else if i == 1 {
        "poster.jpg"
    } else if i == 2 {
        "cover.jpg"
    } else {
        "thumb.jpg"
    }
}

/// The paths at which a show's picture is looked for, in order of
/// preference.
pub fn thumbnail_candidates(show_path: &str) -> (r: Vec<String>)
    ensures
        r@.len() == 4,
        forall|i: int| 0 <= i < 4 ==> (#[trigger] r@[i])@ == joined_path(
            show_path@,
            thumbnail_name(i),
        ),
{
    let mut out: Vec<String> = Vec::new();
    let mut i: usize = 0;
    while i < 4
        invariant
            i <= 4,
            out@.len() == i,
            forall|k: int| 0 <= k < i ==> (#[trigger] out@[k])@ == joined_path(
                show_path@,
                thumbnail_name(k),
            ),
        decreases 4 - i,
    {
        out.push(join_path(show_path, thumbnail_file_name(i)));
        i = i + 1;
    }
    out
}

/// The path of a show's picture, given for each picture name, in order,
/// whether a file of that name is in the show directory.
pub fn find_thumbnail(show_path: &str, found: &Vec<bool>) -> (r: Option<String>)
    ensures
        opt_text(r) == thumbnail_of(show_path@, found@),
{
    let mut i: usize = 0;
    while i < 4 && i < found.len()
        invariant
            i <= 4,
            first_found(found@, 0) == first_found(found@, i as int),
        decreases 4 - i,
    {
        if found[i] {
            return Some(join_path(show_path, thumbnail_file_name(i)));
        }
        i = i + 1;
    }
    None
}

/// What was read of one show directory.
#[derive(Debug, Clone)]
pub struct ShowFacts {
    /// The directory's path.
    pub path: String,
    /// The text of the show's metadata file, where one could be read.
    pub nfo: Option<String>,
    /// The entries of the walk of the directory.
    pub entries: Vec<WalkEntry>,
    /// For each picture name, in order, whether a file of that name is in
    /// the directory.
    pub thumbnails: Vec<bool>,
}

/// The title that a show's metadata file gives, where there is a file.
pub open spec fn nfo_title(nfo: Option<Seq<char>>) -> Option<Seq<char>> {
    match nfo {
        Some(content) => title_of(content),
        None => None,
    }
}

/// The number of episodes of a show: the number of metadata files of
/// episodes where there are any, else the number of video files.
pub open spec fn episodes_of(entries: Seq<EntryView>, show_path: Seq<char>) -> i64 {
    let by_nfo = episode_nfo_count(entries, entries.len() as int);
    if by_nfo > 0 {
        capped(by_nfo)
    } else {
        stats_of(entries, show_path).video_episode_count
    }
}

/// What a scan derives for a show directory, or nothing where the
/// directory's path ends in no name.
pub open spec fn candidate_of(
    show_path: Seq<char>,
    nfo: Option<Seq<char>>,
    entries: Seq<EntryView>,
    found: Seq<bool>,
    hot_root: Option<Seq<char>>,
    cold_root: Option<Seq<char>>,
) -> Option<CandidateView> {
    match file_name_of(show_path) {
        None => None,
        Some(folder) => {
            let stats = stats_of(entries, show_path);
            Some(
                CandidateView {
                    title: match nfo_title(nfo) {
                        Some(title) => title,
                        None => folder,
                    },
                    path: show_path,
                    location: location_of(show_path, hot_root, cold_root),
                    size_bytes: stats.total_bytes,
                    season_count: stats.season_count,
                    episode_count: episodes_of(entries, show_path),
                    thumbnail_path: thumbnail_of(show_path, found),
                    source: if nfo_title(nfo) is Some {
                        Provenance::FsScanNfo
                    } else {
                        Provenance::FsScan
                    },
                },
            )
        },
    }
}

/// What a scan derives for a show directory.
///
/// The title is the one that the show's metadata file gives, else the name
/// of the directory. The number of episodes is that of the metadata files of
/// episodes where there are any, else that of the video files.
pub fn build_show_candidate(
    facts: &ShowFacts,
    hot_root: &Option<String>,
    cold_root: &Option<String>,
) -> (r: Option<ShowCandidate>)
    ensures
        match candidate_of(
            facts.path@,
            opt_text(facts.nfo),
            entry_views(facts.entries@),
            facts.thumbnails@,
            opt_text(*hot_root),
            opt_text(*cold_root),
        ) {
            Some(c) => r matches Some(built) && built@ == c,
            None => r is None,
        },
{
    let folder_title = match file_name(facts.path.as_str()) {
        Some(name) => name,
        None => {
            return None;
        },
    };
    let title_from_nfo = match &facts.nfo {
        Some(content) => extract_title_from_nfo(content.as_str()),
        None => None,
    };
    let (title, source) = match title_from_nfo {
        Some(t) => (t, Provenance::FsScanNfo),
        None => (folder_title, Provenance::FsScan),
    };
    let stats = gather_stats(facts.path.as_str(), &facts.entries);
    let nfo_episode_count = count_episode_nfo_files(&facts.entries);
    let episode_count = if nfo_episode_count > 0 {
        clamp_to_i64(nfo_episode_count)
    } else {
        stats.video_episode_count
    };
    Some(
        ShowCandidate {
            title,
            path: facts.path.clone(),
            location: determine_location(facts.path.as_str(), hot_root, cold_root),
            size_bytes: stats.total_bytes,
            season_count: stats.season_count,
            episode_count,
            thumbnail_path: find_thumbnail(facts.path.as_str(), &facts.thumbnails),
            source,
        },
    )
}

/// The views of a list of candidates.
pub open spec fn candidate_views(items: Seq<ShowCandidate>) -> Seq<CandidateView> {
    Seq::new(items.len(), |i: int| items[i]@)
}

/// What a scan derives for the first `upto` show directories of a library,
/// in order, without those whose path ends in no name.
pub open spec fn library_candidates(
    found: Seq<ShowFacts>,
    hot_root: Option<Seq<char>>,
    cold_root: Option<Seq<char>>,
    upto: int,
) -> Seq<CandidateView>
    decreases upto,
{
    if upto <= 0 {
        seq![]
    } else {
        let before = library_candidates(found, hot_root, cold_root, upto - 1);
        let f = found[upto - 1];
        match candidate_of(
            f.path@,
            opt_text(f.nfo),
            entry_views(f.entries@),
            f.thumbnails@,
            hot_root,
            cold_root,
        ) {
            Some(c) => before.push(c),
            None => before,
        }
    }
}

/// What a scan derives for the show directories of a library.
pub fn scan_library(found: &Vec<ShowFacts>, hot_root: &Option<String>, cold_root: &Option<String>) -> (r:
    Vec<ShowCandidate>)
    ensures
        candidate_views(r@) == library_candidates(
            found@,
            opt_text(*hot_root),
            opt_text(*cold_root),
            found@.len() as int,
        ),
{
    let mut shows: Vec<ShowCandidate> = Vec::new();
    let mut i: usize = 0;
    assert(candidate_views(shows@) =~= Seq::<CandidateView>::empty());
    while i < found.len()
        invariant
            i <= found.len(),
            candidate_views(shows@) == library_candidates(
                found@,
                opt_text(*hot_root),
                opt_text(*cold_root),
                i as int,
            ),
        decreases found.len() - i,
    {
        let ghost before = candidate_views(shows@);
        match build_show_candidate(&found[i], hot_root, cold_root) {
            Some(candidate) => {
                shows.push(candidate);
                assert(candidate_views(shows@) =~= before.push(candidate@));
            },
            None => {},
        }
        i = i + 1;
    }
    shows
}

/// A configured root without the whitespace around it, or nothing where the
/// setting is blank.
pub fn sanitize_root(value: &str) -> (r: Option<String>)
    ensures
        opt_text(r) == root_of(value@),
{
    trimmed_root(value)
}

/// The library paths that are set among the first `upto`: each without the
/// whitespace around it, once, in the order in which they are first met.
pub open spec fn explicit_libraries(paths: Seq<Seq<char>>, upto: int) -> Seq<Seq<char>>
    decreases upto,
{
    if upto <= 0 {
        seq![]
    } else {
        let before = explicit_libraries(paths, upto - 1);
        let p = paths[upto - 1];
        if is_blank(p) || before.contains(trimmed(p)) {
            before
        } else {
            before.push(trimmed(p))
        }
    }
}

/// A list with one more path, unless it holds the path already.
pub open spec fn with_path(libraries: Seq<Seq<char>>, path: Seq<char>) -> Seq<Seq<char>> {
    if libraries.contains(path) {
        libraries
    } else {
        libraries.push(path)
    }
}

/// A list with one more path, where there is one to add.
pub open spec fn with_root(libraries: Seq<Seq<char>>, root: Option<Seq<char>>) -> Seq<Seq<char>> {
    match root {
        Some(path) => with_path(libraries, path),
        None => libraries,
    }
}

/// The roots that a scan lists: the library paths that are set, or where
/// none is set, the hot root and the cold root.
pub open spec fn library_roots(
    paths: Seq<Seq<char>>,
    hot_root: Option<Seq<char>>,
    cold_root: Option<Seq<char>>,
) -> Seq<Seq<char>> {
    let explicit = explicit_libraries(paths, paths.len() as int);
    if explicit.len() > 0 {
        explicit
    } else {
        with_root(with_root(seq![], hot_root), cold_root)
    }
}

/// Adds a path to the list of libraries, unless the list holds it already.
pub fn push_library_path(libraries: &mut Vec<String>, path: String)
    ensures
        texts(final(libraries)@) == with_path(texts(old(libraries)@), path@),
{
    if !contains_str(libraries, path.as_str()) {
        proof {
            lemma_texts_push(libraries@, path);
        }
        libraries.push(path);
    }
}

/// The roots that a scan lists.
pub fn resolve_library_paths(
    config: &Config,
    hot_root: &Option<String>,
    cold_root: &Option<String>,
) -> (r: Vec<String>)
    ensures
        texts(r@) == library_roots(
            texts(config.library_paths@),
            opt_text(*hot_root),
            opt_text(*cold_root),
        ),
{
    let mut libraries: Vec<String> = Vec::new();
    let ghost paths = texts(config.library_paths@);
    let mut i: usize = 0;
    assert(texts(libraries@) =~= explicit_libraries(paths, 0));
    while i < config.library_paths.len()
        invariant
            i <= config.library_paths.len(),
            paths == texts(config.library_paths@),
            texts(libraries@) == explicit_libraries(paths, i as int),
        decreases config.library_paths.len() - i,
    {
        let t = trim(config.library_paths[i].as_str());
        assert(paths[i as int] == config.library_paths@[i as int]@);
        if t.unicode_len() != 0 {
            push_library_path(&mut libraries, t.to_owned());
        }
        i = i + 1;
    }
    if libraries.len() == 0 {
        assert(texts(libraries@) =~= Seq::<Seq<char>>::empty());
        if let Some(path) = hot_root {
            push_library_path(&mut libraries, path.clone());
        }
        if let Some(path) = cold_root {
            push_library_path(&mut libraries, path.clone());
        }
    }
    libraries
}

/// Why a scan stopped.
#[derive(Debug, Clone)]
pub enum ScanError {
    /// The store failed, with its words.
    Database(String),
}

/// What listing a library root came to.
#[derive(Debug, Clone)]
pub enum LibraryListing {
    /// The root is not there, or is no directory. It is passed over.
    Missing,
    /// The root is there and could not be listed, with the error's words.
    Unreadable(String),
    /// The shows that were found under the root.
    Shows(Vec<ShowCandidate>),
}

/// The candidates that a listing holds.
pub open spec fn listed(listing: LibraryListing) -> Seq<CandidateView> {
    match listing {
        LibraryListing::Shows(shows) => candidate_views(shows@),
        _ => seq![],
    }
}

/// The index and the counts in the course of a scan.
pub struct ScanTally {
    pub rows: Seq<ShowView>,
    pub next_id: i64,
    /// Library roots that were there to be listed.
    pub libraries: int,
    /// Shows that were handed to the index.
    pub processed: int,
    pub inserted: int,
    pub updated: int,
    /// Whether the scan has stopped because the index had no id left.
    pub stopped: bool,
}

/// The state in which a scan of the given index begins.
pub open spec fn scan_start(rows: Seq<ShowView>, next_id: i64) -> ScanTally {
    ScanTally { rows, next_id, libraries: 0, processed: 0, inserted: 0, updated: 0, stopped: false }
}

/// Whether a row has the path.
pub open spec fn has_path(rows: Seq<ShowView>, path: Seq<char>) -> bool {
    position_of_path(rows, path, 0) < rows.len()
}

/// The state after one more candidate is handed to the index.
pub open spec fn scan_step(st: ScanTally, c: CandidateView, now: i64) -> ScanTally {
    if st.stopped {
        st
    } else if has_path(st.rows, c.path) {
        ScanTally {
            rows: upserted(st.rows, st.next_id, c, now),
            processed: st.processed + 1,
            updated: st.updated + 1,
            ..st
        }
    } else if st.next_id == i64::MAX {
        ScanTally { processed: st.processed + 1, stopped: true, ..st }
    } else {
        ScanTally {
            rows: upserted(st.rows, st.next_id, c, now),
            next_id: (st.next_id + 1) as i64,
            processed: st.processed + 1,
            inserted: st.inserted + 1,
            ..st
        }
    }
}

/// The state after the first `upto` candidates are handed to the index.
pub open spec fn scan_shows(st: ScanTally, shows: Seq<CandidateView>, upto: int, now: i64) -> ScanTally
    decreases upto,
{
    if upto <= 0 {
        st
    } else {
        scan_step(scan_shows(st, shows, upto - 1, now), shows[upto - 1], now)
    }
}

/// The state after one more library root is gone through.
pub open spec fn scan_listing(st: ScanTally, listing: LibraryListing, now: i64) -> ScanTally {
    if st.stopped {
        st
    } else {
        match listing {
            LibraryListing::Missing => st,
            LibraryListing::Unreadable(_) => ScanTally { libraries: st.libraries + 1, ..st },
            LibraryListing::Shows(shows) => scan_shows(
                ScanTally { libraries: st.libraries + 1, ..st },
                candidate_views(shows@),
                shows@.len() as int,
                now,
            ),
        }
    }
}

/// The state after the first `upto` library roots are gone through.
pub open spec fn scan_all(st: ScanTally, listings: Seq<LibraryListing>, upto: int, now: i64) -> ScanTally
    decreases upto,
{
    if upto <= 0 {
        st
    } else {
        scan_listing(scan_all(st, listings, upto - 1, now), listings[upto - 1], now)
    }
}

/// How many shows the first `upto` listings hold.
pub open spec fn shows_listed(listings: Seq<LibraryListing>, upto: int) -> int
    decreases upto,
{
    if upto <= 0 {
        0
    } else {
        shows_listed(listings, upto - 1) + listed(listings[upto - 1]).len()
    }
}

/// The words of the failure to store a show for want of an id.
pub open spec fn index_full_words() -> Seq<char> {
    "no show id is left"@
}

/// Stores a candidate in the index.
pub fn upsert_show(index: &mut IndexStore, show: &ShowCandidate, now: i64) -> (r: Result<
    UpsertResult,
    ScanError,
>)
    requires
        old(index).wf(),
    ensures
        final(index).wf(),
        ({
            let before = scan_start(old(index)@, old(index).next_id());
            let after = scan_step(before, show@, now);
            &&& final(index)@ == after.rows
            &&& final(index).next_id() == after.next_id
            &&& r is Err <==> after.stopped
            &&& r matches Err(ScanError::Database(m)) ==> m@ == index_full_words()
            &&& r == Ok::<UpsertResult, ScanError>(UpsertResult::Inserted) <==> after.inserted == 1
            &&& r == Ok::<UpsertResult, ScanError>(UpsertResult::Updated) <==> after.updated == 1
        }),
{
    match index.upsert(show, now) {
        Ok(outcome) => Ok(outcome),
        Err(_) => Err(ScanError::Database("no show id is left".to_owned())),
    }
}

/// The counts of a summary and the index as a state of the scan.
pub open spec fn state_of(index: IndexStore, summary: ScanSummary, stopped: bool) -> ScanTally {
    ScanTally {
        rows: index@,
        next_id: index.next_id(),
        libraries: summary.scanned_libraries as int,
        processed: summary.shows_processed as int,
        inserted: summary.inserted as int,
        updated: summary.updated as int,
        stopped,
    }
}

pub proof fn lemma_scan_shows_counts(st: ScanTally, shows: Seq<CandidateView>, upto: int, now: i64)
    requires
        0 <= upto <= shows.len(),
        0 <= st.inserted,
        0 <= st.updated,
        0 <= st.processed,
    ensures
        ({
            let after = scan_shows(st, shows, upto, now);
            &&& after.libraries == st.libraries
            &&& st.processed <= after.processed <= st.processed + upto
            &&& st.inserted <= after.inserted
            &&& st.updated <= after.updated
            &&& after.inserted - st.inserted + after.updated - st.updated <= after.processed
                - st.processed
            &&& !after.stopped ==> after.processed == st.processed + upto
            &&& !after.stopped ==> after.inserted - st.inserted + after.updated - st.updated == upto
            &&& st.stopped ==> after == st
            &&& !after.stopped ==> !st.stopped
        }),
    decreases upto,
{
    if upto > 0 {
        lemma_scan_shows_counts(st, shows, upto - 1, now);
    }
}

/// Hands the shows of one library to the index and counts them.
fn scan_candidates(
    index: &mut IndexStore,
    shows: &Vec<ShowCandidate>,
    summary: &mut ScanSummary,
    now: i64,
) -> (r: Result<(), ScanError>)
    requires
        old(index).wf(),
        old(summary).shows_processed + shows@.len() <= usize::MAX,
        old(summary).inserted + old(summary).updated <= old(summary).shows_processed,
    ensures
        final(index).wf(),
        ({
            let after = scan_shows(
                state_of(*old(index), *old(summary), false),
                candidate_views(shows@),
                shows@.len() as int,
                now,
            );
            &&& r is Err <==> after.stopped
            &&& r matches Err(ScanError::Database(m)) ==> m@ == index_full_words()
            &&& state_of(*final(index), *final(summary), after.stopped) == after
            &&& final(summary).inserted + final(summary).updated <= final(summary).shows_processed
        }),
{
    let ghost start = state_of(*index, *summary, false);
    let ghost all = candidate_views(shows@);
    let mut i: usize = 0;
    while i < shows.len()
        invariant
            i <= shows.len(),
            index.wf(),
            all == candidate_views(shows@),
            start.processed + shows@.len() <= usize::MAX,
            start.inserted + start.updated <= start.processed,
            0 <= start.inserted,
            0 <= start.updated,
            0 <= start.processed,
            !start.stopped,
            start == state_of(*old(index), *old(summary), false),
            summary.inserted + summary.updated <= summary.shows_processed,
            state_of(*index, *summary, false) == scan_shows(start, all, i as int, now),
        decreases shows.len() - i,
    {
        proof {
            lemma_scan_shows_counts(start, all, i as int, now);
            lemma_scan_shows_counts(start, all, i + 1, now);
        }
        let ghost before = state_of(*index, *summary, false);
        assert(all[i as int] == shows@[i as int]@);
        summary.shows_processed = summary.shows_processed + 1;
        match upsert_show(index, &shows[i], now) {
            Ok(UpsertResult::Inserted) => {
                summary.inserted = summary.inserted + 1;
            },
            Ok(UpsertResult::Updated) => {
                summary.updated = summary.updated + 1;
            },
            Err(e) => {
                proof {
                    let stop = scan_shows(start, all, i + 1, now);
                    assert(stop == scan_step(before, all[i as int], now));
                    assert(stop.stopped);
                    assert(state_of(*index, *summary, true) == stop);
                    lemma_stopped_scan_stays(stop, all, i + 1, shows@.len() as int, start, now);
                }
                return Err(e);
            },
        }
        i = i + 1;
    }
    Ok(())
}

/// Once a scan has stopped, further candidates change nothing.
pub proof fn lemma_stopped_scan_stays(
    stop: ScanTally,
    shows: Seq<CandidateView>,
    at: int,
    upto: int,
    start: ScanTally,
    now: i64,
)
    requires
        0 <= at <= upto,
        stop == scan_shows(start, shows, at, now),
        stop.stopped,
    ensures
        scan_shows(start, shows, upto, now) == stop,
    decreases upto - at,
{
    if at < upto {
        lemma_stopped_scan_stays(stop, shows, at, upto - 1, start, now);
    }
}

/// Goes through what listing the library roots came to: hands every show
/// that was found to the index, each for itself, and counts. A show that the
/// index cannot take stops the scan; what was stored before stays stored.
pub fn run_scan(index: &mut IndexStore, listings: &Vec<LibraryListing>, now: i64) -> (r: Result<
    ScanSummary,
    ScanError,
>)
    requires
        old(index).wf(),
        shows_listed(listings@, listings@.len() as int) <= usize::MAX,
    ensures
        final(index).wf(),
        ({
            let after = scan_all(
                scan_start(old(index)@, old(index).next_id()),
                listings@,
                listings@.len() as int,
                now,
            );
            &&& final(index)@ == after.rows
            &&& final(index).next_id() == after.next_id
            &&& r is Err <==> after.stopped
            &&& r matches Err(ScanError::Database(m)) ==> m@ == index_full_words()
            &&& r matches Ok(summary) ==> state_of(*final(index), summary, false) == after
        }),
{
    let mut summary = ScanSummary {
        scanned_libraries: 0,
        shows_processed: 0,
        inserted: 0,
        updated: 0,
    };
    let ghost start = scan_start(index@, index.next_id());
    let mut i: usize = 0;
    while i < listings.len()
        invariant
            i <= listings.len(),
            index.wf(),
            shows_listed(listings@, listings@.len() as int) <= usize::MAX,
            summary.scanned_libraries <= i,
            summary.shows_processed <= shows_listed(listings@, i as int),
            summary.inserted + summary.updated <= summary.shows_processed,
            start == scan_start(old(index)@, old(index).next_id()),
            state_of(*index, summary, false) == scan_all(start, listings@, i as int, now),
        decreases listings.len() - i,
    {
        proof {
            lemma_shows_listed_grows(listings@, i + 1, listings@.len() as int);
        }
        match &listings[i] {
            LibraryListing::Missing => {},
            LibraryListing::Unreadable(_) => {
                summary.scanned_libraries = summary.scanned_libraries + 1;
            },
            LibraryListing::Shows(shows) => {
                summary.scanned_libraries = summary.scanned_libraries + 1;
                proof {
                    lemma_scan_shows_counts(
                        state_of(*index, summary, false),
                        candidate_views(shows@),
                        shows@.len() as int,
                        now,
                    );
                }
                match scan_candidates(index, shows, &mut summary, now) {
                    Ok(()) => {},
                    Err(e) => {
                        proof {
                            let stop = scan_all(start, listings@, i + 1, now);
                            assert(stop.stopped);
                            assert(state_of(*index, summary, true) == stop);
                            lemma_stopped_scan_all_stays(
                                stop,
                                listings@,
                                i + 1,
                                listings@.len() as int,
                                start,
                                now,
                            );
                        }
                        return Err(e);
                    },
                }
            },
        }
        i = i + 1;
    }
    Ok(summary)
}

pub proof fn lemma_shows_listed_grows(listings: Seq<LibraryListing>, a: int, b: int)
    requires
        0 <= a <= b <= listings.len(),
    ensures
        0 <= shows_listed(listings, a) <= shows_listed(listings, b),
    decreases b,
{
    if a < b {
        lemma_shows_listed_grows(listings, a, b - 1);
    } else if a > 0 {
        lemma_shows_listed_grows(listings, a - 1, a - 1);
    }
}

/// Once a scan has stopped, further library roots change nothing.
pub proof fn lemma_stopped_scan_all_stays(
    stop: ScanTally,
    listings: Seq<LibraryListing>,
    at: int,
    upto: int,
    start: ScanTally,
    now: i64,
)
    requires
        0 <= at <= upto,
        stop == scan_all(start, listings, at, now),
        stop.stopped,
    ensures
        scan_all(start, listings, upto, now) == stop,
    decreases upto - at,
{
    if at < upto {
        lemma_stopped_scan_all_stays(stop, listings, at, upto - 1, start, now);
    }
}

/// A table has a path exactly when one of its rows does.
pub proof fn lemma_has_path(rows: Seq<ShowView>, path: Seq<char>)
    ensures
        has_path(rows, path) <==> exists|i: int| 0 <= i < rows.len() && (#[trigger] rows[i]).path
            == path,
{
    lemma_position_of_path(rows, path, 0);
    let at = position_of_path(rows, path, 0);
    if at < rows.len() {
        assert(rows[at].path == path);
    }
}

/// Whether the index has a row for each of the candidates.
pub open spec fn holds_all(rows: Seq<ShowView>, shows: Seq<CandidateView>) -> bool {
    forall|k: int| 0 <= k < shows.len() ==> has_path(rows, (#[trigger] shows[k]).path)
}

/// Whether the index has a row for each candidate of the first `upto`
/// listings.
pub open spec fn holds_listed(rows: Seq<ShowView>, listings: Seq<LibraryListing>, upto: int) -> bool {
    forall|j: int| 0 <= j < upto ==> holds_all(rows, listed(#[trigger] listings[j]))
}

/// Handing a candidate to the index takes no path out of it, and unless the
/// scan stops, puts the candidate's path into it.
pub proof fn lemma_step_keeps_paths(st: ScanTally, c: CandidateView, now: i64)
    ensures
        forall|p: Seq<char>|
            has_path(st.rows, p) ==> #[trigger] has_path(scan_step(st, c, now).rows, p),
        !scan_step(st, c, now).stopped ==> has_path(scan_step(st, c, now).rows, c.path),
        st.stopped ==> scan_step(st, c, now).stopped,
{
    let after = scan_step(st, c, now);
    lemma_position_of_path(st.rows, c.path, 0);
    let at = position_of_path(st.rows, c.path, 0);
    assert forall|p: Seq<char>| has_path(st.rows, p) implies #[trigger] has_path(after.rows, p) by {
        lemma_has_path(st.rows, p);
        lemma_has_path(after.rows, p);
        let i = choose|i: int| 0 <= i < st.rows.len() && (#[trigger] st.rows[i]).path == p;
        assert(after.rows[i].path == p);
    }
    if !after.stopped {
        lemma_has_path(after.rows, c.path);
        if st.stopped {
        } else if at < st.rows.len() {
            assert(after.rows[at].path == c.path);
        } else {
            assert(after.rows[st.rows.len() as int].path == c.path);
        }
    }
}

/// Handing candidates to the index takes no path out of it, and unless the
/// scan stops, the index then has a row for each of them.
pub proof fn lemma_shows_keep_paths(st: ScanTally, shows: Seq<CandidateView>, upto: int, now: i64)
    requires
        0 <= upto <= shows.len(),
    ensures
        forall|p: Seq<char>|
            has_path(st.rows, p) ==> #[trigger] has_path(scan_shows(st, shows, upto, now).rows, p),
        !scan_shows(st, shows, upto, now).stopped ==> holds_all(
            scan_shows(st, shows, upto, now).rows,
            shows.take(upto),
        ),
        st.stopped ==> scan_shows(st, shows, upto, now).stopped,
    decreases upto,
{
    if upto > 0 {
        let prev = scan_shows(st, shows, upto - 1, now);
        let after = scan_shows(st, shows, upto, now);
        lemma_shows_keep_paths(st, shows, upto - 1, now);
        lemma_step_keeps_paths(prev, shows[upto - 1], now);
        assert forall|p: Seq<char>| has_path(st.rows, p) implies #[trigger] has_path(
            after.rows,
            p,
        ) by {
            assert(has_path(prev.rows, p));
        }
        if !after.stopped {
            assert forall|k: int| 0 <= k < upto implies has_path(
                after.rows,
                (#[trigger] shows.take(upto)[k]).path,
            ) by {
                if k < upto - 1 {
                    assert(shows.take(upto - 1)[k] == shows[k]);
                    assert(has_path(prev.rows, shows[k].path));
                }
            }
        }
    }
}

/// Going through a library root takes no path out of the index, and unless
/// the scan stops, the index then has a row for each show of the listing.
pub proof fn lemma_listing_keeps_paths(st: ScanTally, listing: LibraryListing, now: i64)
    ensures
        forall|p: Seq<char>|
            has_path(st.rows, p) ==> #[trigger] has_path(scan_listing(st, listing, now).rows, p),
        !scan_listing(st, listing, now).stopped ==> holds_all(
            scan_listing(st, listing, now).rows,
            listed(listing),
        ),
        st.stopped ==> scan_listing(st, listing, now).stopped,
{
    if !st.stopped {
        match listing {
            LibraryListing::Shows(shows) => {
                let views = candidate_views(shows@);
                lemma_shows_keep_paths(
                    ScanTally { libraries: st.libraries + 1, ..st },
                    views,
                    views.len() as int,
                    now,
                );
                assert(views.take(views.len() as int) =~= views);
            },
            _ => {},
        }
    }
}

/// A scan takes no path out of the index, and unless it stops, the index
/// then has a row for each show that was listed.
pub proof fn lemma_scan_keeps_paths(st: ScanTally, listings: Seq<LibraryListing>, upto: int, now: i64)
    requires
        0 <= upto <= listings.len(),
    ensures
        forall|p: Seq<char>|
            has_path(st.rows, p) ==> #[trigger] has_path(
                scan_all(st, listings, upto, now).rows,
                p,
            ),
        !scan_all(st, listings, upto, now).stopped ==> holds_listed(
            scan_all(st, listings, upto, now).rows,
            listings,
            upto,
        ),
        st.stopped ==> scan_all(st, listings, upto, now).stopped,
    decreases upto,
{
    if upto > 0 {
        let prev = scan_all(st, listings, upto - 1, now);
        let after = scan_all(st, listings, upto, now);
        lemma_scan_keeps_paths(st, listings, upto - 1, now);
        lemma_listing_keeps_paths(prev, listings[upto - 1], now);
        assert forall|p: Seq<char>| has_path(st.rows, p) implies #[trigger] has_path(
            after.rows,
            p,
        ) by {
            assert(has_path(prev.rows, p));
        }
        if !after.stopped {
            assert forall|j: int| 0 <= j < upto implies holds_all(
                after.rows,
                listed(#[trigger] listings[j]),
            ) by {
                if j < upto - 1 {
                    assert(holds_all(prev.rows, listed(listings[j])));
                }
            }
        }
    }
}

/// Candidates that the index has rows for are all updates: none is
/// inserted, no id is used, and the table keeps its paths.
pub proof fn lemma_known_shows_update(st: ScanTally, shows: Seq<CandidateView>, upto: int, now: i64)
    requires
        0 <= upto <= shows.len(),
        !st.stopped,
        holds_all(st.rows, shows),
    ensures
        ({
            let after = scan_shows(st, shows, upto, now);
            &&& !after.stopped
            &&& after.inserted == st.inserted
            &&& after.updated == st.updated + upto
            &&& after.processed == st.processed + upto
            &&& after.libraries == st.libraries
            &&& after.next_id == st.next_id
            &&& after.rows.len() == st.rows.len()
            &&& forall|p: Seq<char>| has_path(st.rows, p) ==> #[trigger] has_path(after.rows, p)
        }),
    decreases upto,
{
    if upto > 0 {
        let prev = scan_shows(st, shows, upto - 1, now);
        lemma_known_shows_update(st, shows, upto - 1, now);
        lemma_step_keeps_paths(prev, shows[upto - 1], now);
        assert(has_path(st.rows, shows[upto - 1].path));
        assert(has_path(prev.rows, shows[upto - 1].path));
        let after = scan_shows(st, shows, upto, now);
        lemma_position_of_path(prev.rows, shows[upto - 1].path, 0);
        assert forall|p: Seq<char>| has_path(st.rows, p) implies #[trigger] has_path(
            after.rows,
            p,
        ) by {
            assert(has_path(prev.rows, p));
        }
    }
}

/// A scan of listings whose shows the index has rows for only updates.
pub proof fn lemma_known_listings_update(
    st: ScanTally,
    listings: Seq<LibraryListing>,
    upto: int,
    now: i64,
)
    requires
        0 <= upto <= listings.len(),
        !st.stopped,
        holds_listed(st.rows, listings, listings.len() as int),
    ensures
        ({
            let after = scan_all(st, listings, upto, now);
            &&& !after.stopped
            &&& after.inserted == st.inserted
            &&& after.updated == st.updated + shows_listed(listings, upto)
            &&& after.processed == st.processed + shows_listed(listings, upto)
            &&& after.next_id == st.next_id
            &&& after.rows.len() == st.rows.len()
            &&& forall|p: Seq<char>| has_path(st.rows, p) ==> #[trigger] has_path(after.rows, p)
        }),
    decreases upto,
{
    if upto > 0 {
        let prev = scan_all(st, listings, upto - 1, now);
        lemma_known_listings_update(st, listings, upto - 1, now);
        let listing = listings[upto - 1];
        assert(holds_all(st.rows, listed(listing)));
        match listing {
            LibraryListing::Shows(shows) => {
                let views = candidate_views(shows@);
                let begin = ScanTally { libraries: prev.libraries + 1, ..prev };
                assert forall|k: int| 0 <= k < views.len() implies has_path(
                    begin.rows,
                    (#[trigger] views[k]).path,
                ) by {
                    assert(has_path(st.rows, views[k].path));
                }
                lemma_known_shows_update(begin, views, views.len() as int, now);
            },
            _ => {},
        }
        let after = scan_all(st, listings, upto, now);
        assert forall|p: Seq<char>| has_path(st.rows, p) implies #[trigger] has_path(
            after.rows,
            p,
        ) by {
            assert(has_path(prev.rows, p));
        }
    }
}

/// A scan that follows a scan of the same listings, with nothing changed in
/// between, inserts nothing and updates every show that was listed.
pub proof fn lemma_second_scan_only_updates(
    rows: Seq<ShowView>,
    next_id: i64,
    listings: Seq<LibraryListing>,
    first_now: i64,
    second_now: i64,
)
    requires
        !scan_all(scan_start(rows, next_id), listings, listings.len() as int, first_now).stopped,
    ensures
        ({
            let first = scan_all(
                scan_start(rows, next_id),
                listings,
                listings.len() as int,
                first_now,
            );
            let second = scan_all(
                scan_start(first.rows, first.next_id),
                listings,
                listings.len() as int,
                second_now,
            );
            &&& !second.stopped
            &&& second.inserted == 0
            &&& second.updated == shows_listed(listings, listings.len() as int)
            &&& second.processed == shows_listed(listings, listings.len() as int)
            &&& second.rows.len() == first.rows.len()
            &&& second.next_id == first.next_id
        }),
{
    let n = listings.len() as int;
    let first = scan_all(scan_start(rows, next_id), listings, n, first_now);
    lemma_scan_keeps_paths(scan_start(rows, next_id), listings, n, first_now);
    lemma_known_listings_update(scan_start(first.rows, first.next_id), listings, n, second_now);
}

} // verus!
