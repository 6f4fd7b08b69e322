//! The index of discovered shows: one row for each show directory, found
//! again by its path.

use vstd::prelude::*;
use crate::config::opt_text;
use crate::text::str_eq;
use crate::tier::Tier;

verus! {

/// Where a show's title was taken from.
#[derive(Clone, Copy, Debug, PartialEq, Eq, Structural)]
pub enum Provenance {
    /// The name of the show's directory.
    FsScan,
    /// The show's metadata file.
    FsScanNfo,
}

impl Provenance {
    /// The token that stands for this source in stored rows.
    pub open spec fn token(self) -> Seq<char> {
        match self {
            Provenance::FsScan => "fs_scan"@,
            Provenance::FsScanNfo => "fs_scan_nfo"@,
        }
    }

    /// The token that stands for this source in stored rows.
    pub fn as_str(&self) -> (r: &'static str)
        ensures
            r@ == self.token(),
    {
        match self {
            Provenance::FsScan => "fs_scan",
            Provenance::FsScanNfo => "fs_scan_nfo",
        }
    }

    /// The source that a stored token stands for.
    pub fn from_token(token: &str) -> (r: Option<Provenance>)
        ensures
            r == if token@ == "fs_scan"@ {
                Some(Provenance::FsScan)
            } else if token@ == "fs_scan_nfo"@ {
                Some(Provenance::FsScanNfo)
            } else {
                None
            },
    {
        if str_eq(token, "fs_scan") {
            Some(Provenance::FsScan)
        } else if str_eq(token, "fs_scan_nfo") {
            Some(Provenance::FsScanNfo)
        } else {
            None
        }
    }
}

/// What a scan derived for one show directory, before it is stored.
#[derive(Debug, Clone)]
pub struct ShowCandidate {
    pub title: String,
    pub path: String,
    pub location: Option<Tier>,
    pub size_bytes: i64,
    pub season_count: i64,
    pub episode_count: i64,
    pub thumbnail_path: Option<String>,
    pub source: Provenance,
}

/// A candidate as plain values.
pub struct CandidateView {
    pub title: Seq<char>,
    pub path: Seq<char>,
    pub location: Option<Tier>,
    pub size_bytes: i64,
    pub season_count: i64,
    pub episode_count: i64,
    pub thumbnail_path: Option<Seq<char>>,
    pub source: Provenance,
}

impl View for ShowCandidate {
    type V = CandidateView;

    open spec fn view(&self) -> CandidateView {
        CandidateView {
            title: self.title@,
            path: self.path@,
            location: self.location,
            size_bytes: self.size_bytes,
            season_count: self.season_count,
            episode_count: self.episode_count,
            thumbnail_path: opt_text(self.thumbnail_path),
            source: self.source,
        }
    }
}

/// One row of the index.
#[derive(Debug, Clone)]
pub struct ShowRecord {
    pub id: i64,
    pub title: String,
    pub path: String,
    pub location: Option<Tier>,
    pub size_bytes: i64,
    pub season_count: i64,
    pub episode_count: i64,
    pub thumbnail_path: Option<String>,
    pub source: Provenance,
    pub last_scan: i64,
}

/// A row of the index as plain values.
pub struct ShowView {
    pub id: i64,
    pub title: Seq<char>,
    pub path: Seq<char>,
    pub location: Option<Tier>,
    pub size_bytes: i64,
    pub season_count: i64,
    pub episode_count: i64,
    pub thumbnail_path: Option<Seq<char>>,
    pub source: Provenance,
    pub last_scan: i64,
}

impl View for ShowRecord {
    type V = ShowView;

    open spec fn view(&self) -> ShowView {
        ShowView {
            id: self.id,
            title: self.title@,
            path: self.path@,
            location: self.location,
            size_bytes: self.size_bytes,
            season_count: self.season_count,
            episode_count: self.episode_count,
            thumbnail_path: opt_text(self.thumbnail_path),
            source: self.source,
            last_scan: self.last_scan,
        }
    }
}

/// The row that a candidate makes under a given id and scan time.
pub open spec fn row_of(candidate: CandidateView, id: i64, now: i64) -> ShowView {
    ShowView {
        id,
        title: candidate.title,
        path: candidate.path,
        location: candidate.location,
        size_bytes: candidate.size_bytes,
        season_count: candidate.season_count,
        episode_count: candidate.episode_count,
        thumbnail_path: candidate.thumbnail_path,
        source: candidate.source,
        last_scan: now,
    }
}

/// The views of the rows of a table.
pub open spec fn show_views(rows: Seq<ShowRecord>) -> Seq<ShowView> {
    Seq::new(rows.len(), |i: int| rows[i]@)
}

/// Index of the first row with the given path at or after `from`, or the
/// number of rows.
pub open spec fn position_of_path(rows: Seq<ShowView>, path: Seq<char>, from: int) -> int
    decreases rows.len() - from,
{
    if from >= rows.len() || from < 0 {
        rows.len() as int
    } else if rows[from].path == path {
        from
    } else {
        position_of_path(rows, path, from + 1)
    }
}

/// Index of the first row with the given id at or after `from`, or the number
/// of rows.
pub open spec fn position_of_id(rows: Seq<ShowView>, id: i64, from: int) -> int
    decreases rows.len() - from,
{
    if from >= rows.len() || from < 0 {
        rows.len() as int
    } else if rows[from].id == id {
        from
    } else {
        position_of_id(rows, id, from + 1)
    }
}

/// No two rows share a path.
pub open spec fn paths_unique(rows: Seq<ShowView>) -> bool {
    forall|i: int, j: int| 0 <= i < j < rows.len() ==> rows[i].path != rows[j].path
}

/// No two rows share an id, and every id is below `next_id`.
pub open spec fn ids_fresh(rows: Seq<ShowView>, next_id: i64) -> bool {
    &&& forall|i: int, j: int| 0 <= i < j < rows.len() ==> rows[i].id != rows[j].id
    &&& forall|i: int| 0 <= i < rows.len() ==> rows[i].id < next_id
}

pub proof fn lemma_position_of_path(rows: Seq<ShowView>, path: Seq<char>, from: int)
    requires
        0 <= from <= rows.len(),
    ensures
        from <= position_of_path(rows, path, from) <= rows.len(),
        position_of_path(rows, path, from) < rows.len() ==> rows[position_of_path(
            rows,
            path,
            from,
        )].path == path,
        forall|i: int| from <= i < position_of_path(rows, path, from) ==> rows[i].path != path,
    decreases rows.len() - from,
{
    if from < rows.len() && rows[from].path != path {
        lemma_position_of_path(rows, path, from + 1);
    }
}

pub proof fn lemma_position_of_id(rows: Seq<ShowView>, id: i64, from: int)
    requires
        0 <= from <= rows.len(),
    ensures
        from <= position_of_id(rows, id, from) <= rows.len(),
        position_of_id(rows, id, from) < rows.len() ==> rows[position_of_id(rows, id, from)].id
            == id,
        forall|i: int| from <= i < position_of_id(rows, id, from) ==> rows[i].id != id,
    decreases rows.len() - from,
{
    if from < rows.len() && rows[from].id != id {
        lemma_position_of_id(rows, id, from + 1);
    }
}

/// Whether a scan found a show for the first time.
#[derive(Clone, Copy, Debug, PartialEq, Eq, Structural)]
pub enum UpsertResult {
    Inserted,
    Updated,
}

/// Why the index could not take a write.
#[derive(Clone, Copy, Debug, PartialEq, Eq, Structural)]
pub enum IndexError {
    /// No id is left for a new row.
    Exhausted,
    /// No row has the id that was asked for.
    UnknownShow,
    /// Another row already has the path.
    PathTaken,
}

/// The table after a candidate is stored: the row with the candidate's path
/// takes its derived fields and the scan time, or a new row is added at the
/// end under the next id.
pub open spec fn upserted(rows: Seq<ShowView>, next_id: i64, candidate: CandidateView, now: i64) -> Seq<
    ShowView,
> {
    let at = position_of_path(rows, candidate.path, 0);
    if at < rows.len() {
        rows.update(at, row_of(candidate, rows[at].id, now))
    } else {
        rows.push(row_of(candidate, next_id, now))
    }
}

/// The table after the show with the given id is moved to a new path.
pub open spec fn relocated(rows: Seq<ShowView>, id: i64, path: Seq<char>, location: Option<Tier>) -> Seq<
    ShowView,
> {
    let at = position_of_id(rows, id, 0);
    rows.update(at, ShowView { path, location, ..rows[at] })
}

/// Whether a row other than the one at `at` has the given path.
pub open spec fn path_taken_by_other(rows: Seq<ShowView>, at: int, path: Seq<char>) -> bool {
    exists|k: int| 0 <= k < rows.len() && k != at && rows[k].path == path
}

/// The index: its rows in the order they were first stored.
pub struct IndexStore {
    rows: Vec<ShowRecord>,
    next_id: i64,
}

impl View for IndexStore {
    type V = Seq<ShowView>;

    closed spec fn view(&self) -> Seq<ShowView> {
        show_views(self.rows@)
    }
}

impl IndexStore {
    /// The id that the next new row gets.
    pub closed spec fn next_id(&self) -> i64 {
        self.next_id
    }

    /// No two rows share a path or an id, and the ids given out so far are
    /// below the next one.
    pub open spec fn wf(&self) -> bool {
        &&& paths_unique(self@)
        &&& ids_fresh(self@, self.next_id())
    }

    /// An index without rows. The first row will get the id 1.
    pub fn new() -> (r: Self)
        ensures
            r@ == Seq::<ShowView>::empty(),
            r.next_id() == 1,
            r.wf(),
    {
        let r = IndexStore { rows: Vec::new(), next_id: 1 };
        assert(r@ =~= Seq::<ShowView>::empty());
        r
    }

    /// The number of rows.
    pub fn len(&self) -> (r: usize)
        ensures
            r == self@.len(),
    {
        self.rows.len()
    }

    /// The row at a position.
    pub fn row(&self, at: usize) -> (r: &ShowRecord)
        requires
            at < self@.len(),
        ensures
            r@ == self@[at as int],
    {
        &self.rows[at]
    }

    /// Position of the row with the given path.
    pub fn find_path(&self, path: &str) -> (r: Option<usize>)
        ensures
            r is Some <==> position_of_path(self@, path@, 0) < self@.len(),
            r matches Some(at) ==> at == position_of_path(self@, path@, 0),
    {
        let mut i: usize = 0;
        while i < self.rows.len()
            invariant
                i <= self.rows.len(),
                position_of_path(self@, path@, 0) == position_of_path(self@, path@, i as int),
            decreases self.rows.len() - i,
        {
            if str_eq(self.rows[i].path.as_str(), path) {
                return Some(i);
            }
            i = i + 1;
        }
        None
    }

    /// Position of the row with the given id.
    pub fn find_id(&self, id: i64) -> (r: Option<usize>)
        ensures
            r is Some <==> position_of_id(self@, id, 0) < self@.len(),
            r matches Some(at) ==> at == position_of_id(self@, id, 0),
    {
        let mut i: usize = 0;
        while i < self.rows.len()
            invariant
                i <= self.rows.len(),
                position_of_id(self@, id, 0) == position_of_id(self@, id, i as int),
            decreases self.rows.len() - i,
        {
            if self.rows[i].id == id {
                return Some(i);
            }
            i = i + 1;
        }
        None
    }

    /// Stores a candidate: refreshes the row that has its path, or adds a row.
    /// Only a new row can fail, when no id is left for it.
    pub fn upsert(&mut self, candidate: &ShowCandidate, now: i64) -> (r: Result<
        UpsertResult,
        IndexError,
    >)
        requires
            old(self).wf(),
        ensures
            final(self).wf(),
            match r {
                Ok(UpsertResult::Updated) => {
                    &&& position_of_path(old(self)@, candidate.path@, 0) < old(self)@.len()
                    &&& final(self)@ == upserted(
                        old(self)@,
                        old(self).next_id(),
                        candidate@,
                        now,
                    )
                    &&& final(self).next_id() == old(self).next_id()
                },
                Ok(UpsertResult::Inserted) => {
                    &&& position_of_path(old(self)@, candidate.path@, 0) == old(self)@.len()
                    &&& final(self)@ == upserted(
                        old(self)@,
                        old(self).next_id(),
                        candidate@,
                        now,
                    )
                    &&& final(self).next_id() == old(self).next_id() + 1
                },
                Err(e) => {
                    &&& e == IndexError::Exhausted
                    &&& position_of_path(old(self)@, candidate.path@, 0) == old(self)@.len()
                    &&& old(self).next_id() == i64::MAX
                    &&& final(self)@ == old(self)@
                    &&& final(self).next_id() == old(self).next_id()
                },
            },
    {
        proof {
            lemma_position_of_path(self@, candidate.path@, 0);
        }
        let found = self.find_path(candidate.path.as_str());
        match found {
            Some(at) => {
                let id = self.rows[at].id;
                let row = ShowRecord {
                    id,
                    title: candidate.title.clone(),
                    path: candidate.path.clone(),
                    location: candidate.location,
                    size_bytes: candidate.size_bytes,
                    season_count: candidate.season_count,
                    episode_count: candidate.episode_count,
                    thumbnail_path: candidate.thumbnail_path.clone(),
                    source: candidate.source,
                    last_scan: now,
                };
                assert(row@ == row_of(candidate@, id, now));
                let ghost before = self@;
                self.rows.set(at, row);
                assert(self@ =~= before.update(at as int, row_of(candidate@, id, now)));
                Ok(UpsertResult::Updated)
            },
            None => {
                if self.next_id == i64::MAX {
                    return Err(IndexError::Exhausted);
                }
                let id = self.next_id;
                let row = ShowRecord {
                    id,
                    title: candidate.title.clone(),
                    path: candidate.path.clone(),
                    location: candidate.location,
                    size_bytes: candidate.size_bytes,
                    season_count: candidate.season_count,
                    episode_count: candidate.episode_count,
                    thumbnail_path: candidate.thumbnail_path.clone(),
                    source: candidate.source,
                    last_scan: now,
                };
                assert(row@ == row_of(candidate@, id, now));
                let ghost before = self@;
                self.rows.push(row);
                self.next_id = id + 1;
                assert(self@ =~= before.push(row_of(candidate@, id, now)));
                Ok(UpsertResult::Inserted)
            },
        }
    }

    /// Rewrites the path and the location of the show with the given id.
    /// Refused, with nothing changed, where no row has the id or another row
    /// has the path.
    pub fn relocate(&mut self, id: i64, path: &str, location: Option<Tier>) -> (r: Result<
        (),
        IndexError,
    >)
        requires
            old(self).wf(),
        ensures
            final(self).wf(),
            final(self).next_id() == old(self).next_id(),
            final(self)@.len() == old(self)@.len(),
            match r {
                Ok(()) => {
                    &&& position_of_id(old(self)@, id, 0) < old(self)@.len()
                    &&& !path_taken_by_other(old(self)@, position_of_id(old(self)@, id, 0), path@)
                    &&& final(self)@ == relocated(old(self)@, id, path@, location)
                },
                Err(e) => {
                    &&& final(self)@ == old(self)@
                    &&& e == if position_of_id(old(self)@, id, 0) == old(self)@.len() {
                        IndexError::UnknownShow
                    } else {
                        IndexError::PathTaken
                    }
                    &&& e == IndexError::PathTaken ==> path_taken_by_other(
                        old(self)@,
                        position_of_id(old(self)@, id, 0),
                        path@,
                    )
                },
            },
    {
        proof {
            lemma_position_of_id(self@, id, 0);
        }
        let at = match self.find_id(id) {
            Some(at) => at,
            None => {
                return Err(IndexError::UnknownShow);
            },
        };
        let mut k: usize = 0;
        while k < self.rows.len()
            invariant
                k <= self.rows.len(),
                at < self.rows.len(),
                self@ == old(self)@,
                self.next_id() == old(self).next_id(),
                self.wf(),
                at == position_of_id(self@, id, 0),
                forall|j: int| 0 <= j < k && j != at ==> self@[j].path != path@,
            decreases self.rows.len() - k,
        {
            if k != at && str_eq(self.rows[k].path.as_str(), path) {
                assert(self@[k as int].path == path@);
                return Err(IndexError::PathTaken);
            }
            k = k + 1;
        }
        let row = ShowRecord {
            id: self.rows[at].id,
            title: self.rows[at].title.clone(),
            path: path.to_owned(),
            location,
            size_bytes: self.rows[at].size_bytes,
            season_count: self.rows[at].season_count,
            episode_count: self.rows[at].episode_count,
            thumbnail_path: self.rows[at].thumbnail_path.clone(),
            source: self.rows[at].source,
            last_scan: self.rows[at].last_scan,
        };
        let ghost before = self@;
        assert(row@ == ShowView { path: path@, location, ..before[at as int] });
        self.rows.set(at, row);
        assert(self@ =~= relocated(before, id, path@, location));
        Ok(())
    }
}

impl ShowRecord {
    /// A copy of this row.
    pub fn duplicate(&self) -> (r: ShowRecord)
        ensures
            r@ == self@,
    {
        ShowRecord {
            id: self.id,
            title: self.title.clone(),
            path: self.path.clone(),
            location: self.location,
            size_bytes: self.size_bytes,
            season_count: self.season_count,
            episode_count: self.episode_count,
            thumbnail_path: self.thumbnail_path.clone(),
            source: self.source,
            last_scan: self.last_scan,
        }
    }
}

/// Whether no row with the path of the row at `at` has a greater id: the
/// row is the one that was created last for its path.
pub open spec fn is_latest(rows: Seq<ShowView>, at: int) -> bool {
    forall|j: int|
        0 <= j < rows.len() && (#[trigger] rows[j]).path == rows[at].path ==> rows[j].id
            <= rows[at].id
}

/// Of the first `upto` rows, those that were created last for their path, in
/// order.
pub open spec fn latest_rows(rows: Seq<ShowView>, upto: int) -> Seq<ShowView>
    decreases upto,
{
    if upto <= 0 {
        seq![]
    } else {
        let before = latest_rows(rows, upto - 1);
        if is_latest(rows, upto - 1) {
            before.push(rows[upto - 1])
        } else {
            before
        }
    }
}

/// Whether a row is one of the first `upto` rows and was created last for
/// its path.
pub open spec fn is_kept(rows: Seq<ShowView>, upto: int, row: ShowView) -> bool {
    exists|i: int| 0 <= i < upto && is_latest(rows, i) && #[trigger] rows[i] == row
}

/// Every row that is kept is one of the rows, created last for its path.
pub proof fn lemma_latest_rows_come_from_rows(rows: Seq<ShowView>, upto: int)
    requires
        0 <= upto <= rows.len(),
    ensures
        forall|a: int|
            0 <= a < latest_rows(rows, upto).len() ==> is_kept(
                rows,
                upto,
                #[trigger] latest_rows(rows, upto)[a],
            ),
    decreases upto,
{
    if upto > 0 {
        lemma_latest_rows_come_from_rows(rows, upto - 1);
        let before = latest_rows(rows, upto - 1);
        let now = latest_rows(rows, upto);
        assert forall|a: int| 0 <= a < now.len() implies is_kept(rows, upto, #[trigger] now[a]) by {
            if a < before.len() {
                assert(is_kept(rows, upto - 1, before[a]));
                let i = choose|i: int|
                    0 <= i < upto - 1 && is_latest(rows, i) && #[trigger] rows[i] == before[a];
                assert(0 <= i < upto && is_latest(rows, i) && rows[i] == now[a]);
            } else {
                assert(is_latest(rows, upto - 1) && rows[upto - 1] == now[a]);
            }
        }
    }
}

/// Where no two rows share an id, no two of the rows that are kept share a
/// path.
pub proof fn lemma_latest_rows_have_unique_paths(rows: Seq<ShowView>, upto: int)
    requires
        0 <= upto <= rows.len(),
        forall|i: int, j: int| 0 <= i < j < rows.len() ==> rows[i].id != rows[j].id,
    ensures
        paths_unique(latest_rows(rows, upto)),
    decreases upto,
{
    if upto > 0 {
        lemma_latest_rows_have_unique_paths(rows, upto - 1);
        lemma_latest_rows_come_from_rows(rows, upto - 1);
        let before = latest_rows(rows, upto - 1);
        let now = latest_rows(rows, upto);
        if is_latest(rows, upto - 1) {
            assert forall|a: int, b: int| 0 <= a < b < now.len() implies now[a].path
                != now[b].path by {
                if b == before.len() {
                    assert(is_kept(rows, upto - 1, before[a]));
                    let i = choose|i: int|
                        0 <= i < upto - 1 && is_latest(rows, i) && #[trigger] rows[i] == before[a];
                    if rows[i].path == rows[upto - 1].path {
                        assert(rows[upto - 1].id <= rows[i].id);
                        assert(rows[i].id <= rows[upto - 1].id);
                    }
                }
            }
        }
    }
}

/// Drops, of the rows that share a path, all but the one that was created
/// last. The rows that stay keep their order.
pub fn deduplicate_show_paths(rows: &Vec<ShowRecord>) -> (r: Vec<ShowRecord>)
    ensures
        show_views(r@) == latest_rows(show_views(rows@), rows@.len() as int),
{
    let ghost all = show_views(rows@);
    let mut out: Vec<ShowRecord> = Vec::new();
    let mut i: usize = 0;
    assert(show_views(out@) =~= latest_rows(all, 0));
    while i < rows.len()
        invariant
            i <= rows.len(),
            all == show_views(rows@),
            show_views(out@) == latest_rows(all, i as int),
        decreases rows.len() - i,
    {
        let mut latest = true;
        let mut j: usize = 0;
        while j < rows.len()
            invariant
                j <= rows.len(),
                i < rows.len(),
                all == show_views(rows@),
                latest == forall|k: int|
                    0 <= k < j && (#[trigger] all[k]).path == all[i as int].path ==> all[k].id
                        <= all[i as int].id,
            decreases rows.len() - j,
        {
            assert(all[j as int] == rows@[j as int]@);
            assert(all[i as int] == rows@[i as int]@);
            if str_eq(rows[j].path.as_str(), rows[i].path.as_str()) && rows[j].id > rows[i].id {
                latest = false;
            }
            j = j + 1;
        }
        if latest {
            let ghost before = show_views(out@);
            let copy = rows[i].duplicate();
            assert(copy@ == all[i as int]);
            out.push(copy);
            assert(show_views(out@) =~= before.push(all[i as int]));
        }
        i = i + 1;
    }
    out
}

} // verus!
