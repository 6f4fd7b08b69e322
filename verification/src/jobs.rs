//! Move jobs: the rows of the job queue, the admission of a new job and the
//! choice of the job that the worker takes next.

use vstd::prelude::*;
use crate::config::{opt_text, Config};
use crate::index::{
    lemma_position_of_id, path_taken_by_other, position_of_id, relocated, IndexStore, ShowRecord,
    ShowView,
};
use crate::paths::{
    lemma_common_descendant, lemma_components_of_rebased, lies_under, path_starts_with, rebase,
    rebased,
};
use crate::text::{lemma_blank_iff_all_white, str_eq};
use crate::tier::{normalize_target, requested_tier, root_of, tier_under, trimmed_root, Tier};

verus! {

/// Where a job stands in its life: queued, then running, then success or
/// failed.
#[derive(Clone, Copy, Debug, PartialEq, Eq, Structural)]
pub enum JobStatus {
    Queued,
    Running,
    Success,
    Failed,
}

impl JobStatus {
    /// The token that stands for this status in stored rows.
    pub open spec fn token(self) -> Seq<char> {
        match self {
            JobStatus::Queued => "queued"@,
            JobStatus::Running => "running"@,
            JobStatus::Success => "success"@,
            JobStatus::Failed => "failed"@,
        }
    }

    /// Whether a job of this status still waits for the worker or is in its
    /// hands.
    pub open spec fn active(self) -> bool {
        self == JobStatus::Queued || self == JobStatus::Running
    }

    /// Whether the life of a job may go from this status to `next`.
    pub open spec fn may_become(self, next: JobStatus) -> bool {
        ||| self == JobStatus::Queued && next == JobStatus::Running
        ||| self == JobStatus::Running && next == JobStatus::Success
        ||| self == JobStatus::Running && next == JobStatus::Failed
    }

    /// The status that a stored token stands for.
    pub open spec fn of_token(token: Seq<char>) -> Option<JobStatus> {
        if token == "queued"@ {
            Some(JobStatus::Queued)
        } else if token == "running"@ {
            Some(JobStatus::Running)
        } else if token == "success"@ {
            Some(JobStatus::Success)
        } else if token == "failed"@ {
            Some(JobStatus::Failed)
        } else {
            None
        }
    }

    /// The token that stands for this status in stored rows.
    pub fn as_str(&self) -> (r: &'static str)
        ensures
            r@ == self.token(),
    {
        match self {
            JobStatus::Queued => "queued",
            JobStatus::Running => "running",
            JobStatus::Success => "success",
            JobStatus::Failed => "failed",
        }
    }

    /// The status that a stored token stands for.
    pub fn from_token(token: &str) -> (r: Option<JobStatus>)
        ensures
            r == JobStatus::of_token(token@),
    {
        if str_eq(token, "queued") {
            Some(JobStatus::Queued)
        } else if str_eq(token, "running") {
            Some(JobStatus::Running)
        } else if str_eq(token, "success") {
            Some(JobStatus::Success)
        } else if str_eq(token, "failed") {
            Some(JobStatus::Failed)
        } else {
            None
        }
    }

    /// Whether a job of this status still waits for the worker or is in its
    /// hands.
    pub fn is_active(&self) -> (r: bool)
        ensures
            r == self.active(),
    {
        match self {
            JobStatus::Queued => true,
            JobStatus::Running => true,
            _ => false,
        }
    }
}

/// The token of a status stands for that status.
pub proof fn lemma_status_token_round_trip(status: JobStatus)
    ensures
        JobStatus::of_token(status.token()) == Some(status),
{
    reveal_strlit("queued");
    reveal_strlit("running");
    reveal_strlit("success");
    reveal_strlit("failed");
    assert("queued"@.len() == 6 && "queued"@[0] == 'q');
    assert("running"@.len() == 7);
    assert("success"@.len() == 7 && "success"@[0] == 's');
    assert("failed"@.len() == 6 && "failed"@[0] == 'f');
    assert("running"@[0] == 'r');
}

/// Why a move was refused or failed.
#[derive(Debug, Clone)]
pub enum JobError {
    /// No show has the id that was asked for.
    ShowNotFound,
    /// The request names no tier.
    InvalidTarget,
    /// The show is already in the tier that was asked for.
    AlreadyInLocation,
    /// The root of this tier is not configured.
    MissingRoot(Tier),
    /// The path lies under neither root.
    PathMismatch,
    /// The store failed, with its words.
    Database(String),
    /// The filesystem failed, with its words.
    Io(String),
}

/// A refusal or failure as plain values.
pub enum JobFault {
    ShowNotFound,
    InvalidTarget,
    AlreadyInLocation,
    MissingRoot(Tier),
    PathMismatch,
    Database(Seq<char>),
    Io(Seq<char>),
}

impl View for JobError {
    type V = JobFault;

    open spec fn view(&self) -> JobFault {
        match *self {
            JobError::ShowNotFound => JobFault::ShowNotFound,
            JobError::InvalidTarget => JobFault::InvalidTarget,
            JobError::AlreadyInLocation => JobFault::AlreadyInLocation,
            JobError::MissingRoot(t) => JobFault::MissingRoot(t),
            JobError::PathMismatch => JobFault::PathMismatch,
            JobError::Database(m) => JobFault::Database(m@),
            JobError::Io(m) => JobFault::Io(m@),
        }
    }
}

impl JobFault {
    /// The words that a failed job keeps of this failure.
    pub open spec fn words(self) -> Seq<char> {
        match self {
            JobFault::ShowNotFound => "ShowNotFound"@,
            JobFault::InvalidTarget => "InvalidTarget"@,
            JobFault::AlreadyInLocation => "AlreadyInLocation"@,
            JobFault::MissingRoot(Tier::Hot) => "MissingRoot(\"hot_root\")"@,
            JobFault::MissingRoot(Tier::Cold) => "MissingRoot(\"cold_root\")"@,
            JobFault::PathMismatch => "PathMismatch"@,
            JobFault::Database(m) => "Database("@ + m + ")"@,
            JobFault::Io(m) => "Io("@ + m + ")"@,
        }
    }
}

impl JobError {
    /// The words that a failed job keeps of this failure.
    pub fn to_string(&self) -> (r: String)
        ensures
            r@ == self@.words(),
    {
        match self {
            JobError::ShowNotFound => "ShowNotFound".to_owned(),
            JobError::InvalidTarget => "InvalidTarget".to_owned(),
            JobError::AlreadyInLocation => "AlreadyInLocation".to_owned(),
            JobError::MissingRoot(Tier::Hot) => "MissingRoot(\"hot_root\")".to_owned(),
            JobError::MissingRoot(Tier::Cold) => "MissingRoot(\"cold_root\")".to_owned(),
            JobError::PathMismatch => "PathMismatch".to_owned(),
            JobError::Database(m) => {
                let mut s = "Database(".to_owned();
                s.append(m.as_str());
                s.append(")");
                s
            },
            JobError::Io(m) => {
                let mut s = "Io(".to_owned();
                s.append(m.as_str());
                s.append(")");
                s
            },
        }
    }
}

/// One row of the job queue.
#[derive(Debug, Clone)]
pub struct JobRecord {
    pub id: i64,
    pub show_id: i64,
    pub source_path: String,
    pub destination_path: String,
    pub status: JobStatus,
    pub progress_bytes: i64,
    pub total_bytes: i64,
    pub speed_bytes_per_sec: i64,
    pub eta_seconds: i64,
    pub error_message: Option<String>,
    pub created_at: i64,
    pub updated_at: i64,
}

/// A row of the job queue as plain values.
pub struct JobView {
    pub id: i64,
    pub show_id: i64,
    pub source_path: Seq<char>,
    pub destination_path: Seq<char>,
    pub status: JobStatus,
    pub progress_bytes: i64,
    pub total_bytes: i64,
    pub speed_bytes_per_sec: i64,
    pub eta_seconds: i64,
    pub error_message: Option<Seq<char>>,
    pub created_at: i64,
    pub updated_at: i64,
}

impl View for JobRecord {
    type V = JobView;

    open spec fn view(&self) -> JobView {
        JobView {
            id: self.id,
            show_id: self.show_id,
            source_path: self.source_path@,
            destination_path: self.destination_path@,
            status: self.status,
            progress_bytes: self.progress_bytes,
            total_bytes: self.total_bytes,
            speed_bytes_per_sec: self.speed_bytes_per_sec,
            eta_seconds: self.eta_seconds,
            error_message: opt_text(self.error_message),
            created_at: self.created_at,
            updated_at: self.updated_at,
        }
    }
}

impl JobView {
    /// What holds of every row: progress stays within the total, speed and
    /// remaining time are not negative, and only a failed job has an error.
    pub open spec fn wf(self) -> bool {
        &&& 0 <= self.progress_bytes <= self.total_bytes
        &&& 0 <= self.speed_bytes_per_sec
        &&& 0 <= self.eta_seconds
        &&& self.error_message is Some ==> self.status == JobStatus::Failed
    }
}

/// What admission settles of a move before the job is queued.
#[derive(Debug, Clone)]
pub struct MovePlan {
    pub show_id: i64,
    pub source_path: String,
    pub destination_path: String,
    pub target: Tier,
    pub total_bytes: i64,
}

/// A plan as plain values.
pub struct PlanView {
    pub show_id: i64,
    pub source_path: Seq<char>,
    pub destination_path: Seq<char>,
    pub target: Tier,
    pub total_bytes: i64,
}

impl View for MovePlan {
    type V = PlanView;

    open spec fn view(&self) -> PlanView {
        PlanView {
            show_id: self.show_id,
            source_path: self.source_path@,
            destination_path: self.destination_path@,
            target: self.target,
            total_bytes: self.total_bytes,
        }
    }
}

/// What is stored of a job after a file was copied.
#[derive(Clone, Copy, Debug, PartialEq, Eq, Structural)]
pub struct ProgressUpdate {
    pub job_id: i64,
    pub progress_bytes: i64,
    pub speed_bytes_per_sec: i64,
    pub eta_seconds: i64,
    pub updated_at: i64,
}

/// What is written in one piece when a move is done: the show's new path and
/// tier, and the job's success.
#[derive(Debug, Clone)]
pub struct Finalization {
    pub show_id: i64,
    pub path: String,
    pub location: Tier,
    pub job_id: i64,
    pub progress_bytes: i64,
    pub updated_at: i64,
}

/// A finalization as plain values.
pub struct FinalizationView {
    pub show_id: i64,
    pub path: Seq<char>,
    pub location: Tier,
    pub job_id: i64,
    pub progress_bytes: i64,
    pub updated_at: i64,
}

impl View for Finalization {
    type V = FinalizationView;

    open spec fn view(&self) -> FinalizationView {
        FinalizationView {
            show_id: self.show_id,
            path: self.path@,
            location: self.location,
            job_id: self.job_id,
            progress_bytes: self.progress_bytes,
            updated_at: self.updated_at,
        }
    }
}

/// The root of a tier, given the settings of both roots.
pub open spec fn tier_root(hot_setting: Seq<char>, cold_setting: Seq<char>, tier: Tier) -> Option<
    Seq<char>,
> {
    match tier {
        Tier::Hot => root_of(hot_setting),
        Tier::Cold => root_of(cold_setting),
    }
}

/// A size as a job's total: not below zero.
pub open spec fn total_of(size_bytes: i64) -> i64 {
    if size_bytes < 0 {
        0
    } else {
        size_bytes
    }
}

/// The tier that a path is in, given the settings of both roots, or why none
/// can be given: a root that is not configured, the hot one first, or a path
/// under neither root.
pub open spec fn located(path: Seq<char>, hot_setting: Seq<char>, cold_setting: Seq<char>) -> Result<
    Tier,
    JobFault,
> {
    match (root_of(hot_setting), root_of(cold_setting)) {
        (None, _) => Err(JobFault::MissingRoot(Tier::Hot)),
        (_, None) => Err(JobFault::MissingRoot(Tier::Cold)),
        (Some(hot), Some(cold)) => match tier_under(path, hot, cold) {
            Some(t) => Ok(t),
            None => Err(JobFault::PathMismatch),
        },
    }
}

/// What admission makes of a request: the plan of the move, or the first
/// reason against it.
pub open spec fn admission(
    target: Seq<char>,
    show: Option<ShowView>,
    hot_setting: Seq<char>,
    cold_setting: Seq<char>,
) -> Result<PlanView, JobFault> {
    match (requested_tier(target), show) {
        (None, _) => Err(JobFault::InvalidTarget),
        (_, None) => Err(JobFault::ShowNotFound),
        (Some(wanted), Some(s)) => match located(s.path, hot_setting, cold_setting) {
            Err(fault) => Err(fault),
            Ok(current) => if current == wanted {
                Err(JobFault::AlreadyInLocation)
            } else {
                Ok(
                    PlanView {
                        show_id: s.id,
                        source_path: s.path,
                        destination_path: rebased(
                            s.path,
                            tier_root(hot_setting, cold_setting, current)->0,
                            tier_root(hot_setting, cold_setting, wanted)->0,
                        ),
                        target: wanted,
                        total_bytes: total_of(s.size_bytes),
                    },
                )
            },
        },
    }
}

/// The row that a plan is queued as.
pub open spec fn queued_job(plan: PlanView, id: i64, now: i64) -> JobView {
    JobView {
        id,
        show_id: plan.show_id,
        source_path: plan.source_path,
        destination_path: plan.destination_path,
        status: JobStatus::Queued,
        progress_bytes: 0,
        total_bytes: plan.total_bytes,
        speed_bytes_per_sec: 0,
        eta_seconds: 0,
        error_message: None,
        created_at: now,
        updated_at: now,
    }
}

/// The tier that a path is in and that tier's root, given both roots.
pub fn detect_location(show_path: &str, hot_root: &str, cold_root: &str) -> (r: Result<
    Tier,
    JobError,
>)
    ensures
        match tier_under(show_path@, hot_root@, cold_root@) {
            Some(t) => r == Ok::<Tier, JobError>(t),
            None => r matches Err(e) && e@ == JobFault::PathMismatch,
        },
{
    if path_starts_with(show_path, hot_root) {
        Ok(Tier::Hot)
    } else if path_starts_with(show_path, cold_root) {
        Ok(Tier::Cold)
    } else {
        Err(JobError::PathMismatch)
    }
}

/// The tier that a path is in, given the settings of both roots.
pub fn locate_path(path: &str, hot_setting: &str, cold_setting: &str) -> (r: Result<Tier, JobError>)
    ensures
        match located(path@, hot_setting@, cold_setting@) {
            Ok(t) => r == Ok::<Tier, JobError>(t),
            Err(fault) => r matches Err(e) && e@ == fault,
        },
{
    let hot_root = match trimmed_root(hot_setting) {
        Some(root) => root,
        None => {
            return Err(JobError::MissingRoot(Tier::Hot));
        },
    };
    let cold_root = match trimmed_root(cold_setting) {
        Some(root) => root,
        None => {
            return Err(JobError::MissingRoot(Tier::Cold));
        },
    };
    detect_location(path, hot_root.as_str(), cold_root.as_str())
}

/// The tier that a path is in under a configuration.
pub fn resolve_location_from_path(path: &str, config: &Config) -> (r: Result<Tier, JobError>)
    ensures
        match located(path@, config.hot_root@, config.cold_root@) {
            Ok(t) => r == Ok::<Tier, JobError>(t),
            Err(fault) => r matches Err(e) && e@ == fault,
        },
{
    locate_path(path, config.hot_root.as_str(), config.cold_root.as_str())
}

/// Settles a requested move of a show: where it goes and how much there is to
/// copy, or the first reason against it. `show` is the row with the id that
/// was asked for, if there is one.
pub fn plan_move(target: &str, show: Option<&ShowRecord>, config: &Config) -> (r: Result<
    MovePlan,
    JobError,
>)
    ensures
        match admission(
            target@,
            match show {
                Some(s) => Some(s@),
                None => None,
            },
            config.hot_root@,
            config.cold_root@,
        ) {
            Ok(plan) => r matches Ok(p) && p@ == plan,
            Err(fault) => r matches Err(e) && e@ == fault,
        },
{
    let wanted = match normalize_target(target) {
        Some(t) => t,
        None => {
            return Err(JobError::InvalidTarget);
        },
    };
    let show = match show {
        Some(s) => s,
        None => {
            return Err(JobError::ShowNotFound);
        },
    };
    let hot_root = match trimmed_root(config.hot_root.as_str()) {
        Some(root) => root,
        None => {
            return Err(JobError::MissingRoot(Tier::Hot));
        },
    };
    let cold_root = match trimmed_root(config.cold_root.as_str()) {
        Some(root) => root,
        None => {
            return Err(JobError::MissingRoot(Tier::Cold));
        },
    };
    let current = match detect_location(show.path.as_str(), hot_root.as_str(), cold_root.as_str()) {
        Ok(t) => t,
        Err(e) => {
            return Err(e);
        },
    };
    if current == wanted {
        return Err(JobError::AlreadyInLocation);
    }
    let (from, to) = match wanted {
        Tier::Hot => (&cold_root, &hot_root),
        Tier::Cold => (&hot_root, &cold_root),
    };
    let destination = match rebase(show.path.as_str(), from.as_str(), to.as_str()) {
        Some(d) => d,
        None => {
            return Err(JobError::PathMismatch);
        },
    };
    let total_bytes = if show.size_bytes < 0 {
        0
    } else {
        show.size_bytes
    };
    Ok(
        MovePlan {
            show_id: show.id,
            source_path: show.path.clone(),
            destination_path: destination,
            target: wanted,
            total_bytes,
        },
    )
}

/// The views of the rows of a queue.
pub open spec fn job_views(rows: Seq<JobRecord>) -> Seq<JobView> {
    Seq::new(rows.len(), |i: int| rows[i]@)
}

/// Index of the first row with the given id at or after `from`, or the number
/// of rows.
pub open spec fn position_of_job(rows: Seq<JobView>, id: i64, from: int) -> int
    decreases rows.len() - from,
{
    if from >= rows.len() || from < 0 {
        rows.len() as int
    } else if rows[from].id == id {
        from
    } else {
        position_of_job(rows, id, from + 1)
    }
}

pub proof fn lemma_position_of_job(rows: Seq<JobView>, id: i64, from: int)
    requires
        0 <= from <= rows.len(),
    ensures
        from <= position_of_job(rows, id, from) <= rows.len(),
        position_of_job(rows, id, from) < rows.len() ==> rows[position_of_job(rows, id, from)].id
            == id,
        forall|i: int| from <= i < position_of_job(rows, id, from) ==> rows[i].id != id,
    decreases rows.len() - from,
{
    if from < rows.len() && rows[from].id != id {
        lemma_position_of_job(rows, id, from + 1);
    }
}

/// Whether some row still waits for the worker or is in its hands.
pub open spec fn has_active(rows: Seq<JobView>) -> bool {
    exists|k: int| 0 <= k < rows.len() && (#[trigger] rows[k]).status.active()
}

/// Whether the worker takes `a` before `b`: a running job before a queued
/// one, and of two alike the one that was created earlier.
pub open spec fn goes_before(a: JobView, b: JobView) -> bool {
    let ra: int = if a.status == JobStatus::Running {
        0
    } else {
        1
    };
    let rb: int = if b.status == JobStatus::Running {
        0
    } else {
        1
    };
    ra < rb || (ra == rb && a.created_at < b.created_at)
}

/// Whether the row at `at` is the one that the worker takes next: it is
/// active, no active row goes before it, and of the rows that it does not go
/// before either it is the first in the queue.
pub open spec fn is_next(rows: Seq<JobView>, at: int) -> bool {
    &&& 0 <= at < rows.len()
    &&& rows[at].status.active()
    &&& forall|k: int|
        0 <= k < rows.len() && (#[trigger] rows[k]).status.active() ==> !goes_before(
            rows[k],
            rows[at],
        )
    &&& forall|k: int|
        0 <= k < at && (#[trigger] rows[k]).status.active() ==> goes_before(rows[at], rows[k])
}

/// A job as the worker takes it up: a queued one starts running and loses any
/// stale error, a running one is resumed as it is.
pub open spec fn claimed(job: JobView, now: i64) -> JobView {
    if job.status == JobStatus::Queued {
        JobView { status: JobStatus::Running, error_message: None, updated_at: now, ..job }
    } else {
        job
    }
}

/// A job after a failure: failed, with the failure's words, and with speed
/// and remaining time at zero. Progress stays where it was last stored.
pub open spec fn failed_job(job: JobView, words: Seq<char>, now: i64) -> JobView {
    JobView {
        status: JobStatus::Failed,
        error_message: Some(words),
        speed_bytes_per_sec: 0,
        eta_seconds: 0,
        updated_at: now,
        ..job
    }
}

/// A job after its move is committed: success, no error, the final progress,
/// and speed and remaining time at zero.
pub open spec fn succeeded_job(job: JobView, progress_bytes: i64, now: i64) -> JobView {
    JobView {
        status: JobStatus::Success,
        error_message: None,
        progress_bytes,
        speed_bytes_per_sec: 0,
        eta_seconds: 0,
        updated_at: now,
        ..job
    }
}

/// At most one row is the next one.
pub proof fn lemma_next_is_unique(rows: Seq<JobView>, a: int, b: int)
    requires
        is_next(rows, a),
        is_next(rows, b),
    ensures
        a == b,
{
    if a < b {
        assert(rows[a].status.active());
        assert(goes_before(rows[b], rows[a]));
        assert(!goes_before(rows[a], rows[b]));
    } else if b < a {
        assert(rows[b].status.active());
        assert(goes_before(rows[a], rows[b]));
        assert(!goes_before(rows[b], rows[a]));
    }
}

/// While a job is running, the next job is a running one, and taking it up
/// leaves it as it is: the worker resumes the row that is there.
pub proof fn lemma_running_job_is_resumed(rows: Seq<JobView>, at: int, running: int, now: i64)
    requires
        is_next(rows, at),
        0 <= running < rows.len(),
        rows[running].status == JobStatus::Running,
    ensures
        rows[at].status == JobStatus::Running,
        claimed(rows[at], now) == rows[at],
        !goes_before(rows[running], rows[at]),
{
    assert(rows[running].status.active());
    assert(!goes_before(rows[running], rows[at]));
}

/// Where a single job is running, it is the next job.
pub proof fn lemma_sole_running_job_is_next(rows: Seq<JobView>, at: int, running: int)
    requires
        is_next(rows, at),
        0 <= running < rows.len(),
        rows[running].status == JobStatus::Running,
        forall|k: int|
            0 <= k < rows.len() && (#[trigger] rows[k]).status == JobStatus::Running ==> k
                == running,
    ensures
        at == running,
{
    lemma_running_job_is_resumed(rows, at, running, 0);
}

/// A stored count as it is read: zero where none is stored, and not below
/// zero.
pub open spec fn stored_count(value: Option<i64>) -> i64 {
    match value {
        Some(v) => if v < 0 {
            0
        } else {
            v
        },
        None => 0,
    }
}

/// A stored time as it is read: zero where none is stored.
pub open spec fn stored_time(value: Option<i64>) -> i64 {
    match value {
        Some(v) => v,
        None => 0,
    }
}

/// What is stored of a job, column by column.
#[derive(Debug, Clone)]
pub struct StoredJob {
    pub id: i64,
    pub show_id: i64,
    pub source_path: String,
    pub destination_path: String,
    pub status: String,
    pub progress_bytes: Option<i64>,
    pub total_bytes: Option<i64>,
    pub speed_bytes_per_sec: Option<i64>,
    pub eta_seconds: Option<i64>,
    pub error_message: Option<String>,
    pub created_at: Option<i64>,
    pub updated_at: Option<i64>,
}

/// The row that stored columns are read as, given the status that their
/// token stands for: counts not below zero, progress within the total, and
/// an error on a failed job only.
pub open spec fn read_job(stored: StoredJob, status: JobStatus) -> JobView {
    let total = stored_count(stored.total_bytes);
    let progress = stored_count(stored.progress_bytes);
    JobView {
        id: stored.id,
        show_id: stored.show_id,
        source_path: stored.source_path@,
        destination_path: stored.destination_path@,
        status,
        progress_bytes: if progress > total {
            total
        } else {
            progress
        },
        total_bytes: total,
        speed_bytes_per_sec: stored_count(stored.speed_bytes_per_sec),
        eta_seconds: stored_count(stored.eta_seconds),
        error_message: if status == JobStatus::Failed {
            opt_text(stored.error_message)
        } else {
            None
        },
        created_at: stored_time(stored.created_at),
        updated_at: stored_time(stored.updated_at),
    }
}

/// A stored count as it is read.
fn read_count(value: Option<i64>) -> (r: i64)
    ensures
        r == stored_count(value),
{
    match value {
        Some(v) => if v < 0 {
            0
        } else {
            v
        },
        None => 0,
    }
}

impl JobRecord {
    /// The row that stored columns are read as, or nothing where the status
    /// is none that is known.
    pub fn from_stored(stored: StoredJob) -> (r: Option<JobRecord>)
        ensures
            match JobStatus::of_token(stored.status@) {
                Some(status) => r matches Some(job) && job@ == read_job(stored, status)
                    && job@.wf(),
                None => r is None,
            },
    {
        let status = match JobStatus::from_token(stored.status.as_str()) {
            Some(status) => status,
            None => {
                return None;
            },
        };
        let total = read_count(stored.total_bytes);
        let progress = read_count(stored.progress_bytes);
        Some(
            JobRecord {
                id: stored.id,
                show_id: stored.show_id,
                source_path: stored.source_path,
                destination_path: stored.destination_path,
                status,
                progress_bytes: if progress > total {
                    total
                } else {
                    progress
                },
                total_bytes: total,
                speed_bytes_per_sec: read_count(stored.speed_bytes_per_sec),
                eta_seconds: read_count(stored.eta_seconds),
                error_message: if status == JobStatus::Failed {
                    stored.error_message
                } else {
                    None
                },
                created_at: match stored.created_at {
                    Some(t) => t,
                    None => 0,
                },
                updated_at: match stored.updated_at {
                    Some(t) => t,
                    None => 0,
                },
            },
        )
    }

    /// The columns that a row is stored as.
    pub fn to_stored(&self) -> (r: StoredJob)
        ensures
            r.status@ == self.status.token(),
            self@.wf() ==> JobStatus::of_token(r.status@) == Some(self.status) && read_job(
                r,
                self.status,
            ) == self@,
    {
        proof {
            lemma_status_token_round_trip(self.status);
        }
        StoredJob {
            id: self.id,
            show_id: self.show_id,
            source_path: self.source_path.clone(),
            destination_path: self.destination_path.clone(),
            status: self.status.as_str().to_owned(),
            progress_bytes: Some(self.progress_bytes),
            total_bytes: Some(self.total_bytes),
            speed_bytes_per_sec: Some(self.speed_bytes_per_sec),
            eta_seconds: Some(self.eta_seconds),
            error_message: self.error_message.clone(),
            created_at: Some(self.created_at),
            updated_at: Some(self.updated_at),
        }
    }

    /// Whether the row is in order: progress within the total, speed and
    /// remaining time not negative, and an error only on a failed job.
    pub fn is_well_formed(&self) -> (r: bool)
        ensures
            r == self@.wf(),
    {
        0 <= self.progress_bytes && self.progress_bytes <= self.total_bytes && 0
            <= self.speed_bytes_per_sec && 0 <= self.eta_seconds && (self.error_message.is_none()
            || self.status == JobStatus::Failed)
    }

    /// A copy of this row.
    pub fn duplicate(&self) -> (r: JobRecord)
        ensures
            r@ == self@,
    {
        JobRecord {
            id: self.id,
            show_id: self.show_id,
            source_path: self.source_path.clone(),
            destination_path: self.destination_path.clone(),
            status: self.status,
            progress_bytes: self.progress_bytes,
            total_bytes: self.total_bytes,
            speed_bytes_per_sec: self.speed_bytes_per_sec,
            eta_seconds: self.eta_seconds,
            error_message: self.error_message.clone(),
            created_at: self.created_at,
            updated_at: self.updated_at,
        }
    }

    /// The row that a plan is queued as.
    pub fn queued(plan: &MovePlan, id: i64, now: i64) -> (r: JobRecord)
        requires
            0 <= plan.total_bytes,
        ensures
            r@ == queued_job(plan@, id, now),
            r@.wf(),
    {
        JobRecord {
            id,
            show_id: plan.show_id,
            source_path: plan.source_path.clone(),
            destination_path: plan.destination_path.clone(),
            status: JobStatus::Queued,
            progress_bytes: 0,
            total_bytes: plan.total_bytes,
            speed_bytes_per_sec: 0,
            eta_seconds: 0,
            error_message: None,
            created_at: now,
            updated_at: now,
        }
    }

    /// Takes the job up for the worker: a queued job starts running, a
    /// running one stays as it is.
    pub fn claim(&mut self, now: i64)
        ensures
            final(self)@ == claimed(old(self)@, now),
            old(self)@.wf() ==> final(self)@.wf(),
            final(self).status == old(self).status || old(self).status.may_become(
                final(self).status,
            ),
    {
        if self.status == JobStatus::Queued {
            self.status = JobStatus::Running;
            self.error_message = None;
            self.updated_at = now;
        }
    }

    /// Marks a running job as failed, with the failure's words. A job that
    /// is not running stays as it is, and the answer is `false`.
    pub fn fail(&mut self, words: &str, now: i64) -> (r: bool)
        ensures
            r == (old(self).status == JobStatus::Running),
            r ==> final(self)@ == failed_job(old(self)@, words@, now),
            !r ==> final(self)@ == old(self)@,
            old(self)@.wf() ==> final(self)@.wf(),
            final(self).status == old(self).status || old(self).status.may_become(
                final(self).status,
            ),
    {
        if self.status == JobStatus::Running {
            self.status = JobStatus::Failed;
            self.error_message = Some(words.to_owned());
            self.speed_bytes_per_sec = 0;
            self.eta_seconds = 0;
            self.updated_at = now;
            true
        } else {
            false
        }
    }
}

/// Index of the job that the worker takes next, or nothing where no job is
/// active.
pub fn select_next_job(jobs: &Vec<JobRecord>) -> (r: Option<usize>)
    ensures
        r is Some <==> has_active(job_views(jobs@)),
        r matches Some(at) ==> is_next(job_views(jobs@), at as int),
{
    let ghost rows = job_views(jobs@);
    let mut best: Option<usize> = None;
    let mut i: usize = 0;
    while i < jobs.len()
        invariant
            i <= jobs.len(),
            rows == job_views(jobs@),
            best is None ==> forall|k: int| 0 <= k < i ==> !(#[trigger] rows[k]).status.active(),
            best matches Some(b) ==> {
                &&& b < i
                &&& rows[b as int].status.active()
                &&& forall|k: int|
                    0 <= k < i && (#[trigger] rows[k]).status.active() ==> !goes_before(
                        rows[k],
                        rows[b as int],
                    )
                &&& forall|k: int|
                    0 <= k < b && (#[trigger] rows[k]).status.active() ==> goes_before(
                        rows[b as int],
                        rows[k],
                    )
            },
        decreases jobs.len() - i,
    {
        let job = &jobs[i];
        assert(rows[i as int] == job@);
        if job.status.is_active() {
            match best {
                None => {
                    best = Some(i);
                },
                Some(b) => {
                    let cur = &jobs[b];
                    assert(rows[b as int] == cur@);
                    let job_runs = job.status == JobStatus::Running;
                    let cur_runs = cur.status == JobStatus::Running;
                    let earlier = (job_runs && !cur_runs) || (job_runs == cur_runs
                        && job.created_at < cur.created_at);
                    assert(earlier == goes_before(rows[i as int], rows[b as int]));
                    if earlier {
                        best = Some(i);
                    }
                },
            }
        }
        i = i + 1;
    }
    best
}

/// The job queue: its rows in the order they were queued.
pub struct JobStore {
    rows: Vec<JobRecord>,
    next_id: i64,
}

impl View for JobStore {
    type V = Seq<JobView>;

    closed spec fn view(&self) -> Seq<JobView> {
        job_views(self.rows@)
    }
}

/// The words of the failure to queue a job for want of an id.
pub open spec fn exhausted_words() -> Seq<char> {
    "no job id is left"@
}

/// What a request for a move makes of the queue: the plan that is queued, or
/// the reason why nothing is.
pub open spec fn requested_move(
    jobs: Seq<JobView>,
    next_id: i64,
    shows: Seq<ShowView>,
    hot_setting: Seq<char>,
    cold_setting: Seq<char>,
    show_id: i64,
    target: Seq<char>,
) -> Result<PlanView, JobFault> {
    let at = position_of_id(shows, show_id, 0);
    let show = if at < shows.len() {
        Some(shows[at])
    } else {
        None
    };
    match admission(target, show, hot_setting, cold_setting) {
        Err(fault) => Err(fault),
        Ok(plan) => if next_id == i64::MAX {
            Err(JobFault::Database(exhausted_words()))
        } else {
            Ok(plan)
        },
    }
}

/// Whether a running job has the given id.
pub open spec fn is_running(rows: Seq<JobView>, job_id: i64) -> bool {
    let at = position_of_job(rows, job_id, 0);
    at < rows.len() && rows[at].status == JobStatus::Running
}

/// Whether the queue takes an update of progress: the job is running, and the
/// update keeps its row in order.
pub open spec fn progress_fits(rows: Seq<JobView>, update: ProgressUpdate) -> bool {
    &&& is_running(rows, update.job_id)
    &&& 0 <= update.progress_bytes <= rows[position_of_job(rows, update.job_id, 0)].total_bytes
    &&& 0 <= update.speed_bytes_per_sec
    &&& 0 <= update.eta_seconds
}

/// A row after an update of progress.
pub open spec fn progressed(job: JobView, update: ProgressUpdate) -> JobView {
    JobView {
        progress_bytes: update.progress_bytes,
        speed_bytes_per_sec: update.speed_bytes_per_sec,
        eta_seconds: update.eta_seconds,
        updated_at: update.updated_at,
        ..job
    }
}

/// Whether both tables take a finalization: the job is running, its final
/// progress is within its total, the show is there, and no other show has the
/// new path.
pub open spec fn finalization_fits(
    jobs: Seq<JobView>,
    shows: Seq<ShowView>,
    f: FinalizationView,
) -> bool {
    &&& is_running(jobs, f.job_id)
    &&& 0 <= f.progress_bytes <= jobs[position_of_job(jobs, f.job_id, 0)].total_bytes
    &&& position_of_id(shows, f.show_id, 0) < shows.len()
    &&& !path_taken_by_other(shows, position_of_id(shows, f.show_id, 0), f.path)
}

/// The words of the failure to write a finalization.
pub open spec fn commit_refused_words() -> Seq<char> {
    "the finalization does not fit the tables"@
}

impl JobStore {
    /// The id that the next new row gets.
    pub closed spec fn next_id(&self) -> i64 {
        self.next_id
    }

    /// Every row is in order, no two rows share an id, and the ids given out
    /// so far are below the next one.
    pub open spec fn wf(&self) -> bool {
        &&& forall|i: int| 0 <= i < self@.len() ==> (#[trigger] self@[i]).wf()
        &&& forall|i: int, j: int| 0 <= i < j < self@.len() ==> self@[i].id != self@[j].id
        &&& forall|i: int| 0 <= i < self@.len() ==> (#[trigger] self@[i]).id < self.next_id()
    }

    /// A queue without rows. The first job will get the id 1.
    pub fn new() -> (r: Self)
        ensures
            r@ == Seq::<JobView>::empty(),
            r.next_id() == 1,
            r.wf(),
    {
        let r = JobStore { rows: Vec::new(), next_id: 1 };
        assert(r@ =~= Seq::<JobView>::empty());
        r
    }

    /// The number of rows.
    pub fn len(&self) -> (r: usize)
        ensures
            r == self@.len(),
    {
        self.rows.len()
    }

    /// The row at a position.
    pub fn row(&self, at: usize) -> (r: &JobRecord)
        requires
            at < self@.len(),
        ensures
            r@ == self@[at as int],
    {
        &self.rows[at]
    }

    /// Position of the row with the given id.
    pub fn find(&self, id: i64) -> (r: Option<usize>)
        ensures
            r is Some <==> position_of_job(self@, id, 0) < self@.len(),
            r matches Some(at) ==> at == position_of_job(self@, id, 0),
    {
        let mut i: usize = 0;
        while i < self.rows.len()
            invariant
                i <= self.rows.len(),
                position_of_job(self@, id, 0) == position_of_job(self@, id, i as int),
            decreases self.rows.len() - i,
        {
            if self.rows[i].id == id {
                return Some(i);
            }
            i = i + 1;
        }
        None
    }

    /// Queues a plan as a new job, under the next id.
    pub fn enqueue(&mut self, plan: &MovePlan, now: i64) -> (r: Result<JobRecord, JobError>)
        requires
            old(self).wf(),
            0 <= plan.total_bytes,
        ensures
            final(self).wf(),
            match r {
                Ok(job) => {
                    &&& old(self).next_id() < i64::MAX
                    &&& job@ == queued_job(plan@, old(self).next_id(), now)
                    &&& final(self)@ == old(self)@.push(job@)
                    &&& final(self).next_id() == old(self).next_id() + 1
                },
                Err(e) => {
                    &&& old(self).next_id() == i64::MAX
                    &&& e@ == JobFault::Database(exhausted_words())
                    &&& final(self)@ == old(self)@
                    &&& final(self).next_id() == old(self).next_id()
                },
            },
    {
        if self.next_id == i64::MAX {
            return Err(JobError::Database("no job id is left".to_owned()));
        }
        let id = self.next_id;
        let job = JobRecord::queued(plan, id, now);
        let copy = job.duplicate();
        let ghost before = self@;
        self.rows.push(job);
        self.next_id = id + 1;
        assert(self@ =~= before.push(copy@));
        Ok(copy)
    }

    /// Takes the next job up for the worker and hands out a copy of it, or
    /// nothing where no job is active. No row is added or removed.
    pub fn fetch_next_job(&mut self, now: i64) -> (r: Option<JobRecord>)
        requires
            old(self).wf(),
        ensures
            final(self).wf(),
            final(self).next_id() == old(self).next_id(),
            r is Some <==> has_active(old(self)@),
            r is None ==> final(self)@ == old(self)@,
            r matches Some(job) ==> exists|at: int|
                {
                    &&& is_next(old(self)@, at)
                    &&& job@ == claimed(old(self)@[at], now)
                    &&& final(self)@ == old(self)@.update(at, job@)
                },
    {
        let at = match select_next_job(&self.rows) {
            Some(at) => at,
            None => {
                return None;
            },
        };
        let ghost before = self@;
        let mut job = self.rows[at].duplicate();
        job.claim(now);
        let copy = job.duplicate();
        self.rows.set(at, job);
        assert(self@ =~= before.update(at as int, copy@));
        assert(forall|i: int| 0 <= i < self@.len() ==> (#[trigger] self@[i]).wf()) by {
            assert(before[at as int].wf());
        }
        assert(is_next(before, at as int));
        Some(copy)
    }

    /// Stores the progress of a running job. Refused, with nothing changed,
    /// where no running job has the id or the progress is not within the
    /// job's total.
    pub fn save_progress(&mut self, update: &ProgressUpdate) -> (r: bool)
        requires
            old(self).wf(),
        ensures
            final(self).wf(),
            final(self).next_id() == old(self).next_id(),
            r == progress_fits(old(self)@, *update),
            r ==> final(self)@ == old(self)@.update(
                position_of_job(old(self)@, update.job_id, 0),
                progressed(old(self)@[position_of_job(old(self)@, update.job_id, 0)], *update),
            ),
            !r ==> final(self)@ == old(self)@,
    {
        proof {
            lemma_position_of_job(self@, update.job_id, 0);
        }
        let at = match self.find(update.job_id) {
            Some(at) => at,
            None => {
                return false;
            },
        };
        let row = &self.rows[at];
        assert(row@ == self@[at as int]);
        if !(row.status == JobStatus::Running && 0 <= update.progress_bytes
            && update.progress_bytes <= row.total_bytes && 0 <= update.speed_bytes_per_sec && 0
            <= update.eta_seconds) {
            return false;
        }
        let mut job = row.duplicate();
        job.progress_bytes = update.progress_bytes;
        job.speed_bytes_per_sec = update.speed_bytes_per_sec;
        job.eta_seconds = update.eta_seconds;
        job.updated_at = update.updated_at;
        let ghost before = self@;
        let ghost after = job@;
        self.rows.set(at, job);
        assert(self@ =~= before.update(at as int, after));
        true
    }

    /// Stores a running job as failed, with the failure's words. Refused,
    /// with nothing changed, where no running job has the id.
    pub fn mark_failed(&mut self, job_id: i64, words: &str, now: i64) -> (r: bool)
        requires
            old(self).wf(),
        ensures
            final(self).wf(),
            final(self).next_id() == old(self).next_id(),
            r == is_running(old(self)@, job_id),
            r ==> final(self)@ == old(self)@.update(
                position_of_job(old(self)@, job_id, 0),
                failed_job(old(self)@[position_of_job(old(self)@, job_id, 0)], words@, now),
            ),
            !r ==> final(self)@ == old(self)@,
    {
        proof {
            lemma_position_of_job(self@, job_id, 0);
        }
        let at = match self.find(job_id) {
            Some(at) => at,
            None => {
                return false;
            },
        };
        assert(self.rows[at as int]@ == self@[at as int]);
        let mut job = self.rows[at].duplicate();
        if !job.fail(words, now) {
            return false;
        }
        let ghost before = self@;
        let ghost after = job@;
        self.rows.set(at, job);
        assert(self@ =~= before.update(at as int, after));
        true
    }
}

/// Admits a move of the show with the given id to the tier that `target`
/// names, and queues it. A request that is refused leaves the queue as it
/// was.
pub fn create_move_job(
    jobs: &mut JobStore,
    index: &IndexStore,
    config: &Config,
    show_id: i64,
    target: &str,
    now: i64,
) -> (r: Result<JobRecord, JobError>)
    requires
        old(jobs).wf(),
    ensures
        final(jobs).wf(),
        match requested_move(
            old(jobs)@,
            old(jobs).next_id(),
            index@,
            config.hot_root@,
            config.cold_root@,
            show_id,
            target@,
        ) {
            Ok(plan) => {
                &&& r matches Ok(job) && job@ == queued_job(plan, old(jobs).next_id(), now)
                &&& final(jobs)@ == old(jobs)@.push(queued_job(plan, old(jobs).next_id(), now))
            },
            Err(fault) => {
                &&& r matches Err(e) && e@ == fault
                &&& final(jobs)@ == old(jobs)@
                &&& final(jobs).next_id() == old(jobs).next_id()
            },
        },
{
    let show = match index.find_id(show_id) {
        Some(at) => Some(index.row(at)),
        None => None,
    };
    let plan = match plan_move(target, show, config) {
        Ok(plan) => plan,
        Err(e) => {
            return Err(e);
        },
    };
    jobs.enqueue(&plan, now)
}

/// The job with the given id, if there is one.
pub fn get_job(jobs: &JobStore, id: i64) -> (r: Option<JobRecord>)
    ensures
        r is Some <==> position_of_job(jobs@, id, 0) < jobs@.len(),
        r matches Some(job) ==> job@ == jobs@[position_of_job(jobs@, id, 0)],
{
    match jobs.find(id) {
        Some(at) => Some(jobs.row(at).duplicate()),
        None => None,
    }
}

/// Whether any job is queued or running.
pub fn has_active_jobs(jobs: &JobStore) -> (r: bool)
    ensures
        r == has_active(jobs@),
{
    let mut i: usize = 0;
    while i < jobs.len()
        invariant
            i <= jobs@.len(),
            forall|k: int| 0 <= k < i ==> !(#[trigger] jobs@[k]).status.active(),
        decreases jobs@.len() - i,
    {
        if jobs.row(i).status.is_active() {
            return true;
        }
        i = i + 1;
    }
    false
}

/// A request for the tier that a show is in is refused, and nothing is
/// queued for it.
pub proof fn lemma_move_to_current_tier_is_refused(
    jobs: Seq<JobView>,
    next_id: i64,
    shows: Seq<ShowView>,
    hot_setting: Seq<char>,
    cold_setting: Seq<char>,
    show_id: i64,
    target: Seq<char>,
)
    requires
        position_of_id(shows, show_id, 0) < shows.len(),
        requested_tier(target) is Some,
        located(shows[position_of_id(shows, show_id, 0)].path, hot_setting, cold_setting) == Ok::<
            Tier,
            JobFault,
        >(requested_tier(target)->0),
    ensures
        requested_move(jobs, next_id, shows, hot_setting, cold_setting, show_id, target) == Err::<
            PlanView,
            JobFault,
        >(JobFault::AlreadyInLocation),
{
}

/// Writes a finalization: the show's new path and tier into the index and
/// the job's success into the queue, both or neither.
pub fn commit(jobs: &mut JobStore, index: &mut IndexStore, f: &Finalization) -> (r: Result<
    (),
    JobError,
>)
    requires
        old(jobs).wf(),
        old(index).wf(),
    ensures
        final(jobs).wf(),
        final(index).wf(),
        final(jobs).next_id() == old(jobs).next_id(),
        final(index).next_id() == old(index).next_id(),
        r is Ok <==> finalization_fits(old(jobs)@, old(index)@, f@),
        r is Ok ==> {
            &&& final(index)@ == relocated(old(index)@, f.show_id, f.path@, Some(f.location))
            &&& final(jobs)@ == old(jobs)@.update(
                position_of_job(old(jobs)@, f.job_id, 0),
                succeeded_job(
                    old(jobs)@[position_of_job(old(jobs)@, f.job_id, 0)],
                    f.progress_bytes,
                    f.updated_at,
                ),
            )
        },
        r matches Err(e) ==> {
            &&& e@ == JobFault::Database(commit_refused_words())
            &&& final(index)@ == old(index)@
            &&& final(jobs)@ == old(jobs)@
        },
{
    proof {
        lemma_position_of_job(jobs@, f.job_id, 0);
    }
    let at = match jobs.find(f.job_id) {
        Some(at) => at,
        None => {
            return Err(JobError::Database("the finalization does not fit the tables".to_owned()));
        },
    };
    assert(jobs.rows[at as int]@ == jobs@[at as int]);
    if !(jobs.rows[at].status == JobStatus::Running && 0 <= f.progress_bytes && f.progress_bytes
        <= jobs.rows[at].total_bytes) {
        return Err(JobError::Database("the finalization does not fit the tables".to_owned()));
    }
    match index.relocate(f.show_id, f.path.as_str(), Some(f.location)) {
        Ok(()) => {},
        Err(_) => {
            return Err(JobError::Database("the finalization does not fit the tables".to_owned()));
        },
    }
    let mut job = jobs.rows[at].duplicate();
    job.status = JobStatus::Success;
    job.error_message = None;
    job.progress_bytes = f.progress_bytes;
    job.speed_bytes_per_sec = 0;
    job.eta_seconds = 0;
    job.updated_at = f.updated_at;
    let ghost before = jobs@;
    let ghost after = job@;
    jobs.rows.set(at, job);
    assert(jobs@ =~= before.update(at as int, after));
    Ok(())
}

/// A move that was admitted goes under the root of the tier that was asked
/// for, and where neither root lies under the other, that tier is the one the
/// destination is found in.
pub proof fn lemma_admitted_move_lands_in_target(
    target: Seq<char>,
    show: Option<ShowView>,
    hot_setting: Seq<char>,
    cold_setting: Seq<char>,
)
    requires
        admission(target, show, hot_setting, cold_setting) is Ok,
    ensures
        ({
            let plan = admission(target, show, hot_setting, cold_setting)->Ok_0;
            let root = tier_root(hot_setting, cold_setting, plan.target);
            &&& requested_tier(target) == Some(plan.target)
            &&& root is Some
            &&& lies_under(plan.destination_path, root->0)
            &&& located(show->0.path, hot_setting, cold_setting) == Ok::<Tier, JobFault>(
                plan.target.opposite(),
            )
            &&& (!lies_under(root_of(hot_setting)->0, root_of(cold_setting)->0) && !lies_under(
                root_of(cold_setting)->0,
                root_of(hot_setting)->0,
            )) ==> located(plan.destination_path, hot_setting, cold_setting) == Ok::<
                Tier,
                JobFault,
            >(plan.target)
        }),
{
    let plan = admission(target, show, hot_setting, cold_setting)->Ok_0;
    let hot = root_of(hot_setting)->0;
    let cold = root_of(cold_setting)->0;
    let path = show->0.path;
    lemma_blank_iff_all_white(hot_setting);
    lemma_blank_iff_all_white(cold_setting);
    assert(hot.len() > 0);
    assert(cold.len() > 0);
    let current = located(path, hot_setting, cold_setting)->Ok_0;
    let from = tier_root(hot_setting, cold_setting, current)->0;
    let to = tier_root(hot_setting, cold_setting, plan.target)->0;
    lemma_components_of_rebased(path, from, to);
    if lies_under(plan.destination_path, hot) && lies_under(plan.destination_path, cold) {
        lemma_common_descendant(plan.destination_path, hot, cold);
    }
}

/// A list in which the jobs that were created later come first, with one
/// more job put in: behind every job that was not created before it.
pub open spec fn inserted_by_age(sorted: Seq<JobView>, job: JobView) -> Seq<JobView>
    decreases sorted.len(),
{
    if sorted.len() == 0 {
        seq![job]
    } else if sorted.last().created_at >= job.created_at {
        sorted.push(job)
    } else {
        inserted_by_age(sorted.drop_last(), job).push(sorted.last())
    }
}

/// The first `upto` rows with those that were created later first. Rows
/// that were created at the same time keep their order.
pub open spec fn newest_first(rows: Seq<JobView>, upto: int) -> Seq<JobView>
    decreases upto,
{
    if upto <= 0 {
        seq![]
    } else {
        inserted_by_age(newest_first(rows, upto - 1), rows[upto - 1])
    }
}

/// Where a page begins in a list of the given length. An offset below zero
/// counts as zero.
pub open spec fn page_start(len: int, offset: i64) -> int {
    if offset <= 0 {
        0
    } else if offset >= len {
        len
    } else {
        offset as int
    }
}

/// Where a page ends in a list of the given length. A limit below zero is
/// none.
pub open spec fn page_end(len: int, limit: i64, offset: i64) -> int {
    let from = page_start(len, offset);
    if limit < 0 || from + limit >= len {
        len
    } else {
        from + limit
    }
}

/// Whether later jobs come first.
pub open spec fn newest_come_first(rows: Seq<JobView>) -> bool {
    forall|i: int, j: int| 0 <= i < j < rows.len() ==> rows[i].created_at >= rows[j].created_at
}

/// Putting a job in its place keeps later jobs first, adds the job and
/// nothing else, and is the same as putting it in at the place behind the
/// last job that was not created before it.
pub proof fn lemma_inserted_by_age(sorted: Seq<JobView>, job: JobView, at: int)
    requires
        newest_come_first(sorted),
        0 <= at <= sorted.len(),
        at > 0 ==> sorted[at - 1].created_at >= job.created_at,
        forall|k: int| at <= k < sorted.len() ==> sorted[k].created_at < job.created_at,
    ensures
        inserted_by_age(sorted, job) == sorted.insert(at, job),
        newest_come_first(inserted_by_age(sorted, job)),
        inserted_by_age(sorted, job).len() == sorted.len() + 1,
    decreases sorted.len(),
{
    if sorted.len() == 0 {
        assert(seq![job] =~= sorted.insert(at, job));
    } else if sorted.last().created_at >= job.created_at {
        assert(at == sorted.len());
        assert(sorted.push(job) =~= sorted.insert(at, job));
    } else {
        assert(at < sorted.len());
        let init = sorted.drop_last();
        lemma_inserted_by_age(init, job, at);
        assert(init.insert(at, job).push(sorted.last()) =~= sorted.insert(at, job));
        let r = sorted.insert(at, job);
        assert forall|i: int, j: int| 0 <= i < j < r.len() implies r[i].created_at
            >= r[j].created_at by {
            if i < at && j > at {
                assert(r[i] == sorted[i]);
                assert(r[j] == sorted[j - 1]);
                assert(sorted[at - 1].created_at >= job.created_at);
            }
        }
    }
}

/// In the list of the first `upto` rows, later jobs come first, and the list
/// has as many jobs as there are rows.
pub proof fn lemma_newest_first_sorted(rows: Seq<JobView>, upto: int)
    requires
        0 <= upto <= rows.len(),
    ensures
        newest_come_first(newest_first(rows, upto)),
        newest_first(rows, upto).len() == upto,
    decreases upto,
{
    if upto > 0 {
        lemma_newest_first_sorted(rows, upto - 1);
        let sorted = newest_first(rows, upto - 1);
        let job = rows[upto - 1];
        let at = insertion_point(sorted, job, sorted.len() as int);
        lemma_insertion_point(sorted, job, sorted.len() as int);
        lemma_inserted_by_age(sorted, job, at);
    }
}

/// The place behind the last of the first `upto` jobs that was not created
/// before the given job.
pub open spec fn insertion_point(sorted: Seq<JobView>, job: JobView, upto: int) -> int
    decreases upto,
{
    if upto <= 0 {
        0
    } else if sorted[upto - 1].created_at >= job.created_at {
        upto
    } else {
        insertion_point(sorted, job, upto - 1)
    }
}

pub proof fn lemma_insertion_point(sorted: Seq<JobView>, job: JobView, upto: int)
    requires
        0 <= upto <= sorted.len(),
    ensures
        0 <= insertion_point(sorted, job, upto) <= upto,
        insertion_point(sorted, job, upto) > 0 ==> sorted[insertion_point(sorted, job, upto)
            - 1].created_at >= job.created_at,
        forall|k: int|
            insertion_point(sorted, job, upto) <= k < upto ==> sorted[k].created_at
                < job.created_at,
    decreases upto,
{
    if upto > 0 && sorted[upto - 1].created_at < job.created_at {
        lemma_insertion_point(sorted, job, upto - 1);
    }
}

/// One page of the jobs, later jobs first: at most `limit` jobs from the
/// one at `offset` on.
pub fn list_jobs(jobs: &JobStore, limit: i64, offset: i64) -> (r: Vec<JobRecord>)
    ensures
        job_views(r@) == newest_first(jobs@, jobs@.len() as int).subrange(
            page_start(jobs@.len() as int, offset),
            page_end(jobs@.len() as int, limit, offset),
        ),
{
    let ghost rows = jobs@;
    let mut sorted: Vec<JobRecord> = Vec::new();
    let mut i: usize = 0;
    assert(job_views(sorted@) =~= newest_first(rows, 0));
    while i < jobs.len()
        invariant
            i <= jobs@.len(),
            rows == jobs@,
            job_views(sorted@) == newest_first(rows, i as int),
            sorted@.len() == i,
        decreases jobs@.len() - i,
    {
        let job = jobs.row(i).duplicate();
        let ghost before = job_views(sorted@);
        proof {
            lemma_newest_first_sorted(rows, i as int);
        }
        let mut at: usize = sorted.len();
        while at > 0 && sorted[at - 1].created_at < job.created_at
            invariant
                at <= sorted@.len(),
                before == job_views(sorted@),
                insertion_point(before, job@, sorted@.len() as int) == insertion_point(
                    before,
                    job@,
                    at as int,
                ),
            decreases at,
        {
            assert(before[at - 1] == sorted@[at - 1]@);
            at = at - 1;
        }
        proof {
            if at > 0 {
                assert(before[at - 1] == sorted@[at - 1]@);
            }
            lemma_insertion_point(before, job@, before.len() as int);
            lemma_inserted_by_age(before, job@, at as int);
        }
        let ghost view = job@;
        sorted.insert(at, job);
        assert(job_views(sorted@) =~= before.insert(at as int, view));
        i = i + 1;
    }
    let n = sorted.len();
    let from: usize = if offset <= 0 {
        0
    } else if offset as u64 >= n as u64 {
        n
    } else {
        offset as usize
    };
    let to: usize = if limit < 0 || (limit as u64) >= (n - from) as u64 {
        n
    } else {
        from + limit as usize
    };
    let mut out: Vec<JobRecord> = Vec::new();
    let mut k: usize = from;
    let ghost all = job_views(sorted@);
    assert(job_views(out@) =~= all.subrange(from as int, from as int));
    while k < to
        invariant
            from <= k <= to <= sorted@.len(),
            all == job_views(sorted@),
            job_views(out@) == all.subrange(from as int, k as int),
        decreases to - k,
    {
        let ghost before = job_views(out@);
        let copy = sorted[k].duplicate();
        assert(copy@ == all[k as int]);
        out.push(copy);
        assert(job_views(out@) =~= before.push(all[k as int]));
        assert(all.subrange(from as int, k + 1) =~= before.push(all[k as int]));
        k = k + 1;
    }
    out
}

/// Once a finalization is written, the show's row has the destination as
/// its path and the finalization's tier as its location; where the
/// finalization came from a run, that path lies under the root of that tier.
pub proof fn lemma_committed_show_is_in_place(
    jobs: Seq<JobView>,
    shows: Seq<ShowView>,
    f: FinalizationView,
    hot_setting: Seq<char>,
    cold_setting: Seq<char>,
)
    requires
        finalization_fits(jobs, shows, f),
        located(f.path, hot_setting, cold_setting) == Ok::<Tier, JobFault>(f.location),
    ensures
        ({
            let at = position_of_id(shows, f.show_id, 0);
            let row = relocated(shows, f.show_id, f.path, Some(f.location))[at];
            &&& row.id == f.show_id
            &&& row.path == f.path
            &&& row.location == Some(f.location)
            &&& lies_under(row.path, tier_root(hot_setting, cold_setting, f.location)->0)
        }),
{
    lemma_position_of_id(shows, f.show_id, 0);
}

} // verus!
