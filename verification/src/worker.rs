//! The worker's side of a move: the run of one job as a sequence of requests
//! to the filesystem and the store, each answered by an event, and the
//! accounting of progress, speed and remaining time.
//!
//! The program around the library carries out each request and hands back
//! what came of it. Which request follows, what is stored, and which failure
//! ends the job are settled here.

use vstd::prelude::*;
use crate::config::{opt_text, Config};
use crate::jobs::{
    failed_job, locate_path, located, succeeded_job, tier_root, Finalization,
    FinalizationView, JobError, JobFault, JobRecord, JobStatus, JobView, ProgressUpdate,
};
use crate::paths::{begins_with, components, lies_under, rebase, rebased, split_components};
use crate::tier::Tier;

verus! {

/// A size as a signed count, capped at the largest one.
pub open spec fn clamped(value: u64) -> i64 {
    if value > i64::MAX {
        i64::MAX
    } else {
        value as i64
    }
}

/// The bytes copied so far after a file of the given size is added, capped at
/// the largest count.
pub open spec fn copied_after(copied: i64, size: u64) -> i64 {
    if copied + clamped(size) > i64::MAX {
        i64::MAX
    } else {
        (copied + clamped(size)) as i64
    }
}

/// The progress that is stored for a count of copied bytes: never more than
/// the job's total.
pub open spec fn progress_of(copied: i64, total: i64) -> i64 {
    if copied < total {
        copied
    } else {
        total
    }
}

/// Bytes per second, rounded down: the bytes copied over the time that has
/// passed, and zero while no time has passed.
pub open spec fn throughput(copied: i64, elapsed_nanos: u128) -> i64 {
    if elapsed_nanos == 0 || copied <= 0 {
        0
    } else {
        let q = (copied * 1_000_000_000) / (elapsed_nanos as int);
        if q > i64::MAX {
            i64::MAX
        } else {
            q as i64
        }
    }
}

/// Seconds until the rest is copied at the given speed, rounded to the
/// nearest second, and zero where the speed is zero.
pub open spec fn remaining_time(remaining: i64, speed: i64) -> i64 {
    if speed <= 0 || remaining <= 0 {
        0
    } else {
        let q = (2 * remaining + speed) / (2 * speed);
        if q > i64::MAX {
            i64::MAX
        } else {
            q as i64
        }
    }
}

/// A size as a signed count, capped at the largest one.
pub fn clamp_to_i64(value: u64) -> (r: i64)
    ensures
        r == clamped(value),
        0 <= r,
{
    if value > 9223372036854775807u64 {
        i64::MAX
    } else {
        value as i64
    }
}

/// Bytes per second for the bytes copied over the time that has passed.
pub fn speed_of(copied: i64, elapsed_nanos: u128) -> (r: i64)
    ensures
        r == throughput(copied, elapsed_nanos),
        0 <= r,
{
    if elapsed_nanos == 0 || copied <= 0 {
        return 0;
    }
    let scaled: u128 = (copied as u128) * 1_000_000_000u128;
    let q: u128 = scaled / elapsed_nanos;
    if q > 9223372036854775807u128 {
        i64::MAX
    } else {
        q as i64
    }
}

/// Seconds until the rest is copied at the given speed.
pub fn eta_of(remaining: i64, speed: i64) -> (r: i64)
    ensures
        r == remaining_time(remaining, speed),
        0 <= r,
{
    if speed <= 0 || remaining <= 0 {
        return 0;
    }
    let twice: u128 = 2u128 * (remaining as u128) + (speed as u128);
    let q: u128 = twice / (2u128 * (speed as u128));
    if q > 9223372036854775807u128 {
        i64::MAX
    } else {
        q as i64
    }
}

/// The time of a step: the clock's seconds, and the time since the run began.
#[derive(Clone, Copy, Debug, PartialEq, Eq, Structural)]
pub struct Clock {
    pub now: i64,
    pub elapsed_nanos: u128,
}

/// What came of the last request.
#[derive(Debug, Clone)]
pub enum MoveEvent {
    /// The request was carried out.
    Done,
    /// The request failed because nothing is at the path. The words are the
    /// error's.
    NotFound(String),
    /// The request failed for another reason. The words are the error's.
    Failed(String),
    /// The walk of the source came to an entry.
    Entry { path: String, is_dir: bool, size: u64 },
    /// The walk of the source has no further entry.
    WalkEnded,
}

/// An event as plain values.
pub enum EventView {
    Done,
    NotFound(Seq<char>),
    Failed(Seq<char>),
    Entry { path: Seq<char>, is_dir: bool, size: u64 },
    WalkEnded,
}

impl View for MoveEvent {
    type V = EventView;

    open spec fn view(&self) -> EventView {
        match *self {
            MoveEvent::Done => EventView::Done,
            MoveEvent::NotFound(m) => EventView::NotFound(m@),
            MoveEvent::Failed(m) => EventView::Failed(m@),
            MoveEvent::Entry { path, is_dir, size } => EventView::Entry { path: path@, is_dir, size },
            MoveEvent::WalkEnded => EventView::WalkEnded,
        }
    }
}

impl EventView {
    /// The error's words, where the event is a failure.
    pub open spec fn failure(self) -> Option<Seq<char>> {
        match self {
            EventView::NotFound(m) => Some(m),
            EventView::Failed(m) => Some(m),
            _ => None,
        }
    }
}

/// What the run asks for next.
#[derive(Debug, Clone)]
pub enum MoveAction {
    /// Remove the directory tree at the path. The job goes on whatever comes
    /// of it.
    RemoveTree(String),
    /// Create the directory at the path, with the directories above it.
    CreateDirectory(String),
    /// Hand in the next entry of the walk of the source tree.
    NextEntry,
    /// Copy the file, creating the directories above its new place.
    CopyFile { from: String, to: String },
    /// Store the job's progress.
    SaveProgress(ProgressUpdate),
    /// Write the show's new path and tier and the job's success, both or
    /// neither.
    Commit(Finalization),
    /// Store the job as failed, with these words. The run is over.
    Fail { job_id: i64, words: String },
    /// The move is done. The run is over.
    Finish,
    /// The event answers no request of this run. Nothing changed.
    Nothing,
}

/// A request as plain values.
pub enum ActionView {
    RemoveTree(Seq<char>),
    CreateDirectory(Seq<char>),
    NextEntry,
    CopyFile { from: Seq<char>, to: Seq<char> },
    SaveProgress(ProgressUpdate),
    Commit(FinalizationView),
    Fail { job_id: i64, words: Seq<char> },
    Finish,
    Nothing,
}

impl View for MoveAction {
    type V = ActionView;

    open spec fn view(&self) -> ActionView {
        match *self {
            MoveAction::RemoveTree(p) => ActionView::RemoveTree(p@),
            MoveAction::CreateDirectory(p) => ActionView::CreateDirectory(p@),
            MoveAction::NextEntry => ActionView::NextEntry,
            MoveAction::CopyFile { from, to } => ActionView::CopyFile { from: from@, to: to@ },
            MoveAction::SaveProgress(u) => ActionView::SaveProgress(u),
            MoveAction::Commit(f) => ActionView::Commit(f@),
            MoveAction::Fail { job_id, words } => ActionView::Fail { job_id, words: words@ },
            MoveAction::Finish => ActionView::Finish,
            MoveAction::Nothing => ActionView::Nothing,
        }
    }
}

/// The next request, and the words of a failure that the job goes on after.
#[derive(Debug, Clone)]
pub struct MoveStep {
    pub action: MoveAction,
    pub warning: Option<String>,
}

/// A step as plain values.
pub struct StepView {
    pub action: ActionView,
    pub warning: Option<Seq<char>>,
}

impl View for MoveStep {
    type V = StepView;

    open spec fn view(&self) -> StepView {
        StepView { action: self.action@, warning: opt_text(self.warning) }
    }
}

/// Which answer a run waits for.
#[derive(Clone, Copy, Debug, PartialEq, Eq, Structural)]
pub enum MovePhase {
    /// The removal of what a former run left at the destination.
    ClearingDestination,
    /// The creation of the destination directory.
    CreatingDestination,
    /// The next entry of the walk.
    Walking,
    /// The creation of a directory below the destination.
    MakingDirectory,
    /// The copy of a file.
    Copying,
    /// The storing of the progress.
    SavingProgress,
    /// The writing of the show's new path and the job's success.
    Committing,
    /// The removal of the source tree.
    RemovingSource,
    /// Nothing: the move is done.
    Succeeded,
    /// Nothing: the job has failed.
    Failed,
}

/// The run of one job.
pub struct MoveRun {
    job: JobRecord,
    hot_setting: String,
    cold_setting: String,
    copied: i64,
    phase: MovePhase,
    pending: u64,
    commit_at: i64,
}

/// A run as plain values.
pub struct RunView {
    /// The job's row as the store has it, if every request to the store was
    /// carried out.
    pub job: JobView,
    /// The setting of the hot root when the run began.
    pub hot_setting: Seq<char>,
    /// The setting of the cold root when the run began.
    pub cold_setting: Seq<char>,
    /// The bytes counted as copied.
    pub copied: i64,
    pub phase: MovePhase,
    /// The size of the file that is being copied.
    pub pending: u64,
    /// The time that the finalization was given.
    pub commit_at: i64,
}

impl View for MoveRun {
    type V = RunView;

    closed spec fn view(&self) -> RunView {
        RunView {
            job: self.job@,
            hot_setting: self.hot_setting@,
            cold_setting: self.cold_setting@,
            copied: self.copied,
            phase: self.phase,
            pending: self.pending,
            commit_at: self.commit_at,
        }
    }
}

impl RunView {
    /// What holds of a run at every step: the job's row is in order, the
    /// count of copied bytes is not negative, and the job's status goes with
    /// the phase.
    pub open spec fn wf(self) -> bool {
        &&& self.job.wf()
        &&& 0 <= self.copied
        &&& self.job.status == match self.phase {
            MovePhase::RemovingSource => JobStatus::Success,
            MovePhase::Succeeded => JobStatus::Success,
            MovePhase::Failed => JobStatus::Failed,
            _ => JobStatus::Running,
        }
    }

    /// Whether the run is over.
    pub open spec fn over(self) -> bool {
        self.phase == MovePhase::Succeeded || self.phase == MovePhase::Failed
    }
}

/// The run as a job begins to execute: the count of copied bytes starts from
/// the progress that is stored.
pub open spec fn begun(job: JobView, hot_setting: Seq<char>, cold_setting: Seq<char>) -> RunView {
    RunView {
        job,
        hot_setting,
        cold_setting,
        copied: job.progress_bytes,
        phase: MovePhase::ClearingDestination,
        pending: 0,
        commit_at: 0,
    }
}

/// A step that asks for something and gives no warning.
pub open spec fn ask(action: ActionView) -> StepView {
    StepView { action, warning: None }
}

/// The end of a run by a failure.
pub open spec fn aborted(run: RunView, fault: JobFault, now: i64) -> (RunView, StepView) {
    (
        RunView { phase: MovePhase::Failed, job: failed_job(run.job, fault.words(), now), ..run },
        ask(ActionView::Fail { job_id: run.job.id, words: fault.words() }),
    )
}

/// A run and a step that take no notice of an event.
pub open spec fn ignored(run: RunView) -> (RunView, StepView) {
    (run, ask(ActionView::Nothing))
}

/// The job's row after a file of the given size was copied.
pub open spec fn job_after_copy(job: JobView, copied: i64, clock: Clock) -> JobView {
    let progress = progress_of(copied, job.total_bytes);
    let speed = throughput(copied, clock.elapsed_nanos);
    JobView {
        progress_bytes: progress,
        speed_bytes_per_sec: speed,
        eta_seconds: remaining_time((job.total_bytes - progress) as i64, speed),
        updated_at: clock.now,
        ..job
    }
}

/// What is stored of a job's progress.
pub open spec fn update_of(job: JobView) -> ProgressUpdate {
    ProgressUpdate {
        job_id: job.id,
        progress_bytes: job.progress_bytes,
        speed_bytes_per_sec: job.speed_bytes_per_sec,
        eta_seconds: job.eta_seconds,
        updated_at: job.updated_at,
    }
}

/// What an entry of the walk makes of a run: the source itself is passed
/// over, a directory is created below the destination, a file is copied
/// there.
pub open spec fn entered(run: RunView, path: Seq<char>, is_dir: bool, size: u64, now: i64) -> (
    RunView,
    StepView,
) {
    let source = run.job.source_path;
    let target = rebased(path, source, run.job.destination_path);
    if components(path) == components(source) {
        (run, ask(ActionView::NextEntry))
    } else if !lies_under(path, source) {
        aborted(run, JobFault::PathMismatch, now)
    } else if is_dir {
        (
            RunView { phase: MovePhase::MakingDirectory, ..run },
            ask(ActionView::CreateDirectory(target)),
        )
    } else {
        (
            RunView { phase: MovePhase::Copying, pending: size, ..run },
            ask(ActionView::CopyFile { from: path, to: target }),
        )
    }
}

/// What the end of the walk makes of a run: the finalization, where the
/// destination lies under a configured root.
pub open spec fn walked(run: RunView, now: i64) -> (RunView, StepView) {
    match located(run.job.destination_path, run.hot_setting, run.cold_setting) {
        Err(fault) => aborted(run, fault, now),
        Ok(location) => (
            RunView { phase: MovePhase::Committing, commit_at: now, ..run },
            ask(
                ActionView::Commit(
                    FinalizationView {
                        show_id: run.job.show_id,
                        path: run.job.destination_path,
                        location,
                        job_id: run.job.id,
                        progress_bytes: progress_of(run.copied, run.job.total_bytes),
                        updated_at: now,
                    },
                ),
            ),
        ),
    }
}

/// The run and the next step after an event.
pub open spec fn advance(run: RunView, event: EventView, clock: Clock) -> (RunView, StepView) {
    match run.phase {
        MovePhase::ClearingDestination => match event {
            EventView::Done => (
                RunView { phase: MovePhase::CreatingDestination, ..run },
                ask(ActionView::CreateDirectory(run.job.destination_path)),
            ),
            EventView::NotFound(_) => (
                RunView { phase: MovePhase::CreatingDestination, ..run },
                ask(ActionView::CreateDirectory(run.job.destination_path)),
            ),
            EventView::Failed(m) => (
                RunView { phase: MovePhase::CreatingDestination, ..run },
                StepView {
                    action: ActionView::CreateDirectory(run.job.destination_path),
                    warning: Some(m),
                },
            ),
            _ => ignored(run),
        },
        MovePhase::CreatingDestination => match event {
            EventView::Done => (
                RunView { phase: MovePhase::Walking, ..run },
                ask(ActionView::NextEntry),
            ),
            EventView::NotFound(m) => aborted(run, JobFault::Io(m), clock.now),
            EventView::Failed(m) => aborted(run, JobFault::Io(m), clock.now),
            _ => ignored(run),
        },
        MovePhase::Walking => match event {
            EventView::Entry { path, is_dir, size } => entered(run, path, is_dir, size, clock.now),
            EventView::WalkEnded => walked(run, clock.now),
            EventView::NotFound(m) => aborted(run, JobFault::Io(m), clock.now),
            EventView::Failed(m) => aborted(run, JobFault::Io(m), clock.now),
            EventView::Done => ignored(run),
        },
        MovePhase::MakingDirectory => match event {
            EventView::Done => (
                RunView { phase: MovePhase::Walking, ..run },
                ask(ActionView::NextEntry),
            ),
            EventView::NotFound(m) => aborted(run, JobFault::Io(m), clock.now),
            EventView::Failed(m) => aborted(run, JobFault::Io(m), clock.now),
            _ => ignored(run),
        },
        MovePhase::Copying => match event {
            EventView::Done => {
                let copied = copied_after(run.copied, run.pending);
                let job = job_after_copy(run.job, copied, clock);
                (
                    RunView { phase: MovePhase::SavingProgress, copied, job, ..run },
                    ask(ActionView::SaveProgress(update_of(job))),
                )
            },
            EventView::NotFound(m) => aborted(run, JobFault::Io(m), clock.now),
            EventView::Failed(m) => aborted(run, JobFault::Io(m), clock.now),
            _ => ignored(run),
        },
        MovePhase::SavingProgress => match event {
            EventView::Done => (
                RunView { phase: MovePhase::Walking, ..run },
                ask(ActionView::NextEntry),
            ),
            EventView::NotFound(m) => aborted(run, JobFault::Database(m), clock.now),
            EventView::Failed(m) => aborted(run, JobFault::Database(m), clock.now),
            _ => ignored(run),
        },
        MovePhase::Committing => match event {
            EventView::Done => (
                RunView {
                    phase: MovePhase::RemovingSource,
                    job: succeeded_job(
                        run.job,
                        progress_of(run.copied, run.job.total_bytes),
                        run.commit_at,
                    ),
                    ..run
                },
                ask(ActionView::RemoveTree(run.job.source_path)),
            ),
            EventView::NotFound(m) => aborted(run, JobFault::Database(m), clock.now),
            EventView::Failed(m) => aborted(run, JobFault::Database(m), clock.now),
            _ => ignored(run),
        },
        MovePhase::RemovingSource => match event {
            EventView::Done => (
                RunView { phase: MovePhase::Succeeded, ..run },
                ask(ActionView::Finish),
            ),
            EventView::NotFound(m) => (
                RunView { phase: MovePhase::Succeeded, ..run },
                StepView { action: ActionView::Finish, warning: Some(m) },
            ),
            EventView::Failed(m) => (
                RunView { phase: MovePhase::Succeeded, ..run },
                StepView { action: ActionView::Finish, warning: Some(m) },
            ),
            _ => ignored(run),
        },
        MovePhase::Succeeded => ignored(run),
        MovePhase::Failed => ignored(run),
    }
}

/// Begins to execute a job that the worker has taken up, under the
/// configuration as it stands now: the run, and its first request, to remove
/// what a former run left at the destination.
pub fn execute_job(job: JobRecord, config: &Config) -> (r: (MoveRun, MoveStep))
    requires
        job@.wf(),
        job.status == JobStatus::Running,
    ensures
        r.0@ == begun(job@, config.hot_root@, config.cold_root@),
        r.0@.wf(),
        r.1@ == ask(ActionView::RemoveTree(job@.destination_path)),
{
    let destination = job.destination_path.clone();
    let copied = job.progress_bytes;
    let run = MoveRun {
        job,
        hot_setting: config.hot_root.clone(),
        cold_setting: config.cold_root.clone(),
        copied,
        phase: MovePhase::ClearingDestination,
        pending: 0,
        commit_at: 0,
    };
    (run, MoveStep { action: MoveAction::RemoveTree(destination), warning: None })
}

impl MoveRun {
    /// The job's row as the store has it, if every request to the store was
    /// carried out.
    pub fn job(&self) -> (r: &JobRecord)
        ensures
            r@ == self@.job,
    {
        &self.job
    }

    /// Which answer the run waits for.
    pub fn phase(&self) -> (r: MovePhase)
        ensures
            r == self@.phase,
    {
        self.phase
    }

    /// The bytes counted as copied.
    pub fn copied(&self) -> (r: i64)
        ensures
            r == self@.copied,
    {
        self.copied
    }

    /// Whether the run is over.
    pub fn is_over(&self) -> (r: bool)
        ensures
            r == self@.over(),
    {
        self.phase == MovePhase::Succeeded || self.phase == MovePhase::Failed
    }

    /// Ends the run by a failure.
    fn abort(&mut self, error: JobError, now: i64) -> (r: MoveStep)
        requires
            old(self)@.wf(),
            old(self)@.job.status == JobStatus::Running,
        ensures
            (final(self)@, r@) == aborted(old(self)@, error@, now),
            final(self)@.wf(),
    {
        let words = error.to_string();
        let applied = self.job.fail(words.as_str(), now);
        assert(applied);
        self.phase = MovePhase::Failed;
        MoveStep { action: MoveAction::Fail { job_id: self.job.id, words }, warning: None }
    }

    /// Takes an entry of the walk.
    fn enter(&mut self, path: String, is_dir: bool, size: u64, now: i64) -> (r: MoveStep)
        requires
            old(self)@.wf(),
            old(self)@.phase == MovePhase::Walking,
        ensures
            (final(self)@, r@) == entered(old(self)@, path@, is_dir, size, now),
            final(self)@.wf(),
    {
        let here = split_components(path.as_str());
        let source = split_components(self.job.source_path.as_str());
        let below = begins_with(&here, &source);
        if below && here.len() == source.len() {
            assert(components(path@) =~= components(self@.job.source_path));
            return MoveStep { action: MoveAction::NextEntry, warning: None };
        }
        proof {
            if components(path@) == components(self@.job.source_path) {
                assert(components(self@.job.source_path).is_prefix_of(components(path@)));
            }
        }
        let target = match rebase(
            path.as_str(),
            self.job.source_path.as_str(),
            self.job.destination_path.as_str(),
        ) {
            Some(t) => t,
            None => {
                return self.abort(JobError::PathMismatch, now);
            },
        };
        if is_dir {
            self.phase = MovePhase::MakingDirectory;
            MoveStep { action: MoveAction::CreateDirectory(target), warning: None }
        } else {
            self.phase = MovePhase::Copying;
            self.pending = size;
            MoveStep { action: MoveAction::CopyFile { from: path, to: target }, warning: None }
        }
    }

    /// Takes the end of the walk.
    fn finalize(&mut self, now: i64) -> (r: MoveStep)
        requires
            old(self)@.wf(),
            old(self)@.phase == MovePhase::Walking,
        ensures
            (final(self)@, r@) == walked(old(self)@, now),
            final(self)@.wf(),
    {
        match locate_path(
            self.job.destination_path.as_str(),
            self.hot_setting.as_str(),
            self.cold_setting.as_str(),
        ) {
            Err(e) => self.abort(e, now),
            Ok(location) => {
                let progress = if self.copied < self.job.total_bytes {
                    self.copied
                } else {
                    self.job.total_bytes
                };
                self.phase = MovePhase::Committing;
                self.commit_at = now;
                MoveStep {
                    action: MoveAction::Commit(
                        Finalization {
                            show_id: self.job.show_id,
                            path: self.job.destination_path.clone(),
                            location,
                            job_id: self.job.id,
                            progress_bytes: progress,
                            updated_at: now,
                        },
                    ),
                    warning: None,
                }
            },
        }
    }

    /// Counts a copied file and works out what is stored of the progress.
    fn account(&mut self, clock: Clock) -> (r: MoveStep)
        requires
            old(self)@.wf(),
            old(self)@.phase == MovePhase::Copying,
        ensures
            (final(self)@, r@) == advance(old(self)@, EventView::Done, clock),
            final(self)@.wf(),
    {
        let bytes = clamp_to_i64(self.pending);
        let copied = if self.copied > i64::MAX - bytes {
            i64::MAX
        } else {
            self.copied + bytes
        };
        let total = self.job.total_bytes;
        let progress = if copied < total {
            copied
        } else {
            total
        };
        let speed = speed_of(copied, clock.elapsed_nanos);
        let eta = eta_of(total - progress, speed);
        self.copied = copied;
        self.job.progress_bytes = progress;
        self.job.speed_bytes_per_sec = speed;
        self.job.eta_seconds = eta;
        self.job.updated_at = clock.now;
        self.phase = MovePhase::SavingProgress;
        MoveStep {
            action: MoveAction::SaveProgress(
                ProgressUpdate {
                    job_id: self.job.id,
                    progress_bytes: progress,
                    speed_bytes_per_sec: speed,
                    eta_seconds: eta,
                    updated_at: clock.now,
                },
            ),
            warning: None,
        }
    }

    /// Takes the answer to the last request and gives the next one.
    ///
    /// A failure to clear the destination or to remove the source is passed
    /// on as a warning and the job goes on. Any other failure ends the job as
    /// failed, with the failure's words. An event that answers no request of
    /// this run changes nothing.
    pub fn step(&mut self, event: MoveEvent, clock: Clock) -> (r: MoveStep)
        requires
            old(self)@.wf(),
        ensures
            (final(self)@, r@) == advance(old(self)@, event@, clock),
            final(self)@.wf(),
    {
        match self.phase {
            MovePhase::ClearingDestination => match event {
                MoveEvent::Done => {
                    self.phase = MovePhase::CreatingDestination;
                    MoveStep {
                        action: MoveAction::CreateDirectory(self.job.destination_path.clone()),
                        warning: None,
                    }
                },
                MoveEvent::NotFound(_) => {
                    self.phase = MovePhase::CreatingDestination;
                    MoveStep {
                        action: MoveAction::CreateDirectory(self.job.destination_path.clone()),
                        warning: None,
                    }
                },
                MoveEvent::Failed(m) => {
                    self.phase = MovePhase::CreatingDestination;
                    MoveStep {
                        action: MoveAction::CreateDirectory(self.job.destination_path.clone()),
                        warning: Some(m),
                    }
                },
                _ => MoveStep { action: MoveAction::Nothing, warning: None },
            },
            MovePhase::CreatingDestination => match event {
                MoveEvent::Done => {
                    self.phase = MovePhase::Walking;
                    MoveStep { action: MoveAction::NextEntry, warning: None }
                },
                MoveEvent::NotFound(m) => self.abort(JobError::Io(m), clock.now),
                MoveEvent::Failed(m) => self.abort(JobError::Io(m), clock.now),
                _ => MoveStep { action: MoveAction::Nothing, warning: None },
            },
            MovePhase::Walking => match event {
                MoveEvent::Entry { path, is_dir, size } => self.enter(path, is_dir, size, clock.now),
                MoveEvent::WalkEnded => self.finalize(clock.now),
                MoveEvent::NotFound(m) => self.abort(JobError::Io(m), clock.now),
                MoveEvent::Failed(m) => self.abort(JobError::Io(m), clock.now),
                MoveEvent::Done => MoveStep { action: MoveAction::Nothing, warning: None },
            },
            MovePhase::MakingDirectory => match event {
                MoveEvent::Done => {
                    self.phase = MovePhase::Walking;
                    MoveStep { action: MoveAction::NextEntry, warning: None }
                },
                MoveEvent::NotFound(m) => self.abort(JobError::Io(m), clock.now),
                MoveEvent::Failed(m) => self.abort(JobError::Io(m), clock.now),
                _ => MoveStep { action: MoveAction::Nothing, warning: None },
            },
            MovePhase::Copying => match event {
                MoveEvent::Done => self.account(clock),
                MoveEvent::NotFound(m) => self.abort(JobError::Io(m), clock.now),
                MoveEvent::Failed(m) => self.abort(JobError::Io(m), clock.now),
                _ => MoveStep { action: MoveAction::Nothing, warning: None },
            },
            MovePhase::SavingProgress => match event {
                MoveEvent::Done => {
                    self.phase = MovePhase::Walking;
                    MoveStep { action: MoveAction::NextEntry, warning: None }
                },
                MoveEvent::NotFound(m) => self.abort(JobError::Database(m), clock.now),
                MoveEvent::Failed(m) => self.abort(JobError::Database(m), clock.now),
                _ => MoveStep { action: MoveAction::Nothing, warning: None },
            },
            MovePhase::Committing => match event {
                MoveEvent::Done => {
                    let progress = if self.copied < self.job.total_bytes {
                        self.copied
                    } else {
                        self.job.total_bytes
                    };
                    self.job.status = JobStatus::Success;
                    self.job.error_message = None;
                    self.job.progress_bytes = progress;
                    self.job.speed_bytes_per_sec = 0;
                    self.job.eta_seconds = 0;
                    self.job.updated_at = self.commit_at;
                    self.phase = MovePhase::RemovingSource;
                    MoveStep {
                        action: MoveAction::RemoveTree(self.job.source_path.clone()),
                        warning: None,
                    }
                },
                MoveEvent::NotFound(m) => self.abort(JobError::Database(m), clock.now),
                MoveEvent::Failed(m) => self.abort(JobError::Database(m), clock.now),
                _ => MoveStep { action: MoveAction::Nothing, warning: None },
            },
            MovePhase::RemovingSource => match event {
                MoveEvent::Done => {
                    self.phase = MovePhase::Succeeded;
                    MoveStep { action: MoveAction::Finish, warning: None }
                },
                MoveEvent::NotFound(m) => {
                    self.phase = MovePhase::Succeeded;
                    MoveStep { action: MoveAction::Finish, warning: Some(m) }
                },
                MoveEvent::Failed(m) => {
                    self.phase = MovePhase::Succeeded;
                    MoveStep { action: MoveAction::Finish, warning: Some(m) }
                },
                _ => MoveStep { action: MoveAction::Nothing, warning: None },
            },
            MovePhase::Succeeded => MoveStep { action: MoveAction::Nothing, warning: None },
            MovePhase::Failed => MoveStep { action: MoveAction::Nothing, warning: None },
        }
    }
}

/// Every step leaves the run in order: the stored progress stays within the
/// job's total, whatever the event. What identifies the job stays, and its
/// status moves only along the life of a job.
pub proof fn lemma_step_keeps_progress_within_total(run: RunView, event: EventView, clock: Clock)
    requires
        run.wf(),
    ensures
        advance(run, event, clock).0.wf(),
        advance(run, event, clock).0.job.progress_bytes <= advance(
            run,
            event,
            clock,
        ).0.job.total_bytes,
        advance(run, event, clock).0.job.id == run.job.id,
        advance(run, event, clock).0.job.show_id == run.job.show_id,
        advance(run, event, clock).0.job.total_bytes == run.job.total_bytes,
        advance(run, event, clock).0.job.source_path == run.job.source_path,
        advance(run, event, clock).0.job.destination_path == run.job.destination_path,
        advance(run, event, clock).0.job.status == run.job.status || run.job.status.may_become(
            advance(run, event, clock).0.job.status,
        ),
{
}

/// A run that is over stays as it is.
pub proof fn lemma_finished_run_stays(run: RunView, event: EventView, clock: Clock)
    requires
        run.over(),
    ensures
        advance(run, event, clock) == ignored(run),
{
}

/// No answer to the clearing of the destination or to the removal of the
/// source ends the job as failed.
pub proof fn lemma_cleanup_never_fails_the_job(run: RunView, event: EventView, clock: Clock)
    requires
        run.phase == MovePhase::ClearingDestination || run.phase == MovePhase::RemovingSource,
    ensures
        advance(run, event, clock).0.phase != MovePhase::Failed,
        !(advance(run, event, clock).1.action is Fail),
        advance(run, event, clock).0.job == run.job,
{
}

/// A failure at any other request ends the job as failed, with progress
/// where it was last stored.
pub proof fn lemma_failure_ends_the_job(run: RunView, event: EventView, clock: Clock)
    requires
        event.failure() is Some,
        !run.over(),
        run.phase != MovePhase::ClearingDestination,
        run.phase != MovePhase::RemovingSource,
    ensures
        advance(run, event, clock).0.phase == MovePhase::Failed,
        advance(run, event, clock).0.job.status == JobStatus::Failed,
        advance(run, event, clock).0.job.error_message is Some,
        advance(run, event, clock).0.job.progress_bytes == run.job.progress_bytes,
        advance(run, event, clock).1.action is Fail,
{
}

/// What a run hands over to be committed names the job's destination as the
/// show's new path, and as its tier the one under whose root that path lies.
pub proof fn lemma_commit_names_destination(run: RunView, event: EventView, clock: Clock)
    requires
        run.wf(),
        advance(run, event, clock).1.action is Commit,
    ensures
        ({
            let f = advance(run, event, clock).1.action->Commit_0;
            &&& f.path == run.job.destination_path
            &&& f.show_id == run.job.show_id
            &&& f.job_id == run.job.id
            &&& located(f.path, run.hot_setting, run.cold_setting) == Ok::<Tier, JobFault>(
                f.location,
            )
            &&& tier_root(run.hot_setting, run.cold_setting, f.location) is Some
            &&& lies_under(f.path, tier_root(run.hot_setting, run.cold_setting, f.location)->0)
            &&& 0 <= f.progress_bytes <= run.job.total_bytes
        }),
{
}

} // verus!
