//! What keeps scans and moves apart, and the worker's turns.
//!
//! A scan is admitted only while no move is queued or running, and a move
//! only while no scan runs. Both are looked at once, when the request comes
//! in.

use vstd::prelude::*;
use crate::config::{config_is_ready, is_ready, opt_text, Config};

verus! {

/// Whether a scan runs.
#[derive(Clone, Copy, Debug, PartialEq, Eq, Structural)]
pub enum ScanState {
    Idle,
    Running,
}

/// What is known of the last scan.
#[derive(Debug, Clone)]
pub struct ScanStatus {
    pub state: ScanState,
    pub last_started: Option<i64>,
    pub last_finished: Option<i64>,
    pub last_error: Option<String>,
}

/// A status as plain values.
pub struct StatusView {
    pub state: ScanState,
    pub last_started: Option<i64>,
    pub last_finished: Option<i64>,
    pub last_error: Option<Seq<char>>,
}

impl View for ScanStatus {
    type V = StatusView;

    open spec fn view(&self) -> StatusView {
        StatusView {
            state: self.state,
            last_started: self.last_started,
            last_finished: self.last_finished,
            last_error: opt_text(self.last_error),
        }
    }
}

impl Default for ScanStatus {
    fn default() -> (r: Self)
        ensures
            r@ == (StatusView {
                state: ScanState::Idle,
                last_started: None,
                last_finished: None,
                last_error: None,
            }),
    {
        ScanStatus {
            state: ScanState::Idle,
            last_started: None,
            last_finished: None,
            last_error: None,
        }
    }
}

/// What the job queue said when asked whether a move is queued or running.
#[derive(Clone, Copy, Debug, PartialEq, Eq, Structural)]
pub enum JobActivity {
    Active,
    Quiet,
    /// The queue could not be asked.
    Unknown,
}

/// Why a scan was not started.
#[derive(Clone, Copy, Debug, PartialEq, Eq, Structural)]
pub enum ScanRefusal {
    /// A tier root is not set.
    ConfigIncomplete,
    /// A move is queued or running.
    JobsActive,
    /// The job queue could not be asked.
    JobCheckFailed,
    /// A scan runs already.
    AlreadyRunning,
}

/// Why a move was not taken up for admission.
#[derive(Clone, Copy, Debug, PartialEq, Eq, Structural)]
pub enum MoveRefusal {
    /// A scan runs.
    ScanRunning,
    /// A tier root is not set.
    ConfigIncomplete,
}

/// The first reason against a scan, if there is one.
pub open spec fn scan_refusal(status: StatusView, config: Config, activity: JobActivity) -> Option<
    ScanRefusal,
> {
    if !is_ready(config) {
        Some(ScanRefusal::ConfigIncomplete)
    } else if activity == JobActivity::Active {
        Some(ScanRefusal::JobsActive)
    } else if activity == JobActivity::Unknown {
        Some(ScanRefusal::JobCheckFailed)
    } else if status.state == ScanState::Running {
        Some(ScanRefusal::AlreadyRunning)
    } else {
        None
    }
}

/// The first reason against taking a move up for admission, if there is one.
pub open spec fn move_refusal(status: StatusView, config: Config) -> Option<MoveRefusal> {
    if status.state == ScanState::Running {
        Some(MoveRefusal::ScanRunning)
    } else if !is_ready(config) {
        Some(MoveRefusal::ConfigIncomplete)
    } else {
        None
    }
}

impl ScanRefusal {
    /// The HTTP status that answers the request.
    pub fn status_code(&self) -> (r: u16)
        ensures
            r == match *self {
                ScanRefusal::ConfigIncomplete => 400u16,
                ScanRefusal::JobsActive => 409u16,
                ScanRefusal::JobCheckFailed => 500u16,
                ScanRefusal::AlreadyRunning => 409u16,
            },
    {
        match self {
            ScanRefusal::ConfigIncomplete => 400,
            ScanRefusal::JobsActive => 409,
            ScanRefusal::JobCheckFailed => 500,
            ScanRefusal::AlreadyRunning => 409,
        }
    }

    /// The words that answer the request.
    pub fn message(&self) -> (r: &'static str)
        ensures
            r@ == match *self {
                ScanRefusal::ConfigIncomplete => "Configuration incomplete. Please finish setup before scanning."@,
                ScanRefusal::JobsActive => "Cannot run scan while move jobs are active."@,
                ScanRefusal::JobCheckFailed => "Failed to verify job activity state"@,
                ScanRefusal::AlreadyRunning => "scan_already_running"@,
            },
    {
        match self {
            ScanRefusal::ConfigIncomplete => "Configuration incomplete. Please finish setup before scanning.",
            ScanRefusal::JobsActive => "Cannot run scan while move jobs are active.",
            ScanRefusal::JobCheckFailed => "Failed to verify job activity state",
            ScanRefusal::AlreadyRunning => "scan_already_running",
        }
    }
}

impl MoveRefusal {
    /// The HTTP status that answers the request.
    pub fn status_code(&self) -> (r: u16)
        ensures
            r == match *self {
                MoveRefusal::ScanRunning => 409u16,
                MoveRefusal::ConfigIncomplete => 400u16,
            },
    {
        match self {
            MoveRefusal::ScanRunning => 409,
            MoveRefusal::ConfigIncomplete => 400,
        }
    }

    /// The words that answer the request.
    pub fn message(&self) -> (r: &'static str)
        ensures
            r@ == match *self {
                MoveRefusal::ScanRunning => "Cannot create move jobs while a scan is running."@,
                MoveRefusal::ConfigIncomplete => "Configuration incomplete. Please finish setup before moving shows."@,
            },
    {
        match self {
            MoveRefusal::ScanRunning => "Cannot create move jobs while a scan is running.",
            MoveRefusal::ConfigIncomplete => "Configuration incomplete. Please finish setup before moving shows.",
        }
    }
}

/// Starts a scan, unless something stands against it: the status then says
/// that a scan runs since `now`, with no error. A refusal leaves the status
/// as it was.
pub fn trigger_scan(status: &mut ScanStatus, config: &Config, activity: JobActivity, now: i64) -> (r:
    Result<(), ScanRefusal>)
    ensures
        match scan_refusal(old(status)@, *config, activity) {
            Some(refusal) => r == Err::<(), ScanRefusal>(refusal) && final(status)@ == old(
                status,
            )@,
            None => r is Ok && final(status)@ == (StatusView {
                state: ScanState::Running,
                last_started: Some(now),
                last_error: None,
                ..old(status)@
            }),
        },
{
    if !config_is_ready(config) {
        return Err(ScanRefusal::ConfigIncomplete);
    }
    match activity {
        JobActivity::Active => {
            return Err(ScanRefusal::JobsActive);
        },
        JobActivity::Unknown => {
            return Err(ScanRefusal::JobCheckFailed);
        },
        JobActivity::Quiet => {},
    }
    if status.state == ScanState::Running {
        return Err(ScanRefusal::AlreadyRunning);
    }
    status.state = ScanState::Running;
    status.last_started = Some(now);
    status.last_error = None;
    Ok(())
}

/// Ends a scan: the status then says that no scan runs, that the last one
/// finished at `now`, and what went wrong with it, if anything.
pub fn finish_scan(status: &mut ScanStatus, error: Option<String>, now: i64)
    ensures
        final(status)@ == (StatusView {
            state: ScanState::Idle,
            last_finished: Some(now),
            last_error: opt_text(error),
            ..old(status)@
        }),
{
    status.state = ScanState::Idle;
    status.last_finished = Some(now);
    status.last_error = error;
}

/// Whether a request for a move may go on to admission.
pub fn admit_move_request(status: &ScanStatus, config: &Config) -> (r: Result<(), MoveRefusal>)
    ensures
        match move_refusal(status@, *config) {
            Some(refusal) => r == Err::<(), MoveRefusal>(refusal),
            None => r is Ok,
        },
{
    if status.state == ScanState::Running {
        return Err(MoveRefusal::ScanRunning);
    }
    if !config_is_ready(config) {
        return Err(MoveRefusal::ConfigIncomplete);
    }
    Ok(())
}

/// While a move is queued or running no scan starts, and while a scan runs
/// no move is taken up.
pub proof fn lemma_scans_and_moves_exclude(status: StatusView, config: Config, activity: JobActivity)
    ensures
        activity == JobActivity::Active ==> scan_refusal(status, config, activity) is Some,
        status.state == ScanState::Running ==> move_refusal(status, config) is Some,
        status.state == ScanState::Running ==> scan_refusal(status, config, activity) is Some,
{
}

/// What the worker found when it asked for the next job.
#[derive(Clone, Copy, Debug, PartialEq, Eq, Structural)]
pub enum Polled {
    /// A job, which has now been run to its end.
    Job,
    /// No job.
    Nothing,
    /// The store failed.
    StoreFailed,
}

/// How a wait of the worker ended.
#[derive(Clone, Copy, Debug, PartialEq, Eq, Structural)]
pub enum Waited {
    /// The time was up.
    Elapsed,
    /// The shutdown signal changed, to this value.
    Signalled(bool),
    /// The sender of the shutdown signal is gone.
    Closed,
}

/// What the worker does at the start of a turn.
#[derive(Clone, Copy, Debug, PartialEq, Eq, Structural)]
pub enum WorkerAction {
    /// Leave the loop.
    Exit,
    /// Ask the store for the next job.
    Poll,
}

/// What the worker does at the start of a turn: it leaves when shutdown was
/// asked for, and asks for the next job otherwise.
pub fn worker_turn(shutdown: bool) -> (r: WorkerAction)
    ensures
        r == if shutdown {
            WorkerAction::Exit
        } else {
            WorkerAction::Poll
        },
{
    if shutdown {
        WorkerAction::Exit
    } else {
        WorkerAction::Poll
    }
}

/// How many milliseconds the worker waits before its next turn: a short
/// cooldown after a job, longer when there was none, longest after a failure
/// of the store.
pub fn pause_millis(polled: Polled) -> (r: u64)
    ensures
        r == match polled {
            Polled::Job => 200u64,
            Polled::Nothing => 2000u64,
            Polled::StoreFailed => 5000u64,
        },
{
    match polled {
        Polled::Job => 200,
        Polled::Nothing => 2000,
        Polled::StoreFailed => 5000,
    }
}

/// Whether the worker leaves after a wait: not when the time was up, as the
/// signal says when it changed, and always when its sender is gone.
pub fn wait_for_shutdown(waited: Waited) -> (r: bool)
    ensures
        r == match waited {
            Waited::Elapsed => false,
            Waited::Signalled(value) => value,
            Waited::Closed => true,
        },
{
    match waited {
        Waited::Elapsed => false,
        Waited::Signalled(value) => value,
        Waited::Closed => true,
    }
}

} // verus!
