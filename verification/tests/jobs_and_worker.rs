use jellymover::config::{Config, JellyfinConfig};
use jellymover::index::{IndexStore, Provenance, ShowCandidate, ShowRecord};
use jellymover::jobs::{
    commit, create_move_job, detect_location, get_job, has_active_jobs, plan_move,
    resolve_location_from_path, select_next_job, JobError, JobRecord, JobStatus, JobStore,
};
use jellymover::tier::{determine_location, normalize_target, trimmed_root, Tier};
use jellymover::worker::{
    clamp_to_i64, eta_of, execute_job, speed_of, Clock, MoveAction, MoveEvent, MovePhase,
};

fn config(hot: &str, cold: &str) -> Config {
    Config {
        hot_root: hot.to_string(),
        cold_root: cold.to_string(),
        library_paths: Vec::new(),
        jellyfin: JellyfinConfig { url: String::new(), api_key: String::new() },
    }
}

fn show(id: i64, path: &str, size: i64) -> ShowRecord {
    ShowRecord {
        id,
        title: "Example".to_string(),
        path: path.to_string(),
        location: Some(Tier::Hot),
        size_bytes: size,
        season_count: 1,
        episode_count: 2,
        thumbnail_path: None,
        source: Provenance::FsScan,
        last_scan: 10,
    }
}

fn candidate(path: &str, size: i64) -> ShowCandidate {
    ShowCandidate {
        title: "Example".to_string(),
        path: path.to_string(),
        location: Some(Tier::Hot),
        size_bytes: size,
        season_count: 1,
        episode_count: 2,
        thumbnail_path: None,
        source: Provenance::FsScan,
    }
}

fn job(id: i64, status: JobStatus, created_at: i64) -> JobRecord {
    JobRecord {
        id,
        show_id: 1,
        source_path: "/mnt/hot/Show".to_string(),
        destination_path: "/mnt/cold/Show".to_string(),
        status,
        progress_bytes: 0,
        total_bytes: 1000,
        speed_bytes_per_sec: 0,
        eta_seconds: 0,
        error_message: None,
        created_at,
        updated_at: created_at,
    }
}

fn clock(now: i64, elapsed_nanos: u128) -> Clock {
    Clock { now, elapsed_nanos }
}

#[test]
fn target_is_normalized_without_regard_to_case_and_spaces() {
    assert_eq!(normalize_target("hot"), Some(Tier::Hot));
    assert_eq!(normalize_target("  CoLd\n"), Some(Tier::Cold));
    assert_eq!(normalize_target("HOT"), Some(Tier::Hot));
    assert_eq!(normalize_target("warm"), None);
    assert_eq!(normalize_target(""), None);
    assert_eq!(normalize_target("h ot"), None);
}

#[test]
fn tier_tokens_round_trip() {
    assert_eq!(Tier::Hot.as_str(), "hot");
    assert_eq!(Tier::Cold.as_str(), "cold");
    assert_eq!(Tier::from_token("hot"), Some(Tier::Hot));
    assert_eq!(Tier::from_token("cold"), Some(Tier::Cold));
    assert_eq!(Tier::from_token("Hot"), None);
    assert_eq!(Tier::Hot.other(), Tier::Cold);
    assert_eq!(Tier::Hot.config_key(), "hot_root");
    assert_eq!(Tier::Cold.config_key(), "cold_root");
}

#[test]
fn job_status_tokens_round_trip() {
    for status in [JobStatus::Queued, JobStatus::Running, JobStatus::Success, JobStatus::Failed] {
        assert_eq!(JobStatus::from_token(status.as_str()), Some(status));
    }
    assert_eq!(JobStatus::Queued.as_str(), "queued");
    assert_eq!(JobStatus::Running.as_str(), "running");
    assert_eq!(JobStatus::Success.as_str(), "success");
    assert_eq!(JobStatus::Failed.as_str(), "failed");
    assert_eq!(JobStatus::from_token("done"), None);
    assert!(JobStatus::Queued.is_active());
    assert!(JobStatus::Running.is_active());
    assert!(!JobStatus::Success.is_active());
    assert!(!JobStatus::Failed.is_active());
}

#[test]
fn blank_roots_are_not_roots() {
    assert_eq!(trimmed_root("  /mnt/hot "), Some("/mnt/hot".to_string()));
    assert_eq!(trimmed_root("   "), None);
    assert_eq!(trimmed_root(""), None);
}

#[test]
fn location_is_found_by_whole_components() {
    let hot = Some("/mnt/hot".to_string());
    let cold = Some("/mnt/cold".to_string());
    assert_eq!(determine_location("/mnt/hot/Show", &hot, &cold), Some(Tier::Hot));
    assert_eq!(determine_location("/mnt/cold/Show", &hot, &cold), Some(Tier::Cold));
    assert_eq!(determine_location("/mnt/hotel/Show", &hot, &cold), None);
    assert_eq!(determine_location("/mnt/hot/Show", &None, &cold), None);
    assert_eq!(detect_location("/mnt/cold/x", "/mnt/hot", "/mnt/cold").unwrap(), Tier::Cold);
    assert!(matches!(
        detect_location("/srv/x", "/mnt/hot", "/mnt/cold"),
        Err(JobError::PathMismatch)
    ));
}

#[test]
fn location_from_config_reports_missing_roots_hot_first() {
    assert!(matches!(
        resolve_location_from_path("/mnt/hot/x", &config(" ", "")),
        Err(JobError::MissingRoot(Tier::Hot))
    ));
    assert!(matches!(
        resolve_location_from_path("/mnt/hot/x", &config("/mnt/hot", " ")),
        Err(JobError::MissingRoot(Tier::Cold))
    ));
    assert!(matches!(
        resolve_location_from_path("/srv/x", &config("/mnt/hot", "/mnt/cold")),
        Err(JobError::PathMismatch)
    ));
    assert_eq!(
        resolve_location_from_path("/mnt/cold/x", &config(" /mnt/hot ", "/mnt/cold/")).unwrap(),
        Tier::Cold
    );
}

#[test]
fn admission_plans_the_destination_under_the_other_root() {
    let s = show(7, "/mnt/hot/tv/Show A", 1234);
    let plan = plan_move(" Cold ", Some(&s), &config("/mnt/hot", "/mnt/cold")).unwrap();
    assert_eq!(plan.show_id, 7);
    assert_eq!(plan.source_path, "/mnt/hot/tv/Show A");
    assert_eq!(plan.destination_path, "/mnt/cold/tv/Show A");
    assert_eq!(plan.target, Tier::Cold);
    assert_eq!(plan.total_bytes, 1234);
}

#[test]
fn admission_takes_an_unknown_size_as_zero() {
    let s = show(7, "/mnt/cold/Show", -5);
    let plan = plan_move("hot", Some(&s), &config("/mnt/hot", "/mnt/cold")).unwrap();
    assert_eq!(plan.total_bytes, 0);
    assert_eq!(plan.destination_path, "/mnt/hot/Show");
}

#[test]
fn admission_gives_each_refusal_in_order() {
    let s = show(7, "/mnt/hot/Show", 10);
    let c = config("/mnt/hot", "/mnt/cold");
    assert!(matches!(plan_move("warm", None, &c), Err(JobError::InvalidTarget)));
    assert!(matches!(plan_move("cold", None, &c), Err(JobError::ShowNotFound)));
    assert!(matches!(
        plan_move("cold", Some(&s), &config("", "/mnt/cold")),
        Err(JobError::MissingRoot(Tier::Hot))
    ));
    assert!(matches!(
        plan_move("cold", Some(&s), &config("/mnt/hot", "  ")),
        Err(JobError::MissingRoot(Tier::Cold))
    ));
    assert!(matches!(
        plan_move("cold", Some(&show(7, "/srv/Show", 10)), &c),
        Err(JobError::PathMismatch)
    ));
    assert!(matches!(plan_move("hot", Some(&s), &c), Err(JobError::AlreadyInLocation)));
}

#[test]
fn job_errors_keep_their_words() {
    assert_eq!(JobError::PathMismatch.to_string(), "PathMismatch");
    assert_eq!(JobError::ShowNotFound.to_string(), "ShowNotFound");
    assert_eq!(JobError::InvalidTarget.to_string(), "InvalidTarget");
    assert_eq!(JobError::AlreadyInLocation.to_string(), "AlreadyInLocation");
    assert_eq!(JobError::MissingRoot(Tier::Hot).to_string(), "MissingRoot(\"hot_root\")");
    assert_eq!(JobError::MissingRoot(Tier::Cold).to_string(), "MissingRoot(\"cold_root\")");
    assert_eq!(JobError::Io("disk full".to_string()).to_string(), "Io(disk full)");
    assert_eq!(JobError::Database("locked".to_string()).to_string(), "Database(locked)");
}

#[test]
fn a_move_is_queued_with_zeroed_progress() {
    let mut index = IndexStore::new();
    index.upsert(&candidate("/mnt/hot/Show", 500), 10).unwrap();
    let mut jobs = JobStore::new();
    let c = config("/mnt/hot", "/mnt/cold");
    let job = create_move_job(&mut jobs, &index, &c, 1, "cold", 42).unwrap();
    assert_eq!(job.id, 1);
    assert_eq!(job.show_id, 1);
    assert_eq!(job.source_path, "/mnt/hot/Show");
    assert_eq!(job.destination_path, "/mnt/cold/Show");
    assert_eq!(job.status, JobStatus::Queued);
    assert_eq!(job.progress_bytes, 0);
    assert_eq!(job.total_bytes, 500);
    assert_eq!(job.speed_bytes_per_sec, 0);
    assert_eq!(job.eta_seconds, 0);
    assert_eq!(job.error_message, None);
    assert_eq!(job.created_at, 42);
    assert_eq!(job.updated_at, 42);
    assert_eq!(jobs.len(), 1);
    assert!(has_active_jobs(&jobs));
    assert_eq!(get_job(&jobs, 1).unwrap().destination_path, "/mnt/cold/Show");
    assert!(get_job(&jobs, 2).is_none());
}

#[test]
fn a_move_to_the_tier_a_show_is_in_creates_no_job() {
    let mut index = IndexStore::new();
    index.upsert(&candidate("/mnt/hot/Show", 500), 10).unwrap();
    let mut jobs = JobStore::new();
    let c = config("/mnt/hot", "/mnt/cold");
    create_move_job(&mut jobs, &index, &c, 1, "cold", 42).unwrap();
    let before = jobs.len();
    let refused = create_move_job(&mut jobs, &index, &c, 1, "hot", 43);
    assert!(matches!(refused, Err(JobError::AlreadyInLocation)));
    assert_eq!(jobs.len(), before);
    let unknown = create_move_job(&mut jobs, &index, &c, 99, "cold", 44);
    assert!(matches!(unknown, Err(JobError::ShowNotFound)));
    assert_eq!(jobs.len(), before);
}

#[test]
fn the_worker_prefers_a_running_job_then_the_oldest() {
    let jobs = vec![
        job(1, JobStatus::Success, 1),
        job(2, JobStatus::Queued, 5),
        job(3, JobStatus::Queued, 3),
        job(4, JobStatus::Running, 9),
        job(5, JobStatus::Failed, 0),
    ];
    assert_eq!(select_next_job(&jobs), Some(3));
    let queued = vec![job(1, JobStatus::Queued, 5), job(2, JobStatus::Queued, 3)];
    assert_eq!(select_next_job(&queued), Some(1));
    let ties = vec![job(1, JobStatus::Queued, 3), job(2, JobStatus::Queued, 3)];
    assert_eq!(select_next_job(&ties), Some(0));
    let none = vec![job(1, JobStatus::Success, 5), job(2, JobStatus::Failed, 3)];
    assert_eq!(select_next_job(&none), None);
    assert_eq!(select_next_job(&Vec::new()), None);
}

#[test]
fn a_running_job_is_resumed_after_a_restart() {
    let mut index = IndexStore::new();
    index.upsert(&candidate("/mnt/hot/A", 500), 10).unwrap();
    index.upsert(&candidate("/mnt/hot/B", 700), 10).unwrap();
    let mut jobs = JobStore::new();
    let c = config("/mnt/hot", "/mnt/cold");
    create_move_job(&mut jobs, &index, &c, 1, "cold", 100).unwrap();
    create_move_job(&mut jobs, &index, &c, 2, "cold", 101).unwrap();
    let first = jobs.fetch_next_job(200).unwrap();
    assert_eq!(first.id, 1);
    assert_eq!(first.status, JobStatus::Running);
    assert_eq!(first.updated_at, 200);
    let again = jobs.fetch_next_job(300).unwrap();
    assert_eq!(again.id, 1);
    assert_eq!(again.status, JobStatus::Running);
    assert_eq!(again.updated_at, 200);
    assert_eq!(jobs.len(), 2);
    assert_eq!(get_job(&jobs, 2).unwrap().status, JobStatus::Queued);
}

#[test]
fn claiming_clears_a_stale_error() {
    let mut j = job(1, JobStatus::Queued, 5);
    j.error_message = Some("old".to_string());
    j.claim(77);
    assert_eq!(j.status, JobStatus::Running);
    assert_eq!(j.error_message, None);
    assert_eq!(j.updated_at, 77);
    let mut done = job(2, JobStatus::Success, 5);
    done.claim(78);
    assert_eq!(done.status, JobStatus::Success);
    assert_eq!(done.updated_at, 5);
}

#[test]
fn only_a_running_job_can_fail() {
    let mut j = job(1, JobStatus::Running, 5);
    j.speed_bytes_per_sec = 9;
    j.eta_seconds = 9;
    j.progress_bytes = 400;
    assert!(j.fail("Io(boom)", 88));
    assert_eq!(j.status, JobStatus::Failed);
    assert_eq!(j.error_message, Some("Io(boom)".to_string()));
    assert_eq!(j.speed_bytes_per_sec, 0);
    assert_eq!(j.eta_seconds, 0);
    assert_eq!(j.progress_bytes, 400);
    assert_eq!(j.updated_at, 88);
    let mut done = job(2, JobStatus::Success, 5);
    assert!(!done.fail("late", 99));
    assert_eq!(done.status, JobStatus::Success);
    assert_eq!(done.error_message, None);
}

#[test]
fn sizes_are_clamped_to_the_signed_range() {
    assert_eq!(clamp_to_i64(0), 0);
    assert_eq!(clamp_to_i64(12345), 12345);
    assert_eq!(clamp_to_i64(i64::MAX as u64), i64::MAX);
    assert_eq!(clamp_to_i64(i64::MAX as u64 + 1), i64::MAX);
    assert_eq!(clamp_to_i64(u64::MAX), i64::MAX);
}

#[test]
fn speed_is_bytes_over_elapsed_seconds() {
    assert_eq!(speed_of(1000, 2_000_000_000), 500);
    assert_eq!(speed_of(1000, 3_000_000_000), 333);
    assert_eq!(speed_of(1000, 500_000_000), 2000);
    assert_eq!(speed_of(1000, 0), 0);
    assert_eq!(speed_of(0, 1_000_000_000), 0);
    assert_eq!(speed_of(i64::MAX, 1), i64::MAX);
}

#[test]
fn eta_is_remaining_over_speed_rounded() {
    assert_eq!(eta_of(1000, 500), 2);
    assert_eq!(eta_of(1000, 300), 3);
    assert_eq!(eta_of(1000, 400), 3);
    assert_eq!(eta_of(1000, 3000), 0);
    assert_eq!(eta_of(1500, 1000), 2);
    assert_eq!(eta_of(1000, 0), 0);
    assert_eq!(eta_of(0, 10), 0);
}

#[test]
fn a_move_runs_from_clearing_to_success() {
    let mut j = job(4, JobStatus::Running, 5);
    j.show_id = 9;
    let (mut run, first) = execute_job(j, &config("/mnt/hot", "/mnt/cold"));
    assert!(matches!(first.action, MoveAction::RemoveTree(ref p) if p == "/mnt/cold/Show"));
    assert_eq!(run.phase(), MovePhase::ClearingDestination);

    let step = run.step(MoveEvent::NotFound("gone".to_string()), clock(10, 0));
    assert!(matches!(step.action, MoveAction::CreateDirectory(ref p) if p == "/mnt/cold/Show"));
    assert_eq!(step.warning, None);

    let step = run.step(MoveEvent::Done, clock(10, 1));
    assert!(matches!(step.action, MoveAction::NextEntry));

    let root = MoveEvent::Entry { path: "/mnt/hot/Show".to_string(), is_dir: true, size: 0 };
    let step = run.step(root, clock(10, 2));
    assert!(matches!(step.action, MoveAction::NextEntry));
    assert_eq!(run.phase(), MovePhase::Walking);

    let dir = MoveEvent::Entry { path: "/mnt/hot/Show/S1".to_string(), is_dir: true, size: 0 };
    let step = run.step(dir, clock(10, 3));
    assert!(matches!(step.action, MoveAction::CreateDirectory(ref p) if p == "/mnt/cold/Show/S1"));
    let step = run.step(MoveEvent::Done, clock(10, 4));
    assert!(matches!(step.action, MoveAction::NextEntry));

    let file =
        MoveEvent::Entry { path: "/mnt/hot/Show/S1/e1.mkv".to_string(), is_dir: false, size: 400 };
    let step = run.step(file, clock(10, 5));
    match step.action {
        MoveAction::CopyFile { from, to } => {
            assert_eq!(from, "/mnt/hot/Show/S1/e1.mkv");
            assert_eq!(to, "/mnt/cold/Show/S1/e1.mkv");
        }
        other => panic!("unexpected action {:?}", other),
    }
    let step = run.step(MoveEvent::Done, clock(12, 2_000_000_000));
    match step.action {
        MoveAction::SaveProgress(update) => {
            assert_eq!(update.job_id, 4);
            assert_eq!(update.progress_bytes, 400);
            assert_eq!(update.speed_bytes_per_sec, 200);
            assert_eq!(update.eta_seconds, 3);
            assert_eq!(update.updated_at, 12);
        }
        other => panic!("unexpected action {:?}", other),
    }
    assert_eq!(run.copied(), 400);
    let step = run.step(MoveEvent::Done, clock(12, 2_000_000_001));
    assert!(matches!(step.action, MoveAction::NextEntry));

    let file =
        MoveEvent::Entry { path: "/mnt/hot/Show/S1/e2.mkv".to_string(), is_dir: false, size: 900 };
    run.step(file, clock(12, 2_000_000_002));
    let step = run.step(MoveEvent::Done, clock(14, 4_000_000_000));
    match step.action {
        MoveAction::SaveProgress(update) => {
            assert_eq!(update.progress_bytes, 1000);
            assert_eq!(update.speed_bytes_per_sec, 325);
            assert_eq!(update.eta_seconds, 0);
        }
        other => panic!("unexpected action {:?}", other),
    }
    assert_eq!(run.copied(), 1300);
    assert_eq!(run.job().progress_bytes, 1000);
    run.step(MoveEvent::Done, clock(14, 4_000_000_001));

    let step = run.step(MoveEvent::WalkEnded, clock(15, 5_000_000_000));
    match step.action {
        MoveAction::Commit(f) => {
            assert_eq!(f.show_id, 9);
            assert_eq!(f.job_id, 4);
            assert_eq!(f.path, "/mnt/cold/Show");
            assert_eq!(f.location, Tier::Cold);
            assert_eq!(f.progress_bytes, 1000);
            assert_eq!(f.updated_at, 15);
        }
        other => panic!("unexpected action {:?}", other),
    }
    let step = run.step(MoveEvent::Done, clock(16, 6_000_000_000));
    assert!(matches!(step.action, MoveAction::RemoveTree(ref p) if p == "/mnt/hot/Show"));
    assert_eq!(run.job().status, JobStatus::Success);
    assert_eq!(run.job().progress_bytes, 1000);
    assert_eq!(run.job().speed_bytes_per_sec, 0);
    assert_eq!(run.job().eta_seconds, 0);
    assert_eq!(run.job().updated_at, 15);

    let step = run.step(MoveEvent::Failed("busy".to_string()), clock(17, 7_000_000_000));
    assert!(matches!(step.action, MoveAction::Finish));
    assert_eq!(step.warning, Some("busy".to_string()));
    assert!(run.is_over());
    assert_eq!(run.phase(), MovePhase::Succeeded);
    assert_eq!(run.job().status, JobStatus::Success);

    let step = run.step(MoveEvent::Done, clock(18, 8_000_000_000));
    assert!(matches!(step.action, MoveAction::Nothing));
}

#[test]
fn a_failed_clearing_is_a_warning_only() {
    let (mut run, _) = execute_job(job(4, JobStatus::Running, 5), &config("/mnt/hot", "/mnt/cold"));
    let step = run.step(MoveEvent::Failed("denied".to_string()), clock(10, 0));
    assert!(matches!(step.action, MoveAction::CreateDirectory(_)));
    assert_eq!(step.warning, Some("denied".to_string()));
    assert_eq!(run.phase(), MovePhase::CreatingDestination);
    assert_eq!(run.job().status, JobStatus::Running);
}

#[test]
fn a_failed_copy_fails_the_job_and_keeps_progress() {
    let mut j = job(4, JobStatus::Running, 5);
    j.progress_bytes = 250;
    let (mut run, _) = execute_job(j, &config("/mnt/hot", "/mnt/cold"));
    run.step(MoveEvent::Done, clock(10, 0));
    run.step(MoveEvent::Done, clock(10, 0));
    let file = MoveEvent::Entry { path: "/mnt/hot/Show/e1.mkv".to_string(), is_dir: false, size: 400 };
    run.step(file, clock(10, 5));
    let step = run.step(MoveEvent::Failed("disk full".to_string()), clock(11, 6));
    match step.action {
        MoveAction::Fail { job_id, words } => {
            assert_eq!(job_id, 4);
            assert_eq!(words, "Io(disk full)");
        }
        other => panic!("unexpected action {:?}", other),
    }
    assert_eq!(run.phase(), MovePhase::Failed);
    assert_eq!(run.job().status, JobStatus::Failed);
    assert_eq!(run.job().error_message, Some("Io(disk full)".to_string()));
    assert_eq!(run.job().progress_bytes, 250);
    assert_eq!(run.job().updated_at, 11);
    assert!(run.is_over());
}

#[test]
fn a_resumed_job_counts_on_from_its_stored_progress() {
    let mut j = job(4, JobStatus::Running, 5);
    j.progress_bytes = 600;
    let (mut run, _) = execute_job(j, &config("/mnt/hot", "/mnt/cold"));
    assert_eq!(run.copied(), 600);
    run.step(MoveEvent::Done, clock(10, 0));
    run.step(MoveEvent::Done, clock(10, 0));
    let file = MoveEvent::Entry { path: "/mnt/hot/Show/e1.mkv".to_string(), is_dir: false, size: 300 };
    run.step(file, clock(10, 5));
    let step = run.step(MoveEvent::Done, clock(11, 1_000_000_000));
    match step.action {
        MoveAction::SaveProgress(update) => {
            assert_eq!(update.progress_bytes, 900);
            assert_eq!(update.speed_bytes_per_sec, 900);
            assert_eq!(update.eta_seconds, 0);
        }
        other => panic!("unexpected action {:?}", other),
    }
    assert_eq!(run.copied(), 900);
}

#[test]
fn a_destination_under_no_root_fails_at_the_end_of_the_walk() {
    let (mut run, _) = execute_job(job(4, JobStatus::Running, 5), &config("/mnt/hot", "/srv/cold"));
    run.step(MoveEvent::Done, clock(10, 0));
    run.step(MoveEvent::Done, clock(10, 0));
    let step = run.step(MoveEvent::WalkEnded, clock(11, 5));
    assert!(matches!(step.action, MoveAction::Fail { ref words, .. } if words == "PathMismatch"));
    assert_eq!(run.job().status, JobStatus::Failed);
}

#[test]
fn a_failed_commit_fails_the_job() {
    let (mut run, _) = execute_job(job(4, JobStatus::Running, 5), &config("/mnt/hot", "/mnt/cold"));
    run.step(MoveEvent::Done, clock(10, 0));
    run.step(MoveEvent::Done, clock(10, 0));
    run.step(MoveEvent::WalkEnded, clock(11, 5));
    let step = run.step(MoveEvent::Failed("locked".to_string()), clock(12, 6));
    assert!(matches!(step.action, MoveAction::Fail { ref words, .. } if words == "Database(locked)"));
    assert_eq!(run.job().status, JobStatus::Failed);
    assert_eq!(run.job().error_message, Some("Database(locked)".to_string()));
}

#[test]
fn a_completed_move_puts_the_show_under_the_destination_root() {
    let mut index = IndexStore::new();
    index.upsert(&candidate("/mnt/hot/Show", 1000), 10).unwrap();
    let mut jobs = JobStore::new();
    let c = config("/mnt/hot", "/mnt/cold");
    create_move_job(&mut jobs, &index, &c, 1, "cold", 100).unwrap();
    let claimed = jobs.fetch_next_job(101).unwrap();
    let (mut run, _) = execute_job(claimed, &c);
    run.step(MoveEvent::Done, clock(102, 0));
    run.step(MoveEvent::Done, clock(102, 0));
    let file = MoveEvent::Entry { path: "/mnt/hot/Show/e1.mkv".to_string(), is_dir: false, size: 1000 };
    run.step(file, clock(102, 5));
    let saved = run.step(MoveEvent::Done, clock(103, 1_000_000_000));
    match saved.action {
        MoveAction::SaveProgress(update) => assert!(jobs.save_progress(&update)),
        other => panic!("unexpected action {:?}", other),
    }
    assert_eq!(get_job(&jobs, 1).unwrap().progress_bytes, 1000);
    run.step(MoveEvent::Done, clock(103, 1_000_000_001));
    let step = run.step(MoveEvent::WalkEnded, clock(104, 2_000_000_000));
    let finalization = match step.action {
        MoveAction::Commit(f) => f,
        other => panic!("unexpected action {:?}", other),
    };
    commit(&mut jobs, &mut index, &finalization).unwrap();
    let moved = index.row(0);
    assert_eq!(moved.path, "/mnt/cold/Show");
    assert_eq!(moved.location, Some(Tier::Cold));
    assert!(jellymover::paths::path_starts_with(&moved.path, "/mnt/cold"));
    let done = get_job(&jobs, 1).unwrap();
    assert_eq!(done.status, JobStatus::Success);
    assert_eq!(done.progress_bytes, 1000);
    assert!(done.progress_bytes <= done.total_bytes);
    assert_eq!(done.speed_bytes_per_sec, 0);
    assert_eq!(done.eta_seconds, 0);
    assert_eq!(done.updated_at, 104);
    assert!(!has_active_jobs(&jobs));
    let again = commit(&mut jobs, &mut index, &finalization);
    assert!(matches!(
        again,
        Err(JobError::Database(ref words)) if words == "the finalization does not fit the tables"
    ));
    assert_eq!(index.row(0).path, "/mnt/cold/Show");
}

#[test]
fn a_failure_is_stored_for_a_running_job_only() {
    let mut index = IndexStore::new();
    index.upsert(&candidate("/mnt/hot/Show", 1000), 10).unwrap();
    let mut jobs = JobStore::new();
    let c = config("/mnt/hot", "/mnt/cold");
    create_move_job(&mut jobs, &index, &c, 1, "cold", 100).unwrap();
    assert!(!jobs.mark_failed(1, "Io(x)", 5));
    jobs.fetch_next_job(101).unwrap();
    assert!(jobs.mark_failed(1, "Io(x)", 102));
    let failed = get_job(&jobs, 1).unwrap();
    assert_eq!(failed.status, JobStatus::Failed);
    assert_eq!(failed.error_message, Some("Io(x)".to_string()));
    assert!(!jobs.mark_failed(1, "Io(y)", 103));
    assert!(!jobs.mark_failed(9, "Io(y)", 103));
}

#[test]
fn progress_beyond_the_total_is_not_stored() {
    let mut index = IndexStore::new();
    index.upsert(&candidate("/mnt/hot/Show", 1000), 10).unwrap();
    let mut jobs = JobStore::new();
    let c = config("/mnt/hot", "/mnt/cold");
    create_move_job(&mut jobs, &index, &c, 1, "cold", 100).unwrap();
    jobs.fetch_next_job(101).unwrap();
    let too_much = jellymover::jobs::ProgressUpdate {
        job_id: 1,
        progress_bytes: 1001,
        speed_bytes_per_sec: 1,
        eta_seconds: 1,
        updated_at: 102,
    };
    assert!(!jobs.save_progress(&too_much));
    assert_eq!(get_job(&jobs, 1).unwrap().progress_bytes, 0);
}

#[test]
fn rows_are_checked_for_being_in_order() {
    let mut j = job(1, JobStatus::Running, 5);
    assert!(j.is_well_formed());
    j.progress_bytes = 1001;
    assert!(!j.is_well_formed());
    j.progress_bytes = 10;
    j.error_message = Some("x".to_string());
    assert!(!j.is_well_formed());
    j.status = JobStatus::Failed;
    assert!(j.is_well_formed());
}

#[test]
fn no_other_letter_lowers_to_a_letter_of_a_tier_token() {
    for code in 0x80u32..=0x10FFFF {
        if let Some(c) = char::from_u32(code) {
            for lower in c.to_lowercase() {
                assert!(!"hotcld".contains(lower), "U+{:04X}", code);
            }
        }
    }
    for target in ["hot", "HOT", " Cold ", "cOLD\t", "warm", "ho t", "\u{212a}old", ""] {
        let expected = match target.trim().to_lowercase().as_str() {
            "hot" => Some(Tier::Hot),
            "cold" => Some(Tier::Cold),
            _ => None,
        };
        assert_eq!(normalize_target(target), expected, "{:?}", target);
    }
}

#[test]
fn stored_rows_are_read_into_rows_in_order() {
    let stored = jellymover::jobs::StoredJob {
        id: 3,
        show_id: 4,
        source_path: "/a".to_string(),
        destination_path: "/b".to_string(),
        status: "running".to_string(),
        progress_bytes: Some(700),
        total_bytes: Some(500),
        speed_bytes_per_sec: Some(-1),
        eta_seconds: None,
        error_message: Some("stale".to_string()),
        created_at: None,
        updated_at: Some(9),
    };
    let read = JobRecord::from_stored(stored.clone()).unwrap();
    assert_eq!(read.status, JobStatus::Running);
    assert_eq!(read.progress_bytes, 500);
    assert_eq!(read.total_bytes, 500);
    assert_eq!(read.speed_bytes_per_sec, 0);
    assert_eq!(read.eta_seconds, 0);
    assert_eq!(read.error_message, None);
    assert_eq!(read.created_at, 0);
    assert_eq!(read.updated_at, 9);
    assert!(read.is_well_formed());
    let mut failed = stored.clone();
    failed.status = "failed".to_string();
    failed.total_bytes = None;
    let read = JobRecord::from_stored(failed).unwrap();
    assert_eq!(read.error_message, Some("stale".to_string()));
    assert_eq!(read.total_bytes, 0);
    assert_eq!(read.progress_bytes, 0);
    let mut unknown = stored;
    unknown.status = "paused".to_string();
    assert!(JobRecord::from_stored(unknown).is_none());
    let back = read.to_stored();
    assert_eq!(back.status, "failed");
    assert_eq!(back.progress_bytes, Some(0));
    assert_eq!(back.error_message, Some("stale".to_string()));
    assert_eq!(JobRecord::from_stored(back).unwrap().id, 3);
}
