use jellymover::admission::{
    admit_move_request, finish_scan, pause_millis, trigger_scan, wait_for_shutdown, worker_turn,
    JobActivity, MoveRefusal, Polled, ScanRefusal, ScanState, ScanStatus, Waited, WorkerAction,
};
use jellymover::config::{
    config_is_ready, ensure_directory, validate_config, validate_library_paths,
    validate_root_path, Config, ConfigProbes, ConfigStore, ConfigValidationError, DirProbe,
    JellyfinConfig,
};
use jellymover::jellyfin::{check_status, trigger_rescan, JellyfinClient, JellyfinError, Reply};
use jellymover::listing::{directory_entry, validate_root, PathsError};
use jellymover::pools::{collect_pool_usage, usage_from_blocks, BlockStats, PoolProbe};
use jellymover::user_settings::{is_valid_theme, UserSettings};

fn config(hot: &str, cold: &str) -> Config {
    Config {
        hot_root: hot.to_string(),
        cold_root: cold.to_string(),
        library_paths: Vec::new(),
        jellyfin: JellyfinConfig { url: String::new(), api_key: String::new() },
    }
}

fn probes(hot: DirProbe, cold: DirProbe, libs: Vec<DirProbe>) -> ConfigProbes {
    ConfigProbes { hot_root: hot, cold_root: cold, library_paths: libs }
}

fn refusal(config: &Config, p: &ConfigProbes) -> String {
    validate_config(config, p).unwrap_err().to_string()
}

#[test]
fn a_default_config_is_empty_and_not_ready() {
    let c = Config::default();
    assert_eq!(c.hot_root, "");
    assert_eq!(c.cold_root, "");
    assert!(c.library_paths.is_empty());
    assert_eq!(c.jellyfin.url, "");
    assert_eq!(c.jellyfin.api_key, "");
    assert!(!config_is_ready(&c));
    assert!(!config_is_ready(&config("/hot", "  ")));
    assert!(!config_is_ready(&config("\n", "/cold")));
    assert!(config_is_ready(&config(" /hot ", "/cold")));
}

#[test]
fn a_config_store_keeps_its_path() {
    let store = ConfigStore::new("config/app-config.json");
    assert_eq!(store.path(), "config/app-config.json");
}

#[test]
fn a_validation_error_keeps_its_words() {
    assert_eq!(ConfigValidationError::new("bad").to_string(), "bad");
}

#[test]
fn directories_are_accepted_or_named_in_the_complaint() {
    assert!(ensure_directory("/x", "library path", &DirProbe::Directory).is_ok());
    assert_eq!(
        ensure_directory("/x", "library path", &DirProbe::NotDirectory).unwrap_err().to_string(),
        "library path '/x' is not a directory"
    );
    assert_eq!(
        ensure_directory("/x", "hot_root path", &DirProbe::Missing).unwrap_err().to_string(),
        "hot_root path '/x' does not exist"
    );
    assert_eq!(
        ensure_directory("/x", "cold_root path", &DirProbe::Unreadable("denied".to_string()))
            .unwrap_err()
            .to_string(),
        "Failed to inspect cold_root path '/x': denied"
    );
}

#[test]
fn a_blank_root_is_in_order() {
    assert_eq!(validate_root_path("hot_root", "  ", &DirProbe::Missing).unwrap(), None);
    assert_eq!(
        validate_root_path("hot_root", " /hot ", &DirProbe::Directory).unwrap(),
        Some("/hot".to_string())
    );
    assert_eq!(
        validate_root_path("hot_root", " /hot ", &DirProbe::Missing).unwrap_err().to_string(),
        "hot_root path '/hot' does not exist"
    );
}

#[test]
fn library_paths_must_be_set_and_be_directories() {
    assert!(validate_library_paths(&Vec::new(), &Vec::new()).is_ok());
    let paths = vec!["/a".to_string(), " ".to_string()];
    let looks = vec![DirProbe::Directory, DirProbe::Directory];
    assert_eq!(
        validate_library_paths(&paths, &looks).unwrap_err().to_string(),
        "library_paths entries must be non-empty paths"
    );
    let paths = vec!["/a".to_string(), " /b ".to_string()];
    let looks = vec![DirProbe::Directory, DirProbe::NotDirectory];
    assert_eq!(
        validate_library_paths(&paths, &looks).unwrap_err().to_string(),
        "library path '/b' is not a directory"
    );
}

#[test]
fn a_config_is_refused_for_the_first_thing_wrong() {
    let ok = probes(DirProbe::Directory, DirProbe::Directory, Vec::new());
    assert!(validate_config(&config("/hot", "/cold"), &ok).is_ok());
    assert!(validate_config(&Config::default(), &ok).is_ok());
    assert_eq!(
        refusal(&config("/hot", "/cold"), &probes(DirProbe::Missing, DirProbe::Missing, Vec::new())),
        "hot_root path '/hot' does not exist"
    );
    assert_eq!(
        refusal(
            &config("/hot", "/cold"),
            &probes(DirProbe::Directory, DirProbe::NotDirectory, Vec::new())
        ),
        "cold_root path '/cold' is not a directory"
    );
    assert_eq!(
        refusal(&config("/pool", "/pool/"), &ok),
        "hot_root and cold_root cannot be the same directory"
    );
    assert_eq!(
        refusal(&config("/pool", "/pool/cold"), &ok),
        "hot_root and cold_root cannot be nested inside each other"
    );
    assert_eq!(
        refusal(&config("/pool/hot", "/pool"), &ok),
        "hot_root and cold_root cannot be nested inside each other"
    );
    let mut with_libs = config("/hot", "/cold");
    with_libs.library_paths = vec!["/lib".to_string()];
    let looks = probes(DirProbe::Directory, DirProbe::Directory, vec![DirProbe::Missing]);
    assert_eq!(refusal(&with_libs, &looks), "library path '/lib' does not exist");
}

#[test]
fn the_media_server_address_must_be_a_url() {
    let ok = probes(DirProbe::Directory, DirProbe::Directory, Vec::new());
    let mut c = config("/hot", "/cold");
    c.jellyfin.url = "  http://jellyfin.local:8096  ".to_string();
    assert!(validate_config(&c, &ok).is_ok());
    c.jellyfin.url = " not a url ".to_string();
    assert_eq!(refusal(&c, &ok), "Invalid Jellyfin URL 'not a url': relative URL without a base");
    c.jellyfin.url = "http://".to_string();
    assert_eq!(refusal(&c, &ok), "Invalid Jellyfin URL 'http://': empty host");
    c.jellyfin.url = "   ".to_string();
    assert!(validate_config(&c, &ok).is_ok());
}

#[test]
fn a_scan_starts_only_when_nothing_stands_against_it() {
    let ready = config("/hot", "/cold");
    let mut status = ScanStatus::default();
    assert_eq!(status.state, ScanState::Idle);
    assert_eq!(
        trigger_scan(&mut status, &config("", "/cold"), JobActivity::Quiet, 5),
        Err(ScanRefusal::ConfigIncomplete)
    );
    assert_eq!(
        trigger_scan(&mut status, &ready, JobActivity::Active, 5),
        Err(ScanRefusal::JobsActive)
    );
    assert_eq!(
        trigger_scan(&mut status, &ready, JobActivity::Unknown, 5),
        Err(ScanRefusal::JobCheckFailed)
    );
    assert_eq!(status.state, ScanState::Idle);
    assert_eq!(status.last_started, None);
    status.last_error = Some("old".to_string());
    assert_eq!(trigger_scan(&mut status, &ready, JobActivity::Quiet, 7), Ok(()));
    assert_eq!(status.state, ScanState::Running);
    assert_eq!(status.last_started, Some(7));
    assert_eq!(status.last_error, None);
    assert_eq!(
        trigger_scan(&mut status, &ready, JobActivity::Quiet, 8),
        Err(ScanRefusal::AlreadyRunning)
    );
    assert_eq!(status.last_started, Some(7));
    assert_eq!(admit_move_request(&status, &ready), Err(MoveRefusal::ScanRunning));
    finish_scan(&mut status, Some("boom".to_string()), 9);
    assert_eq!(status.state, ScanState::Idle);
    assert_eq!(status.last_finished, Some(9));
    assert_eq!(status.last_error, Some("boom".to_string()));
    assert_eq!(admit_move_request(&status, &ready), Ok(()));
    assert_eq!(
        admit_move_request(&status, &config("/hot", "")),
        Err(MoveRefusal::ConfigIncomplete)
    );
}

#[test]
fn refusals_answer_with_status_and_words() {
    assert_eq!(ScanRefusal::ConfigIncomplete.status_code(), 400);
    assert_eq!(ScanRefusal::JobsActive.status_code(), 409);
    assert_eq!(ScanRefusal::JobCheckFailed.status_code(), 500);
    assert_eq!(ScanRefusal::AlreadyRunning.status_code(), 409);
    assert_eq!(ScanRefusal::AlreadyRunning.message(), "scan_already_running");
    assert_eq!(ScanRefusal::JobsActive.message(), "Cannot run scan while move jobs are active.");
    assert_eq!(MoveRefusal::ScanRunning.status_code(), 409);
    assert_eq!(MoveRefusal::ConfigIncomplete.status_code(), 400);
    assert_eq!(
        MoveRefusal::ScanRunning.message(),
        "Cannot create move jobs while a scan is running."
    );
}

#[test]
fn the_worker_waits_by_what_it_found() {
    assert_eq!(worker_turn(true), WorkerAction::Exit);
    assert_eq!(worker_turn(false), WorkerAction::Poll);
    assert_eq!(pause_millis(Polled::Job), 200);
    assert_eq!(pause_millis(Polled::Nothing), 2000);
    assert_eq!(pause_millis(Polled::StoreFailed), 5000);
    assert!(!wait_for_shutdown(Waited::Elapsed));
    assert!(wait_for_shutdown(Waited::Signalled(true)));
    assert!(!wait_for_shutdown(Waited::Signalled(false)));
    assert!(wait_for_shutdown(Waited::Closed));
}

#[test]
fn usage_is_counted_in_bytes() {
    let u = usage_from_blocks(&BlockStats { block_size: 4096, blocks: 1000, free_blocks: 250 });
    assert_eq!(u.total_bytes, 4_096_000);
    assert_eq!(u.free_bytes, 1_024_000);
    assert_eq!(u.used_bytes, 3_072_000);
    let zero = usage_from_blocks(&BlockStats { block_size: 0, blocks: 10, free_blocks: 4 });
    assert_eq!(zero.total_bytes, 10);
    assert_eq!(zero.used_bytes, 6);
    let huge = usage_from_blocks(&BlockStats { block_size: u64::MAX, blocks: 2, free_blocks: 3 });
    assert_eq!(huge.total_bytes, u64::MAX);
    assert_eq!(huge.free_bytes, u64::MAX);
    assert_eq!(huge.used_bytes, 0);
    let odd = usage_from_blocks(&BlockStats { block_size: 1, blocks: 2, free_blocks: 3 });
    assert_eq!(odd.used_bytes, 0);
}

#[test]
fn a_pool_is_summed_up_where_it_can_be_measured() {
    let stats = PoolProbe::Stats(BlockStats { block_size: 512, blocks: 8, free_blocks: 2 });
    let s = collect_pool_usage(" /mnt/hot ", &stats).unwrap();
    assert_eq!(s.path, "/mnt/hot");
    assert_eq!(s.total_bytes, 4096);
    assert_eq!(s.used_bytes, 3072);
    assert_eq!(s.free_bytes, 1024);
    assert!(collect_pool_usage("  ", &stats).is_none());
    assert!(collect_pool_usage("/mnt/hot", &PoolProbe::Unreadable).is_none());
    assert!(collect_pool_usage("/mnt/hot", &PoolProbe::NotDirectory).is_none());
    assert!(collect_pool_usage("/mnt/hot", &PoolProbe::StatFailed).is_none());
}

#[test]
fn a_root_to_list_must_be_a_directory() {
    assert_eq!(validate_root("/mnt", &DirProbe::Directory).unwrap(), "/mnt");
    assert!(matches!(validate_root("  ", &DirProbe::Directory), Err(PathsError::MissingRoot)));
    let e = validate_root("/mnt", &DirProbe::Missing).unwrap_err();
    assert_eq!(e.to_string(), "Root path '/mnt' not found");
    assert_eq!(e.status_code(), 400);
    let e = validate_root("/mnt", &DirProbe::NotDirectory).unwrap_err();
    assert_eq!(e.to_string(), "Root path '/mnt' is not a directory");
    let e = validate_root("/mnt", &DirProbe::Unreadable("denied".to_string())).unwrap_err();
    assert_eq!(e.to_string(), "Root path '/mnt' is not readable");
    assert_eq!(PathsError::MissingRoot.to_string(), "root query parameter is required");
    let e = PathsError::Enumerate("/mnt".to_string(), "x".to_string());
    assert_eq!(e.to_string(), "Failed to enumerate '/mnt'");
    assert_eq!(e.status_code(), 500);
    let e = PathsError::Stat("/mnt/a".to_string(), "x".to_string());
    assert_eq!(e.to_string(), "Failed to read filesystem stats for '/mnt/a'");
    assert_eq!(e.status_code(), 500);
}

#[test]
fn a_directory_entry_carries_name_path_and_usage() {
    let e = directory_entry(
        "tv",
        "/mnt/tv",
        &BlockStats { block_size: 1024, blocks: 100, free_blocks: 40 },
    );
    assert_eq!(e.name, "tv");
    assert_eq!(e.full_path, "/mnt/tv");
    assert_eq!(e.total_bytes, 102_400);
    assert_eq!(e.used_bytes, 61_440);
    assert_eq!(e.free_bytes, 40_960);
}

#[test]
fn the_media_server_client_needs_address_and_key() {
    let mut c = config("/hot", "/cold");
    assert!(matches!(JellyfinClient::from_config(&c), Err(JellyfinError::NotConfigured)));
    assert!(matches!(check_status(&c), Err(JellyfinError::NotConfigured)));
    c.jellyfin.url = " http://jf.local:8096/// ".to_string();
    assert!(matches!(JellyfinClient::from_config(&c), Err(JellyfinError::NotConfigured)));
    c.jellyfin.api_key = " key ".to_string();
    let client = JellyfinClient::from_config(&c).unwrap();
    assert_eq!(client.api_key(), "key");
    assert_eq!(client.refresh_url(), "http://jf.local:8096/Library/Refresh");
    assert_eq!(client.health_url(), "http://jf.local:8096/health");
    assert_eq!(client.library_url(), "http://jf.local:8096/Library/PhysicalPaths");
}

#[test]
fn a_rescan_is_done_on_a_success_status() {
    assert_eq!(trigger_rescan(&Reply::Status(204)).unwrap().status, "ok");
    assert!(matches!(
        trigger_rescan(&Reply::Status(401)),
        Err(JellyfinError::UnexpectedStatus(401))
    ));
    assert!(matches!(
        trigger_rescan(&Reply::Failed("refused".to_string())),
        Err(JellyfinError::Http(ref w)) if w == "refused"
    ));
}

#[test]
fn the_connection_check_goes_from_health_to_libraries() {
    let mut c = config("/hot", "/cold");
    c.jellyfin.url = "http://jf.local".to_string();
    c.jellyfin.api_key = "key".to_string();
    let mut status = check_status(&c).unwrap();
    assert!(status.configured);
    assert!(status.health(&Reply::Status(200)));
    assert!(status.server_reachable);
    assert_eq!(status.health_status_code, Some(200));
    status.verify_library_access(&Reply::Status(200));
    assert!(status.auth_ok);
    assert_eq!(status.library_status_code, Some(200));
    assert_eq!(status.message, None);

    let mut status = check_status(&c).unwrap();
    assert!(!status.health(&Reply::Status(503)));
    assert_eq!(status.message.as_deref(), Some("Jellyfin health endpoint returned 503"));
    assert_eq!(status.health_status_code, Some(503));
    assert!(!status.server_reachable);

    let mut status = check_status(&c).unwrap();
    assert!(!status.health(&Reply::Failed("timed out".to_string())));
    assert_eq!(
        status.message.as_deref(),
        Some("Failed to reach Jellyfin health endpoint: timed out")
    );

    let mut status = check_status(&c).unwrap();
    status.health(&Reply::Status(200));
    status.verify_library_access(&Reply::Status(403));
    assert!(!status.auth_ok);
    assert_eq!(status.message.as_deref(), Some("Jellyfin API key invalid"));

    let mut status = check_status(&c).unwrap();
    status.health(&Reply::Status(200));
    status.verify_library_access(&Reply::Status(500));
    assert_eq!(status.message.as_deref(), Some("Unexpected status from library endpoint: 500"));

    let mut status = check_status(&c).unwrap();
    status.health(&Reply::Status(200));
    status.verify_library_access(&Reply::Failed("reset".to_string()));
    assert_eq!(status.message.as_deref(), Some("Failed to call Jellyfin library endpoint: reset"));
    assert_eq!(status.library_status_code, None);
}

#[test]
fn themes_are_a_closed_set() {
    assert_eq!(UserSettings::default().theme, "jelly");
    assert!(is_valid_theme("jelly"));
    assert!(is_valid_theme("light"));
    assert!(is_valid_theme("dark"));
    assert!(!is_valid_theme("Dark"));
    assert!(!is_valid_theme(""));
    assert!(!is_valid_theme("solarized"));
}
