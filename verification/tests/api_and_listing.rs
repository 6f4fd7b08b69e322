use jellymover::api::{
    content_type, default_config_path, default_database_path, env_bool, filter_value,
    get_job_analytics, is_origin_allowed, is_private_ip, job_error_response, page_limit,
    page_offset, parse_duration, parse_port, port_from_text, running_in_docker, sort_column,
    sort_direction, thumbnail_allowed, trim_env, HostIp,
};
use jellymover::config::{Config, JellyfinConfig};
use jellymover::index::{deduplicate_show_paths, IndexStore, Provenance, ShowCandidate, ShowRecord};
use jellymover::jobs::{create_move_job, list_jobs, JobError, JobStatus, JobStore};
use jellymover::tier::Tier;

fn row(id: i64, path: &str) -> ShowRecord {
    ShowRecord {
        id,
        title: format!("show {}", id),
        path: path.to_string(),
        location: None,
        size_bytes: 0,
        season_count: 0,
        episode_count: 0,
        thumbnail_path: None,
        source: Provenance::FsScan,
        last_scan: 0,
    }
}

#[test]
fn history_spans_are_counted_in_seconds() {
    assert_eq!(parse_duration(&Some("1h".to_string())), 3600);
    assert_eq!(parse_duration(&Some("6h".to_string())), 21600);
    assert_eq!(parse_duration(&Some("24h".to_string())), 86400);
    assert_eq!(parse_duration(&Some("7d".to_string())), 604800);
    assert_eq!(parse_duration(&Some("30d".to_string())), 2592000);
    assert_eq!(parse_duration(&Some("2w".to_string())), 3600);
    assert_eq!(parse_duration(&None), 3600);
}

#[test]
fn ports_are_read_like_std_reads_them() {
    let alphabet = ['+', '-', '0', '5', '6', '9', ' ', 'a'];
    let mut last = vec![String::new()];
    let mut all = vec![String::new()];
    for _ in 0..6 {
        let mut next = Vec::new();
        for s in &last {
            for c in alphabet {
                let mut t = s.clone();
                t.push(c);
                next.push(t);
            }
        }
        all.extend(next.iter().cloned());
        last = next;
    }
    for s in all {
        assert_eq!(port_from_text(&s), s.parse::<u16>().ok(), "text {:?}", s);
    }
}

#[test]
fn the_port_falls_back_to_3000() {
    assert_eq!(parse_port(Some("8080".to_string())), 8080);
    assert_eq!(parse_port(Some("65535".to_string())), 65535);
    assert_eq!(parse_port(Some("65536".to_string())), 3000);
    assert_eq!(parse_port(Some("http".to_string())), 3000);
    assert_eq!(parse_port(Some("".to_string())), 3000);
    assert_eq!(parse_port(None), 3000);
}

#[test]
fn settings_say_yes_in_four_ways() {
    for yes in ["1", "true", " TRUE ", "Yes", "on\n"] {
        assert!(env_bool(yes), "{:?}", yes);
    }
    for no in ["0", "false", "", "y", "enabled", "o n"] {
        assert!(!env_bool(no), "{:?}", no);
    }
    assert_eq!(trim_env(&Some("  x ".to_string())), Some("x".to_string()));
    assert_eq!(trim_env(&Some("   ".to_string())), None);
    assert_eq!(trim_env(&None), None);
}

#[test]
fn the_container_is_known_by_flag_or_mark() {
    assert!(running_in_docker(Some(true), Some(false), false));
    assert!(!running_in_docker(Some(false), Some(true), true));
    assert!(running_in_docker(None, Some(true), false));
    assert!(running_in_docker(None, None, true));
    assert!(!running_in_docker(None, None, false));
    assert_eq!(default_config_path(true), "/config/app-config.json");
    assert_eq!(default_config_path(false), "config/app-config.json");
    assert_eq!(default_database_path(true), "/data/jellymover.db");
    assert_eq!(default_database_path(false), "data/jellymover.db");
}

#[test]
fn private_addresses_are_those_of_the_private_ranges() {
    assert!(is_private_ip(&HostIp::V4(10, 1, 2, 3)));
    assert!(is_private_ip(&HostIp::V4(172, 16, 0, 1)));
    assert!(is_private_ip(&HostIp::V4(172, 31, 255, 255)));
    assert!(!is_private_ip(&HostIp::V4(172, 32, 0, 1)));
    assert!(!is_private_ip(&HostIp::V4(172, 15, 0, 1)));
    assert!(is_private_ip(&HostIp::V4(192, 168, 1, 1)));
    assert!(!is_private_ip(&HostIp::V4(192, 169, 1, 1)));
    assert!(is_private_ip(&HostIp::V4(169, 254, 0, 1)));
    assert!(!is_private_ip(&HostIp::V4(8, 8, 8, 8)));
    assert!(is_private_ip(&HostIp::V6(0xfc00)));
    assert!(is_private_ip(&HostIp::V6(0xfdff)));
    assert!(is_private_ip(&HostIp::V6(0xfe80)));
    assert!(is_private_ip(&HostIp::V6(0xfebf)));
    assert!(!is_private_ip(&HostIp::V6(0xfec0)));
    assert!(!is_private_ip(&HostIp::V6(0x2001)));
}

#[test]
fn origins_are_local_or_private() {
    assert!(is_origin_allowed("localhost", &None));
    assert!(is_origin_allowed("127.0.0.1", &Some(HostIp::V4(127, 0, 0, 1))));
    assert!(is_origin_allowed("::1", &None));
    assert!(is_origin_allowed("192.168.1.20", &Some(HostIp::V4(192, 168, 1, 20))));
    assert!(!is_origin_allowed("8.8.8.8", &Some(HostIp::V4(8, 8, 8, 8))));
    assert!(!is_origin_allowed("example.com", &None));
}

#[test]
fn pages_have_a_default_and_a_cap() {
    assert_eq!(page_limit(None), 50);
    assert_eq!(page_limit(Some(10)), 10);
    assert_eq!(page_limit(Some(500)), 500);
    assert_eq!(page_limit(Some(501)), 500);
    assert_eq!(page_limit(Some(u32::MAX)), 500);
    assert_eq!(page_offset(None), 0);
    assert_eq!(page_offset(Some(u32::MAX)), 4294967295);
}

#[test]
fn shows_are_ordered_by_known_columns() {
    assert_eq!(sort_column(&Some("title".to_string())), "title COLLATE NOCASE");
    assert_eq!(sort_column(&Some("size".to_string())), "size_bytes");
    assert_eq!(sort_column(&Some("date".to_string())), "last_scan");
    assert_eq!(sort_column(&Some("seasons".to_string())), "season_count");
    assert_eq!(sort_column(&Some("episodes".to_string())), "episode_count");
    assert_eq!(sort_column(&Some("id; drop".to_string())), "title COLLATE NOCASE");
    assert_eq!(sort_column(&None), "title COLLATE NOCASE");
    assert_eq!(sort_direction(&Some("desc".to_string())), "DESC");
    assert_eq!(sort_direction(&Some("DESC".to_string())), "DESC");
    assert_eq!(sort_direction(&Some("Desc".to_string())), "ASC");
    assert_eq!(sort_direction(&None), "ASC");
    assert_eq!(filter_value(&Some(" hot ".to_string())), Some("hot".to_string()));
    assert_eq!(filter_value(&Some(" ".to_string())), None);
}

#[test]
fn pictures_are_typed_by_extension() {
    assert_eq!(content_type("/s/folder.jpg"), "image/jpeg");
    assert_eq!(content_type("/s/folder.JPEG"), "image/jpeg");
    assert_eq!(content_type("/s/folder.PNG"), "image/png");
    assert_eq!(content_type("/s/folder.gif"), "image/gif");
    assert_eq!(content_type("/s/folder.webp"), "image/webp");
    assert_eq!(content_type("/s/folder.bmp"), "image/jpeg");
    assert_eq!(content_type("/s/folder"), "image/jpeg");
}

#[test]
fn pictures_are_handed_out_from_configured_places_only() {
    let config = Config {
        hot_root: "/mnt/hot".to_string(),
        cold_root: "/mnt/cold".to_string(),
        library_paths: vec!["/lib/a".to_string(), "/lib/b".to_string()],
        jellyfin: JellyfinConfig { url: String::new(), api_key: String::new() },
    };
    assert!(thumbnail_allowed("/mnt/hot/Show/folder.jpg", &config));
    assert!(thumbnail_allowed("/mnt/cold/Show/folder.jpg", &config));
    assert!(thumbnail_allowed("/lib/b/Show/folder.jpg", &config));
    assert!(!thumbnail_allowed("/etc/passwd", &config));
    assert!(!thumbnail_allowed("/mnt/hotter/x.jpg", &config));
}

#[test]
fn job_errors_are_answered_with_status_and_words() {
    assert_eq!(job_error_response(&JobError::ShowNotFound), (404, "Show not found"));
    assert_eq!(
        job_error_response(&JobError::InvalidTarget),
        (400, "target must be 'hot' or 'cold'")
    );
    assert_eq!(
        job_error_response(&JobError::AlreadyInLocation),
        (400, "Show already in requested pool")
    );
    assert_eq!(
        job_error_response(&JobError::MissingRoot(Tier::Hot)),
        (500, "Missing configuration for hot_root")
    );
    assert_eq!(
        job_error_response(&JobError::MissingRoot(Tier::Cold)),
        (500, "Missing configuration for cold_root")
    );
    assert_eq!(
        job_error_response(&JobError::PathMismatch),
        (400, "Show path is not within configured pools")
    );
    assert_eq!(job_error_response(&JobError::Database("x".to_string())), (500, "Database error"));
    assert_eq!(job_error_response(&JobError::Io("x".to_string())), (500, "Filesystem error"));
}

#[test]
fn analytics_count_jobs_by_status() {
    let counts = vec![
        (Some(JobStatus::Running), 1),
        (Some(JobStatus::Queued), 4),
        (None, 2),
        (Some(JobStatus::Success), 10),
        (Some(JobStatus::Failed), 3),
    ];
    let a = get_job_analytics(&counts, 12345);
    assert_eq!(a.total_jobs, 20);
    assert_eq!(a.running_count, 1);
    assert_eq!(a.queued_count, 4);
    assert_eq!(a.completed_count, 10);
    assert_eq!(a.failed_count, 3);
    assert_eq!(a.total_bytes_moved, 12345);
    let none = get_job_analytics(&Vec::new(), 0);
    assert_eq!(none.total_jobs, 0);
}

#[test]
fn of_rows_with_one_path_the_latest_is_kept() {
    let rows = vec![
        row(1, "/a"),
        row(2, "/b"),
        row(3, "/a"),
        row(4, "/c"),
        row(5, "/b"),
        row(6, "/a"),
    ];
    let kept: Vec<i64> = deduplicate_show_paths(&rows).iter().map(|r| r.id).collect();
    assert_eq!(kept, vec![4, 5, 6]);
    assert!(deduplicate_show_paths(&Vec::new()).is_empty());
    let same: Vec<i64> =
        deduplicate_show_paths(&vec![row(1, "/a"), row(2, "/b")]).iter().map(|r| r.id).collect();
    assert_eq!(same, vec![1, 2]);
}

#[test]
fn jobs_are_listed_newest_first_in_pages() {
    let mut index = IndexStore::new();
    for name in ["A", "B", "C", "D"] {
        let c = ShowCandidate {
            title: name.to_string(),
            path: format!("/mnt/hot/{}", name),
            location: Some(Tier::Hot),
            size_bytes: 1,
            season_count: 0,
            episode_count: 0,
            thumbnail_path: None,
            source: Provenance::FsScan,
        };
        index.upsert(&c, 1).unwrap();
    }
    let config = Config {
        hot_root: "/mnt/hot".to_string(),
        cold_root: "/mnt/cold".to_string(),
        library_paths: Vec::new(),
        jellyfin: JellyfinConfig { url: String::new(), api_key: String::new() },
    };
    let mut jobs = JobStore::new();
    for (show_id, now) in [(1, 30), (2, 10), (3, 30), (4, 20)] {
        create_move_job(&mut jobs, &index, &config, show_id, "cold", now).unwrap();
    }
    let ids = |v: Vec<jellymover::jobs::JobRecord>| v.iter().map(|j| j.id).collect::<Vec<i64>>();
    assert_eq!(ids(list_jobs(&jobs, 50, 0)), vec![1, 3, 4, 2]);
    assert_eq!(ids(list_jobs(&jobs, 2, 0)), vec![1, 3]);
    assert_eq!(ids(list_jobs(&jobs, 2, 1)), vec![3, 4]);
    assert_eq!(ids(list_jobs(&jobs, 2, 3)), vec![2]);
    assert_eq!(ids(list_jobs(&jobs, 2, 4)), Vec::<i64>::new());
    assert_eq!(ids(list_jobs(&jobs, 0, 0)), Vec::<i64>::new());
    assert_eq!(ids(list_jobs(&jobs, -1, 2)), vec![4, 2]);
    assert_eq!(ids(list_jobs(&jobs, 10, -5)), vec![1, 3, 4, 2]);
    assert_eq!(ids(list_jobs(&jobs, i64::MAX, i64::MAX)), Vec::<i64>::new());
}
