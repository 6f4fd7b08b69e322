//! Rules of the program's outer side: how settings from the environment are
//! read, which origins may call, how a listing is paged and ordered, and how
//! a failure is answered.

use vstd::prelude::*;
use crate::config::{opt_text, Config};
use crate::jobs::{JobError, JobFault, JobStatus};
use crate::paths::{extension, extension_of, lies_under, path_starts_with};
use crate::text::{
    ascii_lowered, chars_of, eq_ignore_ascii_case, eq_ignoring_ascii_case, is_blank, str_eq, texts,
    trim, trimmed,
};
use crate::tier::Tier;

verus! {

/// The number of seconds that a span of history stands for. An unknown span
/// counts as an hour.
pub open spec fn span_seconds(duration: Option<Seq<char>>) -> i64 {
    match duration {
        Some(d) => if d == "6h"@ {
            21600
        } else if d == "24h"@ {
            86400
        } else if d == "7d"@ {
            604800
        } else if d == "30d"@ {
            2592000
        } else {
            3600
        },
        None => 3600,
    }
}

/// The number of seconds that a span of history stands for.
pub fn parse_duration(duration: &Option<String>) -> (r: i64)
    ensures
        r == span_seconds(opt_text(*duration)),
{
    match duration {
        Some(d) => {
            if str_eq(d.as_str(), "6h") {
                6 * 3600
            } else if str_eq(d.as_str(), "24h") {
                24 * 3600
            } else if str_eq(d.as_str(), "7d") {
                7 * 24 * 3600
            } else if str_eq(d.as_str(), "30d") {
                30 * 24 * 3600
            } else {
                3600
            }
        },
        None => 3600,
    }
}

/// The value of a decimal digit.
pub open spec fn digit_value(c: char) -> Option<int> {
    if '0' <= c && c <= '9' {
        Some(c as int - '0' as int)
    } else {
        None
    }
}

/// The number that the first `upto` characters write in decimal digits, if
/// they are all digits.
pub open spec fn number_of(s: Seq<char>, upto: int) -> Option<int>
    decreases upto,
{
    if upto <= 0 {
        Some(0)
    } else {
        match (number_of(s, upto - 1), digit_value(s[upto - 1])) {
            (Some(v), Some(d)) => Some(v * 10 + d),
            _ => None,
        }
    }
}

/// The port that a text names: decimal digits, with or without a plus sign
/// before them, that make a number of at most 65535.
pub open spec fn port_of(text: Seq<char>) -> Option<u16> {
    let digits = if text.len() > 0 && text[0] == '+' {
        text.skip(1)
    } else {
        text
    };
    if digits.len() == 0 {
        None
    } else {
        match number_of(digits, digits.len() as int) {
            Some(v) => if v <= 65535 {
                Some(v as u16)
            } else {
                None
            },
            None => None,
        }
    }
}

pub proof fn lemma_number_grows(s: Seq<char>, k: int, upto: int)
    requires
        0 <= k <= upto <= s.len(),
        number_of(s, upto) is Some,
    ensures
        number_of(s, k) is Some,
        0 <= number_of(s, k)->0 <= number_of(s, upto)->0,
    decreases upto - k,
{
    if k < upto {
        lemma_number_grows(s, k, upto - 1);
    } else {
        lemma_number_nonnegative(s, k);
    }
}

pub proof fn lemma_number_nonnegative(s: Seq<char>, upto: int)
    requires
        0 <= upto <= s.len(),
    ensures
        number_of(s, upto) is Some ==> number_of(s, upto)->0 >= 0,
    decreases upto,
{
    if upto > 0 {
        lemma_number_nonnegative(s, upto - 1);
    }
}

/// The port that a text names, or nothing where it names none.
pub fn port_from_text(text: &str) -> (r: Option<u16>)
    ensures
        r == port_of(text@),
{
    let chars = chars_of(text);
    let start: usize = if chars.len() > 0 && chars[0] == '+' {
        1
    } else {
        0
    };
    let ghost digits = if start == 1 {
        text@.skip(1)
    } else {
        text@
    };
    let n = chars.len();
    if start == n {
        return None;
    }
    let mut value: u32 = 0;
    let mut i: usize = start;
    while i < n
        invariant
            start <= i <= n,
            chars@ == text@,
            n == text@.len(),
            digits.len() == n - start,
            digits.len() > 0,
            digits == if text@.len() > 0 && text@[0] == '+' {
                text@.skip(1)
            } else {
                text@
            },
            forall|k: int| 0 <= k < digits.len() ==> digits[k] == text@[k + start],
            number_of(digits, i - start) == Some(value as int),
            value <= 65535,
        decreases n - i,
    {
        let c = chars[i];
        if !('0' <= c && c <= '9') {
            proof {
                assert(digit_value(digits[i - start]) is None);
                assert(number_of(digits, i - start + 1) is None);
                if number_of(digits, digits.len() as int) is Some {
                    lemma_number_grows(digits, i - start + 1, digits.len() as int);
                }
            }
            return None;
        }
        let d: u32 = (c as u32) - ('0' as u32);
        let next: u32 = value * 10 + d;
        assert(number_of(digits, i - start + 1) == Some(next as int));
        if next > 65535 {
            proof {
                if number_of(digits, digits.len() as int) is Some {
                    lemma_number_grows(digits, i - start + 1, digits.len() as int);
                }
            }
            return None;
        }
        value = next;
        i = i + 1;
    }
    Some(value as u16)
}

/// The port that the program listens on: the one that the setting names,
/// else 3000.
pub fn parse_port(port: Option<String>) -> (r: u16)
    ensures
        r == match port {
            Some(text) => match port_of(text@) {
                Some(p) => p,
                None => 3000u16,
            },
            None => 3000u16,
        },
{
    match port {
        Some(text) => match port_from_text(text.as_str()) {
            Some(p) => p,
            None => 3000,
        },
        None => 3000,
    }
}

/// Whether a setting says yes: `1`, `true`, `yes` or `on`, in any case, with
/// whitespace around it.
pub open spec fn says_yes(value: Seq<char>) -> bool {
    let v = ascii_lowered(trimmed(value));
    v == "1"@ || v == "true"@ || v == "yes"@ || v == "on"@
}

/// Whether a setting says yes.
pub fn env_bool(value: &str) -> (r: bool)
    ensures
        r == says_yes(value@),
{
    let t = trim(value);
    proof {
        reveal_strlit("1");
        reveal_strlit("true");
        reveal_strlit("yes");
        reveal_strlit("on");
        assert(ascii_lowered("1"@) =~= "1"@);
        assert(ascii_lowered("true"@) =~= "true"@);
        assert(ascii_lowered("yes"@) =~= "yes"@);
        assert(ascii_lowered("on"@) =~= "on"@);
    }
    eq_ignore_ascii_case(t, "1") || eq_ignore_ascii_case(t, "true") || eq_ignore_ascii_case(
        t,
        "yes",
    ) || eq_ignore_ascii_case(t, "on")
}

/// A setting without the whitespace around it, or nothing where it is not
/// set or blank.
pub fn trim_env(value: &Option<String>) -> (r: Option<String>)
    ensures
        opt_text(r) == match *value {
            Some(v) => if is_blank(v@) {
                None
            } else {
                Some(trimmed(v@))
            },
            None => None,
        },
{
    match value {
        Some(v) => {
            let t = trim(v.as_str());
            if t.unicode_len() == 0 {
                None
            } else {
                Some(t.to_owned())
            }
        },
        None => None,
    }
}

/// Whether the program runs in a container: as the first of the two flags
/// says that is set, else by whether the container's mark is on disk.
pub fn running_in_docker(flag: Option<bool>, other_flag: Option<bool>, marked: bool) -> (r: bool)
    ensures
        r == match (flag, other_flag) {
            (Some(f), _) => f,
            (None, Some(f)) => f,
            (None, None) => marked,
        },
{
    match flag {
        Some(f) => f,
        None => match other_flag {
            Some(f) => f,
            None => marked,
        },
    }
}

/// Where the configuration is kept unless a setting says otherwise.
pub fn default_config_path(in_docker: bool) -> (r: &'static str)
    ensures
        r@ == if in_docker {
            "/config/app-config.json"@
        } else {
            "config/app-config.json"@
        },
{
    if in_docker {
        "/config/app-config.json"
    } else {
        "config/app-config.json"
    }
}

/// Where the database is kept unless a setting says otherwise.
pub fn default_database_path(in_docker: bool) -> (r: &'static str)
    ensures
        r@ == if in_docker {
            "/data/jellymover.db"@
        } else {
            "data/jellymover.db"@
        },
{
    if in_docker {
        "/data/jellymover.db"
    } else {
        "data/jellymover.db"
    }
}

/// The address of a host, as far as the rules on origins read it.
#[derive(Clone, Copy, Debug, PartialEq, Eq, Structural)]
pub enum HostIp {
    /// The four octets of an IPv4 address.
    V4(u8, u8, u8, u8),
    /// The first of the eight segments of an IPv6 address.
    V6(u16),
}

/// Whether an address is private: one of the private or link-local IPv4
/// ranges, or a unique-local or link-local IPv6 address.
pub open spec fn is_private(ip: HostIp) -> bool {
    match ip {
        HostIp::V4(a, b, _, _) => {
            ||| a == 10
            ||| (a == 172 && 16 <= b <= 31)
            ||| (a == 192 && b == 168)
            ||| (a == 169 && b == 254)
        },
        HostIp::V6(first) => (first & 0xfe00) == 0xfc00 || (first & 0xffc0) == 0xfe80,
    }
}

/// Whether an address is private.
pub fn is_private_ip(ip: &HostIp) -> (r: bool)
    ensures
        r == is_private(*ip),
{
    match ip {
        HostIp::V4(a, b, _, _) => {
            *a == 10 || (*a == 172 && (*b >= 16 && *b <= 31)) || (*a == 192 && *b == 168) || (*a
                == 169 && *b == 254)
        },
        HostIp::V6(first) => (*first & 0xfe00) == 0xfc00 || (*first & 0xffc0) == 0xfe80,
    }
}

/// Whether the pages of a host may call: the local host by its names, and
/// any host that is a private address.
pub fn is_origin_allowed(host: &str, ip: &Option<HostIp>) -> (r: bool)
    ensures
        r == (host@ == "localhost"@ || host@ == "127.0.0.1"@ || host@ == "::1"@ || (*ip
            matches Some(a) && is_private(a))),
{
    if str_eq(host, "localhost") || str_eq(host, "127.0.0.1") || str_eq(host, "::1") {
        return true;
    }
    match ip {
        Some(a) => is_private_ip(a),
        None => false,
    }
}

/// How many rows a page holds: what was asked for, 50 where nothing was, and
/// never more than 500.
pub fn page_limit(limit: Option<u32>) -> (r: i64)
    ensures
        r == match limit {
            Some(n) => if n > 500 {
                500
            } else {
                n as int
            },
            None => 50,
        },
{
    match limit {
        Some(n) => if n > 500 {
            500
        } else {
            n as i64
        },
        None => 50,
    }
}

/// Where a page begins: what was asked for, and zero where nothing was.
pub fn page_offset(offset: Option<u32>) -> (r: i64)
    ensures
        r == match offset {
            Some(n) => n as int,
            None => 0,
        },
{
    match offset {
        Some(n) => n as i64,
        None => 0,
    }
}

/// The column that shows are ordered by. An unknown order is that by title.
pub open spec fn order_column(sort_by: Option<Seq<char>>) -> Seq<char> {
    match sort_by {
        Some(s) => if s == "size"@ {
            "size_bytes"@
        } else if s == "date"@ {
            "last_scan"@
        } else if s == "seasons"@ {
            "season_count"@
        } else if s == "episodes"@ {
            "episode_count"@
        } else {
            "title COLLATE NOCASE"@
        },
        None => "title COLLATE NOCASE"@,
    }
}

/// The column that shows are ordered by.
pub fn sort_column(sort_by: &Option<String>) -> (r: &'static str)
    ensures
        r@ == order_column(opt_text(*sort_by)),
{
    match sort_by {
        Some(s) => {
            if str_eq(s.as_str(), "size") {
                "size_bytes"
            } else if str_eq(s.as_str(), "date") {
                "last_scan"
            } else if str_eq(s.as_str(), "seasons") {
                "season_count"
            } else if str_eq(s.as_str(), "episodes") {
                "episode_count"
            } else {
                "title COLLATE NOCASE"
            }
        },
        None => "title COLLATE NOCASE",
    }
}

/// The direction that shows are ordered in: descending where `desc` or
/// `DESC` was asked for, else ascending.
pub fn sort_direction(sort_dir: &Option<String>) -> (r: &'static str)
    ensures
        r@ == match *sort_dir {
            Some(s) => if s@ == "desc"@ || s@ == "DESC"@ {
                "DESC"@
            } else {
                "ASC"@
            },
            None => "ASC"@,
        },
{
    match sort_dir {
        Some(s) => {
            if str_eq(s.as_str(), "desc") || str_eq(s.as_str(), "DESC") {
                "DESC"
            } else {
                "ASC"
            }
        },
        None => "ASC",
    }
}

/// A filter as it is used: without the whitespace around it, or nothing
/// where it is not set or blank.
pub fn filter_value(value: &Option<String>) -> (r: Option<String>)
    ensures
        opt_text(r) == match *value {
            Some(v) => if is_blank(v@) {
                None
            } else {
                Some(trimmed(v@))
            },
            None => None,
        },
{
    trim_env(value)
}

/// The kind of picture that a path names, by its extension. An unknown one
/// counts as JPEG.
pub open spec fn picture_type(path: Seq<char>) -> Seq<char> {
    match extension_of(path) {
        Some(ext) => if eq_ignoring_ascii_case(ext, "png"@) {
            "image/png"@
        } else if eq_ignoring_ascii_case(ext, "gif"@) {
            "image/gif"@
        } else if eq_ignoring_ascii_case(ext, "webp"@) {
            "image/webp"@
        } else {
            "image/jpeg"@
        },
        None => "image/jpeg"@,
    }
}

/// The kind of picture that a path names.
pub fn content_type(path: &str) -> (r: &'static str)
    ensures
        r@ == picture_type(path@),
{
    match extension(path) {
        Some(ext) => {
            if eq_ignore_ascii_case(ext.as_str(), "png") {
                "image/png"
            } else if eq_ignore_ascii_case(ext.as_str(), "gif") {
                "image/gif"
            } else if eq_ignore_ascii_case(ext.as_str(), "webp") {
                "image/webp"
            } else {
                "image/jpeg"
            }
        },
        None => "image/jpeg",
    }
}

/// Whether a path lies under one of the first `upto` library paths.
pub open spec fn under_library(path: Seq<char>, libraries: Seq<Seq<char>>, upto: int) -> bool {
    exists|k: int| 0 <= k < upto && lies_under(path, #[trigger] libraries[k])
}

/// Whether a picture may be handed out: only one that lies under a tier
/// root or a library path, as they are set.
pub fn thumbnail_allowed(path: &str, config: &Config) -> (r: bool)
    ensures
        r == (lies_under(path@, config.hot_root@) || lies_under(path@, config.cold_root@)
            || under_library(
            path@,
            texts(config.library_paths@),
            config.library_paths@.len() as int,
        )),
{
    if path_starts_with(path, config.hot_root.as_str()) || path_starts_with(
        path,
        config.cold_root.as_str(),
    ) {
        return true;
    }
    let ghost libraries = texts(config.library_paths@);
    let mut i: usize = 0;
    while i < config.library_paths.len()
        invariant
            i <= config.library_paths.len(),
            libraries == texts(config.library_paths@),
            !under_library(path@, libraries, i as int),
        decreases config.library_paths.len() - i,
    {
        if path_starts_with(path, config.library_paths[i].as_str()) {
            assert(lies_under(path@, libraries[i as int]));
            return true;
        }
        i = i + 1;
    }
    false
}

/// The HTTP status that answers a refused or failed move.
pub open spec fn fault_status(fault: JobFault) -> u16 {
    match fault {
        JobFault::ShowNotFound => 404,
        JobFault::InvalidTarget => 400,
        JobFault::AlreadyInLocation => 400,
        JobFault::MissingRoot(_) => 500,
        JobFault::PathMismatch => 400,
        JobFault::Database(_) => 500,
        JobFault::Io(_) => 500,
    }
}

/// The words that answer a refused or failed move.
pub open spec fn fault_message(fault: JobFault) -> Seq<char> {
    match fault {
        JobFault::ShowNotFound => "Show not found"@,
        JobFault::InvalidTarget => "target must be 'hot' or 'cold'"@,
        JobFault::AlreadyInLocation => "Show already in requested pool"@,
        JobFault::MissingRoot(Tier::Hot) => "Missing configuration for hot_root"@,
        JobFault::MissingRoot(Tier::Cold) => "Missing configuration for cold_root"@,
        JobFault::PathMismatch => "Show path is not within configured pools"@,
        JobFault::Database(_) => "Database error"@,
        JobFault::Io(_) => "Filesystem error"@,
    }
}

/// The HTTP status and the words that answer a refused or failed move.
pub fn job_error_response(error: &JobError) -> (r: (u16, &'static str))
    ensures
        r.0 == fault_status(error@),
        r.1@ == fault_message(error@),
{
    match error {
        JobError::ShowNotFound => (404, "Show not found"),
        JobError::InvalidTarget => (400, "target must be 'hot' or 'cold'"),
        JobError::AlreadyInLocation => (400, "Show already in requested pool"),
        JobError::MissingRoot(Tier::Hot) => (500, "Missing configuration for hot_root"),
        JobError::MissingRoot(Tier::Cold) => (500, "Missing configuration for cold_root"),
        JobError::PathMismatch => (400, "Show path is not within configured pools"),
        JobError::Database(_) => (500, "Database error"),
        JobError::Io(_) => (500, "Filesystem error"),
    }
}

/// How many jobs there are of each status, and how many bytes were moved.
#[derive(Clone, Copy, Debug, PartialEq, Eq, Structural)]
pub struct JobAnalytics {
    pub total_jobs: i64,
    pub running_count: i64,
    pub queued_count: i64,
    pub completed_count: i64,
    pub failed_count: i64,
    pub total_bytes_moved: i64,
}

/// A sum of two counts, capped at the largest and the smallest count.
pub open spec fn capped_sum(a: i64, b: i64) -> i64 {
    if a + b > i64::MAX {
        i64::MAX
    } else if a + b < i64::MIN {
        i64::MIN
    } else {
        (a + b) as i64
    }
}

/// The analytics after the count of the jobs of one status is added. A
/// status that is not known adds to the total only.
pub open spec fn counted(a: JobAnalytics, status: Option<JobStatus>, count: i64) -> JobAnalytics {
    let total = capped_sum(a.total_jobs, count);
    match status {
        Some(JobStatus::Running) => JobAnalytics { total_jobs: total, running_count: count, ..a },
        Some(JobStatus::Queued) => JobAnalytics { total_jobs: total, queued_count: count, ..a },
        Some(JobStatus::Success) => JobAnalytics { total_jobs: total, completed_count: count, ..a },
        Some(JobStatus::Failed) => JobAnalytics { total_jobs: total, failed_count: count, ..a },
        None => JobAnalytics { total_jobs: total, ..a },
    }
}

/// The analytics of the first `upto` counts.
pub open spec fn analytics_of(
    counts: Seq<(Option<JobStatus>, i64)>,
    moved: i64,
    upto: int,
) -> JobAnalytics
    decreases upto,
{
    if upto <= 0 {
        JobAnalytics {
            total_jobs: 0,
            running_count: 0,
            queued_count: 0,
            completed_count: 0,
            failed_count: 0,
            total_bytes_moved: moved,
        }
    } else {
        counted(analytics_of(counts, moved, upto - 1), counts[upto - 1].0, counts[upto - 1].1)
    }
}

/// The analytics of the jobs, given the number of jobs of each status and
/// the bytes that the done jobs moved.
pub fn get_job_analytics(counts: &Vec<(Option<JobStatus>, i64)>, moved: i64) -> (r: JobAnalytics)
    ensures
        r == analytics_of(counts@, moved, counts@.len() as int),
{
    let mut a = JobAnalytics {
        total_jobs: 0,
        running_count: 0,
        queued_count: 0,
        completed_count: 0,
        failed_count: 0,
        total_bytes_moved: moved,
    };
    let mut i: usize = 0;
    while i < counts.len()
        invariant
            i <= counts.len(),
            a == analytics_of(counts@, moved, i as int),
        decreases counts.len() - i,
    {
        let (status, count) = counts[i];
        let sum = a.total_jobs as i128 + count as i128;
        a.total_jobs = if sum > i64::MAX as i128 {
            i64::MAX
        } else if sum < i64::MIN as i128 {
            i64::MIN
        } else {
            sum as i64
        };
        match status {
            Some(JobStatus::Running) => {
                a.running_count = count;
            },
            Some(JobStatus::Queued) => {
                a.queued_count = count;
            },
            Some(JobStatus::Success) => {
                a.completed_count = count;
            },
            Some(JobStatus::Failed) => {
                a.failed_count = count;
            },
            None => {},
        }
        i = i + 1;
    }
    a
}

} // verus!
