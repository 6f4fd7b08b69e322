use jellymover::paths::{
    extension, file_name, join_path, path_starts_with, rebase, split_components,
};
use jellymover::text::{
    decimal, eq_ignore_ascii_case, is_blank_str, is_whitespace, str_eq, to_ascii_lower, trim,
};
use std::path::Path;

fn std_components(path: &str) -> Vec<String> {
    Path::new(path)
        .components()
        .map(|c| c.as_os_str().to_string_lossy().into_owned())
        .collect()
}

fn short_paths() -> Vec<String> {
    let alphabet = ['/', '.', 'a', 'b'];
    let mut all = vec![String::new()];
    let mut last = vec![String::new()];
    for _ in 0..6 {
        let mut next = Vec::new();
        for s in &last {
            for c in alphabet {
                let mut t = s.clone();
                t.push(c);
                next.push(t);
            }
        }
        all.extend(next.iter().cloned());
        last = next;
    }
    all
}

#[test]
fn whitespace_is_the_same_as_std_for_every_char() {
    for code in 0u32..=0x10FFFF {
        if let Some(c) = char::from_u32(code) {
            assert_eq!(is_whitespace(c), c.is_whitespace(), "U+{:04X}", code);
        }
    }
}

#[test]
fn ascii_lower_is_the_same_as_std_for_every_char() {
    for code in 0u32..=0x10FFFF {
        if let Some(c) = char::from_u32(code) {
            assert_eq!(to_ascii_lower(c), c.to_ascii_lowercase(), "U+{:04X}", code);
        }
    }
}

#[test]
fn trim_removes_whitespace_at_both_ends() {
    assert_eq!(trim("  /mnt/hot \n"), "/mnt/hot");
    assert_eq!(trim("\t a b \u{3000}"), "a b");
    assert_eq!(trim(""), "");
    assert_eq!(trim(" \n\t"), "");
    assert_eq!(trim("x"), "x");
    for s in ["  a", "a  ", " \u{a0}a\u{2003}b \r\n", "ab", "\u{85}", "a\u{200b}"] {
        assert_eq!(trim(s), s.trim());
    }
}

#[test]
fn blank_strings_are_those_of_whitespace_only() {
    assert!(is_blank_str(""));
    assert!(is_blank_str(" \t\n"));
    assert!(!is_blank_str(" a "));
}

#[test]
fn case_is_ignored_for_ascii_letters_only() {
    assert!(eq_ignore_ascii_case("MKV", "mkv"));
    assert!(eq_ignore_ascii_case("TvShow.NFO", "tvshow.nfo"));
    assert!(!eq_ignore_ascii_case("mkv", "mk"));
    assert!(!eq_ignore_ascii_case("\u{212a}", "k"));
    assert!(!eq_ignore_ascii_case("É", "é"));
}

#[test]
fn string_equality_compares_characters() {
    assert!(str_eq("abc", "abc"));
    assert!(!str_eq("abc", "abd"));
    assert!(!str_eq("abc", "ab"));
    assert!(str_eq("", ""));
}

#[test]
fn decimal_writes_numbers_without_leading_zeros() {
    assert_eq!(decimal(0), "0");
    assert_eq!(decimal(7), "7");
    assert_eq!(decimal(404), "404");
    assert_eq!(decimal(65535), "65535");
    assert_eq!(decimal(u64::MAX), "18446744073709551615");
}

#[test]
fn components_are_the_same_as_std_for_all_short_paths() {
    for p in short_paths() {
        assert_eq!(split_components(&p), std_components(&p), "path {:?}", p);
    }
}

#[test]
fn components_of_named_examples() {
    assert_eq!(split_components("/mnt/hot/Show A"), vec!["/", "mnt", "hot", "Show A"]);
    assert_eq!(split_components("/mnt//hot/./x/"), vec!["/", "mnt", "hot", "x"]);
    assert_eq!(split_components("./a/../b"), vec![".", "a", "..", "b"]);
    assert_eq!(split_components(""), Vec::<String>::new());
    assert_eq!(split_components("/"), vec!["/"]);
}

#[test]
fn starts_with_is_the_same_as_std_for_short_paths() {
    let paths = short_paths();
    let some: Vec<&String> = paths.iter().filter(|p| p.len() <= 4).collect();
    for a in &some {
        for b in &some {
            assert_eq!(
                path_starts_with(a, b),
                Path::new(a.as_str()).starts_with(b.as_str()),
                "{:?} under {:?}",
                a,
                b
            );
        }
    }
}

#[test]
fn starts_with_takes_whole_components() {
    assert!(path_starts_with("/mnt/hot/Show", "/mnt/hot"));
    assert!(path_starts_with("/mnt/hot", "/mnt/hot/"));
    assert!(!path_starts_with("/mnt/hotter/Show", "/mnt/hot"));
    assert!(!path_starts_with("/mnt", "/mnt/hot"));
}

#[test]
fn join_is_the_same_as_std_for_short_paths() {
    let paths = short_paths();
    let some: Vec<&String> = paths.iter().filter(|p| p.len() <= 4).collect();
    for a in &some {
        for b in &some {
            let expected = Path::new(a.as_str()).join(b.as_str());
            assert_eq!(join_path(a, b), expected.to_string_lossy(), "{:?} + {:?}", a, b);
        }
    }
}

#[test]
fn rebase_moves_a_path_below_another_root() {
    assert_eq!(
        rebase("/mnt/hot/Show A", "/mnt/hot", "/mnt/cold"),
        Some("/mnt/cold/Show A".to_string())
    );
    assert_eq!(
        rebase("/mnt/hot/tv/Show/S1", "/mnt/hot/", "/mnt/cold/"),
        Some("/mnt/cold/tv/Show/S1".to_string())
    );
    assert_eq!(rebase("/mnt/hot", "/mnt/hot", "/mnt/cold"), Some("/mnt/cold/".to_string()));
    assert_eq!(rebase("/mnt/other/Show", "/mnt/hot", "/mnt/cold"), None);
}

#[test]
fn rebase_agrees_with_std_on_paths_without_doubled_separators() {
    for (path, from, to) in [
        ("/mnt/hot/Show", "/mnt/hot", "/mnt/cold"),
        ("/mnt/hot/a/b/c.mkv", "/mnt/hot/a", "/srv/cold/x"),
        ("/a/b", "/", "/z"),
        ("rel/a/b", "rel", "other"),
    ] {
        let relative = Path::new(path).strip_prefix(from).unwrap();
        let expected = Path::new(to).join(relative);
        assert_eq!(rebase(path, from, to).unwrap(), expected.to_string_lossy());
    }
}

#[test]
fn file_name_and_extension_are_the_same_as_std_for_short_paths() {
    for p in short_paths() {
        let std_name = Path::new(&p).file_name().map(|n| n.to_string_lossy().into_owned());
        let std_ext = Path::new(&p).extension().map(|n| n.to_string_lossy().into_owned());
        assert_eq!(file_name(&p), std_name, "name of {:?}", p);
        assert_eq!(extension(&p), std_ext, "extension of {:?}", p);
    }
}

#[test]
fn extension_follows_the_last_dot() {
    assert_eq!(extension("/x/Episode.01.MKV"), Some("MKV".to_string()));
    assert_eq!(extension("/x/.hidden"), None);
    assert_eq!(extension("/x/name."), Some(String::new()));
    assert_eq!(extension("/x/noext"), None);
    assert_eq!(extension("/x/.."), None);
}
