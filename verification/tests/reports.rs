use dirsift::age_display::{
    days_age_display, days_between_display, days_part_display, days_unit_display,
    extract_day_ref_pairs, smart_dec_format, to_time_unit_pairs,
};
use dirsift::clock::current_timestamp;
use dirsift::criteria::Criteria;
use dirsift::entry::EntryInfo;
use dirsift::errors::ScanError;
use dirsift::resource_row::ResourceRow;
use dirsift::args::Args;
use dirsift::display::{
    build_action_text, extract_move_target, pluralize_64, seconds_to_day_hours_min_secs,
    size_display, smart_size, to_short_pattern,
};
use dirsift::path_info::{resolve_path_arg, PathInfo, PathProbe};
use dirsift::paths::{
    directory_ref_starts_with_separator, extract_extension, file_extension, is_full_path,
    parent_path_string,
    parse_expanded_path_args, path_components, path_string_to_file_name, path_string_to_head,
    path_to_relative_parts, path_to_relative_path, path_to_string, strings_contain_str,
    to_os_directory_string,
};
use dirsift::start::{check_run, delete_question, is_affirmative, is_yes, target_question};
use dirsift::text::{is_prefix_chars, join_texts, split_text};

fn strings(items: &[&str]) -> Vec<String> {
    items.iter().map(|s| s.to_string()).collect()
}

#[test]
fn plural_forms() {
    assert_eq!(pluralize_64("file", "s", 1), "file");
    assert_eq!(pluralize_64("file", "s", 0), "files");
    assert_eq!(pluralize_64("file", "s", 2), "files");
    assert_eq!(pluralize_64("box", "es", 2), "boxes");
    assert_eq!(pluralize_64("ax", "es", 2), "es");
    assert_eq!(pluralize_64("ox", "oxen", 2), "oxen");
    assert_eq!(pluralize_64("ox", "oxen", 1), "ox");
}

#[test]
fn durations_in_words() {
    assert_eq!(seconds_to_day_hours_min_secs(0), "0s");
    assert_eq!(seconds_to_day_hours_min_secs(45), "45s");
    assert_eq!(seconds_to_day_hours_min_secs(60), "1m");
    assert_eq!(seconds_to_day_hours_min_secs(200), "3m 20s");
    assert_eq!(seconds_to_day_hours_min_secs(600), "10m");
    assert_eq!(seconds_to_day_hours_min_secs(605), "10m");
    assert_eq!(seconds_to_day_hours_min_secs(3600), "1h");
    assert_eq!(seconds_to_day_hours_min_secs(3600 + 600), "1h 10m");
    assert_eq!(seconds_to_day_hours_min_secs(7 * 3600 + 60), "7h");
    assert_eq!(seconds_to_day_hours_min_secs(86400), "1 day");
    assert_eq!(seconds_to_day_hours_min_secs(86400 + 3600), "1 day 1h");
    assert_eq!(seconds_to_day_hours_min_secs(2 * 86400 + 3 * 3600), "2 days 3h");
    assert_eq!(seconds_to_day_hours_min_secs(3 * 86400), "3 days");
    assert_eq!(seconds_to_day_hours_min_secs(10 * 86400 + 5), "10 days");
}

#[test]
fn durations_are_rounded_to_the_nearest() {
    assert_eq!(seconds_to_day_hours_min_secs(100), "2m 40s");
    assert_eq!(seconds_to_day_hours_min_secs(89), "1m 29s");
    assert_eq!(seconds_to_day_hours_min_secs(5400), "2h 30m");
    assert_eq!(seconds_to_day_hours_min_secs(9000), "2h 30m");
    assert_eq!(seconds_to_day_hours_min_secs(86400 + 43200), "2 day 12h");
    assert_eq!(seconds_to_day_hours_min_secs(u64::MAX), "213503982334601 days");
}

#[test]
fn short_patterns() {
    assert_eq!(to_short_pattern("*.txt"), "*.txt");
    let long = "/some/dir/(first_file.txt|second_file.txt|third_file.txt)";
    assert_eq!(to_short_pattern(long), "/some/dir/(first_file.txt|second_file.txt|...)");
    let no_bracket = "first_file_name.txt|second_file_name.txt|third";
    assert_eq!(to_short_pattern(no_bracket), no_bracket);
    let short = "(a|b|c)";
    assert_eq!(to_short_pattern(short), short);
}

#[test]
fn action_texts() {
    assert_eq!(build_action_text(false, true, &Some("/t".to_string())), "move to /t");
    assert_eq!(build_action_text(true, true, &None), "move to");
    assert_eq!(build_action_text(true, false, &None), "delete");
    assert_eq!(build_action_text(false, false, &Some("/t".to_string())), "list");
    assert_eq!(extract_move_target(Some("/t".to_string())), ("/t".to_string(), true));
    assert_eq!(extract_move_target(Some(String::new())), (String::new(), false));
    assert_eq!(extract_move_target(None), (String::new(), false));
}

#[test]
fn sizes_in_words() {
    assert_eq!(smart_size(1_340_249), "1.28 MiB");
    assert_eq!(smart_size(200), "200 bytes");
    assert_eq!(smart_size(1), "1 byte");
    assert_eq!(smart_size(2048), "2.00 KiB");
    assert_eq!(size_display(2048, "min."), "min. 2.00 KiB");
    assert_eq!(size_display(0, "min."), "");
}

fn modified_at(ts: u64) -> String {
    let entry = EntryInfo {
        path: "/x".to_string(),
        file_name: "x".to_string(),
        depth: 1,
        is_dir: false,
        size: 0,
        modified: ts,
        num_subs: 0,
    };
    ResourceRow::new(&entry).modified_display()
}

#[test]
fn clock_and_calendar() {
    assert!(current_timestamp() > 1_600_000_000);
    assert_eq!(modified_at(0), "1970-01-01 00:00:00");
    assert_eq!(modified_at(86400 + 3661), "1970-01-02 01:01:01");
    assert_eq!(modified_at(1_700_000_000), "2023-11-14 22:13:20");
    assert_eq!(modified_at(i64::MAX as u64), "");
    assert_eq!(modified_at(u64::MAX), "");
}

fn no_args() -> Args {
    Args {
        before: String::new(),
        after: String::new(),
        path: None,
        ext: String::new(),
        not_ext: String::new(),
        exclude_dirs: String::new(),
        pattern: String::new(),
        omit_pattern: String::new(),
        starts_with: String::new(),
        ends_with: String::new(),
        size: String::new(),
        max_depth: 255,
        hidden: false,
        list: false,
        groups: false,
        void: false,
        regex_mode: false,
        move_to: None,
        copy: None,
        delete: false,
        force: false,
    }
}

#[test]
fn a_run_needs_a_place_and_valid_patterns() {
    let there = PathInfo::new("/data", &probe(true, true, "/data"), &probe(true, true, "/"));
    let gone = PathInfo::new("/no/gone", &probe(false, false, ""), &probe(false, false, ""));
    let mut a = no_args();
    assert_eq!(check_run(&there, &Criteria::new(&a, None).unwrap()), Ok(()));
    assert_eq!(check_run(&gone, &Criteria::new(&a, None).unwrap()), Err(ScanError::PathNotFound));
    assert_eq!(check_run(&PathInfo::new_empty(), &Criteria::new(&a, None).unwrap()), Err(ScanError::PathNotFound));
    a.regex_mode = true;
    a.pattern = "[a-".to_string();
    assert_eq!(check_run(&there, &Criteria::new(&a, None).unwrap()), Err(ScanError::InvalidPattern));
    assert_eq!(check_run(&gone, &Criteria::new(&a, None).unwrap()), Err(ScanError::PathNotFound));
    a.pattern = "[a-z]+".to_string();
    a.omit_pattern = "(".to_string();
    assert_eq!(check_run(&there, &Criteria::new(&a, None).unwrap()), Err(ScanError::InvalidPattern));
    a.omit_pattern = "\\d+".to_string();
    assert_eq!(check_run(&there, &Criteria::new(&a, None).unwrap()), Ok(()));
    a.regex_mode = false;
    a.pattern = "*.txt".to_string();
    a.omit_pattern = String::new();
    assert_eq!(check_run(&there, &Criteria::new(&a, None).unwrap()), Ok(()));
}

#[test]
fn full_paths() {
    assert!(is_full_path("/usr"));
    assert!(is_full_path("~/x"));
    assert!(is_full_path("/"));
    assert!(!is_full_path("~"));
    assert!(!is_full_path("usr/x"));
    assert!(!is_full_path(""));
    assert!(directory_ref_starts_with_separator("/build"));
    assert!(!directory_ref_starts_with_separator("build/"));
    assert!(!directory_ref_starts_with_separator(""));
}

#[test]
fn head_and_file_name() {
    assert_eq!(path_string_to_file_name("/a/b/c.txt"), "c.txt");
    assert_eq!(path_string_to_file_name("c.txt"), "c.txt");
    assert_eq!(path_string_to_file_name("/a/b/"), "");
    assert_eq!(path_string_to_file_name(""), "");
    assert_eq!(path_string_to_head("/a/b/c.txt"), "/a/b/");
    assert_eq!(path_string_to_head("c.txt"), "");
    assert_eq!(path_string_to_head("/c.txt"), "/");
    assert_eq!(path_string_to_head("/a/b/"), "/a/b/");
    assert_eq!(path_string_to_head(""), "");
}

#[test]
fn path_components_and_text() {
    assert_eq!(path_components("/a/b"), strings(&["/", "a", "b"]));
    assert_eq!(path_components("a//b/"), strings(&["a", "b"]));
    assert_eq!(path_components("/"), strings(&["/"]));
    assert_eq!(path_components(""), Vec::<String>::new());
    assert_eq!(path_to_string("/a/b"), "//a/b");
    assert_eq!(path_to_string("a/b/"), "a/b");
    assert_eq!(path_to_string(""), "");
    assert_eq!(parent_path_string("/a/b/c.txt"), "//a/b");
    assert_eq!(parent_path_string("a"), "");
    assert_eq!(parent_path_string(""), "");
    assert_eq!(to_os_directory_string(&strings(&["a", "b"])), "/a/b");
    assert_eq!(to_os_directory_string(&Vec::new()), "/");
    assert!(strings_contain_str(&strings(&["a", "b"]), "b"));
    assert!(!strings_contain_str(&strings(&["a", "b"]), "c"));
    assert!(!strings_contain_str(&Vec::new(), ""));
}

#[test]
fn relative_paths() {
    assert_eq!(path_to_relative_parts("/r/x/sub/f.txt", Some("/r/x")), strings(&["sub", "f.txt"]));
    assert_eq!(path_to_relative_parts("/r/x", Some("/r/x")), Vec::<String>::new());
    assert_eq!(path_to_relative_parts("/r/x/f", None), Vec::<String>::new());
    assert_eq!(path_to_relative_parts("/q/x/f", Some("/r/x")), strings(&["q", "f"]));
    assert_eq!(path_to_relative_path("/r/x/sub/f.txt", Some("/r/x")), "sub/f.txt");
    assert_eq!(path_to_relative_path("/r/x", Some("/r/x")), "/r/x");
    assert_eq!(path_to_relative_path("/r/x/f", None), "/r/x/f");
}

#[test]
fn extensions_of_file_names() {
    assert_eq!(extract_extension("Photo.JPG"), "jpg");
    assert_eq!(extract_extension("a.tar.gz"), "gz");
    assert_eq!(extract_extension(".bashrc"), "");
    assert_eq!(extract_extension(".config.yml"), "yml");
    assert_eq!(extract_extension("Makefile"), "");
    assert_eq!(extract_extension("a."), "");
    assert_eq!(extract_extension(""), "");
    assert_eq!(extract_extension("FOTO.\u{c4}\u{d6}"), "\u{e4}\u{f6}");
    assert_eq!(extract_extension("x.\u{3a3}\u{391}"), "\u{3c3}\u{3b1}");
    assert_eq!(file_extension("Photo.JPG"), "JPG");
    assert_eq!(file_extension("FOTO.\u{c4}\u{d6}"), "\u{c4}\u{d6}");
    assert_eq!(file_extension(".bashrc"), "");
    assert_eq!(file_extension("a.tar.gz"), "gz");
}

#[test]
fn several_paths_become_one_pattern() {
    let paths = strings(&["/d/a.txt", "/d/b.txt", "/d/c.log"]);
    assert_eq!(parse_expanded_path_args(&paths), "/d/(a.txt|b.txt|c.log)");
    assert_eq!(resolve_path_arg(&Some(paths), "/cwd"), "/d/(a.txt|b.txt|c.log)");
    assert_eq!(resolve_path_arg(&None, "/cwd"), "/cwd/.");
    assert_eq!(resolve_path_arg(&Some(Vec::new()), "/cwd"), "/cwd");
    assert_eq!(resolve_path_arg(&Some(strings(&["sub/*.txt"])), "/cwd"), "/cwd/sub/*.txt");
    assert_eq!(resolve_path_arg(&Some(strings(&["/abs"])), "/cwd"), "/abs");
    assert_eq!(resolve_path_arg(&Some(strings(&["~/x"])), "/cwd"), "~/x");
}

fn probe(exists: bool, is_dir: bool, canonical: &str) -> PathProbe {
    PathProbe { exists, is_dir, canonical: canonical.to_string() }
}

#[test]
fn path_info_of_a_directory() {
    let info = PathInfo::new("/data/./x", &probe(true, true, "/data/x"), &probe(true, true, "/data"));
    assert_eq!(info.path, "/data/./x");
    assert_eq!(info.canonical, "/data/x");
    assert!(info.exists);
    assert_eq!(info.input, "/data/./x");
    assert_eq!(info.pattern, None);
}

#[test]
fn path_info_of_a_file_pattern() {
    let info = PathInfo::new("/data/*.txt", &probe(false, false, ""), &probe(true, true, "/data"));
    assert_eq!(info.path, "/data/");
    assert_eq!(info.canonical, "/data");
    assert!(info.exists);
    assert_eq!(info.pattern, Some("*.txt".to_string()));
    let info = PathInfo::new("/gone/*.txt", &probe(false, false, ""), &probe(false, false, ""));
    assert!(!info.exists);
    assert_eq!(info.canonical, "");
    assert_eq!(info.pattern, Some("*.txt".to_string()));
    let info = PathInfo::new("", &probe(false, false, ""), &probe(true, true, "/"));
    assert!(!info.exists);
    assert_eq!(info.pattern, None);
    let copy = info.clone();
    assert_eq!(copy.path, info.path);
    assert_eq!(copy.canonical, info.canonical);
    assert_eq!(copy.exists, info.exists);
    assert_eq!(copy.input, info.input);
    assert_eq!(copy.pattern, info.pattern);
    let seen = probe(true, false, "/x").clone();
    assert!(seen.exists && !seen.is_dir);
    assert_eq!(seen.canonical, "/x");
    let empty = PathInfo::new_empty();
    assert!(!empty.exists);
    assert_eq!(empty.path, "");
    assert_eq!(empty.pattern, None);
}

#[test]
fn answers() {
    assert!(is_affirmative("y"));
    assert!(is_affirmative("Y\n"));
    assert!(is_affirmative("  yes  "));
    assert!(is_affirmative("YES\r\n"));
    assert!(!is_affirmative("n"));
    assert!(!is_affirmative(""));
    assert!(!is_affirmative("yes please"));
    assert!(!is_affirmative("ye"));
    assert!(is_yes("y") && is_yes("yes"));
    assert!(!is_yes("Y") && !is_yes("YES") && !is_yes(" y") && !is_yes(""));
}

#[test]
fn questions() {
    assert_eq!(delete_question(1), "Are you sure you want to delete the 1 above file?");
    assert_eq!(delete_question(12), "Are you sure you want to delete the 12 above files?");
    assert_eq!(target_question("/t"), "The directory /t does not exist. Do you want to create it");
}

#[test]
fn split_and_join() {
    assert_eq!(split_text("a,b,,c", ','), strings(&["a", "b", "", "c"]));
    assert_eq!(split_text("", ','), strings(&[""]));
    assert_eq!(split_text(",", ','), strings(&["", ""]));
    assert_eq!(join_texts(&strings(&["a", "b", "c"]), "/"), "a/b/c");
    assert_eq!(join_texts(&strings(&["a"]), ", "), "a");
    assert_eq!(join_texts(&Vec::new(), "/"), "");
    assert!(is_prefix_chars("/bu", "/build/x"));
    assert!(is_prefix_chars("", "x"));
    assert!(!is_prefix_chars("/build/x/y", "/build/x"));
}

#[test]
fn ages_named_with_a_unit() {
    assert_eq!(extract_day_ref_pairs(86400), (1000, "day".to_string()));
    assert_eq!(extract_day_ref_pairs(2 * 86400 + 43200), (2500, "day".to_string()));
    assert_eq!(extract_day_ref_pairs(43200), (500, "day".to_string()));
    assert_eq!(extract_day_ref_pairs(43199), (12000, "hour".to_string()));
    assert_eq!(extract_day_ref_pairs(5400), (1500, "hour".to_string()));
    assert_eq!(extract_day_ref_pairs(3599), (59983, "min".to_string()));
    assert_eq!(extract_day_ref_pairs(90), (1500, "min".to_string()));
    assert_eq!(extract_day_ref_pairs(59), (59000, "sec".to_string()));
    assert_eq!(extract_day_ref_pairs(0), (0, "sec".to_string()));
    assert_eq!(extract_day_ref_pairs(63115200), (730500, "day".to_string()));
    assert_eq!(extract_day_ref_pairs(63115201), (2017, "year".to_string()));
    assert_eq!(extract_day_ref_pairs(10 * 31298400), (10000, "year".to_string()));
    assert_eq!(extract_day_ref_pairs(u64::MAX), (589382974008561, "year".to_string()));
}

#[test]
fn short_decimals() {
    assert_eq!(smart_dec_format(2000), "2");
    assert_eq!(smart_dec_format(2500), "2.5");
    assert_eq!(smart_dec_format(2050), "2.5");
    assert_eq!(smart_dec_format(2005), "2.5");
    assert_eq!(smart_dec_format(2123), "2.3");
    assert_eq!(smart_dec_format(2120), "2.2");
    assert_eq!(smart_dec_format(0), "0");
    assert_eq!(smart_dec_format(999), "0.9");
    assert_eq!(smart_dec_format(12345678), "12345.8");
    assert_eq!(
        to_time_unit_pairs(86400),
        ("1".to_string(), "day".to_string(), String::new())
    );
    assert_eq!(
        to_time_unit_pairs(36 * 3600),
        ("1.5".to_string(), "day".to_string(), "s".to_string())
    );
}

#[test]
fn age_ranges_in_words() {
    assert_eq!(days_age_display(0, 0), "All ages");
    assert_eq!(days_age_display(7 * 86400, 0), "older than 7 days old");
    assert_eq!(days_age_display(7 * 86400, 86400), "older than 7 days old");
    assert_eq!(days_age_display(0, 2 * 3600), "newer than 2h old");
    assert_eq!(days_age_display(2 * 86400, 14 * 86400), "between 2 and 14 days old");
    assert_eq!(days_age_display(2 * 3600, 14 * 86400), "between 2h and 14 days old");
    assert_eq!(days_age_display(3600, 7200), "between 1 and 2h old");
    assert_eq!(days_between_display(36 * 3600, 5 * 86400), "between 1.5 and 5 days old");
    assert_eq!(days_part_display(60, true), "newer than 1m old");
    assert_eq!(days_part_display(60, false), "older than 1m old");
    assert_eq!(days_unit_display(45), "45s old");
}

#[test]
fn summary_of_the_criteria() {
    let mut a = no_args();
    assert_eq!(
        Criteria::new(&a, None).unwrap().summary(),
        vec![
            "CRITERIA".to_string(),
            "All ages".to_string(),
            "size range   [all]".to_string(),
            "extensions   [all]".to_string(),
            "action list        ".to_string(),
        ]
    );
    a.before = "2d-2w".to_string();
    a.size = "10k,5m".to_string();
    a.ext = "jpg,png".to_string();
    a.pattern = "img_*".to_string();
    a.omit_pattern = "tmp".to_string();
    a.move_to = Some("/pictures/sorted".to_string());
    assert_eq!(
        Criteria::new(&a, None).unwrap().summary(),
        vec![
            "CRITERIA".to_string(),
            "between 2 and 14 days old".to_string(),
            "size range   min. 10.0 KiB max. 5.00 MiB".to_string(),
            "extensions   jpg, png".to_string(),
            "file names   matching img_* and not matching tmp".to_string(),
            "action move to /pictures/sorted".to_string(),
        ]
    );
    let mut a = no_args();
    a.size = "1k".to_string();
    a.omit_pattern = "tmp".to_string();
    a.delete = true;
    assert_eq!(
        Criteria::new(&a, None).unwrap().summary(),
        vec![
            "CRITERIA".to_string(),
            "All ages".to_string(),
            "size range   min. 1.00 KiB ".to_string(),
            "extensions   [all]".to_string(),
            "file names   not matching tmp".to_string(),
            "action delete      ".to_string(),
        ]
    );
}
