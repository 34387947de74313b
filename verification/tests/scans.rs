use dirsift::args::Args;
use dirsift::criteria::{Criteria, Permission};
use dirsift::entry::{is_not_excluded_dir, is_not_in_hidden_dir, to_relative_path, EntryInfo};
use dirsift::errors::ScanError;
use dirsift::extension_stats::ExtensionStats;
use dirsift::manage::{plan_action, plan_transfer, settle, Planned};
use dirsift::resource_row::{DetailLevel, ResourceRow};
use dirsift::resource_set::ResourceSet;
use dirsift::resource_tree::ResourceTree;
use dirsift::run::Step;
use dirsift::start::{follow_up, FollowUp};

const NOW: i64 = 1_700_000_000;
const DAY: u64 = 86400;

fn no_args() -> Args {
    Args {
        before: String::new(),
        after: String::new(),
        path: None,
        ext: String::new(),
        not_ext: String::new(),
        exclude_dirs: String::new(),
        pattern: String::new(),
        omit_pattern: String::new(),
        starts_with: String::new(),
        ends_with: String::new(),
        size: String::new(),
        max_depth: 255,
        hidden: false,
        list: false,
        groups: false,
        void: false,
        regex_mode: false,
        move_to: None,
        copy: None,
        delete: false,
        force: false,
    }
}

fn name_of(path: &str) -> String {
    match path.rfind('/') {
        Some(at) => path[at + 1..].to_string(),
        None => path.to_string(),
    }
}

fn dir(path: &str, depth: usize) -> EntryInfo {
    EntryInfo {
        path: path.to_string(),
        file_name: name_of(path),
        depth,
        is_dir: true,
        size: 4096,
        modified: NOW as u64,
        num_subs: 0,
    }
}

fn file(path: &str, depth: usize, size: u64, age: u64) -> EntryInfo {
    EntryInfo {
        path: path.to_string(),
        file_name: name_of(path),
        depth,
        is_dir: false,
        size,
        modified: NOW as u64 - age,
        num_subs: 0,
    }
}

fn names(tree: &ResourceTree) -> Vec<String> {
    let mut out = Vec::new();
    for si in 0..tree.num_dirs() {
        for ri in 0..tree.directory(si).count() {
            out.push(tree.row(si, ri).file_name());
        }
    }
    out
}

fn stats(tree: &ResourceTree) -> Vec<(String, u32, u64)> {
    tree.build_extension_map().into_iter().map(|s: ExtensionStats| (s.key, s.count, s.size)).collect()
}

fn two_files() -> Vec<EntryInfo> {
    vec![
        dir("/data", 0),
        file("/data/a.txt", 1, 100, 10 * DAY),
        file("/data/b.log", 1, 2048, 2 * 3600),
    ]
}

fn nested() -> Vec<EntryInfo> {
    vec![
        dir("/data", 0),
        file("/data/a.txt", 1, 100, 10 * DAY),
        file("/data/b.log", 1, 2048, 2 * 3600),
        dir("/data/sub", 1),
        file("/data/sub/c.txt", 2, 300, 3 * DAY),
        file("/data/sub/d", 2, 2048, 30 * DAY),
        dir("/data/sub/deep", 2),
        file("/data/sub/deep/e.TXT", 3, 50, DAY),
        dir("/data/.git", 1),
        file("/data/.git/config", 2, 10, DAY),
        dir("/data/skip", 1),
        file("/data/skip/f.txt", 2, 10, DAY),
        file("/data/.hidden.txt", 1, 10, DAY),
    ]
}

#[test]
fn scan_by_extension_and_least_age() {
    let mut a = no_args();
    a.ext = "txt".to_string();
    a.before = "1d".to_string();
    let criteria = Criteria::new(&a, None).unwrap();
    let tree = ResourceTree::list(&two_files(), &criteria, NOW).unwrap();
    assert_eq!(names(&tree), vec!["a.txt".to_string()]);
    assert_eq!(tree.num_files(), 1);
    assert_eq!(tree.size(), 100);
    assert_eq!(stats(&tree), vec![("txt".to_string(), 1, 100)]);
}

#[test]
fn listing_twice_gives_the_same_report() {
    let criteria = Criteria::new(&no_args(), None).unwrap();
    let first = ResourceTree::list(&nested(), &criteria, NOW).unwrap();
    let second = ResourceTree::list(&nested(), &criteria, NOW).unwrap();
    assert_eq!(first.num_files(), second.num_files());
    assert_eq!(first.size(), second.size());
    assert_eq!(stats(&first), stats(&second));
    assert_eq!(names(&first), names(&second));
    assert_eq!(first.num_files(), 6);
    assert_eq!(first.size(), 100 + 2048 + 300 + 2048 + 50 + 10);
}

#[test]
fn declined_delete_removes_nothing() {
    let mut a = no_args();
    a.delete = true;
    let mut criteria = Criteria::new(&a, None).unwrap();
    let entries = vec![
        dir("/data", 0),
        file("/data/a.txt", 1, 1, DAY),
        file("/data/b.txt", 1, 2, DAY),
        file("/data/c.txt", 1, 3, DAY),
    ];
    assert_eq!(criteria.apply_action_permissions(false, false), Ok(None));
    let mut tree = ResourceTree::new(criteria.max_depth);
    let mut asked = 0;
    for e in &entries {
        if e.is_dir {
            tree.visit_dir(e, &criteria);
        } else {
            let mut row = ResourceRow::new(e);
            if row.matches_criteria_at(&criteria, tree.root_ref(), NOW).unwrap() {
                let plan = plan_action(&row, &criteria, &None, tree.root_ref());
                if !matches!(plan, Planned::Keep) {
                    asked += 1;
                }
                assert_eq!(settle(&mut row, &plan, true), Ok(()));
                tree.record(&row, &criteria);
            }
        }
    }
    assert_eq!(asked, 0);
    assert_eq!(tree.num_files(), 3);
    for ri in 0..3 {
        assert!(!tree.row(0, ri).deleted);
        assert_eq!(tree.row(0, ri).move_target, None);
    }
    assert_eq!(follow_up(&criteria, tree.num_files(), false), FollowUp::ConfirmDelete);
    assert_eq!(criteria.apply_action_permissions(false, false), Ok(None));
    assert_eq!(criteria.may, Permission::Nothing);
}

#[test]
fn move_to_a_missing_target_moves_nothing() {
    let mut a = no_args();
    a.move_to = Some("/nowhere".to_string());
    let mut criteria = Criteria::new(&a, None).unwrap();
    let granted = criteria.apply_action_permissions(false, false);
    assert_eq!(granted, Err(ScanError::UnresolvedTarget));
    assert_eq!(criteria.may, Permission::Nothing);
    let target: Option<String> = None;
    let mut tree = ResourceTree::new(criteria.max_depth);
    for e in &two_files() {
        if e.is_dir {
            tree.visit_dir(e, &criteria);
        } else {
            let mut row = ResourceRow::new(e);
            if row.matches_criteria_at(&criteria, tree.root_ref(), NOW).unwrap() {
                let plan = plan_action(&row, &criteria, &target, tree.root_ref());
                assert!(matches!(plan, Planned::Keep));
                assert_eq!(settle(&mut row, &plan, false), Ok(()));
                tree.record(&row, &criteria);
            }
        }
    }
    assert_eq!(tree.num_files(), 2);
    assert_eq!(tree.row(0, 0).move_target, None);
    assert_eq!(tree.row(0, 1).move_target, None);
    assert_eq!(follow_up(&criteria, 2, false), FollowUp::OfferTarget);
    assert_eq!(follow_up(&criteria, 2, true), FollowUp::Done);
}

#[test]
fn granted_move_plans_the_new_paths() {
    let mut a = no_args();
    a.move_to = Some("/t".to_string());
    let mut criteria = Criteria::new(&a, None).unwrap();
    let target = criteria.apply_action_permissions(true, false).unwrap();
    assert_eq!(target, Some("/t".to_string()));
    let root = Some(dir("/data", 0));
    let mut top = ResourceRow::new(&file("/data/a.txt", 1, 100, DAY));
    let plan = plan_action(&top, &criteria, &target, &root);
    match &plan {
        Planned::Move(t) => {
            assert_eq!(t.new_path, "/t/a.txt");
            assert_eq!(t.new_parent_dir, "/t");
        }
        _ => panic!("a move was granted"),
    }
    assert_eq!(settle(&mut top, &plan, true), Ok(()));
    assert_eq!(top.move_target, Some("/t/a.txt".to_string()));
    assert!(!top.deleted);
    let mut deep = ResourceRow::new(&file("/data/sub/deep/e.txt", 3, 50, DAY));
    let plan = plan_action(&deep, &criteria, &target, &root);
    match &plan {
        Planned::Move(t) => {
            assert_eq!(t.new_path, "/t/sub/deep/e.txt");
            assert_eq!(t.new_parent_dir, "/t/sub/deep");
        }
        _ => panic!("a move was granted"),
    }
    assert_eq!(settle(&mut deep, &plan, false), Err(ScanError::PrimitiveFailure));
    assert_eq!(deep.move_target, None);
    let t = plan_transfer(&deep, "/other", &root);
    assert_eq!(t.new_path, "/other/sub/deep/e.txt");
}

#[test]
fn granted_copy_and_delete() {
    let mut a = no_args();
    a.copy = Some("/c".to_string());
    let mut criteria = Criteria::new(&a, None).unwrap();
    let target = criteria.apply_action_permissions(true, false).unwrap();
    let root = Some(dir("/data", 0));
    let mut row = ResourceRow::new(&file("/data/sub/x.txt", 2, 1, DAY));
    let plan = plan_action(&row, &criteria, &target, &root);
    assert!(matches!(plan, Planned::Copy(_)));
    assert_eq!(settle(&mut row, &plan, true), Ok(()));
    assert_eq!(row.move_target, Some("/c/sub/x.txt".to_string()));

    let mut a = no_args();
    a.delete = true;
    a.force = true;
    let mut criteria = Criteria::new(&a, None).unwrap();
    assert_eq!(criteria.apply_action_permissions(false, false), Ok(None));
    let mut row = ResourceRow::new(&file("/data/x.txt", 1, 1, DAY));
    let plan = plan_action(&row, &criteria, &None, &root);
    assert!(matches!(plan, Planned::Delete));
    assert_eq!(settle(&mut row, &plan, false), Err(ScanError::PrimitiveFailure));
    assert!(!row.deleted);
    assert_eq!(settle(&mut row, &plan, true), Ok(()));
    assert!(row.deleted);
}

#[test]
fn confirmed_delete_after_the_scan() {
    let mut a = no_args();
    a.delete = true;
    let mut criteria = Criteria::new(&a, None).unwrap();
    let mut tree = ResourceTree::list(&two_files(), &criteria, NOW).unwrap();
    assert_eq!(follow_up(&criteria, tree.num_files(), false), FollowUp::ConfirmDelete);
    assert_eq!(criteria.apply_action_permissions(false, true), Ok(None));
    let plan = plan_action(tree.row(0, 0), &criteria, &None, tree.root_ref());
    assert_eq!(tree.settle_row(0, 0, &plan, true), Ok(()));
    let plan = plan_action(tree.row(0, 1), &criteria, &None, tree.root_ref());
    assert_eq!(tree.settle_row(0, 1, &plan, false), Err(ScanError::PrimitiveFailure));
    assert!(tree.row(0, 0).deleted);
    assert!(!tree.row(0, 1).deleted);
    assert_eq!(tree.num_files(), 2);
    let mut none = no_args();
    none.delete = true;
    none.ext = "zip".to_string();
    let criteria = Criteria::new(&none, None).unwrap();
    let tree = ResourceTree::list(&two_files(), &criteria, NOW).unwrap();
    assert_eq!(follow_up(&criteria, tree.num_files(), false), FollowUp::NothingToDelete);
}

#[test]
fn files_go_to_the_set_of_their_directory() {
    let criteria = Criteria::new(&no_args(), None).unwrap();
    let tree = ResourceTree::list(&nested(), &criteria, NOW).unwrap();
    assert_eq!(tree.num_dirs(), 5);
    assert_eq!(tree.directory(0).full_path_string(), "//data");
    assert_eq!(tree.directory(0).count(), 2);
    assert_eq!(tree.directory(1).count(), 2);
    assert_eq!(tree.directory(2).count(), 1);
    assert_eq!(tree.directory(3).count(), 0);
    assert_eq!(tree.directory(4).count(), 1);
    assert_eq!(
        names(&tree),
        vec!["a.txt", "b.log", "c.txt", "d", "e.TXT", "f.txt"].iter().map(|s| s.to_string()).collect::<Vec<_>>()
    );
    assert_eq!(tree.num_sub_dirs(), 3);
    assert_eq!(tree.num_sub_dirs_display(), "3 subdirs");
    assert_eq!(tree.path_display(), "/data");
    assert_eq!(tree.max_depth_scanned(), 3);
    assert_eq!(tree.depth_limit(), 255);
}

#[test]
fn hidden_files_are_shown_on_demand() {
    let mut a = no_args();
    a.hidden = true;
    let criteria = Criteria::new(&a, None).unwrap();
    let tree = ResourceTree::list(&nested(), &criteria, NOW).unwrap();
    assert_eq!(tree.num_files(), 8);
    assert_eq!(tree.directory(3).count(), 1);
}

#[test]
fn excluded_directories_get_no_set() {
    let mut a = no_args();
    a.exclude_dirs = "skip, /sub/deep".to_string();
    let criteria = Criteria::new(&a, None).unwrap();
    let tree = ResourceTree::list(&nested(), &criteria, NOW).unwrap();
    assert_eq!(tree.num_dirs(), 3);
    assert_eq!(
        names(&tree),
        vec!["a.txt", "b.log", "c.txt", "d"].iter().map(|s| s.to_string()).collect::<Vec<_>>()
    );
    let root = Some(dir("/data", 0));
    let tokens = vec!["skip".to_string(), "/sub/deep".to_string()];
    assert!(!is_not_excluded_dir(&dir("/data/skip", 1), &tokens, &root));
    assert!(!is_not_excluded_dir(&dir("/data/sub/deep", 2), &tokens, &root));
    assert!(!is_not_excluded_dir(&file("/data/x/skip/y/f", 4, 1, 1), &tokens, &root));
    assert!(is_not_excluded_dir(&dir("/data/sub", 1), &tokens, &root));
    assert!(is_not_excluded_dir(&dir("/data/deep/sub", 2), &tokens, &root));
    assert!(is_not_excluded_dir(&dir("/data/skip", 1), &Vec::new(), &root));
    assert!(is_not_in_hidden_dir(&dir("/data/sub", 1), &root));
    assert!(!is_not_in_hidden_dir(&dir("/data/.git/x", 2), &root));
    assert_eq!(to_relative_path(&dir("/data/sub/deep", 2), &root), "sub/deep");
}

#[test]
fn histogram_by_extension() {
    let criteria = Criteria::new(&no_args(), None).unwrap();
    let tree = ResourceTree::list(&nested(), &criteria, NOW).unwrap();
    assert_eq!(
        stats(&tree),
        vec![
            ("log".to_string(), 1, 2048),
            ("".to_string(), 1, 2048),
            ("txt".to_string(), 4, 460),
        ]
    );
    let empty = ResourceTree::new(3);
    assert!(stats(&empty).is_empty());
}

#[test]
fn smallest_and_largest_keep_the_first() {
    let criteria = Criteria::new(&no_args(), None).unwrap();
    let tree = ResourceTree::list(&nested(), &criteria, NOW).unwrap();
    let (min, max) = tree.get_min_max_files();
    assert_eq!(min.unwrap().file_name(), "f.txt");
    assert_eq!(max.unwrap().file_name(), "b.log");
    let (newest, oldest) = tree.get_oldest_newest_files_at(NOW);
    assert_eq!(newest.unwrap().file_name(), "b.log");
    assert_eq!(oldest.unwrap().file_name(), "d");
    let entries = vec![
        dir("/r", 0),
        file("/r/a", 1, 5, 7),
        file("/r/b", 1, 5, 7),
        file("/r/c", 1, 5, 7),
    ];
    let tree = ResourceTree::list(&entries, &criteria, NOW).unwrap();
    let (min, max) = tree.get_min_max_files();
    assert_eq!(min.unwrap().file_name(), "a");
    assert_eq!(max.unwrap().file_name(), "a");
    let (newest, oldest) = tree.get_oldest_newest_files_at(NOW);
    assert_eq!(newest.unwrap().file_name(), "a");
    assert_eq!(oldest.unwrap().file_name(), "a");
    let empty = ResourceTree::new(3);
    let (min, max) = empty.get_min_max_files();
    assert!(min.is_none() && max.is_none());
    let (newest, oldest) = empty.get_oldest_newest_files();
    assert!(newest.is_none() && oldest.is_none());
}

#[test]
fn row_tests_one_by_one() {
    let root = Some(dir("/data", 0));
    let row = ResourceRow::new(&file("/data/sub/Report.CSV", 2, 1500, 3 * DAY));
    assert_eq!(row.extension, "csv");
    assert_eq!(row.ts, NOW as u64 - 3 * DAY);
    assert_eq!(row.file_name(), "Report.CSV");
    assert_eq!(row.size(), 1500);
    assert_eq!(row.depth(), 2);
    assert_eq!(row.path_ref(), "/data/sub/Report.CSV");
    assert_eq!(row.seconds_old_at(NOW), 3 * DAY);
    assert_eq!(row.seconds_old_at(0), 0);
    assert_eq!(row.seconds_old_at(-5), 0);
    assert!(row.seconds_old() >= 3 * DAY);
    assert_eq!(row.age_display_at(NOW), "3 days");
    assert_eq!(row.relative_path(&root), "sub/Report.CSV");
    assert_eq!(row.file_display(&root), "sub/Report.CSV");
    assert_eq!(row.relative_parent_path(&root), "sub");
    assert_eq!(row.relative_parts(&root), vec!["sub".to_string(), "Report.CSV".to_string()]);
    assert_eq!(row.directory_path_string(), "//data/sub");
    assert_eq!(row.smart_size(), "1.46 KiB");
    assert_eq!(row.modified_display(), "2023-11-11 22:13:20");
    assert!(row.is_in_size_range(&(0, 0)));
    assert!(row.is_in_size_range(&(1500, 1500)));
    assert!(row.is_in_size_range(&(1000, 0)));
    assert!(!row.is_in_size_range(&(1501, 0)));
    assert!(!row.is_in_size_range(&(0, 1499)));
    assert!(row.has_valid_extension(&vec!["csv".to_string()], &Vec::new()));
    assert!(!row.has_valid_extension(&vec!["csv".to_string()], &vec!["csv".to_string()]));
    assert!(row.show_if_hidden(false, &root));
    let hidden = ResourceRow::new(&file("/data/.cache/x.txt", 2, 1, 1));
    assert!(!hidden.show_if_hidden(false, &root));
    assert!(hidden.show_if_hidden(true, &root));
    let huge = ResourceRow::new(&EntryInfo { modified: u64::MAX, ..file("/data/x", 1, 1, 0) });
    assert_eq!(huge.modified_display(), "");
    assert_eq!(huge.seconds_old_at(NOW), 0);
}

#[test]
fn size_zero_bounds_pass_every_size() {
    for size in [0u64, 1, 1023, 1 << 40, u64::MAX] {
        let row = ResourceRow::new(&file("/data/x", 1, size, 0));
        assert!(row.is_in_size_range(&(0, 0)));
    }
}

#[test]
fn age_ranges() {
    let row = ResourceRow::new(&file("/data/x", 1, 1, 5 * DAY));
    let mut a = no_args();
    assert!(row.is_in_day_range_at(&Criteria::new(&a, None).unwrap(), NOW));
    a.before = "5d".to_string();
    assert!(row.is_in_day_range_at(&Criteria::new(&a, None).unwrap(), NOW));
    a.before = "6d".to_string();
    assert!(!row.is_in_day_range_at(&Criteria::new(&a, None).unwrap(), NOW));
    a.before = String::new();
    a.after = "5d".to_string();
    assert!(!row.is_in_day_range_at(&Criteria::new(&a, None).unwrap(), NOW));
    a.after = "6d".to_string();
    assert!(row.is_in_day_range_at(&Criteria::new(&a, None).unwrap(), NOW));
    a.before = "2d-1w".to_string();
    assert!(row.is_in_day_range_at(&Criteria::new(&a, None).unwrap(), NOW));
    a.before = "6d-1w".to_string();
    assert!(!row.is_in_day_range_at(&Criteria::new(&a, None).unwrap(), NOW));
    a.before = "1w-2d".to_string();
    assert!(!row.is_in_day_range_at(&Criteria::new(&a, None).unwrap(), NOW));
    a.before = "0.5s".to_string();
    a.after = String::new();
    let fresh = ResourceRow::new(&file("/data/x", 1, 1, 0));
    assert!(!fresh.is_in_day_range_at(&Criteria::new(&a, None).unwrap(), NOW));
    let one = ResourceRow::new(&file("/data/x", 1, 1, 1));
    assert!(one.is_in_day_range_at(&Criteria::new(&a, None).unwrap(), NOW));
}

#[test]
fn names_are_matched_without_regard_to_case() {
    let root = Some(dir("/data", 0));
    let row = ResourceRow::new(&file("/data/Report_2023.CSV", 1, 1, 1));
    let mut a = no_args();
    a.pattern = "report*.csv".to_string();
    let c = Criteria::new(&a, None).unwrap();
    assert_eq!(row.has_valid_name(&c), Ok(true));
    assert_eq!(row.matches(&c.pattern, c.bounds, c.match_mode), Ok(true));
    assert_eq!(row.matches(&None, c.bounds, c.match_mode), Ok(true));
    assert_eq!(row.matches_criteria_at(&c, &root, NOW), Ok(true));
    assert_eq!(row.matches_criteria(&c, &root), Ok(true));
    assert!(row.matches_with(&c, &root, NOW, true));
    assert!(!row.matches_with(&c, &root, NOW, false));
    a.omit_pattern = "2023".to_string();
    let c = Criteria::new(&a, None).unwrap();
    assert_eq!(row.has_valid_name(&c), Ok(false));
    assert_eq!(row.matches_criteria_at(&c, &root, NOW), Ok(false));
    let mut a = no_args();
    a.ends_with = "2023".to_string();
    assert_eq!(row.has_valid_name(&Criteria::new(&a, None).unwrap()), Ok(true));
    a.ends_with = "report".to_string();
    assert_eq!(row.has_valid_name(&Criteria::new(&a, None).unwrap()), Ok(false));
    let mut a = no_args();
    a.starts_with = "report".to_string();
    assert_eq!(row.has_valid_name(&Criteria::new(&a, None).unwrap()), Ok(true));
    a.starts_with = "2023".to_string();
    assert_eq!(row.has_valid_name(&Criteria::new(&a, None).unwrap()), Ok(false));
}

#[test]
fn an_invalid_pattern_stops_the_scan() {
    let root = Some(dir("/data", 0));
    let row = ResourceRow::new(&file("/data/Report_2023.CSV", 1, 1, 1));
    let mut a = no_args();
    a.pattern = "(".to_string();
    a.regex_mode = true;
    let c = Criteria::new(&a, None).unwrap();
    assert!(!c.has_valid_patterns());
    assert_eq!(row.matches(&c.pattern, c.bounds, c.match_mode), Err(ScanError::InvalidPattern));
    assert_eq!(row.has_valid_name(&c), Err(ScanError::InvalidPattern));
    assert_eq!(row.matches_criteria_at(&c, &root, NOW), Err(ScanError::InvalidPattern));
    assert_eq!(row.matches_criteria(&c, &root), Err(ScanError::InvalidPattern));
    assert!(matches!(ResourceTree::list(&two_files(), &c, NOW), Err(ScanError::InvalidPattern)));
    assert!(matches!(ResourceTree::list(&Vec::new(), &c, NOW), Err(ScanError::InvalidPattern)));
    let mut tree = ResourceTree::new(c.max_depth);
    let entries = two_files();
    assert!(matches!(tree.step(&entries[0], &c, &None, NOW), Ok(Step::Dir)));
    assert!(matches!(tree.step(&entries[1], &c, &None, NOW), Err(ScanError::InvalidPattern)));
    assert_eq!(tree.list_entry(&entries[1], &c, NOW), Err(ScanError::InvalidPattern));
    assert_eq!(tree.num_files(), 0);
    assert_eq!(tree.num_dirs(), 1);
    let mut a = no_args();
    a.pattern = "*.csv".to_string();
    a.omit_pattern = "[a-".to_string();
    a.regex_mode = true;
    let c = Criteria::new(&a, None).unwrap();
    assert_eq!(row.has_valid_name(&c), Err(ScanError::InvalidPattern));
    let small = ResourceRow::new(&file("/data/x.txt", 1, 0, 1));
    let mut a = no_args();
    a.size = "1k".to_string();
    a.pattern = "(".to_string();
    a.regex_mode = true;
    let c = Criteria::new(&a, None).unwrap();
    assert_eq!(small.matches_criteria_at(&c, &root, NOW), Err(ScanError::InvalidPattern));
}

#[test]
fn sets_and_their_texts() {
    let mut set = ResourceSet::new(&EntryInfo { num_subs: 2, ..dir("/data/sub", 1) });
    assert_eq!(set.count(), 0);
    assert_eq!(set.size(), 0);
    assert_eq!(set.depth(), 1);
    assert_eq!(set.num_sub_dirs_display(), "2 subdirs");
    set.push(&ResourceRow::new(&file("/data/sub/a", 2, 1000, 1)));
    set.push(&ResourceRow::new(&file("/data/sub/b", 2, 48, 1)));
    assert_eq!(set.count(), 2);
    assert_eq!(set.size(), 1048);
    assert_eq!(set.smart_size(), "1.02 KiB");
    assert_eq!(set.full_path_string(), "//data/sub");
    assert_eq!(set.path_display(&Some(dir("/data", 0))), "sub");
    let lone = ResourceSet::new(&EntryInfo { num_subs: 1, ..dir("/x", 0) });
    assert_eq!(lone.num_sub_dirs_display(), "1 subdir");
    assert_eq!(ResourceSet::new(&dir("/x", 0)).num_sub_dirs_display(), "[no subdirs]");
    let deep = ResourceSet::new(&dir("/x", 300));
    assert_eq!(deep.depth(), 255);
    set.push(&ResourceRow::new(&file("/data/sub/c", 2, u64::MAX, 1)));
    assert_eq!(set.size(), u64::MAX);
}

#[test]
fn which_sets_are_shown() {
    let mut a = no_args();
    a.max_depth = 2;
    let criteria = Criteria::new(&a, None).unwrap();
    let tree = ResourceTree::list(&nested(), &criteria, NOW).unwrap();
    let plain = DetailLevel::new(&false, &false, &false);
    let void = DetailLevel::new(&true, &true, &true);
    assert!(tree.shows(0, &plain));
    assert!(tree.shows(1, &plain));
    assert!(!tree.shows(2, &plain));
    assert!(!tree.shows(3, &plain));
    assert!(tree.shows(3, &void));
    assert!(!tree.shows(2, &void));
    assert!(void.show_files && void.show_extension_groups && void.show_void_directories);
}

#[test]
fn tree_by_hand() {
    let mut tree = ResourceTree::new(4);
    assert!(tree.parent_dir().is_none());
    assert_eq!(tree.num_dirs(), 0);
    assert_eq!(tree.path_display(), "");
    assert_eq!(tree.num_sub_dirs_display(), "");
    let row = ResourceRow::new(&file("/r/a.txt", 1, 7, 1));
    tree.add_to_parent(&row);
    tree.add_to_sub(&row);
    assert_eq!(tree.num_files(), 0);
    tree.add_root(&dir("/r", 0));
    tree.push(&ResourceSet::new(&dir("/r", 0)));
    tree.push(&ResourceSet::new(&dir("/r/s", 1)));
    tree.add_to_parent(&row);
    let sub = ResourceRow::new(&file("/r/s/b.txt", 2, 9, 1));
    assert_eq!(tree.matched_sub_dir(&sub), Some(1));
    assert_eq!(tree.matched_sub_dir(&ResourceRow::new(&file("/r/t/b.txt", 2, 9, 1))), None);
    tree.add_to_sub(&sub);
    tree.add_to_sub(&ResourceRow::new(&file("/r/t/b.txt", 2, 9, 1)));
    assert_eq!(tree.num_files(), 2);
    assert_eq!(tree.size(), 16);
    assert_eq!(tree.smart_size(), "16 bytes");
    assert_eq!(tree.parent_dir().unwrap().count(), 1);
    assert_eq!(tree.num_sub_dirs_display(), "1 subdir");
}

#[test]
fn report_of_a_small_scan() {
    let criteria = Criteria::new(&no_args(), None).unwrap();
    let tree = ResourceTree::list(&two_files(), &criteria, NOW).unwrap();
    let all = DetailLevel::new(&true, &true, &true);
    assert_eq!(
        tree.render(&all, NOW),
        vec![
            "  10 days\t2023-11-04 22:13:20\t100 bytes\ttxt\t1\ta.txt".to_string(),
            "       2h\t2023-11-14 20:13:20\t 2.00 KiB\tlog\t1\tb.log".to_string(),
            "       2 files\t[no subdirs]\t2.10 KiB  \t    /data".to_string(),
            "BY EXTENSION".to_string(),
            "       log\t        1 file\t2.00 KiB".to_string(),
            "       txt\t        1 file\t100 bytes".to_string(),
            "OVERVIEW".to_string(),
            "path         /data".to_string(),
            "total files  2".to_string(),
            "age range    newest: 2h (b.log), oldest: 10 days (a.txt)".to_string(),
            "tot. size    2.10 KiB".to_string(),
            "max depth    1 (limit: 255)".to_string(),
        ]
    );
    let plain = DetailLevel::new(&false, &false, &false);
    assert_eq!(
        tree.render(&plain, NOW),
        vec![
            "       2 files\t[no subdirs]\t2.10 KiB  \t    /data".to_string(),
            "OVERVIEW".to_string(),
            "path         /data".to_string(),
            "total files  2".to_string(),
            "age range    newest: 2h (b.log), oldest: 10 days (a.txt)".to_string(),
            "tot. size    2.10 KiB".to_string(),
            "max depth    1 (limit: 255)".to_string(),
        ]
    );
}

#[test]
fn report_of_an_empty_scan() {
    let tree = ResourceTree::new(3);
    let all = DetailLevel::new(&true, &true, &true);
    assert_eq!(
        tree.render(&all, NOW),
        vec![
            "BY EXTENSION".to_string(),
            "OVERVIEW".to_string(),
            "path         ".to_string(),
            "total files  0".to_string(),
        ]
    );
}

#[test]
fn report_of_a_nested_scan() {
    let mut a = no_args();
    a.max_depth = 2;
    let criteria = Criteria::new(&a, None).unwrap();
    let mut entries = nested();
    entries[3].num_subs = 1;
    let mut tree = ResourceTree::list(&entries, &criteria, NOW).unwrap();
    let plan = Planned::Delete;
    assert_eq!(tree.settle_row(1, 0, &plan, true), Ok(()));
    let files = DetailLevel::new(&true, &false, &false);
    let lines = tree.render(&files, NOW);
    assert_eq!(lines[2], "       2 files\t[no subdirs]\t2.10 KiB  \t    /data");
    assert_eq!(lines[3], "   3 days\t2023-11-11 22:13:20\t300 bytes\ttxt\t2\tsub/c.txt [del]");
    assert_eq!(lines[4], "  30 days\t2023-10-15 22:13:20\t 2.00 KiB\t\t2\tsub/d");
    assert_eq!(lines[5], "       2 files\t  1 subdir\t2.29 KiB  \t      sub");
    assert_eq!(lines[6], "    1 day\t2023-11-13 22:13:20\t 10 bytes\ttxt\t2\tskip/f.txt");
    assert_eq!(lines[7], "       1 file\t[no subdirs]\t10 bytes  \t     skip");
    assert_eq!(lines[8], "OVERVIEW");
    assert_eq!(lines[10], "total files  6\t(3 subdirs)");
    assert_eq!(lines[11], "age range    newest: 2h (b.log), oldest: 30 days (d)");
    assert_eq!(lines[12], "tot. size    4.45 KiB");
    assert_eq!(lines[13], "size range   min. 10 bytes (f.txt), max. 2.00 KiB (b.log)");
    assert_eq!(lines[14], "max depth    3 (limit: 2)");
    assert_eq!(lines.len(), 15);
}

#[test]
fn steps_of_a_granted_delete() {
    let mut a = no_args();
    a.delete = true;
    a.force = true;
    a.ext = "txt".to_string();
    let mut criteria = Criteria::new(&a, None).unwrap();
    assert_eq!(criteria.apply_action_permissions(false, false), Ok(None));
    let mut tree = ResourceTree::new(criteria.max_depth);
    let mut failures = 0;
    for (at, e) in nested().iter().enumerate() {
        match tree.step(e, &criteria, &None, NOW).unwrap() {
            Step::Dir => assert!(e.is_dir),
            Step::Skip => assert!(!e.is_dir),
            Step::Act(row, plan) => {
                assert!(matches!(plan, Planned::Delete));
                if tree.finish(row, &plan, at != 4, &criteria) == Err(ScanError::PrimitiveFailure) {
                    failures += 1;
                }
            }
        }
    }
    assert_eq!(failures, 1);
    assert_eq!(names(&tree), vec!["a.txt", "c.txt", "e.TXT", "f.txt"]);
    assert!(tree.row(0, 0).deleted);
    assert!(!tree.row(1, 0).deleted);
    assert!(tree.row(2, 0).deleted);
    assert!(tree.row(4, 0).deleted);
}

#[test]
fn steps_without_a_permission_only_list() {
    let mut a = no_args();
    a.copy = Some("/nowhere".to_string());
    let mut criteria = Criteria::new(&a, None).unwrap();
    assert_eq!(criteria.apply_action_permissions(false, false), Err(ScanError::UnresolvedTarget));
    let mut tree = ResourceTree::new(criteria.max_depth);
    for e in &nested() {
        if let Step::Act(row, plan) = tree.step(e, &criteria, &None, NOW).unwrap() {
            assert!(matches!(plan, Planned::Keep));
            assert_eq!(tree.finish(row, &plan, false, &criteria), Ok(()));
        }
    }
    let listed = ResourceTree::list(&nested(), &criteria, NOW).unwrap();
    assert_eq!(names(&tree), names(&listed));
    assert_eq!(tree.render(&DetailLevel::new(&true, &true, &true), NOW), listed.render(&DetailLevel::new(&true, &true, &true), NOW));
    for si in 0..tree.num_dirs() {
        for ri in 0..tree.directory(si).count() {
            assert_eq!(tree.row(si, ri).move_target, None);
            assert!(!tree.row(si, ri).deleted);
        }
    }
}

#[test]
fn entries_of_a_walk_are_well_formed() {
    let root = dir("/data", 0);
    for e in nested() {
        assert!(e.is_wf());
        assert!(e.is_below(&root));
    }
    assert!(root.is_below(&root));
    let top = EntryInfo { file_name: "/".to_string(), ..dir("/", 0) };
    assert!(top.is_wf());
    assert!(file("/a", 1, 1, 1).is_below(&top));
    let misnamed = EntryInfo { file_name: "b.txt".to_string(), ..file("/data/a.txt", 1, 1, 1) };
    assert!(!misnamed.is_wf());
    assert!(!file("/data/a.txt", 3, 1, 1).is_wf());
    assert!(file("/data/a.txt", 2, 1, 1).is_wf());
    assert!(!file("/data/a.txt", 2, 1, 1).is_below(&root));
    assert!(!file("/other/a.txt", 1, 1, 1).is_below(&root));
    assert!(!file("/data/sub/a.txt", 1, 1, 1).is_below(&root));
    assert!(!EntryInfo { num_subs: 2, ..file("/data/a.txt", 1, 1, 1) }.is_wf());
    assert!(EntryInfo { num_subs: 2, ..dir("/data/sub", 1) }.is_wf());
    assert!(!file("", 0, 1, 1).is_wf());
}

#[test]
fn first_level_files_are_held_by_the_first_set() {
    let criteria = Criteria::new(&no_args(), None).unwrap();
    let tree = ResourceTree::list(&nested(), &criteria, NOW).unwrap();
    let row = ResourceRow::new(&file("/data/z.txt", 1, 1, 1));
    assert_eq!(tree.matched_sub_dir(&row), Some(0));
    assert_eq!(row.directory_path_string(), tree.directory(0).full_path_string());
}

#[test]
fn a_tree_can_be_copied() {
    let criteria = Criteria::new(&no_args(), None).unwrap();
    let tree = ResourceTree::list(&nested(), &criteria, NOW).unwrap();
    let copy = tree.clone();
    let all = DetailLevel::new(&true, &true, &true);
    assert_eq!(copy.render(&all, NOW), tree.render(&all, NOW));
    assert_eq!(copy.num_dirs(), tree.num_dirs());
    assert_eq!(copy.depth_limit(), tree.depth_limit());
    assert_eq!(names(&copy), names(&tree));
}
