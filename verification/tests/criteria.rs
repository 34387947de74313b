use dirsift::args::Args;
use dirsift::criteria::{ActionMode, Criteria, Permission};
use dirsift::errors::ScanError;
use dirsift::matches::{MatchBounds, MatchMode};

fn no_args() -> Args {
    Args {
        before: String::new(),
        after: String::new(),
        path: None,
        ext: String::new(),
        not_ext: String::new(),
        exclude_dirs: String::new(),
        pattern: String::new(),
        omit_pattern: String::new(),
        starts_with: String::new(),
        ends_with: String::new(),
        size: String::new(),
        max_depth: 255,
        hidden: false,
        list: false,
        groups: false,
        void: false,
        regex_mode: false,
        move_to: None,
        copy: None,
        delete: false,
        force: false,
    }
}

#[test]
fn defaults_list_everything() {
    let c = Criteria::new(&no_args(), None).unwrap();
    assert_eq!(c.sizes, (0, 0));
    assert!(c.include_extensions.is_empty());
    assert!(c.exclude_extensions.is_empty());
    assert!(c.exclude_directories.is_empty());
    assert_eq!(c.pattern, None);
    assert_eq!(c.exclude_pattern, None);
    assert_eq!(c.match_mode, MatchMode::Literal);
    assert_eq!(c.bounds, MatchBounds::Open);
    assert_eq!(c.max_depth, 255);
    assert_eq!((c.min_age, c.max_age), (0, 0));
    assert!(!c.show_hidden);
    assert_eq!(c.action, ActionMode::List);
    assert_eq!(c.may, Permission::Nothing);
    assert_eq!(c.target, None);
    assert!(!c.has_pattern() && !c.has_omit_pattern() && !c.has_size_limits());
    assert!(!c.filter_by_age() && !c.has_min_age() && !c.has_max_age());
    assert_eq!(c.to_text(), "list");
}

#[test]
fn ages_from_before_and_after() {
    let mut a = no_args();
    a.before = "7d".to_string();
    a.after = "2w".to_string();
    let c = Criteria::new(&a, None).unwrap();
    assert_eq!((c.min_age, c.max_age), (7 * 86400, 14 * 86400));
    assert!(c.filter_by_age() && c.has_min_age() && c.has_max_age());
    a.after = "1d".to_string();
    let c = Criteria::new(&a, None).unwrap();
    assert_eq!((c.min_age, c.max_age), (7 * 86400, 86400));
    assert!(c.has_min_age() && !c.has_max_age());
}

#[test]
fn age_range_in_before() {
    let mut a = no_args();
    a.before = "3d-2w".to_string();
    a.after = "1y".to_string();
    let c = Criteria::new(&a, None).unwrap();
    assert_eq!((c.min_age, c.max_age), (3 * 86400, 14 * 86400));
}

#[test]
fn age_range_first_end_takes_the_unit_of_the_second() {
    let mut a = no_args();
    a.before = "3-5w".to_string();
    let c = Criteria::new(&a, None).unwrap();
    assert_eq!((c.min_age, c.max_age), (3 * 604800, 5 * 604800));
    a.before = "3-5".to_string();
    let c = Criteria::new(&a, None).unwrap();
    assert_eq!((c.min_age, c.max_age), (3 * 86400, 5 * 86400));
    a.before = "12h-2d".to_string();
    let c = Criteria::new(&a, None).unwrap();
    assert_eq!((c.min_age, c.max_age), (12 * 3600, 2 * 86400));
}

#[test]
fn resolve_takes_the_unit_flags_as_given() {
    let mut a = no_args();
    a.before = "3-5w".to_string();
    let c = Criteria::resolve(&a, None, false, true);
    assert_eq!((c.min_age, c.max_age), (3 * 604800, 5 * 604800));
    let c = Criteria::resolve(&a, None, true, true);
    assert_eq!((c.min_age, c.max_age), (3 * 86400, 5 * 604800));
    let c = Criteria::resolve(&a, None, false, false);
    assert_eq!((c.min_age, c.max_age), (3 * 86400, 5 * 604800));
}

#[test]
fn depth_is_one_for_a_file_pattern() {
    let mut a = no_args();
    a.max_depth = 5;
    assert_eq!(Criteria::new(&a, None).unwrap().max_depth, 5);
    assert_eq!(Criteria::new(&a, Some("*.txt".to_string())).unwrap().max_depth, 1);
    a.max_depth = 0;
    assert_eq!(Criteria::new(&a, None).unwrap().max_depth, 1);
}

#[test]
fn lists_and_sizes() {
    let mut a = no_args();
    a.ext = "jpg, png".to_string();
    a.not_ext = "tmp".to_string();
    a.exclude_dirs = "node_modules,.git".to_string();
    a.size = "10k,5m".to_string();
    a.hidden = true;
    let c = Criteria::new(&a, None).unwrap();
    assert_eq!(c.include_extensions, vec!["jpg".to_string(), "png".to_string()]);
    assert_eq!(c.exclude_extensions, vec!["tmp".to_string()]);
    assert_eq!(c.exclude_directories, vec!["node_modules".to_string(), ".git".to_string()]);
    assert_eq!(c.sizes, (10240, 5 * 1024 * 1024));
    assert_eq!(c.min_size(), 10240);
    assert_eq!(c.max_size(), 5 * 1024 * 1024);
    assert!(c.has_max_size() && c.has_size_limits());
    assert!(c.show_hidden);
}

#[test]
fn pattern_precedence() {
    let mut a = no_args();
    a.pattern = "p".to_string();
    a.ends_with = "e".to_string();
    a.starts_with = "s".to_string();
    a.omit_pattern = "o".to_string();
    a.regex_mode = true;
    let c = Criteria::new(&a, None).unwrap();
    assert_eq!(c.pattern, Some("s".to_string()));
    assert_eq!(c.bounds, MatchBounds::Start);
    assert_eq!(c.exclude_pattern, Some("o".to_string()));
    assert_eq!(c.match_mode, MatchMode::Regex);
    a.starts_with = String::new();
    let c = Criteria::new(&a, None).unwrap();
    assert_eq!(c.pattern, Some("e".to_string()));
    assert_eq!(c.bounds, MatchBounds::End);
    a.ends_with = String::new();
    let c = Criteria::new(&a, None).unwrap();
    assert_eq!(c.pattern, Some("p".to_string()));
    assert_eq!(c.bounds, MatchBounds::Open);
    let c = Criteria::new(&a, Some("*.txt".to_string())).unwrap();
    assert_eq!(c.pattern, Some("*.txt".to_string()));
}

#[test]
fn action_precedence() {
    let mut a = no_args();
    a.copy = Some("/c".to_string());
    a.move_to = Some("/m".to_string());
    a.delete = true;
    a.force = true;
    let c = Criteria::new(&a, None).unwrap();
    assert_eq!(c.action, ActionMode::Copy);
    assert_eq!(c.target, Some("/c".to_string()));
    assert_eq!(c.to_text(), "copy to /c");
    a.copy = None;
    let c = Criteria::new(&a, None).unwrap();
    assert_eq!(c.action, ActionMode::Move);
    assert_eq!(c.target, Some("/m".to_string()));
    assert_eq!(c.to_text(), "move to /m");
    assert_eq!(c.target_ref(), "/m");
    a.move_to = Some(String::new());
    let c = Criteria::new(&a, None).unwrap();
    assert_eq!(c.action, ActionMode::DirectDelete);
    assert_eq!(c.target, None);
    assert!(c.delete_mode() && !c.delete_with_prompt());
    assert_eq!(c.to_text(), "delete");
    a.force = false;
    let c = Criteria::new(&a, None).unwrap();
    assert_eq!(c.action, ActionMode::Delete);
    assert!(c.delete_mode() && c.delete_with_prompt());
    a.delete = false;
    a.force = true;
    assert_eq!(Criteria::new(&a, None).unwrap().action, ActionMode::List);
}

#[test]
fn nothing_is_permitted_at_first() {
    let mut a = no_args();
    a.move_to = Some("/m".to_string());
    let c = Criteria::new(&a, None).unwrap();
    assert_eq!(c.may, Permission::Nothing);
    assert!(!c.may_move() && !c.may_copy() && !c.may_delete());
    assert!(c.move_mode() && c.move_or_copy_mode() && c.target_mode() && !c.copy_mode());
}

#[test]
fn move_is_granted_where_the_target_exists() {
    let mut a = no_args();
    a.move_to = Some("/m".to_string());
    let mut c = Criteria::new(&a, None).unwrap();
    assert_eq!(c.apply_action_permissions(true, false), Ok(Some("/m".to_string())));
    assert_eq!(c.may, Permission::Move);
    assert!(c.may_move());
}

#[test]
fn missing_target_is_unresolved() {
    let mut a = no_args();
    a.move_to = Some("/nowhere".to_string());
    let mut c = Criteria::new(&a, None).unwrap();
    assert_eq!(c.apply_action_permissions(false, true), Err(ScanError::UnresolvedTarget));
    assert_eq!(c.may, Permission::Nothing);
    a.move_to = None;
    a.copy = Some("/nowhere".to_string());
    let mut c = Criteria::new(&a, None).unwrap();
    assert_eq!(c.apply_action_permissions(false, false), Err(ScanError::UnresolvedTarget));
    assert!(!c.may_copy());
    assert_eq!(c.apply_action_permissions(true, false), Ok(Some("/nowhere".to_string())));
    assert!(c.may_copy());
}

#[test]
fn delete_needs_a_confirmation() {
    let mut a = no_args();
    a.delete = true;
    let mut c = Criteria::new(&a, None).unwrap();
    assert_eq!(c.apply_action_permissions(true, false), Ok(None));
    assert_eq!(c.may, Permission::Nothing);
    assert_eq!(c.apply_action_permissions(false, true), Ok(None));
    assert_eq!(c.may, Permission::Delete);
    a.force = true;
    let mut c = Criteria::new(&a, None).unwrap();
    assert!(c.action.delete_confirmed());
    assert_eq!(c.apply_action_permissions(false, false), Ok(None));
    assert!(c.may_delete());
}

#[test]
fn list_is_never_granted_anything() {
    let mut c = Criteria::new(&no_args(), None).unwrap();
    assert_eq!(c.apply_action_permissions(true, true), Ok(None));
    assert_eq!(c.may, Permission::Nothing);
    c.set_may_move();
    c.set_may_copy();
    c.set_may_delete();
    assert_eq!(c.may, Permission::Nothing);
}

#[test]
fn setters_grant_the_declared_action_only() {
    let mut a = no_args();
    a.copy = Some("/c".to_string());
    let mut c = Criteria::new(&a, None).unwrap();
    c.set_may_move();
    c.set_may_delete();
    assert_eq!(c.may, Permission::Nothing);
    c.set_may_copy();
    assert_eq!(c.may, Permission::Copy);
}

#[test]
fn past_words() {
    assert_eq!(ActionMode::List.to_past(), "listed");
    assert_eq!(ActionMode::Move.to_past(), "moved");
    assert_eq!(ActionMode::Copy.to_past(), "copied");
    assert_eq!(ActionMode::Delete.to_past(), "deleted");
    assert_eq!(ActionMode::DirectDelete.to_not_past(), "not deleted");
    assert_eq!(ActionMode::Move.to_past_string(true), "not moved");
    assert!(!ActionMode::Delete.delete_confirmed());
}

#[test]
fn criteria_can_be_copied() {
    let mut a = no_args();
    a.before = "2d-2w".to_string();
    a.size = "10k,5m".to_string();
    a.ext = "jpg,png".to_string();
    a.not_ext = "tmp".to_string();
    a.exclude_dirs = "skip".to_string();
    a.pattern = "img_*".to_string();
    a.omit_pattern = "old".to_string();
    a.move_to = Some("/sorted".to_string());
    a.hidden = true;
    a.max_depth = 4;
    let mut c = Criteria::new(&a, None).unwrap();
    assert_eq!(c.apply_action_permissions(true, false), Ok(Some("/sorted".to_string())));
    let d = c.clone();
    assert_eq!(d.sizes, c.sizes);
    assert_eq!(d.include_extensions, c.include_extensions);
    assert_eq!(d.exclude_extensions, c.exclude_extensions);
    assert_eq!(d.exclude_directories, c.exclude_directories);
    assert_eq!(d.pattern, c.pattern);
    assert_eq!(d.exclude_pattern, c.exclude_pattern);
    assert_eq!(d.match_mode, c.match_mode);
    assert_eq!(d.bounds, c.bounds);
    assert_eq!(d.max_depth, 4);
    assert_eq!((d.min_age, d.max_age), (2 * 86400, 14 * 86400));
    assert!(d.show_hidden);
    assert_eq!(d.action, ActionMode::Move);
    assert_eq!(d.may, Permission::Move);
    assert_eq!(d.target, Some("/sorted".to_string()));
    assert_eq!(d.summary(), c.summary());
}

#[test]
fn a_range_of_ages_is_read_with_the_unit_pattern() {
    let mut a = no_args();
    a.before = "3-5w".to_string();
    assert!(Criteria::new(&a, None).is_ok());
    a.before = "3".to_string();
    assert!(Criteria::new(&a, None).is_ok());
}
