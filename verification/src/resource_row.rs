//! One file of a scan, and the tests that decide whether it matches the
//! criteria.

use vstd::prelude::*;
use crate::clock::calendar_text;
use crate::clock::current_timestamp;
use crate::clock::timestamp_display;
use crate::criteria::opt_text;
use crate::criteria::pattern_valid;
use crate::criteria::Criteria;
use crate::display::duration_text;
use crate::display::seconds_to_day_hours_min_secs;
use crate::display::size_text;
use crate::display::smart_size;
use crate::entry::root_path;
use crate::entry::root_text;
use crate::entry::EntryInfo;
use crate::errors::ScanError;
use crate::lists::extension_listed;
use crate::lists::is_in_extensions;
use crate::lists::is_not_in_extensions;
use crate::matches::match_string;
use crate::matches::pattern_accepts;
use crate::matches::regex_source;
use crate::matches::MatchBounds;
use crate::matches::MatchMode;
use crate::paths::any_hidden;
use crate::paths::any_hidden_part;
use crate::paths::dir_excluded;
use crate::paths::extension_of;
use crate::paths::extract_extension;
use crate::paths::is_hidden;
use crate::paths::is_hidden_name;
use crate::paths::names_excluded_dir;
use crate::paths::parent_path_string;
use crate::paths::parent_text;
use crate::paths::path_to_relative_parts;
use crate::paths::path_to_relative_path;
use crate::paths::relative_parts_of;
use crate::paths::relative_path_of;
use crate::text::texts;

verus! {

/// How much of a scan is shown.
#[derive(Debug, Clone, Copy, PartialEq, Eq, Structural)]
pub struct DetailLevel {
    pub show_files: bool,
    pub show_extension_groups: bool,
    pub show_void_directories: bool,
}

impl DetailLevel {
    /// The three switches of a report.
    pub fn new(show_files: &bool, show_extension_groups: &bool, show_void_directories: &bool) -> (r:
        Self)
        ensures
            r.show_files == *show_files,
            r.show_extension_groups == *show_extension_groups,
            r.show_void_directories == *show_void_directories,
    {
        DetailLevel {
            show_files: *show_files,
            show_extension_groups: *show_extension_groups,
            show_void_directories: *show_void_directories,
        }
    }
}

/// The age in seconds, at the moment `now`, of what was modified at the
/// moment `ts`; 0 where that lies in the future.
pub open spec fn age_at(ts: u64, now: i64) -> u64 {
    if now > ts {
        (now - ts) as u64
    } else {
        0
    }
}

/// The day and time of the moment `ts` seconds after the start of
/// 1970; empty where the calendar does not reach that moment.
pub open spec fn modified_text(ts: u64) -> Seq<char> {
    if ts <= i64::MAX {
        match calendar_text(ts as i64) {
            Some(t) => t,
            None => Seq::empty(),
        }
    } else {
        Seq::empty()
    }
}

/// A size lies in a range: it is at least the lower bound, and at most
/// the upper bound where that is not 0.
pub open spec fn size_in_range(size: u64, sizes: (u64, u64)) -> bool {
    size >= sizes.0 && (size <= sizes.1 || sizes.1 == 0)
}

/// A range without bounds takes in every size.
pub proof fn lemma_unbounded_sizes(size: u64)
    ensures
        size_in_range(size, (0, 0)),
{
}

/// A range without bounds takes in every age.
pub proof fn lemma_unbounded_ages(age: u64)
    ensures
        age_in_range(age, 0, 0),
{
}

/// An age lies in a range: it is at least the least age where one is
/// set, and below the greatest age where that is above the least.
pub open spec fn age_in_range(age: u64, min_age: u64, max_age: u64) -> bool {
    (min_age > 0 ==> age >= min_age) && (max_age > min_age ==> age < max_age)
}

/// An extension is taken in: the list to take in is empty or names it,
/// and the list to leave out does not name it.
pub open spec fn extension_ok(ext: Seq<char>, wanted: Seq<Seq<char>>, unwanted: Seq<Seq<char>>)
    -> bool {
    (wanted.len() == 0 || extension_listed(ext, wanted)) && !extension_listed(ext, unwanted)
}

/// A name matches the pattern, where there is one. Case does not count.
pub open spec fn name_matches(
    name: Seq<char>,
    pattern: Option<Seq<char>>,
    bounds: MatchBounds,
    mode: MatchMode,
) -> bool {
    match pattern {
        Some(p) => pattern_accepts(regex_source(p, bounds, mode), true, name),
        None => true,
    }
}

/// A name is taken in: it matches the pattern to take in where there is
/// one, and does not match the pattern to leave out where there is
/// one.
pub open spec fn name_ok(name: Seq<char>, criteria: Criteria) -> bool {
    &&& name_matches(name, opt_text(criteria.pattern), criteria.bounds, criteria.match_mode)
    &&& criteria.exclude_pattern is Some ==> !name_matches(
        name,
        opt_text(criteria.exclude_pattern),
        criteria.bounds,
        criteria.match_mode,
    )
}

/// One file that a scan has found.
#[derive(Debug)]
pub struct ResourceRow {
    pub file: EntryInfo,
    /// The extension of the file name in lower case; empty for none.
    pub extension: String,
    /// When the file was last modified, in seconds since 1970.
    pub ts: u64,
    /// Where the file was moved or copied to, once that was done.
    pub move_target: Option<String>,
    /// The file was removed.
    pub deleted: bool,
}

impl Clone for ResourceRow {
    fn clone(&self) -> (r: Self)
        ensures
            r == *self,
    {
        ResourceRow {
            file: self.file.clone(),
            extension: self.extension.clone(),
            ts: self.ts,
            move_target: self.move_target.clone(),
            deleted: self.deleted,
        }
    }
}

/// A row as a mathematical value.
pub ghost struct RowModel {
    pub file: EntryInfo,
    pub extension: Seq<char>,
    pub ts: u64,
    pub move_target: Option<Seq<char>>,
    pub deleted: bool,
}

impl View for ResourceRow {
    type V = RowModel;

    open spec fn view(&self) -> RowModel {
        RowModel {
            file: self.file,
            extension: self.extension@,
            ts: self.ts,
            move_target: opt_text(self.move_target),
            deleted: self.deleted,
        }
    }
}

/// The row of the file `file`, with nothing done to it yet.
pub open spec fn row_of(file: EntryInfo) -> RowModel {
    RowModel {
        file,
        extension: extension_of(file.file_name@),
        ts: file.modified,
        move_target: None,
        deleted: false,
    }
}

/// The view of a row that may be missing.
pub open spec fn opt_row(o: Option<ResourceRow>) -> Option<RowModel> {
    match o {
        Some(r) => Some(r@),
        None => None,
    }
}

impl RowModel {
    /// The components of the file's path below the root of the scan.
    pub open spec fn parts(&self, root: Option<EntryInfo>) -> Seq<Seq<char>> {
        relative_parts_of(self.file.path@, root_text(root))
    }

    /// The file is not hidden, or hidden files are shown: neither its
    /// name nor a component of its path below the root begins with a
    /// dot.
    pub open spec fn visibility_ok(&self, show_hidden: bool, root: Option<EntryInfo>) -> bool {
        show_hidden || !(is_hidden_name(self.file.file_name@) || any_hidden(self.parts(root)))
    }

    /// The file matches the criteria at the moment `now`, given
    /// whether its name is taken in: its age, its size, its extension
    /// and its name are taken in, and it is not hidden.
    pub open spec fn meets(
        &self,
        criteria: Criteria,
        root: Option<EntryInfo>,
        now: i64,
        name_taken: bool,
    ) -> bool {
        &&& age_in_range(age_at(self.ts, now), criteria.min_age, criteria.max_age)
        &&& size_in_range(self.file.size, criteria.sizes)
        &&& extension_ok(
            self.extension,
            texts(criteria.include_extensions@),
            texts(criteria.exclude_extensions@),
        )
        &&& name_taken
        &&& self.visibility_ok(criteria.show_hidden, root)
    }
}

impl ResourceRow {
    /// The row of the file `file`, with nothing done to it yet.
    pub fn new(file: &EntryInfo) -> (r: Self)
        ensures
            r@ == row_of(*file),
    {
        ResourceRow {
            file: file.clone(),
            extension: extract_extension(file.file_name.as_str()),
            ts: file.modified,
            move_target: None,
            deleted: false,
        }
    }

    /// Records where the file was moved or copied to.
    pub fn set_move_target(&mut self, target: &str)
        ensures
            final(self)@ == (RowModel { move_target: Some(target@), ..old(self)@ }),
    {
        self.move_target = Some(target.to_owned());
    }

    /// Records that the file was removed.
    pub fn set_deleted(&mut self)
        ensures
            final(self)@ == (RowModel { deleted: true, ..old(self)@ }),
    {
        self.deleted = true;
    }

    /// The age of the file in seconds at the moment `now`.
    pub fn seconds_old_at(&self, now: i64) -> (r: u64)
        ensures
            r == age_at(self.ts, now),
    {
        if now > 0 && (now as u64) > self.ts {
            (now as u64) - self.ts
        } else {
            0
        }
    }

    /// The age of the file in seconds by the clock of the machine.
    pub fn seconds_old(&self) -> (r: u64)
        ensures
            exists|now: i64| r == age_at(self.ts, now),
    {
        let now = current_timestamp();
        self.seconds_old_at(now)
    }

    /// The extension of the file is taken in by the first list and
    /// not left out by the second.
    pub fn has_valid_extension(&self, extensions: &Vec<String>, exclusions: &Vec<String>) -> (r:
        bool)
        ensures
            r == extension_ok(self.extension@, texts(extensions@), texts(exclusions@)),
    {
        is_in_extensions(self.extension.as_str(), extensions) && is_not_in_extensions(
            self.extension.as_str(),
            exclusions,
        )
    }

    /// The file lies in no directory that is left out, and in no
    /// hidden one unless hidden files are shown.
    pub fn is_not_in_excluded_dir(&self, criteria: &Criteria, root_ref: &Option<EntryInfo>) -> (r:
        bool)
        ensures
            r == (!dir_excluded(texts(criteria.exclude_directories@), self@.parts(*root_ref)) && (
            criteria.show_hidden || !any_hidden(self@.parts(*root_ref)))),
    {
        let dirs = self.relative_parts(root_ref);
        let not_excluded = criteria.exclude_directories.len() == 0 || !names_excluded_dir(
            &criteria.exclude_directories,
            &dirs,
        );
        not_excluded && (criteria.show_hidden || !any_hidden_part(&dirs))
    }

    /// The name of the file.
    pub fn file_name(&self) -> (r: String)
        ensures
            r@ == self.file.file_name@,
    {
        self.file.file_name.clone()
    }

    /// The size of the file in bytes.
    pub fn size(&self) -> (r: u64)
        ensures
            r == self.file.size,
    {
        self.file.size
    }

    /// The size of the file in words.
    pub fn smart_size(&self) -> (r: String)
        ensures
            r@ == size_text(self.file.size),
    {
        smart_size(self.size())
    }

    /// The path of the file.
    pub fn path_ref(&self) -> (r: &str)
        ensures
            r@ == self.file.path@,
    {
        self.file.path.as_str()
    }

    /// Whether the name of the file matches `pattern`, where there is
    /// one. Fails with `InvalidPattern` exactly where the pattern is
    /// no regular expression.
    pub fn matches(&self, pattern: &Option<String>, bounds: MatchBounds, mode: MatchMode) -> (r:
        Result<bool, ScanError>)
        ensures
            r is Err <==> !pattern_valid(opt_text(*pattern), bounds, mode),
            r matches Err(e) ==> e == ScanError::InvalidPattern,
            r matches Ok(found) ==> found == name_matches(
                self.file.file_name@,
                opt_text(*pattern),
                bounds,
                mode,
            ),
    {
        match pattern {
            Some(pattern_str) => match_string(
                self.file_name(),
                pattern_str.as_str(),
                true,
                bounds,
                mode,
            ),
            None => Ok(true),
        }
    }

    /// The size of the file lies in the range.
    pub fn is_in_size_range(&self, sizes: &(u64, u64)) -> (r: bool)
        ensures
            r == size_in_range(self.file.size, *sizes),
    {
        let size = self.size();
        size >= sizes.0 && (size <= sizes.1 || sizes.1 < 1)
    }

    /// The age of the file at the moment `now` lies in the range of the
    /// criteria.
    pub fn is_in_day_range_at(&self, criteria: &Criteria, now: i64) -> (r: bool)
        ensures
            r == age_in_range(age_at(self.ts, now), criteria.min_age, criteria.max_age),
    {
        if criteria.filter_by_age() {
            let age = self.seconds_old_at(now);
            let mut matches = true;
            if criteria.has_min_age() {
                matches = age >= criteria.min_age;
            }
            if criteria.has_max_age() {
                matches = matches && age < criteria.max_age;
            }
            matches
        } else {
            true
        }
    }

    /// The age of the file by the clock of the machine lies in the
    /// range of the criteria.
    pub fn is_in_day_range(&self, criteria: &Criteria) -> (r: bool)
        ensures
            exists|now: i64|
                r == age_in_range(age_at(self.ts, now), criteria.min_age, criteria.max_age),
    {
        let now = current_timestamp();
        self.is_in_day_range_at(criteria, now)
    }

    /// Whether the name of the file is taken in by the patterns of
    /// the criteria. Fails with `InvalidPattern` exactly where one of
    /// the patterns is no regular expression.
    pub fn has_valid_name(&self, criteria: &Criteria) -> (r: Result<bool, ScanError>)
        ensures
            r is Err <==> !criteria.patterns_valid(),
            r matches Err(e) ==> e == ScanError::InvalidPattern,
            r matches Ok(taken) ==> taken == name_ok(self.file.file_name@, *criteria),
    {
        let wanted = match self.matches(&criteria.pattern, criteria.bounds, criteria.match_mode) {
            Ok(found) => found,
            Err(e) => {
                return Err(e);
            },
        };
        let unwanted = match self.matches(
            &criteria.exclude_pattern,
            criteria.bounds,
            criteria.match_mode,
        ) {
            Ok(found) => found,
            Err(e) => {
                return Err(e);
            },
        };
        Ok(wanted && !(criteria.has_omit_pattern() && unwanted))
    }

    /// The file matches the criteria at the moment `now`, given
    /// whether its name is taken in.
    pub fn matches_with(
        &self,
        criteria: &Criteria,
        root_ref: &Option<EntryInfo>,
        now: i64,
        name_taken: bool,
    ) -> (r: bool)
        ensures
            r == self@.meets(*criteria, *root_ref, now, name_taken),
    {
        self.is_in_day_range_at(criteria, now) && self.is_in_size_range(&criteria.sizes)
            && self.has_valid_extension(&criteria.include_extensions, &criteria.exclude_extensions)
            && name_taken && self.show_if_hidden(criteria.show_hidden, root_ref)
    }

    /// Whether the file matches the criteria at the moment `now`.
    /// Fails with `InvalidPattern` exactly where one of the patterns
    /// of the criteria is no regular expression.
    pub fn matches_criteria_at(&self, criteria: &Criteria, root_ref: &Option<EntryInfo>, now: i64)
        -> (r: Result<bool, ScanError>)
        ensures
            r is Err <==> !criteria.patterns_valid(),
            r matches Err(e) ==> e == ScanError::InvalidPattern,
            r matches Ok(found) ==> found == self@.meets(
                *criteria,
                *root_ref,
                now,
                name_ok(self.file.file_name@, *criteria),
            ),
    {
        match self.has_valid_name(criteria) {
            Ok(name_taken) => Ok(self.matches_with(criteria, root_ref, now, name_taken)),
            Err(e) => Err(e),
        }
    }

    /// Whether the file matches the criteria by the clock of the
    /// machine. Fails with `InvalidPattern` exactly where one of the
    /// patterns of the criteria is no regular expression.
    pub fn matches_criteria(&self, criteria: &Criteria, root_ref: &Option<EntryInfo>) -> (r:
        Result<bool, ScanError>)
        ensures
            r is Err <==> !criteria.patterns_valid(),
            r matches Err(e) ==> e == ScanError::InvalidPattern,
            r matches Ok(found) ==> exists|now: i64|
                found == self@.meets(
                    *criteria,
                    *root_ref,
                    now,
                    name_ok(self.file.file_name@, *criteria),
                ),
    {
        let now = current_timestamp();
        self.matches_criteria_at(criteria, root_ref, now)
    }

    /// The file is not hidden, or hidden files are shown.
    pub fn show_if_hidden(&self, show_hidden: bool, root_ref: &Option<EntryInfo>) -> (r: bool)
        ensures
            r == self@.visibility_ok(show_hidden, *root_ref),
    {
        if show_hidden {
            true
        } else if is_hidden(self.file.file_name.as_str()) {
            false
        } else {
            let parts = self.relative_parts(root_ref);
            !any_hidden_part(&parts)
        }
    }

    /// The age of the file in words, at the moment `now`.
    pub fn age_display_at(&self, now: i64) -> (r: String)
        ensures
            r@ == duration_text(age_at(self.ts, now)),
    {
        seconds_to_day_hours_min_secs(self.seconds_old_at(now))
    }

    /// The age of the file in words, by the clock of the machine.
    pub fn age_display(&self) -> (r: String)
        ensures
            exists|now: i64| r@ == duration_text(age_at(self.ts, now)),
    {
        let now = current_timestamp();
        self.age_display_at(now)
    }

    /// The path of the file as seen from the root of the scan.
    pub fn file_display(&self, root_ref: &Option<EntryInfo>) -> (r: String)
        ensures
            r@ == relative_path_of(self.file.path@, root_text(*root_ref)),
    {
        path_to_relative_path(self.file.path.as_str(), root_path(root_ref))
    }

    /// The path of the file as seen from the root of the scan.
    pub fn relative_path(&self, root_ref: &Option<EntryInfo>) -> (r: String)
        ensures
            r@ == relative_path_of(self.file.path@, root_text(*root_ref)),
    {
        self.file_display(root_ref)
    }

    /// The directory of the file as seen from the root of the scan.
    pub fn relative_parent_path(&self, root_ref: &Option<EntryInfo>) -> (r: String)
        ensures
            r@ == relative_path_of(parent_text(self.file.path@), root_text(*root_ref)),
    {
        let parent = parent_path_string(self.file.path.as_str());
        path_to_relative_path(parent.as_str(), root_path(root_ref))
    }

    /// The components of the file's path below the root of the scan.
    pub fn relative_parts(&self, root_ref: &Option<EntryInfo>) -> (r: Vec<String>)
        ensures
            texts(r@) == self@.parts(*root_ref),
    {
        path_to_relative_parts(self.file.path.as_str(), root_path(root_ref))
    }

    /// The text of the directory that holds the file.
    pub fn directory_path_string(&self) -> (r: String)
        ensures
            r@ == parent_text(self.file.path@),
    {
        parent_path_string(self.file.path.as_str())
    }

    /// How many levels below the root of the scan the file lies.
    pub fn depth(&self) -> (r: usize)
        ensures
            r == self.file.depth,
    {
        self.file.depth
    }

    /// The day and time at which the file was last modified; empty
    /// where the calendar does not reach that moment.
    pub fn modified_display(&self) -> (r: String)
        ensures
            r@ == modified_text(self.ts),
    {
        if self.ts <= i64::MAX as u64 {
            match timestamp_display(self.ts as i64) {
                Some(text) => text,
                None => String::new(),
            }
        } else {
            String::new()
        }
    }
}

} // verus!
