//! The steps of a scan.
//!
//! A walk through the directory tree hands over its entries one by one.
//! A directory becomes a set of the tree, unless it is left out. A file
//! that matches the criteria is recorded in the set of its directory,
//! after what the criteria permit was done with it.

use vstd::prelude::*;
use crate::criteria::Criteria;
use crate::criteria::opt_text;
use crate::criteria::Permission;
use crate::entry::root_text;
use crate::errors::ScanError;
use crate::manage::plan_action;
use crate::manage::plan_is;
use crate::manage::settle;
use crate::manage::settled;
use crate::manage::Planned;
use crate::entry::EntryInfo;
use crate::paths::any_hidden;
use crate::paths::dir_excluded;
use crate::paths::relative_parts_of;
use crate::resource_row::name_ok;
use crate::resource_row::row_of;
use crate::resource_row::ResourceRow;
use crate::resource_row::RowModel;
use crate::resource_set::new_set;
use crate::resource_set::ResourceSet;
use crate::decimal::clamp_u64;
use crate::extension_stats::histogram;
use crate::paths::is_hidden_name;
use crate::paths::rooted;
use crate::paths::names_dir;
use crate::paths::separator_text;
use crate::resource_set::total_size;
use crate::resource_set::SetModel;
use crate::resource_tree::attached;
use crate::resource_tree::flat_rows;
use crate::resource_tree::home_of;
use crate::resource_tree::ResourceTree;
use crate::resource_tree::TreeModel;
use crate::text::texts;

verus! {

/// The tree after the scan has come to the directory `dir`.
///
/// The first directory becomes the root. Every directory gets a set,
/// unless an entry of `e_dirs` names it.
pub open spec fn after_dir(t: TreeModel, dir: EntryInfo, e_dirs: Seq<Seq<char>>) -> TreeModel {
    let root = if t.root is None {
        Some(dir)
    } else {
        t.root
    };
    let excluded = dir_excluded(e_dirs, relative_parts_of(dir.path@, root_text(root)));
    TreeModel {
        root,
        sets: if excluded {
            t.sets
        } else {
            t.sets.push(new_set(dir))
        },
        ..t
    }
}

/// The file lies in no directory that is left out, and in no hidden one
/// unless hidden files are shown.
pub open spec fn in_allowed_dir(row: RowModel, criteria: Criteria, root: Option<EntryInfo>)
    -> bool {
    !dir_excluded(texts(criteria.exclude_directories@), row.parts(root)) && (
    criteria.show_hidden || !any_hidden(row.parts(root)))
}

/// The tree after the file `row`, which matches, was recorded.
///
/// A file directly in the root goes to the first set. A file further
/// down goes to the set of the directory that holds it, if that
/// directory is allowed and has a set. Otherwise the tree stays as it
/// is.
pub open spec fn after_file(t: TreeModel, row: RowModel, criteria: Criteria) -> TreeModel {
    let sets = if row.file.depth < 2 {
        if t.sets.len() > 0 {
            attached(t.sets, 0, row)
        } else {
            t.sets
        }
    } else if in_allowed_dir(row, criteria, t.root) {
        match home_of(t.sets, row) {
            Some(at) => attached(t.sets, at, row),
            None => t.sets,
        }
    } else {
        t.sets
    };
    TreeModel { sets, ..t }
}

/// The tree after a scan that only lists has come to `entry` at the
/// moment `now`: a directory is taken in as by `after_dir`; a file is
/// recorded, untouched, if it matches the criteria. This is what a
/// scan does under criteria whose patterns are regular expressions;
/// under any other criteria a scan fails at its first file.
pub open spec fn after_entry(t: TreeModel, entry: EntryInfo, criteria: Criteria, now: i64)
    -> TreeModel {
    if entry.is_dir {
        after_dir(t, entry, texts(criteria.exclude_directories@))
    } else {
        let row = row_of(entry);
        if row.meets(criteria, t.root, now, name_ok(entry.file_name@, criteria)) {
            after_file(t, row, criteria)
        } else {
            t
        }
    }
}

/// The tree of a scan that only lists, after the entries `entries` in
/// this order.
pub open spec fn listing(entries: Seq<EntryInfo>, criteria: Criteria, now: i64) -> TreeModel
    decreases entries.len(),
{
    if entries.len() == 0 {
        TreeModel { root: None, sets: Seq::empty(), max_depth: criteria.max_depth }
    } else {
        after_entry(listing(entries.drop_last(), criteria, now), entries.last(), criteria, now)
    }
}

/// What the caller of a scan has to do for one entry of the walk.
#[derive(Debug)]
pub enum Step {
    /// Nothing: the entry was a directory, and it was taken in.
    Dir,
    /// Nothing: the entry was a file that does not match.
    Skip,
    /// The entry was a file that matches: carry out what is planned
    /// for it and hand the outcome to `finish`.
    Act(ResourceRow, Planned),
}

impl ResourceTree {
    /// Takes one entry of the walk. A directory is taken into the
    /// tree. A file leaves the tree as it is: if it matches the
    /// criteria at the moment `now`, its row is handed out with what
    /// the criteria permit to do with it. Fails with `InvalidPattern`
    /// exactly where the entry is a file and one of the patterns of
    /// the criteria is no regular expression.
    pub fn step(
        &mut self,
        entry: &EntryInfo,
        criteria: &Criteria,
        target: &Option<String>,
        now: i64,
    ) -> (r: Result<Step, ScanError>)
        ensures
            final(self)@ == if entry.is_dir {
                after_dir(old(self)@, *entry, texts(criteria.exclude_directories@))
            } else {
                old(self)@
            },
            r is Err <==> !entry.is_dir && !criteria.patterns_valid(),
            r matches Err(e) ==> e == ScanError::InvalidPattern,
            r matches Ok(next) ==> match next {
                Step::Dir => entry.is_dir,
                Step::Skip => !entry.is_dir && !row_of(*entry).meets(
                    *criteria,
                    old(self)@.root,
                    now,
                    name_ok(entry.file_name@, *criteria),
                ),
                Step::Act(row, plan) => !entry.is_dir && row@ == row_of(*entry) && row@.meets(
                    *criteria,
                    old(self)@.root,
                    now,
                    name_ok(entry.file_name@, *criteria),
                ) && plan_is(plan, criteria.may, opt_text(*target), row@, old(self)@.root),
            },
    {
        if entry.is_dir {
            self.visit_dir(entry, criteria);
            Ok(Step::Dir)
        } else {
            let row = ResourceRow::new(entry);
            match row.matches_criteria_at(criteria, self.root_ref(), now) {
                Ok(true) => {
                    let plan = plan_action(&row, criteria, target, self.root_ref());
                    Ok(Step::Act(row, plan))
                },
                Ok(false) => Ok(Step::Skip),
                Err(e) => Err(e),
            }
        }
    }

    /// Records the file `row` after what was planned for it was
    /// tried. Fails with `PrimitiveFailure` exactly where something
    /// was to be done and it did not succeed; the file is recorded all
    /// the same, as it was.
    pub fn finish(
        &mut self,
        row: ResourceRow,
        plan: &Planned,
        succeeded: bool,
        criteria: &Criteria,
    ) -> (r: Result<(), ScanError>)
        ensures
            final(self)@ == after_file(old(self)@, settled(row@, *plan, succeeded), *criteria),
            r is Err <==> !(plan is Keep) && !succeeded,
            r matches Err(e) ==> e == ScanError::PrimitiveFailure,
    {
        let mut row = row;
        let r = settle(&mut row, plan, succeeded);
        self.record(&row, criteria);
        r
    }

    /// Takes in the directory `dir` that the scan has come to. Says
    /// whether it got a set.
    pub fn visit_dir(&mut self, dir: &EntryInfo, criteria: &Criteria) -> (pushed: bool)
        ensures
            final(self)@ == after_dir(old(self)@, *dir, texts(criteria.exclude_directories@)),
            pushed == (final(self)@.sets.len() == old(self)@.sets.len() + 1),
    {
        if self.root_ref().is_none() {
            self.add_root(dir);
        }
        let r_set = ResourceSet::new(dir);
        let not_excluded = r_set.is_not_excluded_dir(
            &criteria.exclude_directories,
            self.root_ref(),
        );
        if not_excluded {
            self.push(&r_set);
        }
        not_excluded
    }

    /// Records the file `row`, which matches the criteria.
    pub fn record(&mut self, row: &ResourceRow, criteria: &Criteria)
        ensures
            final(self)@ == after_file(old(self)@, row@, *criteria),
    {
        if row.depth() < 2 {
            self.add_to_parent(row);
        } else if row.is_not_in_excluded_dir(criteria, self.root_ref()) {
            self.add_to_sub(row);
        }
    }

    /// One step of a scan that only lists. Fails with
    /// `InvalidPattern` exactly where the entry is a file and one of
    /// the patterns of the criteria is no regular expression; the
    /// tree is then as it was.
    pub fn list_entry(&mut self, entry: &EntryInfo, criteria: &Criteria, now: i64) -> (r: Result<
        (),
        ScanError,
    >)
        ensures
            r is Err <==> !entry.is_dir && !criteria.patterns_valid(),
            r matches Err(e) ==> e == ScanError::InvalidPattern,
            final(self)@ == if r is Ok {
                after_entry(old(self)@, *entry, *criteria, now)
            } else {
                old(self)@
            },
    {
        if entry.is_dir {
            self.visit_dir(entry, criteria);
            Ok(())
        } else {
            let row = ResourceRow::new(entry);
            match row.matches_criteria_at(criteria, self.root_ref(), now) {
                Ok(found) => {
                    if found {
                        self.record(&row, criteria);
                    }
                    Ok(())
                },
                Err(e) => Err(e),
            }
        }
    }

    /// The tree of a scan that only lists, from the entries of a walk
    /// in the order of the walk. Fails with `InvalidPattern` exactly
    /// where one of the patterns of the criteria is no regular
    /// expression, before any entry is looked at.
    pub fn list(entries: &Vec<EntryInfo>, criteria: &Criteria, now: i64) -> (r: Result<
        ResourceTree,
        ScanError,
    >)
        ensures
            r is Err <==> !criteria.patterns_valid(),
            r matches Err(e) ==> e == ScanError::InvalidPattern,
            r matches Ok(tree) ==> tree@ == listing(entries@, *criteria, now),
    {
        if !criteria.has_valid_patterns() {
            return Err(ScanError::InvalidPattern);
        }
        let mut tree = ResourceTree::new(criteria.max_depth);
        let mut i: usize = 0;
        assert(entries@.take(0).len() == 0);
        while i < entries.len()
            invariant
                i <= entries.len(),
                criteria.patterns_valid(),
                tree@ == listing(entries@.take(i as int), *criteria, now),
            decreases entries.len() - i,
        {
            proof {
                let upto = entries@.take(i + 1);
                assert(upto.drop_last() == entries@.take(i as int));
                assert(upto.last() == entries@[i as int]);
            }
            match tree.list_entry(&entries[i], criteria, now) {
                Ok(()) => {},
                Err(e) => {
                    return Err(e);
                },
            }
            i += 1;
        }
        assert(entries@.take(entries.len() as int) == entries@);
        Ok(tree)
    }
}

/// The file was neither moved, nor copied, nor removed.
pub open spec fn is_untouched(row: RowModel) -> bool {
    row.move_target is None && !row.deleted
}

/// No file of the sets was moved, copied or removed.
pub open spec fn untouched(sets: Seq<SetModel>) -> bool {
    forall|si: int, ri: int|
        0 <= si < sets.len() && 0 <= ri < sets[si].rows.len() ==> is_untouched(
            #[trigger] sets[si].rows[ri],
        )
}

/// The first set is the set of the root.
pub open spec fn rooted_at_first(t: TreeModel) -> bool {
    t.sets.len() > 0 ==> t.root == Some(t.sets[0].parent)
}

/// The place of a directory among the sets is a place, or the number
/// of sets.
pub proof fn lemma_dir_position_bounds(sets: Seq<SetModel>, dir: Seq<char>)
    ensures
        0 <= crate::resource_tree::dir_position(sets, dir) <= sets.len(),
    decreases sets.len(),
{
    if sets.len() > 0 && crate::paths::path_text(sets[0].parent.path@) != dir {
        lemma_dir_position_bounds(sets.skip(1), dir);
    }
}

/// Recording a file that was not touched leaves the files untouched.
pub proof fn lemma_attached_untouched(sets: Seq<SetModel>, at: int, row: RowModel)
    requires
        untouched(sets),
        0 <= at < sets.len(),
        is_untouched(row),
    ensures
        untouched(attached(sets, at, row)),
{
    let after = attached(sets, at, row);
    assert forall|si: int, ri: int|
        0 <= si < after.len() && 0 <= ri < after[si].rows.len() implies is_untouched(
        #[trigger] after[si].rows[ri],
    ) by {
        if si != at {
            assert(after[si].rows[ri] == sets[si].rows[ri]);
        } else if ri < sets[si].rows.len() {
            assert(after[si].rows[ri] == sets[si].rows[ri]);
        } else {
            assert(after[si].rows[ri] == row);
        }
    }
}

/// One step of a scan that only lists leaves the files untouched.
pub proof fn lemma_after_entry_untouched(
    t: TreeModel,
    entry: EntryInfo,
    criteria: Criteria,
    now: i64,
)
    requires
        untouched(t.sets),
    ensures
        untouched(after_entry(t, entry, criteria, now).sets),
{
    let after = after_entry(t, entry, criteria, now);
    if entry.is_dir {
        if after.sets != t.sets {
            let pushed = t.sets.push(new_set(entry));
            assert(after.sets == pushed);
            assert forall|si: int, ri: int|
                0 <= si < pushed.len() && 0 <= ri < pushed[si].rows.len() implies is_untouched(
                #[trigger] pushed[si].rows[ri],
            ) by {
                if si < t.sets.len() {
                    assert(pushed[si].rows[ri] == t.sets[si].rows[ri]);
                }
            }
        }
    } else {
        let row = row_of(entry);
        if after.sets != t.sets {
            if row.file.depth < 2 {
                lemma_attached_untouched(t.sets, 0, row);
            } else {
                lemma_dir_position_bounds(t.sets, crate::paths::parent_text(row.file.path@));
                let at = home_of(t.sets, row)->0;
                lemma_attached_untouched(t.sets, at, row);
            }
        }
    }
}

/// A scan that only lists touches no file: every file of its tree is
/// recorded as neither moved, nor copied, nor removed.
pub proof fn lemma_listing_untouched(entries: Seq<EntryInfo>, criteria: Criteria, now: i64)
    ensures
        untouched(listing(entries, criteria, now).sets),
    decreases entries.len(),
{
    if entries.len() > 0 {
        lemma_listing_untouched(entries.drop_last(), criteria, now);
        lemma_after_entry_untouched(
            listing(entries.drop_last(), criteria, now),
            entries.last(),
            criteria,
            now,
        );
    }
}

/// Without a bound on the age, one step of a scan that only lists
/// does not depend on the moment.
pub proof fn lemma_after_entry_timeless(
    t: TreeModel,
    entry: EntryInfo,
    criteria: Criteria,
    now: i64,
    later: i64,
)
    requires
        criteria.min_age == 0,
        criteria.max_age == 0,
    ensures
        after_entry(t, entry, criteria, now) == after_entry(t, entry, criteria, later),
{
}

/// Without a bound on the age, the tree of a scan that only lists
/// does not depend on the moment of the scan.
pub proof fn lemma_listing_timeless(
    entries: Seq<EntryInfo>,
    criteria: Criteria,
    now: i64,
    later: i64,
)
    requires
        criteria.min_age == 0,
        criteria.max_age == 0,
    ensures
        listing(entries, criteria, now) == listing(entries, criteria, later),
    decreases entries.len(),
{
    if entries.len() > 0 {
        lemma_listing_timeless(entries.drop_last(), criteria, now, later);
        lemma_after_entry_timeless(
            listing(entries.drop_last(), criteria, now),
            entries.last(),
            criteria,
            now,
            later,
        );
    }
}

/// Two scans that only list, over the same entries, give the same
/// report, if they are made at the same moment or the criteria set no
/// bound on the age: the same files in the same sets, and so the same
/// number of files, the same total size and the same statistics by
/// extension. No file is touched by either.
pub proof fn lemma_listing_repeatable(
    first: ResourceTree,
    second: ResourceTree,
    entries: Seq<EntryInfo>,
    criteria: Criteria,
    now: i64,
    later: i64,
)
    requires
        first@ == listing(entries, criteria, now),
        second@ == listing(entries, criteria, later),
        now == later || (criteria.min_age == 0 && criteria.max_age == 0),
    ensures
        first@ == second@,
        first.rows() == second.rows(),
        first.rows().len() == second.rows().len(),
        clamp_u64(total_size(first.rows())) == clamp_u64(total_size(second.rows())),
        histogram(first.rows()) == histogram(second.rows()),
        untouched(first@.sets),
        untouched(second@.sets),
{
    lemma_listing_untouched(entries, criteria, now);
    if now != later {
        lemma_listing_timeless(entries, criteria, now, later);
    }
}

/// An entry that names the root of a scan names every directory: the
/// root is named by the path `/` alone, which every path from the root
/// begins with.
pub proof fn lemma_root_excluded(tokens: Seq<Seq<char>>, dirs: Seq<Seq<char>>)
    requires
        dir_excluded(tokens, Seq::empty()),
    ensures
        dir_excluded(tokens, dirs),
{
    let i = choose|i: int| 0 <= i < tokens.len() && names_dir(#[trigger] tokens[i], Seq::empty());
    let token = tokens[i];
    let none = Seq::<Seq<char>>::empty();
    assert(!none.contains(token));
    assert(rooted(none) =~= separator_text());
    assert(token.len() == 1);
    assert(token =~= rooted(dirs).subrange(0, 1));
    assert(names_dir(tokens[i], dirs));
}

/// The first set is the set of the root; there is no set without a
/// root; and where there is a root without a set, the root is left
/// out.
pub open spec fn well_rooted(t: TreeModel, tokens: Seq<Seq<char>>) -> bool {
    &&& rooted_at_first(t)
    &&& t.root is None ==> t.sets.len() == 0
    &&& t.sets.len() == 0 && t.root is Some ==> dir_excluded(tokens, Seq::empty())
}

/// Taking in a directory keeps the tree well rooted.
pub proof fn lemma_after_dir_rooted(t: TreeModel, dir: EntryInfo, tokens: Seq<Seq<char>>)
    requires
        well_rooted(t, tokens),
    ensures
        well_rooted(after_dir(t, dir, tokens), tokens),
{
    let after = after_dir(t, dir, tokens);
    if t.root is None {
        lemma_own_parts_empty(dir.path@);
        assert(after.root == Some(dir));
        assert(root_text(after.root) == Some(dir.path@));
        if !dir_excluded(tokens, Seq::empty()) {
            assert(after.sets == t.sets.push(new_set(dir)));
            assert(after.sets[0].parent == dir);
        }
    } else {
        assert(after.root == t.root);
        if t.sets.len() == 0 {
            lemma_root_excluded(tokens, relative_parts_of(dir.path@, root_text(t.root)));
            assert(after.sets == t.sets);
        } else if after.sets != t.sets {
            assert(after.sets == t.sets.push(new_set(dir)));
            assert(after.sets[0] == t.sets[0]);
        }
    }
}

/// Recording a file keeps the tree well rooted.
pub proof fn lemma_after_file_rooted(t: TreeModel, row: RowModel, criteria: Criteria)
    requires
        well_rooted(t, texts(criteria.exclude_directories@)),
    ensures
        well_rooted(after_file(t, row, criteria), texts(criteria.exclude_directories@)),
{
    let after = after_file(t, row, criteria);
    assert(after.root == t.root);
    if after.sets != t.sets {
        if row.file.depth < 2 {
            assert(after.sets == attached(t.sets, 0, row));
        } else {
            lemma_dir_position_bounds(t.sets, crate::paths::parent_text(row.file.path@));
            let at = home_of(t.sets, row)->0;
            assert(after.sets == attached(t.sets, at, row));
        }
        assert(after.sets.len() == t.sets.len());
        assert(after.sets[0].parent == t.sets[0].parent);
    }
}

/// One step of a scan that only lists keeps the tree well rooted.
pub proof fn lemma_after_entry_rooted(t: TreeModel, entry: EntryInfo, criteria: Criteria, now: i64)
    requires
        well_rooted(t, texts(criteria.exclude_directories@)),
    ensures
        well_rooted(after_entry(t, entry, criteria, now), texts(criteria.exclude_directories@)),
{
    if entry.is_dir {
        lemma_after_dir_rooted(t, entry, texts(criteria.exclude_directories@));
    } else {
        lemma_after_file_rooted(t, row_of(entry), criteria);
    }
}

/// In the tree of a scan that only lists, the first set is the set of
/// the directory at which the walk began: the root is the first
/// directory of the walk, and a root that is left out leaves every
/// directory out.
pub proof fn lemma_listing_rooted(entries: Seq<EntryInfo>, criteria: Criteria, now: i64)
    ensures
        well_rooted(listing(entries, criteria, now), texts(criteria.exclude_directories@)),
    decreases entries.len(),
{
    if entries.len() > 0 {
        lemma_listing_rooted(entries.drop_last(), criteria, now);
        lemma_after_entry_rooted(
            listing(entries.drop_last(), criteria, now),
            entries.last(),
            criteria,
            now,
        );
    }
}

/// Seen from itself, a path has no components.
pub proof fn lemma_own_parts_empty(path: Seq<char>)
    ensures
        relative_parts_of(path, Some(path)) == Seq::<Seq<char>>::empty(),
{
    lemma_beyond_self(crate::paths::components(path), crate::paths::components(path));
}

/// The components of a path that are not components of a longer path
/// which begins with it: none.
pub proof fn lemma_beyond_self(current: Seq<Seq<char>>, root: Seq<Seq<char>>)
    requires
        current.is_prefix_of(root),
    ensures
        crate::paths::beyond_root(current, root) == Seq::<Seq<char>>::empty(),
    decreases current.len(),
{
    if current.len() > 0 {
        assert(current.drop_last().is_prefix_of(root));
        lemma_beyond_self(current.drop_last(), root);
    }
}

/// The first directory among the entries: the root of their scan.
pub open spec fn first_dir(entries: Seq<EntryInfo>) -> Option<EntryInfo>
    decreases entries.len(),
{
    if entries.len() == 0 {
        None
    } else if first_dir(entries.drop_last()) is Some {
        first_dir(entries.drop_last())
    } else if entries.last().is_dir {
        Some(entries.last())
    } else {
        None
    }
}

/// The directories among the entries that no entry of `tokens` names,
/// in order.
pub open spec fn kept_dirs(entries: Seq<EntryInfo>, tokens: Seq<Seq<char>>) -> Seq<EntryInfo>
    decreases entries.len(),
{
    if entries.len() == 0 {
        Seq::empty()
    } else {
        let before = kept_dirs(entries.drop_last(), tokens);
        let dir = entries.last();
        if dir.is_dir && !dir_excluded(
            tokens,
            relative_parts_of(dir.path@, root_text(first_dir(entries))),
        ) {
            before.push(dir)
        } else {
            before
        }
    }
}

/// The sets are the sets of the directories `dirs`, in order.
pub open spec fn sets_of(sets: Seq<SetModel>, dirs: Seq<EntryInfo>) -> bool {
    &&& sets.len() == dirs.len()
    &&& forall|i: int| 0 <= i < sets.len() ==> (#[trigger] sets[i]).parent == dirs[i]
}

/// The tree of a scan that only lists has exactly one set for each
/// directory of the walk that is not left out, in the order of the
/// walk; and its root is the first directory of the walk.
pub proof fn lemma_listing_sets(entries: Seq<EntryInfo>, criteria: Criteria, now: i64)
    ensures
        listing(entries, criteria, now).root == first_dir(entries),
        sets_of(
            listing(entries, criteria, now).sets,
            kept_dirs(entries, texts(criteria.exclude_directories@)),
        ),
    decreases entries.len(),
{
    if entries.len() > 0 {
        lemma_listing_sets(entries.drop_last(), criteria, now);
        let tokens = texts(criteria.exclude_directories@);
        let before = listing(entries.drop_last(), criteria, now);
        let after = listing(entries, criteria, now);
        let dirs = kept_dirs(entries.drop_last(), tokens);
        let entry = entries.last();
        if entry.is_dir {
            assert(after == after_dir(before, entry, tokens));
            if after.sets != before.sets {
                assert(after.sets == before.sets.push(new_set(entry)));
                assert forall|i: int| 0 <= i < after.sets.len() implies (
                #[trigger] after.sets[i]).parent == dirs.push(entry)[i] by {
                    if i < before.sets.len() {
                        assert(after.sets[i] == before.sets[i]);
                    }
                }
            }
        } else {
            let row = row_of(entry);
            if after.sets != before.sets {
                if row.file.depth < 2 {
                    assert(after.sets == attached(before.sets, 0, row));
                } else {
                    lemma_dir_position_bounds(
                        before.sets,
                        crate::paths::parent_text(row.file.path@),
                    );
                    let at = home_of(before.sets, row)->0;
                    assert(after.sets == attached(before.sets, at, row));
                }
                assert forall|i: int| 0 <= i < after.sets.len() implies (
                #[trigger] after.sets[i]).parent == dirs[i] by {
                    assert(after.sets[i].parent == before.sets[i].parent);
                }
            }
        }
    }
}

/// Without a permission a scan only lists: whatever the caller
/// reports of the file operations, a step and its finish leave the
/// tree as one step of a listing does, and the file untouched.
pub proof fn lemma_unpermitted_step_lists(
    t: TreeModel,
    entry: EntryInfo,
    criteria: Criteria,
    target: Option<Seq<char>>,
    plan: Planned,
    succeeded: bool,
    now: i64,
)
    requires
        criteria.may == Permission::Nothing,
        !entry.is_dir,
        row_of(entry).meets(criteria, t.root, now, name_ok(entry.file_name@, criteria)),
        plan_is(plan, criteria.may, target, row_of(entry), t.root),
    ensures
        plan is Keep,
        settled(row_of(entry), plan, succeeded) == row_of(entry),
        after_file(t, settled(row_of(entry), plan, succeeded), criteria) == after_entry(
            t,
            entry,
            criteria,
            now,
        ),
{
}

/// The two rules by which a file finds its set agree on a file
/// directly in the root: the set of the directory that holds it is the
/// first set, that of the root.
pub proof fn lemma_first_level_home(t: TreeModel, root: EntryInfo, row: RowModel)
    requires
        t.root == Some(root),
        t.sets.len() > 0,
        rooted_at_first(t),
        row.file.below(root),
        row.file.depth == 1,
    ensures
        crate::paths::parent_text(row.file.path@) == crate::paths::path_text(root.path@),
        crate::resource_tree::dir_position(t.sets, crate::paths::parent_text(row.file.path@))
            == 0,
        t.sets.len() > 1 ==> home_of(t.sets, row) == Some(0int),
{
    let own = crate::paths::components(row.file.path@);
    let top = crate::paths::components(root.path@);
    assert(own.drop_last() =~= top);
    assert(t.sets[0].parent == root);
}

} // verus!
