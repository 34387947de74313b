//! All the directories of one scan with the files found in them, and
//! what can be said of the files as a whole.

use vstd::prelude::*;
use crate::decimal::clamp_u64;
use crate::display::decimal_text;
use crate::display::plural_text;
use crate::display::pluralize_64;
use crate::display::push_decimal;
use crate::display::size_text;
use crate::display::smart_size;
use crate::entry::EntryInfo;
use crate::errors::ScanError;
use crate::manage::settle;
use crate::manage::settled;
use crate::manage::Planned;
use crate::paths::parent_text;
use crate::paths::path_text;
use crate::resource_row::age_at;
use crate::resource_row::DetailLevel;
use crate::resource_row::opt_row;
use crate::resource_row::ResourceRow;
use crate::resource_row::RowModel;
use crate::resource_set::add_clamped;
use crate::resource_set::lemma_total_size_concat;
use crate::resource_set::total_size;
use crate::resource_set::ResourceSet;
use crate::resource_set::SetModel;
use crate::text::append_str;
use crate::text::text_of;

verus! {

/// The files of all the sets, set after set.
pub open spec fn flat_rows(sets: Seq<SetModel>) -> Seq<RowModel>
    decreases sets.len(),
{
    if sets.len() == 0 {
        Seq::empty()
    } else {
        flat_rows(sets.drop_last()) + sets.last().rows
    }
}

/// The sets with `row` added to the files of set `at`.
pub open spec fn attached(sets: Seq<SetModel>, at: int, row: RowModel) -> Seq<SetModel>
    recommends
        0 <= at < sets.len(),
{
    sets.update(at, SetModel { rows: sets[at].rows.push(row), ..sets[at] })
}

/// The place of the first set whose directory has the path text
/// `dir`; the number of sets where there is none.
pub open spec fn dir_position(sets: Seq<SetModel>, dir: Seq<char>) -> int
    decreases sets.len(),
{
    if sets.len() == 0 || path_text(sets[0].parent.path@) == dir {
        0
    } else {
        1 + dir_position(sets.skip(1), dir)
    }
}

/// The set that a file below the first level belongs to: the first one
/// whose directory holds the file. There is none while the tree has
/// one set or no set.
pub open spec fn home_of(sets: Seq<SetModel>, row: RowModel) -> Option<int> {
    let at = dir_position(sets, parent_text(row.file.path@));
    if sets.len() > 1 && at < sets.len() {
        Some(at)
    } else {
        None
    }
}

/// What the files are ordered by: their age at the moment `now`, or
/// their size.
pub open spec fn row_key(row: RowModel, by_age: bool, now: i64) -> u64 {
    if by_age {
        age_at(row.ts, now)
    } else {
        row.file.size
    }
}

/// The place of the first file with the largest key; -1 where there is
/// no file.
pub open spec fn first_largest(rows: Seq<RowModel>, by_age: bool, now: i64) -> int
    decreases rows.len(),
{
    if rows.len() == 0 {
        -1
    } else {
        let best = first_largest(rows.drop_last(), by_age, now);
        if best < 0 || row_key(rows.last(), by_age, now) > row_key(rows[best], by_age, now) {
            rows.len() - 1
        } else {
            best
        }
    }
}

/// The place of the first file with the smallest key; -1 where there
/// is no file.
pub open spec fn first_smallest(rows: Seq<RowModel>, by_age: bool, now: i64) -> int
    decreases rows.len(),
{
    if rows.len() == 0 {
        -1
    } else {
        let best = first_smallest(rows.drop_last(), by_age, now);
        if best < 0 || row_key(rows.last(), by_age, now) < row_key(rows[best], by_age, now) {
            rows.len() - 1
        } else {
            best
        }
    }
}

/// The file at place `at`, where there is one.
pub open spec fn picked(rows: Seq<RowModel>, at: int) -> Option<RowModel> {
    if 0 <= at < rows.len() {
        Some(rows[at])
    } else {
        None
    }
}

/// The number of sets whose directory lies directly below the root.
pub open spec fn first_level_count(sets: Seq<SetModel>) -> nat
    decreases sets.len(),
{
    if sets.len() == 0 {
        0
    } else if sets.last().parent.depth == 1 {
        first_level_count(sets.drop_last()) + 1
    } else {
        first_level_count(sets.drop_last())
    }
}

/// The depth that the scan has reached, as the report states it: 1 to
/// begin with, and one more than the depth of each set that lies
/// deeper than what was reached before it.
pub open spec fn reached_depth(sets: Seq<SetModel>) -> nat
    decreases sets.len(),
{
    if sets.len() == 0 {
        1
    } else {
        let before = reached_depth(sets.drop_last());
        if sets.last().depth > before {
            (sets.last().depth + 1) as nat
        } else {
            before
        }
    }
}

/// `n`, or the largest `usize` where `n` is larger.
pub open spec fn clamp_usize(n: nat) -> usize {
    if n > usize::MAX {
        usize::MAX
    } else {
        n as usize
    }
}

/// The places of the extremes lie among the files, and there are
/// extremes as soon as there is a file.
pub proof fn lemma_extremes_in_bounds(rows: Seq<RowModel>, by_age: bool, now: i64)
    ensures
        -1 <= first_largest(rows, by_age, now) < rows.len(),
        -1 <= first_smallest(rows, by_age, now) < rows.len(),
        rows.len() > 0 ==> first_largest(rows, by_age, now) >= 0 && first_smallest(
            rows,
            by_age,
            now,
        ) >= 0,
    decreases rows.len(),
{
    if rows.len() > 0 {
        lemma_extremes_in_bounds(rows.drop_last(), by_age, now);
    }
}

/// The first largest file is at least as large as every file, and
/// larger than every file before it; likewise the first smallest.
pub proof fn lemma_extremes(rows: Seq<RowModel>, by_age: bool, now: i64)
    requires
        rows.len() > 0,
    ensures
        ({
            let hi = first_largest(rows, by_age, now);
            let lo = first_smallest(rows, by_age, now);
            &&& 0 <= hi < rows.len()
            &&& 0 <= lo < rows.len()
            &&& forall|j: int|
                0 <= j < rows.len() ==> row_key(#[trigger] rows[j], by_age, now) <= row_key(
                    rows[hi],
                    by_age,
                    now,
                )
            &&& forall|j: int|
                0 <= j < hi ==> row_key(#[trigger] rows[j], by_age, now) < row_key(
                    rows[hi],
                    by_age,
                    now,
                )
            &&& forall|j: int|
                0 <= j < rows.len() ==> row_key(#[trigger] rows[j], by_age, now) >= row_key(
                    rows[lo],
                    by_age,
                    now,
                )
            &&& forall|j: int|
                0 <= j < lo ==> row_key(#[trigger] rows[j], by_age, now) > row_key(
                    rows[lo],
                    by_age,
                    now,
                )
        }),
    decreases rows.len(),
{
    let before = rows.drop_last();
    lemma_extremes_in_bounds(before, by_age, now);
    if before.len() > 0 {
        lemma_extremes(before, by_age, now);
        assert forall|j: int| 0 <= j < before.len() implies before[j] == rows[j] by {}
    }
}

/// The directories of one scan, in the order in which the scan came to
/// them, each with its files.
#[derive(Debug)]
pub struct ResourceTree {
    parent: Option<EntryInfo>,
    directories: Vec<ResourceSet>,
    max_depth: u8,
}

/// A tree as a mathematical value.
pub ghost struct TreeModel {
    /// The directory at which the scan began.
    pub root: Option<EntryInfo>,
    pub sets: Seq<SetModel>,
    /// How deep the scan may go.
    pub max_depth: u8,
}

impl View for ResourceTree {
    type V = TreeModel;

    closed spec fn view(&self) -> TreeModel {
        TreeModel {
            root: self.parent,
            sets: Seq::new(self.directories@.len(), |i: int| self.directories@[i]@),
            max_depth: self.max_depth,
        }
    }
}

impl Clone for ResourceTree {
    fn clone(&self) -> (r: Self)
        ensures
            r@ == self@,
    {
        let mut directories: Vec<ResourceSet> = Vec::new();
        let mut i: usize = 0;
        while i < self.directories.len()
            invariant
                i <= self.directories.len(),
                directories@.len() == i,
                forall|k: int| 0 <= k < i ==> (#[trigger] directories@[k])@ == self.directories@[k]@,
            decreases self.directories.len() - i,
        {
            directories.push(self.directories[i].clone());
            i += 1;
        }
        let r = ResourceTree {
            parent: match &self.parent {
                Some(root) => Some(root.clone()),
                None => None,
            },
            directories,
            max_depth: self.max_depth,
        };
        assert(r@.sets == self@.sets);
        r
    }
}

impl ResourceTree {
    /// All the files of the tree, set after set.
    pub open spec fn rows(&self) -> Seq<RowModel> {
        flat_rows(self@.sets)
    }

    /// The tree of a scan that has not begun.
    pub fn new(max_depth: u8) -> (r: Self)
        ensures
            r@ == (TreeModel { root: None, sets: Seq::empty(), max_depth }),
    {
        let r = ResourceTree { max_depth, parent: None, directories: Vec::new() };
        assert(r@.sets == Seq::<SetModel>::empty());
        r
    }

    /// The root of the scan, once its first directory was seen.
    pub fn root_ref(&self) -> (r: &Option<EntryInfo>)
        ensures
            *r == self@.root,
    {
        &self.parent
    }

    /// How deep the scan may go.
    pub fn depth_limit(&self) -> (r: u8)
        ensures
            r == self@.max_depth,
    {
        self.max_depth
    }

    /// The set at place `at`.
    pub fn directory(&self, at: usize) -> (r: &ResourceSet)
        requires
            at < self@.sets.len(),
        ensures
            r@ == self@.sets[at as int],
    {
        &self.directories[at]
    }

    /// The file at place `ri` of the set at place `si`.
    pub fn row(&self, si: usize, ri: usize) -> (r: &ResourceRow)
        requires
            si < self@.sets.len(),
            ri < self@.sets[si as int].rows.len(),
        ensures
            r@ == self@.sets[si as int].rows[ri as int],
    {
        &self.directories[si].resources[ri]
    }

    /// Records in the file at place `ri` of the set at place `si` how
    /// what was planned for it has ended. Fails with
    /// `PrimitiveFailure` exactly where something was to be done and
    /// it did not succeed; the tree is then as it was.
    pub fn settle_row(&mut self, si: usize, ri: usize, plan: &Planned, succeeded: bool) -> (r:
        Result<(), ScanError>)
        requires
            si < old(self)@.sets.len(),
            ri < old(self)@.sets[si as int].rows.len(),
        ensures
            final(self)@ == (TreeModel {
                sets: old(self)@.sets.update(
                    si as int,
                    SetModel {
                        rows: old(self)@.sets[si as int].rows.update(
                            ri as int,
                            settled(old(self)@.sets[si as int].rows[ri as int], *plan, succeeded),
                        ),
                        ..old(self)@.sets[si as int]
                    },
                ),
                ..old(self)@
            }),
            r is Err <==> !(plan is Keep) && !succeeded,
            r matches Err(e) ==> e == ScanError::PrimitiveFailure,
    {
        let r = settle(&mut self.directories[si].resources[ri], plan, succeeded);
        assert(self@.sets[si as int].rows == old(self)@.sets[si as int].rows.update(
            ri as int,
            settled(old(self)@.sets[si as int].rows[ri as int], *plan, succeeded),
        ));
        assert(self@.sets == old(self)@.sets.update(si as int, self@.sets[si as int]));
        r
    }

    /// The set of the root: the first one.
    pub fn parent_dir(&self) -> (r: Option<&ResourceSet>)
        ensures
            match r {
                Some(set) => self@.sets.len() > 0 && set@ == self@.sets[0],
                None => self@.sets.len() == 0,
            },
    {
        if self.directories.len() > 0 {
            Some(&self.directories[0])
        } else {
            None
        }
    }

    /// The place of the set that `row` belongs to by its directory.
    pub fn matched_sub_dir(&self, row: &ResourceRow) -> (r: Option<usize>)
        ensures
            match r {
                Some(at) => home_of(self@.sets, row@) == Some(at as int),
                None => home_of(self@.sets, row@) is None,
            },
    {
        if self.directories.len() > 1 {
            let full_path = row.directory_path_string();
            self.get_matched_sub(full_path)
        } else {
            None
        }
    }

    fn get_matched_sub(&self, full_path: String) -> (r: Option<usize>)
        ensures
            match r {
                Some(at) => at < self@.sets.len() && dir_position(self@.sets, full_path@) == at,
                None => dir_position(self@.sets, full_path@) >= self@.sets.len(),
            },
    {
        let mut i: usize = 0;
        assert(self@.sets.skip(0) == self@.sets);
        while i < self.directories.len()
            invariant
                i <= self.directories.len(),
                dir_position(self@.sets, full_path@) == i + dir_position(
                    self@.sets.skip(i as int),
                    full_path@,
                ),
            decreases self.directories.len() - i,
        {
            let here = self.directories[i].full_path_string();
            assert(self@.sets.skip(i as int)[0] == self.directories@[i as int]@);
            if here.as_str().eq(full_path.as_str()) {
                return Some(i);
            }
            assert(self@.sets.skip(i as int).skip(1) == self@.sets.skip(i + 1));
            i += 1;
        }
        None
    }

    /// Adds `row` to the set at place `at`.
    fn attach(&mut self, at: usize, row: &ResourceRow)
        requires
            at < old(self)@.sets.len(),
        ensures
            final(self)@ == (TreeModel {
                sets: attached(old(self)@.sets, at as int, row@),
                ..old(self)@
            }),
    {
        self.directories[at].push(row);
        assert(self@.sets == attached(old(self)@.sets, at as int, row@));
    }

    /// Adds `row` to the set of the root. Without a set, nothing is
    /// added.
    pub fn add_to_parent(&mut self, row: &ResourceRow)
        ensures
            final(self)@ == (TreeModel {
                sets: if old(self)@.sets.len() > 0 {
                    attached(old(self)@.sets, 0, row@)
                } else {
                    old(self)@.sets
                },
                ..old(self)@
            }),
    {
        if self.directories.len() > 0 {
            self.attach(0, row);
        }
    }

    /// Adds `row` to the set of the directory that holds it. Without
    /// such a set, nothing is added.
    pub fn add_to_sub(&mut self, row: &ResourceRow)
        ensures
            final(self)@ == (TreeModel {
                sets: match home_of(old(self)@.sets, row@) {
                    Some(at) => attached(old(self)@.sets, at, row@),
                    None => old(self)@.sets,
                },
                ..old(self)@
            }),
    {
        match self.matched_sub_dir(row) {
            Some(at) => {
                self.attach(at, row);
            },
            None => {},
        }
    }

    /// Makes `parent` the root of the scan.
    pub fn add_root(&mut self, parent: &EntryInfo)
        ensures
            final(self)@ == (TreeModel { root: Some(*parent), ..old(self)@ }),
    {
        self.parent = Some(parent.clone());
        assert(self@.sets == old(self)@.sets);
    }

    /// Adds a set after those that are there.
    pub fn push(&mut self, resource_set: &ResourceSet)
        ensures
            final(self)@ == (TreeModel {
                sets: old(self)@.sets.push(resource_set@),
                ..old(self)@
            }),
    {
        self.directories.push(resource_set.clone());
        assert(self@.sets == old(self)@.sets.push(resource_set@));
    }

    /// The number of sets.
    pub fn num_dirs(&self) -> (r: usize)
        ensures
            r == self@.sets.len(),
    {
        self.directories.len()
    }

    /// The number of sets whose directory lies directly below the root.
    pub fn num_sub_dirs(&self) -> (r: usize)
        ensures
            r == first_level_count(self@.sets),
    {
        let mut num: usize = 0;
        let mut i: usize = 0;
        while i < self.directories.len()
            invariant
                i <= self.directories.len(),
                num <= i,
                num == first_level_count(self@.sets.take(i as int)),
            decreases self.directories.len() - i,
        {
            proof {
                let upto = self@.sets.take(i + 1);
                assert(upto.drop_last() == self@.sets.take(i as int));
                assert(upto.last() == self.directories@[i as int]@);
            }
            if self.directories[i].depth() == 1 {
                num += 1;
            }
            i += 1;
        }
        assert(self@.sets.take(self.directories.len() as int) == self@.sets);
        num
    }

    /// The number of directories directly below the root, in words;
    /// nothing where there is none.
    pub fn num_sub_dirs_display(&self) -> (r: String)
        ensures
            r@ == if first_level_count(self@.sets) > 0 {
                decimal_text(first_level_count(self@.sets)) + seq![' '] + plural_text(
                    "subdir"@,
                    "s"@,
                    first_level_count(self@.sets) as u64,
                )
            } else {
                Seq::empty()
            },
    {
        let num = self.num_sub_dirs();
        let mut acc: Vec<char> = Vec::new();
        if num > 0 {
            let word = pluralize_64("subdir", "s", num as u64);
            push_decimal(&mut acc, num as u64);
            acc.push(' ');
            append_str(&mut acc, word.as_str());
        }
        text_of(&acc)
    }

    /// The sizes of all the files added up, at most `u64::MAX`.
    pub fn size(&self) -> (r: u64)
        ensures
            r == clamp_u64(total_size(self.rows())),
    {
        let mut size: u64 = 0;
        let mut i: usize = 0;
        while i < self.directories.len()
            invariant
                i <= self.directories.len(),
                size == clamp_u64(total_size(flat_rows(self@.sets.take(i as int)))),
            decreases self.directories.len() - i,
        {
            proof {
                let upto = self@.sets.take(i + 1);
                assert(upto.drop_last() == self@.sets.take(i as int));
                assert(upto.last() == self.directories@[i as int]@);
                lemma_total_size_concat(
                    flat_rows(self@.sets.take(i as int)),
                    self.directories@[i as int]@.rows,
                );
            }
            size = add_clamped(size, self.directories[i].size());
            i += 1;
        }
        assert(self@.sets.take(self.directories.len() as int) == self@.sets);
        size
    }

    /// The first smallest and the first largest file by the key.
    fn extremes(&self, by_age: bool, now: i64) -> (r: (Option<ResourceRow>, Option<ResourceRow>))
        ensures
            opt_row(r.0) == picked(self.rows(), first_smallest(self.rows(), by_age, now)),
            opt_row(r.1) == picked(self.rows(), first_largest(self.rows(), by_age, now)),
    {
        let mut min_row: Option<ResourceRow> = None;
        let mut max_row: Option<ResourceRow> = None;
        let mut min_val: u64 = 0;
        let mut max_val: u64 = 0;
        let ghost mut seen: Seq<RowModel> = Seq::empty();
        let mut si: usize = 0;
        while si < self.directories.len()
            invariant
                si <= self.directories.len(),
                seen == flat_rows(self@.sets.take(si as int)),
                opt_row(min_row) == picked(seen, first_smallest(seen, by_age, now)),
                opt_row(max_row) == picked(seen, first_largest(seen, by_age, now)),
                min_row matches Some(row) ==> min_val == row_key(row@, by_age, now),
                max_row matches Some(row) ==> max_val == row_key(row@, by_age, now),
            decreases self.directories.len() - si,
        {
            let set = &self.directories[si];
            let ghost base = seen;
            let mut ri: usize = 0;
            proof {
                let upto = self@.sets.take(si + 1);
                assert(upto.drop_last() == self@.sets.take(si as int));
                assert(upto.last() == set@);
                assert(base + set@.rows.take(0) == base);
            }
            while ri < set.resources.len()
                invariant
                    ri <= set.resources.len(),
                    seen == base + set@.rows.take(ri as int),
                    opt_row(min_row) == picked(seen, first_smallest(seen, by_age, now)),
                    opt_row(max_row) == picked(seen, first_largest(seen, by_age, now)),
                    min_row matches Some(row) ==> min_val == row_key(row@, by_age, now),
                    max_row matches Some(row) ==> max_val == row_key(row@, by_age, now),
                decreases set.resources.len() - ri,
            {
                let row = &set.resources[ri];
                let val: u64 = if by_age {
                    row.seconds_old_at(now)
                } else {
                    row.size()
                };
                proof {
                    let next = seen.push(row@);
                    lemma_extremes_in_bounds(seen, by_age, now);
                    assert(next.drop_last() == seen);
                    assert(next.last() == row@);
                    assert(set@.rows.take(ri + 1) == set@.rows.take(ri as int).push(row@));
                    assert(next == base + set@.rows.take(ri + 1));
                    seen = next;
                }
                if max_row.is_none() || val > max_val {
                    max_row = Some(row.clone());
                    max_val = val;
                }
                if min_row.is_none() || val < min_val {
                    min_row = Some(row.clone());
                    min_val = val;
                }
                ri += 1;
            }
            assert(set@.rows.take(set.resources.len() as int) == set@.rows);
            si += 1;
        }
        assert(self@.sets.take(self.directories.len() as int) == self@.sets);
        (min_row, max_row)
    }

    /// The smallest and the largest file; of several that are equally
    /// small or large, the one that the scan found first. Both are
    /// `None` exactly where the tree holds no file.
    pub fn get_min_max_files(&self) -> (r: (Option<ResourceRow>, Option<ResourceRow>))
        ensures
            opt_row(r.0) == picked(self.rows(), first_smallest(self.rows(), false, 0)),
            opt_row(r.1) == picked(self.rows(), first_largest(self.rows(), false, 0)),
    {
        self.extremes(false, 0)
    }

    /// The newest and the oldest file at the moment `now`; of several
    /// that are equally old, the one that the scan found first. Both
    /// are `None` exactly where the tree holds no file.
    pub fn get_oldest_newest_files_at(&self, now: i64) -> (r: (
        Option<ResourceRow>,
        Option<ResourceRow>,
    ))
        ensures
            opt_row(r.0) == picked(self.rows(), first_smallest(self.rows(), true, now)),
            opt_row(r.1) == picked(self.rows(), first_largest(self.rows(), true, now)),
    {
        self.extremes(true, now)
    }

    /// The newest and the oldest file by the clock of the machine.
    pub fn get_oldest_newest_files(&self) -> (r: (Option<ResourceRow>, Option<ResourceRow>))
        ensures
            exists|now: i64|
                opt_row(r.0) == picked(self.rows(), first_smallest(self.rows(), true, now))
                    && opt_row(r.1) == picked(self.rows(), first_largest(self.rows(), true, now)),
    {
        let now = crate::clock::current_timestamp();
        self.get_oldest_newest_files_at(now)
    }

    /// The number of files, at most `usize::MAX`.
    pub fn num_files(&self) -> (r: usize)
        ensures
            r == clamp_usize(self.rows().len()),
    {
        let mut num: usize = 0;
        let mut i: usize = 0;
        while i < self.directories.len()
            invariant
                i <= self.directories.len(),
                num == clamp_usize(flat_rows(self@.sets.take(i as int)).len()),
            decreases self.directories.len() - i,
        {
            proof {
                let upto = self@.sets.take(i + 1);
                assert(upto.drop_last() == self@.sets.take(i as int));
                assert(upto.last() == self.directories@[i as int]@);
            }
            let count = self.directories[i].count();
            num = if num > usize::MAX - count {
                usize::MAX
            } else {
                num + count
            };
            i += 1;
        }
        assert(self@.sets.take(self.directories.len() as int) == self@.sets);
        num
    }

    /// The depth that the scan has reached, as the report states it.
    pub fn max_depth_scanned(&self) -> (r: usize)
        ensures
            r == clamp_usize(reached_depth(self@.sets)),
    {
        let mut num: usize = 1;
        let mut i: usize = 0;
        while i < self.directories.len()
            invariant
                i <= self.directories.len(),
                num == clamp_usize(reached_depth(self@.sets.take(i as int))),
                reached_depth(self@.sets.take(i as int)) <= usize::MAX + 1,
            decreases self.directories.len() - i,
        {
            proof {
                let upto = self@.sets.take(i + 1);
                assert(upto.drop_last() == self@.sets.take(i as int));
                assert(upto.last() == self.directories@[i as int]@);
            }
            let depth = self.directories[i].depth;
            if depth > num {
                num = if depth == usize::MAX {
                    usize::MAX
                } else {
                    depth + 1
                };
            }
            i += 1;
        }
        assert(self@.sets.take(self.directories.len() as int) == self@.sets);
        num
    }

    /// The path of the root; empty before the scan has begun.
    pub fn path_display(&self) -> (r: String)
        ensures
            r@ == match self@.root {
                Some(root) => root.path@,
                None => Seq::empty(),
            },
    {
        match &self.parent {
            Some(root) => root.path.clone(),
            None => String::new(),
        }
    }

    /// The total size of all the files in words.
    pub fn smart_size(&self) -> (r: String)
        ensures
            r@ == size_text(clamp_u64(total_size(self.rows()))),
    {
        smart_size(self.size())
    }

    /// The report shows the set at place `at`: the scan has a root, the
    /// set lies above the depth limit, and it holds a file or empty
    /// directories are shown.
    pub fn shows(&self, at: usize, details: &DetailLevel) -> (r: bool)
        requires
            at < self@.sets.len(),
        ensures
            r == (self@.root is Some && self@.sets[at as int].parent.depth < self@.max_depth && (
            details.show_void_directories || self@.sets[at as int].rows.len() > 0)),
    {
        let set = &self.directories[at];
        self.parent.is_some() && set.depth() < self.max_depth && (details.show_void_directories
            || set.count() > 0)
    }
}

} // verus!
