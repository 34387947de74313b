//! The files that a scan has found directly in one directory.

use vstd::prelude::*;
use crate::decimal::clamp_u64;
use crate::display::decimal_text;
use crate::display::plural_text;
use crate::display::pluralize_64;
use crate::display::push_decimal;
use crate::display::size_text;
use crate::display::smart_size;
use crate::entry::root_path;
use crate::entry::root_text;
use crate::entry::EntryInfo;
use crate::paths::dir_excluded;
use crate::paths::names_excluded_dir;
use crate::paths::path_text;
use crate::paths::path_to_relative_parts;
use crate::paths::path_to_relative_path;
use crate::paths::path_to_string;
use crate::paths::relative_parts_of;
use crate::paths::relative_path_of;
use crate::resource_row::ResourceRow;
use crate::resource_row::RowModel;
use crate::text::append_str;
use crate::text::text_of;
use crate::text::texts;

verus! {

/// The sizes of the files `rows`, added up.
pub open spec fn total_size(rows: Seq<RowModel>) -> nat
    decreases rows.len(),
{
    if rows.len() == 0 {
        0
    } else {
        total_size(rows.drop_last()) + rows.last().file.size as nat
    }
}

/// The total size of two runs of files is the sum of their totals.
pub proof fn lemma_total_size_concat(a: Seq<RowModel>, b: Seq<RowModel>)
    ensures
        total_size(a + b) == total_size(a) + total_size(b),
    decreases b.len(),
{
    if b.len() == 0 {
        assert(a + b == a);
    } else {
        assert((a + b).drop_last() == a + b.drop_last());
        assert((a + b).last() == b.last());
        lemma_total_size_concat(a, b.drop_last());
    }
}

/// `a + b`, or the largest `u64` where the sum is larger.
pub fn add_clamped(a: u64, b: u64) -> (r: u64)
    ensures
        r == clamp_u64((a + b) as nat),
{
    if a > u64::MAX - b {
        u64::MAX
    } else {
        a + b
    }
}

/// One directory of a scan with the files that were found in it.
#[derive(Debug)]
pub struct ResourceSet {
    /// The directory.
    pub parent: EntryInfo,
    /// The files, in the order in which the scan found them.
    pub resources: Vec<ResourceRow>,
    /// How many levels below the root of the scan the directory lies.
    pub depth: usize,
    /// The number of directories directly in this one.
    pub num_subs: usize,
}

/// The number of directories in a directory, in words.
pub open spec fn subdirs_text(num: usize) -> Seq<char> {
    if num > 0 {
        decimal_text(num as nat) + seq![' '] + plural_text("subdir"@, "s"@, num as u64)
    } else {
        "[no subdirs]"@
    }
}

/// The views of the rows, in order.
pub open spec fn row_views(rows: Seq<ResourceRow>) -> Seq<RowModel> {
    Seq::new(rows.len(), |i: int| rows[i]@)
}

/// A set as a mathematical value: the directory and the files in order.
pub ghost struct SetModel {
    pub parent: EntryInfo,
    pub rows: Seq<RowModel>,
    pub depth: usize,
    pub num_subs: usize,
}

/// The set of the directory `parent`, with no file yet.
pub open spec fn new_set(parent: EntryInfo) -> SetModel {
    SetModel { parent, rows: Seq::empty(), depth: parent.depth, num_subs: parent.num_subs }
}

impl View for ResourceSet {
    type V = SetModel;

    open spec fn view(&self) -> SetModel {
        SetModel {
            parent: self.parent,
            rows: row_views(self.resources@),
            depth: self.depth,
            num_subs: self.num_subs,
        }
    }
}

impl Clone for ResourceSet {
    fn clone(&self) -> (r: Self)
        ensures
            r@ == self@,
    {
        let mut resources: Vec<ResourceRow> = Vec::new();
        let mut i: usize = 0;
        while i < self.resources.len()
            invariant
                i <= self.resources.len(),
                resources@ == self.resources@.take(i as int),
            decreases self.resources.len() - i,
        {
            resources.push(self.resources[i].clone());
            i += 1;
        }
        assert(self.resources@.take(self.resources.len() as int) == self.resources@);
        assert(row_views(resources@) == row_views(self.resources@));
        ResourceSet {
            parent: self.parent.clone(),
            resources,
            depth: self.depth,
            num_subs: self.num_subs,
        }
    }
}

impl ResourceSet {
    /// The set of the directory `parent`, with no file yet.
    pub fn new(parent: &EntryInfo) -> (r: Self)
        ensures
            r@ == new_set(*parent),
    {
        let r = ResourceSet {
            parent: parent.clone(),
            resources: Vec::new(),
            depth: parent.depth,
            num_subs: parent.num_subs,
        };
        assert(r@.rows == Seq::<RowModel>::empty());
        r
    }

    /// Adds a file after those that are there.
    pub fn push(&mut self, resource: &ResourceRow)
        ensures
            final(self)@ == (SetModel { rows: old(self)@.rows.push(resource@), ..old(self)@ }),
    {
        self.resources.push(resource.clone());
        assert(self@.rows == old(self)@.rows.push(resource@));
    }

    /// The number of files.
    pub fn count(&self) -> (r: usize)
        ensures
            r == self@.rows.len(),
    {
        self.resources.len()
    }

    /// No entry of `e_dirs` names this directory.
    pub fn is_not_excluded_dir(&self, e_dirs: &Vec<String>, root_ref: &Option<EntryInfo>) -> (r:
        bool)
        ensures
            r == !dir_excluded(
                texts(e_dirs@),
                relative_parts_of(self.parent.path@, root_text(*root_ref)),
            ),
    {
        if e_dirs.len() > 0 {
            let dirs = path_to_relative_parts(self.parent.path.as_str(), root_path(root_ref));
            !names_excluded_dir(e_dirs, &dirs)
        } else {
            true
        }
    }

    /// The sizes of the files added up, at most `u64::MAX`.
    pub fn size(&self) -> (r: u64)
        ensures
            r == clamp_u64(total_size(self@.rows)),
    {
        let mut size: u64 = 0;
        let mut i: usize = 0;
        while i < self.resources.len()
            invariant
                i <= self.resources.len(),
                size == clamp_u64(total_size(self@.rows.take(i as int))),
            decreases self.resources.len() - i,
        {
            proof {
                let upto = self@.rows.take(i + 1);
                assert(upto.drop_last() == self@.rows.take(i as int));
                assert(upto.last() == self.resources@[i as int]@);
            }
            size = add_clamped(size, self.resources[i].size());
            i += 1;
        }
        assert(self@.rows.take(self.resources.len() as int) == self@.rows);
        size
    }

    /// The depth of the directory, at most 255.
    pub fn depth(&self) -> (r: u8)
        ensures
            r == if self.parent.depth > 255 {
                255
            } else {
                self.parent.depth as int
            },
    {
        if self.parent.depth > 255 {
            255
        } else {
            self.parent.depth as u8
        }
    }

    /// The path of the directory as seen from the root of the scan.
    pub fn path_display(&self, root_ref: &Option<EntryInfo>) -> (r: String)
        ensures
            r@ == relative_path_of(self.parent.path@, root_text(*root_ref)),
    {
        path_to_relative_path(self.parent.path.as_str(), root_path(root_ref))
    }

    /// The text of the directory's path.
    pub fn full_path_string(&self) -> (r: String)
        ensures
            r@ == path_text(self.parent.path@),
    {
        path_to_string(self.parent.path.as_str())
    }

    /// The total size of the files in words.
    pub fn smart_size(&self) -> (r: String)
        ensures
            r@ == size_text(clamp_u64(total_size(self@.rows))),
    {
        smart_size(self.size())
    }

    /// The number of directories in this one, in words.
    pub fn num_sub_dirs_display(&self) -> (r: String)
        ensures
            r@ == subdirs_text(self.num_subs),
    {
        let num = self.num_subs;
        if num > 0 {
            let word = pluralize_64("subdir", "s", num as u64);
            let mut acc: Vec<char> = Vec::new();
            push_decimal(&mut acc, num as u64);
            acc.push(' ');
            append_str(&mut acc, word.as_str());
            text_of(&acc)
        } else {
            "[no subdirs]".to_owned()
        }
    }
}

} // verus!
