//! What a walk through a directory tree reports of one entry.

use vstd::prelude::*;
use crate::paths::any_hidden;
use crate::paths::any_hidden_part;
use crate::paths::components;
use crate::paths::dir_excluded;
use crate::paths::names_excluded_dir;
use crate::paths::path_components;
use crate::paths::path_to_relative_parts;
use crate::paths::path_to_relative_path;
use crate::paths::relative_parts_of;
use crate::paths::relative_path_of;
use crate::text::texts;

verus! {

/// One entry of a walk, as plain values.
#[derive(Debug)]
pub struct EntryInfo {
    /// The path of the entry, from the root of the file system.
    pub path: String,
    /// The last component of the path.
    pub file_name: String,
    /// How many levels below the start of the walk the entry lies; the
    /// start itself has depth 0.
    pub depth: usize,
    pub is_dir: bool,
    /// The size in bytes; 0 where it could not be read.
    pub size: u64,
    /// When the entry was last modified, in seconds since 1970; 0
    /// where it could not be read.
    pub modified: u64,
    /// For a directory, the number of directories directly in it.
    pub num_subs: usize,
}

impl Clone for EntryInfo {
    fn clone(&self) -> (r: Self)
        ensures
            r == *self,
    {
        EntryInfo {
            path: self.path.clone(),
            file_name: self.file_name.clone(),
            depth: self.depth,
            is_dir: self.is_dir,
            size: self.size,
            modified: self.modified,
            num_subs: self.num_subs,
        }
    }
}

impl EntryInfo {
    /// The entry is what a walk reports of a file or a directory: its
    /// path has more components than its depth, its name is the last
    /// of them, and only a directory has directories in it.
    pub open spec fn wf(&self) -> bool {
        let parts = components(self.path@);
        &&& parts.len() > self.depth
        &&& self.file_name@ == parts.last()
        &&& !self.is_dir ==> self.num_subs == 0
    }

    /// The entry lies below `root` as deep as it says: its path
    /// begins with the components of the root, and has as many more
    /// as its depth.
    pub open spec fn below(&self, root: EntryInfo) -> bool {
        let own = components(self.path@);
        let top = components(root.path@);
        &&& top.is_prefix_of(own)
        &&& own.len() == top.len() + self.depth
    }

    /// Whether the entry is what a walk reports.
    pub fn is_wf(&self) -> (r: bool)
        ensures
            r == self.wf(),
    {
        let parts = path_components(self.path.as_str());
        let n: usize = parts.len();
        if n <= self.depth || (!self.is_dir && self.num_subs != 0) {
            return false;
        }
        assert(texts(parts@)[n - 1] == parts@[n - 1]@);
        self.file_name.as_str().eq(parts[n - 1].as_str())
    }

    /// Whether the entry lies below `root` as deep as it says.
    pub fn is_below(&self, root: &EntryInfo) -> (r: bool)
        ensures
            r == self.below(*root),
    {
        let own = path_components(self.path.as_str());
        let top = path_components(root.path.as_str());
        if own.len() < top.len() || own.len() - top.len() != self.depth {
            return false;
        }
        let mut i: usize = 0;
        while i < top.len()
            invariant
                i <= top.len() <= own.len(),
                texts(own@) == components(self.path@),
                texts(top@) == components(root.path@),
                texts(top@).take(i as int) == texts(own@).take(i as int),
            decreases top.len() - i,
        {
            assert(texts(top@)[i as int] == top@[i as int]@);
            assert(texts(own@)[i as int] == own@[i as int]@);
            if !top[i].as_str().eq(own[i].as_str()) {
                proof {
                    if texts(top@).is_prefix_of(texts(own@)) {
                        assert(texts(own@).subrange(0, top.len() as int)[i as int] == texts(
                            top@,
                        )[i as int]);
                    }
                }
                return false;
            }
            assert(texts(top@).take(i + 1) == texts(top@).take(i as int).push(top@[i as int]@));
            assert(texts(own@).take(i + 1) == texts(own@).take(i as int).push(own@[i as int]@));
            i += 1;
        }
        assert(texts(top@).take(top.len() as int) == texts(top@));
        true
    }
}

/// The path of the root of a walk, where there is one.
pub open spec fn root_text(root: Option<EntryInfo>) -> Option<Seq<char>> {
    match root {
        Some(e) => Some(e.path@),
        None => None,
    }
}

/// The path of the root of a walk, where there is one.
pub fn root_path(root: &Option<EntryInfo>) -> (r: Option<&str>)
    ensures
        match r {
            Some(p) => root_text(*root) == Some(p@),
            None => root_text(*root) is None,
        },
{
    match root {
        Some(e) => Some(e.path.as_str()),
        None => None,
    }
}

/// The components of the entry's path below the root.
pub fn to_relative_parts(current: &EntryInfo, root: &Option<EntryInfo>) -> (parts: Vec<String>)
    ensures
        texts(parts@) == relative_parts_of(current.path@, root_text(*root)),
{
    path_to_relative_parts(current.path.as_str(), root_path(root))
}

/// The entry's path as seen from the root.
pub fn to_relative_path(current: &EntryInfo, root: &Option<EntryInfo>) -> (r: String)
    ensures
        r@ == relative_path_of(current.path@, root_text(*root)),
{
    path_to_relative_path(current.path.as_str(), root_path(root))
}

/// No entry of `e_dirs` names the directory `resource`, or a directory
/// above the file `resource`.
pub fn is_not_excluded_dir(resource: &EntryInfo, e_dirs: &Vec<String>, root_ref: &Option<
    EntryInfo,
>) -> (r: bool)
    ensures
        r == !dir_excluded(texts(e_dirs@), relative_parts_of(resource.path@, root_text(*root_ref))),
{
    if e_dirs.len() > 0 {
        let dirs = to_relative_parts(resource, root_ref);
        !names_excluded_dir(e_dirs, &dirs)
    } else {
        true
    }
}

/// No component of the entry's path below the root begins with a dot.
pub fn is_not_in_hidden_dir(resource: &EntryInfo, root_ref: &Option<EntryInfo>) -> (r: bool)
    ensures
        r == !any_hidden(relative_parts_of(resource.path@, root_text(*root_ref))),
{
    let dirs = to_relative_parts(resource, root_ref);
    !any_hidden_part(&dirs)
}

} // verus!
