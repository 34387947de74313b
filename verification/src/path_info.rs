//! The place that a scan is asked to look at.
//!
//! The caller names a directory, or a file pattern in a directory. What
//! the file system says of the path and of its parent is handed in as
//! plain values.

use vstd::prelude::*;
use crate::criteria::opt_text;
use crate::paths::file_name_of;
use crate::paths::full_path;
use crate::paths::head_of;
use crate::paths::is_full_path;
use crate::paths::parse_expanded_path_args;
use crate::paths::path_string_to_file_name;
use crate::paths::path_string_to_head;
use crate::paths::SEPARATOR;
use crate::text::append_str;
use crate::text::chars_of;
use crate::text::join_with;
use crate::text::text_of;

verus! {

/// What the file system says of one path.
#[derive(Debug)]
pub struct PathProbe {
    pub exists: bool,
    pub is_dir: bool,
    /// The path without links and relative steps; empty where it
    /// could not be had.
    pub canonical: String,
}

/// Where a scan looks.
#[derive(Debug)]
pub struct PathInfo {
    /// The directory to scan.
    pub path: String,
    /// The directory without links and relative steps; empty where
    /// there is no such directory.
    pub canonical: String,
    /// The directory exists.
    pub exists: bool,
    /// The path as the caller wrote it.
    pub input: String,
    /// The file pattern that the path ended with, where it named no
    /// directory.
    pub pattern: Option<String>,
}

impl Clone for PathProbe {
    fn clone(&self) -> (r: Self)
        ensures
            r == *self,
    {
        PathProbe { exists: self.exists, is_dir: self.is_dir, canonical: self.canonical.clone() }
    }
}

impl Clone for PathInfo {
    fn clone(&self) -> (r: Self)
        ensures
            r == *self,
    {
        PathInfo {
            path: self.path.clone(),
            canonical: self.canonical.clone(),
            exists: self.exists,
            input: self.input.clone(),
            pattern: self.pattern.clone(),
        }
    }
}

/// The path names a file pattern in its parent: it is no directory,
/// and it is not empty.
pub open spec fn names_pattern(input: Seq<char>, own: PathProbe) -> bool {
    !own.is_dir && input.len() > 0
}

impl PathInfo {
    /// The place that the path `in_str` names, given what the file
    /// system says of it and of its parent, `head_of(in_str)`.
    ///
    /// A path that is a directory is the place itself. Of any other
    /// path the parent is the place, and the last piece is the pattern
    /// if it is not empty; the place exists where the parent is a
    /// directory.
    pub fn new(in_str: &str, own: &PathProbe, parent: &PathProbe) -> (r: Self)
        ensures
            r.input@ == in_str@,
            r.path@ == if names_pattern(in_str@, *own) {
                head_of(in_str@)
            } else {
                in_str@
            },
            opt_text(r.pattern) == if names_pattern(in_str@, *own) && file_name_of(in_str@).len()
                > 0 {
                Some(file_name_of(in_str@))
            } else {
                None
            },
            r.exists == if names_pattern(in_str@, *own) {
                parent.exists && parent.is_dir
            } else {
                own.exists
            },
            r.canonical@ == if !r.exists {
                Seq::empty()
            } else if names_pattern(in_str@, *own) {
                parent.canonical@
            } else {
                own.canonical@
            },
    {
        let input = in_str.to_owned();
        if !own.is_dir && !in_str.is_empty() {
            let name = path_string_to_file_name(in_str);
            let pattern = if !name.as_str().is_empty() {
                Some(name)
            } else {
                None
            };
            let exists = parent.exists && parent.is_dir;
            PathInfo {
                path: path_string_to_head(in_str),
                canonical: if exists {
                    parent.canonical.clone()
                } else {
                    String::new()
                },
                exists,
                input,
                pattern,
            }
        } else {
            PathInfo {
                path: in_str.to_owned(),
                canonical: if own.exists {
                    own.canonical.clone()
                } else {
                    String::new()
                },
                exists: own.exists,
                input,
                pattern: None,
            }
        }
    }

    /// No place at all.
    pub fn new_empty() -> (r: Self)
        ensures
            r.path@.len() == 0,
            r.canonical@.len() == 0,
            !r.exists,
            r.input@.len() == 0,
            r.pattern is None,
    {
        PathInfo {
            path: String::new(),
            canonical: String::new(),
            exists: false,
            input: String::new(),
            pattern: None,
        }
    }
}

/// The one path that the path arguments stand for: the single
/// argument, or the pattern for several; the current directory itself
/// where there is none.
pub open spec fn single_arg(paths: Option<Seq<String>>) -> Seq<char> {
    match paths {
        None => seq!['.'],
        Some(p) => if p.len() > 1 {
            head_of(p[0]@) + seq!['('] + join_with(
                Seq::new(p.len(), |i: int| file_name_of(p[i]@)),
                seq!['|'],
            ) + seq![')']
        } else if p.len() == 1 {
            p[0]@
        } else {
            Seq::empty()
        },
    }
}

/// The path to look at, written from the root: the argument itself
/// where it is written from the root or from the home directory, the
/// current directory where the argument is empty, and otherwise the
/// argument below the current directory.
pub open spec fn absolute_arg(arg: Seq<char>, current_dir: Seq<char>) -> Seq<char> {
    if arg.len() == 0 {
        current_dir
    } else if full_path(arg) {
        arg
    } else {
        current_dir + seq![SEPARATOR] + arg
    }
}

/// The path to look at, from the path arguments and the current
/// directory.
pub fn resolve_path_arg(paths: &Option<Vec<String>>, current_dir: &str) -> (r: String)
    ensures
        r@ == absolute_arg(
            single_arg(
                match paths {
                    Some(p) => Some(p@),
                    None => None,
                },
            ),
            current_dir@,
        ),
{
    let path_arg = match paths {
        None => {
            proof {
                reveal_strlit(".");
                assert("."@ == seq!['.']);
            }
            ".".to_owned()
        },
        Some(p) => {
            if p.len() > 1 {
                parse_expanded_path_args(p)
            } else if p.len() > 0 {
                p[0].clone()
            } else {
                String::new()
            }
        },
    };
    if path_arg.as_str().is_empty() {
        current_dir.to_owned()
    } else if is_full_path(path_arg.as_str()) {
        path_arg
    } else {
        let mut acc: Vec<char> = chars_of(current_dir);
        acc.push(SEPARATOR);
        append_str(&mut acc, path_arg.as_str());
        text_of(&acc)
    }
}

} // verus!
