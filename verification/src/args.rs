//! What the caller asks for, as it was written on the command line.

use vstd::prelude::*;

verus! {

/// The raw inputs of a scan. A text that was not given is empty, a
/// flag that was not given is `false`.
#[derive(Debug, Clone)]
pub struct Args {
    /// The least age of a file, or a range of ages with a hyphen.
    pub before: String,
    /// The greatest age of a file.
    pub after: String,
    /// The directory to scan, or several paths that the shell wrote out.
    pub path: Option<Vec<String>>,
    /// The extensions to take in, with commas between them.
    pub ext: String,
    /// The extensions to leave out.
    pub not_ext: String,
    /// The directories to leave out.
    pub exclude_dirs: String,
    /// A pattern that the file name has to match.
    pub pattern: String,
    /// A pattern that the file name must not match.
    pub omit_pattern: String,
    /// A pattern that the file name has to start with.
    pub starts_with: String,
    /// A pattern that the file name has to end with.
    pub ends_with: String,
    /// The range of sizes.
    pub size: String,
    /// How many levels of directories to go down; 255 for all.
    pub max_depth: u8,
    /// Take in hidden files and directories.
    pub hidden: bool,
    /// Show each file.
    pub list: bool,
    /// Show the counts and sizes by extension.
    pub groups: bool,
    /// Show directories without a matching file.
    pub void: bool,
    /// The patterns are regular expressions.
    pub regex_mode: bool,
    /// The directory to move the files to.
    pub move_to: Option<String>,
    /// The directory to copy the files to.
    pub copy: Option<String>,
    /// Delete the files, after asking.
    pub delete: bool,
    /// With `delete`: do not ask.
    pub force: bool,
}

} // verus!
