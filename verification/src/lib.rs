//! Scanning a directory tree for files that meet a set of criteria, and
//! planning one bulk action over the files that were found.
//!
//! The library works on plain values. The caller walks the directory
//! tree and hands over what the walk reports of each entry; the
//! library decides which files match, keeps them in a tree of
//! directories, says what is to be done with each file, and records
//! how that ended. It never touches the file system itself.
//!
//! - `sizes`, `ages`, `lists`, `decimal`: reading what the caller
//!   wrote: ranges of sizes and ages, lists of extensions and
//!   directories.
//! - `matches`: file names against patterns.
//! - `args`, `criteria`, `path_info`: the criteria of one scan, and
//!   the step from the action that was declared to the action that
//!   is permitted.
//! - `entry`, `resource_row`, `resource_set`, `resource_tree`,
//!   `extension_stats`: the files that were found, and what can be
//!   said of them as a whole.
//! - `run`, `manage`, `start`: the steps of a scan and what follows
//!   it.
//! - `report`, `display`, `age_display`: the report as text.
//! - `text`, `paths`, `clock`, `errors`: what the others share.

pub mod text;
pub mod decimal;
pub mod errors;
pub mod clock;
pub mod paths;
pub mod display;
pub mod age_display;
pub mod sizes;
pub mod ages;
pub mod lists;
pub mod matches;
pub mod args;
pub mod criteria;
pub mod path_info;
pub mod entry;
pub mod resource_row;
pub mod resource_set;
pub mod resource_tree;
pub mod extension_stats;
pub mod manage;
pub mod run;
pub mod start;
pub mod report;
