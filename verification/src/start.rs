//! What to ask the caller once a scan is done, and how to read the
//! answer.

use vstd::prelude::*;
use crate::criteria::ActionMode;
use crate::criteria::Criteria;
use crate::display::decimal_text;
use crate::errors::ScanError;
use crate::path_info::PathInfo;
use crate::display::plural_text;
use crate::display::pluralize_64;
use crate::display::push_decimal;
use crate::text::append_str;
use crate::text::chars_of;
use crate::text::lowercase_text;
use crate::text::to_lowercase;
use crate::text::text_of;
use crate::text::trim_chars;
use crate::text::trimmed;

verus! {

/// What remains to be done after a scan.
#[derive(Debug, Copy, Clone, PartialEq, Eq, Structural)]
pub enum FollowUp {
    /// Nothing.
    Done,
    /// Ask whether the files that were found are to be deleted.
    ConfirmDelete,
    /// Say that there is no file to delete.
    NothingToDelete,
    /// Ask whether the missing target directory is to be made.
    OfferTarget,
}

/// The word is a yes: `y` or `yes`.
pub open spec fn is_yes_word(word: Seq<char>) -> bool {
    word == seq!['y'] || word == seq!['y', 'e', 's']
}

/// The answer is a yes: without the white space round it and in lower
/// case it is `y` or `yes`.
pub open spec fn says_yes(line: Seq<char>) -> bool {
    is_yes_word(lowercase_text(trimmed(line)))
}

/// What remains to be done after a scan.
///
/// - A deletion that needs a confirmation was not carried out: the
///   caller is asked if there is a file to delete, and told if not.
/// - A move or a copy to a target that does not exist was not carried
///   out: the caller is asked whether to make the target.
pub open spec fn next_step(action: ActionMode, num_files: usize, target_exists: bool)
    -> FollowUp {
    if action == ActionMode::Delete {
        if num_files > 0 {
            FollowUp::ConfirmDelete
        } else {
            FollowUp::NothingToDelete
        }
    } else if (action == ActionMode::Move || action == ActionMode::Copy) && !target_exists {
        FollowUp::OfferTarget
    } else {
        FollowUp::Done
    }
}

/// Whether the scan can begin. It cannot where the place to scan does
/// not exist, which is `PathNotFound`, or, if it exists, where a
/// pattern of the criteria is no regular expression, which is
/// `InvalidPattern`.
pub fn check_run(path_info: &PathInfo, criteria: &Criteria) -> (r: Result<(), ScanError>)
    ensures
        r is Ok <==> path_info.exists && criteria.patterns_valid(),
        r == Err::<(), ScanError>(ScanError::PathNotFound) <==> !path_info.exists,
        r == Err::<(), ScanError>(ScanError::InvalidPattern) <==> path_info.exists
            && !criteria.patterns_valid(),
{
    if !path_info.exists {
        Err(ScanError::PathNotFound)
    } else if criteria.has_valid_patterns() {
        Ok(())
    } else {
        Err(ScanError::InvalidPattern)
    }
}

/// Whether the answer `line` is a yes.
pub fn is_affirmative(line: &str) -> (r: bool)
    ensures
        r == says_yes(line@),
{
    let v = chars_of(line);
    let answer = text_of(&trim_chars(&v));
    is_yes(to_lowercase(answer.as_str()).as_str())
}

/// Whether the word is `y` or `yes`.
pub fn is_yes(word: &str) -> (r: bool)
    ensures
        r == is_yes_word(word@),
{
    proof {
        reveal_strlit("y");
        reveal_strlit("yes");
        assert("y"@ =~= seq!['y']);
        assert("yes"@ =~= seq!['y', 'e', 's']);
    }
    word.eq("y") || word.eq("yes")
}

/// What remains to be done after a scan that found `num_files` files.
pub fn follow_up(criteria: &Criteria, num_files: usize, target_exists: bool) -> (r: FollowUp)
    ensures
        r == next_step(criteria.action, num_files, target_exists),
{
    if criteria.delete_with_prompt() {
        if num_files > 0 {
            FollowUp::ConfirmDelete
        } else {
            FollowUp::NothingToDelete
        }
    } else if criteria.move_or_copy_mode() && !target_exists {
        FollowUp::OfferTarget
    } else {
        FollowUp::Done
    }
}

/// The question before `num_files` files are deleted.
pub fn delete_question(num_files: usize) -> (r: String)
    ensures
        r@ == "Are you sure you want to delete the "@ + decimal_text(num_files as nat) + " above "@
            + plural_text("file"@, "s"@, num_files as u64) + seq!['?'],
{
    let mut acc: Vec<char> = chars_of("Are you sure you want to delete the ");
    push_decimal(&mut acc, num_files as u64);
    append_str(&mut acc, " above ");
    let word = pluralize_64("file", "s", num_files as u64);
    append_str(&mut acc, word.as_str());
    acc.push('?');
    text_of(&acc)
}

/// The question before the directory `target` is made.
pub fn target_question(target: &str) -> (r: String)
    ensures
        r@ == "The directory "@ + target@ + " does not exist. Do you want to create it"@,
{
    let mut acc: Vec<char> = chars_of("The directory ");
    append_str(&mut acc, target);
    append_str(&mut acc, " does not exist. Do you want to create it");
    text_of(&acc)
}

} // verus!
