//! The criteria of one scan: which files it takes in, and what is to be
//! done with them.
//!
//! The action is declared when the criteria are made. Whether it may be
//! carried out is a second matter, the permission, which is granted at
//! one place only, `apply_action_permissions`, once the target is known
//! to exist or the caller has confirmed.

use vstd::prelude::*;
use crate::ages::age_seconds;
use crate::ages::extract_age;
use crate::ages::extract_first_suffix_letter;
use crate::ages::extract_string_parts;
use crate::ages::first_letter;
use crate::args::Args;
use crate::errors::ScanError;
use crate::lists::extract_extensions;
use crate::lists::extract_from_list;
use crate::lists::list_items;
use crate::matches::build_matcher;
use crate::matches::pattern_accepts;
use crate::matches::regex_language;
use crate::matches::regex_source;
use crate::matches::string_ends_with;
use crate::matches::MatchBounds;
use crate::matches::MatchMode;
use crate::sizes::extract_sizes;
use crate::sizes::size_range;
use crate::text::append_str;
use crate::text::chars_of;
use crate::text::copy_texts;
use crate::text::lemma_split_nonempty;
use crate::text::lowercase_text;
use crate::text::split_on;
use crate::text::text_of;
use crate::text::texts;

verus! {

/// What is to be done with the files that match.
#[derive(Debug, Copy, Clone, PartialEq, Eq, Structural)]
pub enum ActionMode {
    List,
    Move,
    Copy,
    /// Delete, once the caller has confirmed.
    Delete,
    /// Delete without asking.
    DirectDelete,
}

/// What may be done to the files that match.
#[derive(Debug, Copy, Clone, PartialEq, Eq, Structural)]
pub enum Permission {
    Nothing,
    Move,
    Copy,
    Delete,
}

/// The view of a text that may be missing.
pub open spec fn opt_text(o: Option<String>) -> Option<Seq<char>> {
    match o {
        Some(s) => Some(s@),
        None => None,
    }
}

/// The word for what was done.
pub open spec fn past_word(action: ActionMode) -> Seq<char> {
    match action {
        ActionMode::List => "listed"@,
        ActionMode::Move => "moved"@,
        ActionMode::Copy => "copied"@,
        ActionMode::Delete | ActionMode::DirectDelete => "deleted"@,
    }
}

impl ActionMode {
    /// The word for what was done, or after `not ` for what was not.
    pub fn to_past_string(&self, not_mode: bool) -> (r: String)
        ensures
            r@ == if not_mode {
                "not "@ + past_word(*self)
            } else {
                past_word(*self)
            },
    {
        let mut acc: Vec<char> = Vec::new();
        if not_mode {
            append_str(&mut acc, "not ");
        }
        match self {
            ActionMode::List => append_str(&mut acc, "listed"),
            ActionMode::Move => append_str(&mut acc, "moved"),
            ActionMode::Copy => append_str(&mut acc, "copied"),
            ActionMode::Delete | ActionMode::DirectDelete => append_str(&mut acc, "deleted"),
        }
        text_of(&acc)
    }

    /// The word for what was done.
    pub fn to_past(&self) -> (r: String)
        ensures
            r@ == past_word(*self),
    {
        self.to_past_string(false)
    }

    /// The words for what was not done.
    pub fn to_not_past(&self) -> (r: String)
        ensures
            r@ == "not "@ + past_word(*self),
    {
        self.to_past_string(true)
    }

    /// The action is a deletion that needs no confirmation.
    pub fn delete_confirmed(&self) -> (r: bool)
        ensures
            r == (*self == ActionMode::DirectDelete),
    {
        match self {
            ActionMode::DirectDelete => true,
            _ => false,
        }
    }
}

/// The regular expression for the letter of a unit of age.
pub open spec fn unit_pattern() -> Seq<char> {
    "[smhdwy]"@
}

/// The regular expression for the letter of a unit of age at the end
/// of a text is one that the matcher takes.
pub open spec fn unit_pattern_valid() -> bool {
    regex_language(regex_source(unit_pattern(), MatchBounds::End, MatchMode::Regex), false)
        is Some
}

/// The pattern of file names is a regular expression, or there is
/// none. Names are matched without regard to case.
pub open spec fn pattern_valid(pattern: Option<Seq<char>>, bounds: MatchBounds, mode: MatchMode)
    -> bool {
    match pattern {
        Some(p) => regex_language(regex_source(p, bounds, mode), true) is Some,
        None => true,
    }
}

/// Whether `pattern` is a regular expression, or missing.
pub fn is_valid_pattern(pattern: &Option<String>, bounds: MatchBounds, mode: MatchMode) -> (r:
    bool)
    ensures
        r == pattern_valid(opt_text(*pattern), bounds, mode),
{
    match pattern {
        Some(p) => build_matcher(p.as_str(), true, bounds, mode).is_ok(),
        None => true,
    }
}

/// `s` ends with the letter of a unit of age.
pub open spec fn unit_suffixed(s: Seq<char>) -> bool {
    pattern_accepts(regex_source(unit_pattern(), MatchBounds::End, MatchMode::Regex), false, s)
}

/// The first end of a range of ages, with the unit of the second end
/// where it names none itself.
pub open spec fn first_with_unit(
    first: Seq<char>,
    second: Seq<char>,
    first_has_unit: bool,
    second_has_unit: bool,
) -> Seq<char> {
    if !first_has_unit && second_has_unit {
        first + seq![',', first_letter(lowercase_text(second))]
    } else {
        first
    }
}

/// The least and the greatest age in seconds that the two texts state.
///
/// Where `before` holds a hyphen it is a range, and `after` is not
/// read: the least age stands before the first hyphen, the greatest
/// after it. Otherwise `before` is the least age and `after` the
/// greatest.
pub open spec fn age_range(
    before: Seq<char>,
    after: Seq<char>,
    first_has_unit: bool,
    second_has_unit: bool,
) -> (u64, u64) {
    let parts = split_on(before, '-');
    if parts.len() > 1 {
        (
            age_seconds(first_with_unit(parts[0], parts[1], first_has_unit, second_has_unit)),
            age_seconds(parts[1]),
        )
    } else {
        (age_seconds(before), age_seconds(after))
    }
}

/// The two texts whose unit decides how a range of ages is read: the
/// ends of the range in `before`, or two empty texts where it is none.
pub open spec fn range_ends(before: Seq<char>) -> (Seq<char>, Seq<char>) {
    let parts = split_on(before, '-');
    if parts.len() > 1 {
        (parts[0], parts[1])
    } else {
        (Seq::empty(), Seq::empty())
    }
}

/// How deep the scan goes: one level where the path named a file
/// pattern or no depth was given.
pub open spec fn resolved_depth(max_depth: u8, file_pattern: Option<Seq<char>>) -> u8 {
    if max_depth > 0 && file_pattern is None {
        max_depth
    } else {
        1
    }
}

/// The pattern that names have to match: the one from the path, else
/// the one to start with, else the one to end with, else the plain one.
pub open spec fn resolved_pattern(args: Args, file_pattern: Option<Seq<char>>) -> Option<
    Seq<char>,
> {
    let chosen = if args.starts_with@.len() > 0 {
        args.starts_with@
    } else if args.ends_with@.len() > 0 {
        args.ends_with@
    } else {
        args.pattern@
    };
    if file_pattern is Some {
        file_pattern
    } else if chosen.len() > 0 {
        Some(chosen)
    } else {
        None
    }
}

/// Where the pattern has to stand.
pub open spec fn resolved_bounds(args: Args) -> MatchBounds {
    if args.starts_with@.len() > 0 {
        MatchBounds::Start
    } else if args.ends_with@.len() > 0 {
        MatchBounds::End
    } else {
        MatchBounds::Open
    }
}

/// A text that is given and not empty.
pub open spec fn named(o: Option<String>) -> bool {
    o matches Some(t) && t@.len() > 0
}

/// The action: copy before move, before delete without asking, before
/// delete, before list.
pub open spec fn resolved_action(args: Args) -> ActionMode {
    if named(args.copy) {
        ActionMode::Copy
    } else if named(args.move_to) {
        ActionMode::Move
    } else if args.delete && args.force {
        ActionMode::DirectDelete
    } else if args.delete {
        ActionMode::Delete
    } else {
        ActionMode::List
    }
}

/// The directory to copy or move to.
pub open spec fn resolved_target(args: Args) -> Option<Seq<char>> {
    if named(args.copy) {
        opt_text(args.copy)
    } else if named(args.move_to) {
        opt_text(args.move_to)
    } else {
        None
    }
}

/// The criteria of one scan.
#[derive(Debug)]
pub struct Criteria {
    /// The least and the greatest size in bytes; 0 for none.
    pub sizes: (u64, u64),
    pub include_extensions: Vec<String>,
    pub exclude_extensions: Vec<String>,
    pub exclude_directories: Vec<String>,
    pub pattern: Option<String>,
    pub exclude_pattern: Option<String>,
    pub match_mode: MatchMode,
    pub bounds: MatchBounds,
    pub max_depth: u8,
    /// The least age in seconds; 0 for none.
    pub min_age: u64,
    /// The greatest age in seconds; counts only above the least.
    pub max_age: u64,
    pub show_hidden: bool,
    pub action: ActionMode,
    /// What the scan may do to a file. It is `None` until
    /// `apply_action_permissions` grants the action.
    pub may: Permission,
    pub target: Option<String>,
}

impl Clone for Criteria {
    fn clone(&self) -> (r: Self)
        ensures
            r.sizes == self.sizes,
            r.include_extensions@ == self.include_extensions@,
            r.exclude_extensions@ == self.exclude_extensions@,
            r.exclude_directories@ == self.exclude_directories@,
            r.pattern == self.pattern,
            r.exclude_pattern == self.exclude_pattern,
            r.match_mode == self.match_mode,
            r.bounds == self.bounds,
            r.max_depth == self.max_depth,
            r.min_age == self.min_age,
            r.max_age == self.max_age,
            r.show_hidden == self.show_hidden,
            r.action == self.action,
            r.may == self.may,
            r.target == self.target,
    {
        Criteria {
            sizes: (self.sizes.0, self.sizes.1),
            include_extensions: copy_texts(&self.include_extensions),
            exclude_extensions: copy_texts(&self.exclude_extensions),
            exclude_directories: copy_texts(&self.exclude_directories),
            pattern: self.pattern.clone(),
            exclude_pattern: self.exclude_pattern.clone(),
            match_mode: self.match_mode,
            bounds: self.bounds,
            max_depth: self.max_depth,
            min_age: self.min_age,
            max_age: self.max_age,
            show_hidden: self.show_hidden,
            action: self.action,
            may: self.may,
            target: self.target.clone(),
        }
    }
}

impl Criteria {
    /// The permission that `action` asks for.
    pub open spec fn wanted(action: ActionMode) -> Permission {
        match action {
            ActionMode::List => Permission::Nothing,
            ActionMode::Move => Permission::Move,
            ActionMode::Copy => Permission::Copy,
            ActionMode::Delete | ActionMode::DirectDelete => Permission::Delete,
        }
    }

    /// A move or a copy has a target, and nothing is permitted but the
    /// action that was declared.
    pub open spec fn wf(&self) -> bool {
        &&& (self.action == ActionMode::Move || self.action == ActionMode::Copy)
            ==> self.target is Some
        &&& self.may == Permission::Nothing || self.may == Self::wanted(self.action)
    }

    /// These criteria are what `args` and the pattern from the path
    /// ask for, given whether the two ends of a range of ages name a
    /// unit. Nothing is permitted yet.
    pub open spec fn resolves(
        &self,
        args: Args,
        file_pattern: Option<Seq<char>>,
        first_has_unit: bool,
        second_has_unit: bool,
    ) -> bool {
        &&& (self.min_age, self.max_age) == age_range(
            args.before@,
            args.after@,
            first_has_unit,
            second_has_unit,
        )
        &&& self.max_depth == resolved_depth(args.max_depth, file_pattern)
        &&& texts(self.include_extensions@) == list_items(args.ext@)
        &&& texts(self.exclude_extensions@) == list_items(args.not_ext@)
        &&& texts(self.exclude_directories@) == list_items(args.exclude_dirs@)
        &&& self.sizes == size_range(args.size@)
        &&& opt_text(self.pattern) == resolved_pattern(args, file_pattern)
        &&& self.bounds == resolved_bounds(args)
        &&& opt_text(self.exclude_pattern) == if args.omit_pattern@.len() > 0 {
            Some(args.omit_pattern@)
        } else {
            None
        }
        &&& self.match_mode == if args.regex_mode {
            MatchMode::Regex
        } else {
            MatchMode::Literal
        }
        &&& self.show_hidden == args.hidden
        &&& self.action == resolved_action(args)
        &&& opt_text(self.target) == resolved_target(args)
        &&& self.may == Permission::Nothing
    }

    /// The criteria that `args` and the pattern from the path ask for.
    /// Whether an end of a range of ages names a unit is decided by a
    /// regular expression; where that expression is refused, which
    /// can only be where `before` holds a range, the criteria fail
    /// with `InvalidPattern`.
    pub fn new(args: &Args, file_pattern: Option<String>) -> (r: Result<Criteria, ScanError>)
        ensures
            r is Err <==> split_on(args.before@, '-').len() > 1 && !unit_pattern_valid(),
            r matches Err(e) ==> e == ScanError::InvalidPattern,
            r matches Ok(c) ==> c.wf() && c.resolves(
                *args,
                opt_text(file_pattern),
                unit_suffixed(range_ends(args.before@).0),
                unit_suffixed(range_ends(args.before@).1),
            ),
    {
        let parts = extract_string_parts(args.before.as_str());
        proof {
            lemma_split_nonempty(args.before@, '-');
        }
        if parts.len() > 1 {
            assert(texts(parts@)[0] == parts@[0]@ && texts(parts@)[1] == parts@[1]@);
            let first_has_unit = match string_ends_with(parts[0].as_str(), "[smhdwy]") {
                Ok(found) => found,
                Err(e) => {
                    return Err(e);
                },
            };
            let second_has_unit = match string_ends_with(parts[1].as_str(), "[smhdwy]") {
                Ok(found) => found,
                Err(e) => {
                    return Err(e);
                },
            };
            Ok(Criteria::resolve(args, file_pattern, first_has_unit, second_has_unit))
        } else {
            Ok(Criteria::resolve(args, file_pattern, false, false))
        }
    }

    /// Both patterns of the criteria are regular expressions.
    pub open spec fn patterns_valid(&self) -> bool {
        pattern_valid(opt_text(self.pattern), self.bounds, self.match_mode) && pattern_valid(
            opt_text(self.exclude_pattern),
            self.bounds,
            self.match_mode,
        )
    }

    /// Whether both patterns of the criteria are regular expressions.
    pub fn has_valid_patterns(&self) -> (r: bool)
        ensures
            r == self.patterns_valid(),
    {
        is_valid_pattern(&self.pattern, self.bounds, self.match_mode) && is_valid_pattern(
            &self.exclude_pattern,
            self.bounds,
            self.match_mode,
        )
    }

    /// The criteria that `args` and the pattern from the path ask for,
    /// given whether the two ends of a range of ages name a unit.
    pub fn resolve(
        args: &Args,
        file_pattern: Option<String>,
        first_has_unit: bool,
        second_has_unit: bool,
    ) -> (c: Criteria)
        ensures
            c.wf(),
            c.resolves(*args, opt_text(file_pattern), first_has_unit, second_has_unit),
    {
        let parts = extract_string_parts(args.before.as_str());
        proof {
            lemma_split_nonempty(args.before@, '-');
        }
        let (min_age, max_age) = if parts.len() > 1 {
            assert(texts(parts@)[0] == parts@[0]@ && texts(parts@)[1] == parts@[1]@);
            let first = if !first_has_unit && second_has_unit {
                let suffix = extract_first_suffix_letter(parts[1].as_str());
                let mut acc: Vec<char> = chars_of(parts[0].as_str());
                acc.push(',');
                acc.push(suffix);
                assert(acc@ == parts@[0]@ + seq![',', first_letter(lowercase_text(parts@[1]@))]);
                text_of(&acc)
            } else {
                parts[0].clone()
            };
            (extract_age(first.as_str()), extract_age(parts[1].as_str()))
        } else {
            (extract_age(args.before.as_str()), extract_age(args.after.as_str()))
        };
        let max_depth: u8 = if args.max_depth > 0 && file_pattern.is_none() {
            args.max_depth
        } else {
            1
        };
        let include_extensions = extract_extensions(args.ext.as_str());
        let exclude_extensions = extract_extensions(args.not_ext.as_str());
        let exclude_directories = extract_from_list(args.exclude_dirs.as_str());
        let sizes = extract_sizes(args.size.as_str());
        let copy_mode = match &args.copy {
            Some(t) => !t.as_str().is_empty(),
            None => false,
        };
        let move_mode = !copy_mode && match &args.move_to {
            Some(t) => !t.as_str().is_empty(),
            None => false,
        };
        let target: Option<String> = if copy_mode {
            args.copy.clone()
        } else if move_mode {
            args.move_to.clone()
        } else {
            None
        };
        let has_start_pattern = !args.starts_with.as_str().is_empty();
        let has_end_pattern = !has_start_pattern && !args.ends_with.as_str().is_empty();
        let pattern_str = if has_start_pattern {
            args.starts_with.clone()
        } else if has_end_pattern {
            args.ends_with.clone()
        } else {
            args.pattern.clone()
        };
        let pattern = if file_pattern.is_some() {
            file_pattern
        } else if !pattern_str.as_str().is_empty() {
            Some(pattern_str)
        } else {
            None
        };
        let bounds = if has_start_pattern {
            MatchBounds::Start
        } else if has_end_pattern {
            MatchBounds::End
        } else {
            MatchBounds::Open
        };
        let exclude_pattern = if !args.omit_pattern.as_str().is_empty() {
            Some(args.omit_pattern.clone())
        } else {
            None
        };
        let action = if copy_mode {
            ActionMode::Copy
        } else if move_mode {
            ActionMode::Move
        } else if args.delete && args.force {
            ActionMode::DirectDelete
        } else if args.delete {
            ActionMode::Delete
        } else {
            ActionMode::List
        };
        let match_mode = if args.regex_mode {
            MatchMode::Regex
        } else {
            MatchMode::Literal
        };
        Criteria {
            sizes,
            include_extensions,
            exclude_extensions,
            exclude_directories,
            pattern,
            exclude_pattern,
            match_mode,
            bounds,
            max_depth,
            min_age,
            max_age,
            show_hidden: args.hidden,
            action,
            may: Permission::Nothing,
            target,
        }
    }

    /// The least size in bytes; 0 for none.
    pub fn min_size(&self) -> (r: u64)
        ensures
            r == self.sizes.0,
    {
        self.sizes.0
    }

    /// The greatest size in bytes; 0 for none.
    pub fn max_size(&self) -> (r: u64)
        ensures
            r == self.sizes.1,
    {
        self.sizes.1
    }

    /// A pattern to take names in is set.
    pub fn has_pattern(&self) -> (r: bool)
        ensures
            r == self.pattern is Some,
    {
        self.pattern.is_some()
    }

    /// A pattern to leave names out is set.
    pub fn has_omit_pattern(&self) -> (r: bool)
        ensures
            r == self.exclude_pattern is Some,
    {
        self.exclude_pattern.is_some()
    }

    /// The greatest size counts: it is above the least.
    pub fn has_max_size(&self) -> (r: bool)
        ensures
            r == (self.sizes.1 > self.sizes.0),
    {
        self.max_size() > self.min_size()
    }

    /// Some bound on the size counts.
    pub fn has_size_limits(&self) -> (r: bool)
        ensures
            r == (self.sizes.0 > 0 || self.sizes.1 > self.sizes.0),
    {
        self.min_size() > 0 || self.has_max_size()
    }

    /// The action is a deletion, with or without asking.
    pub fn delete_mode(&self) -> (r: bool)
        ensures
            r == (self.action == ActionMode::Delete || self.action == ActionMode::DirectDelete),
    {
        match self.action {
            ActionMode::Delete | ActionMode::DirectDelete => true,
            _ => false,
        }
    }

    /// The caller has to confirm before anything is deleted.
    pub fn delete_with_prompt(&self) -> (r: bool)
        ensures
            r == (self.action == ActionMode::Delete),
    {
        match self.action {
            ActionMode::Delete => true,
            _ => false,
        }
    }

    /// The action is a move.
    pub fn move_mode(&self) -> (r: bool)
        ensures
            r == (self.action == ActionMode::Move),
    {
        match self.action {
            ActionMode::Move => true,
            _ => false,
        }
    }

    /// The action is a copy.
    pub fn copy_mode(&self) -> (r: bool)
        ensures
            r == (self.action == ActionMode::Copy),
    {
        match self.action {
            ActionMode::Copy => true,
            _ => false,
        }
    }

    /// The action is a move or a copy.
    pub fn move_or_copy_mode(&self) -> (r: bool)
        ensures
            r == (self.action == ActionMode::Move || self.action == ActionMode::Copy),
    {
        self.move_mode() || self.copy_mode()
    }

    /// The action has a target.
    pub fn target_mode(&self) -> (r: bool)
        ensures
            r == (self.action == ActionMode::Move || self.action == ActionMode::Copy),
    {
        self.move_mode() || self.copy_mode()
    }

    /// Permits the move, where a move was declared.
    pub fn set_may_move(&mut self)
        ensures
            *final(self) == (Criteria {
                may: if old(self).action == ActionMode::Move {
                    Permission::Move
                } else {
                    old(self).may
                },
                ..*old(self)
            }),
    {
        if self.move_mode() {
            self.may = Permission::Move;
        }
    }

    /// Permits the copy, where a copy was declared.
    pub fn set_may_copy(&mut self)
        ensures
            *final(self) == (Criteria {
                may: if old(self).action == ActionMode::Copy {
                    Permission::Copy
                } else {
                    old(self).may
                },
                ..*old(self)
            }),
    {
        if self.copy_mode() {
            self.may = Permission::Copy;
        }
    }

    /// Permits the deletion, where a deletion was declared.
    pub fn set_may_delete(&mut self)
        ensures
            *final(self) == (Criteria {
                may: if old(self).action == ActionMode::Delete || old(self).action
                    == ActionMode::DirectDelete {
                    Permission::Delete
                } else {
                    old(self).may
                },
                ..*old(self)
            }),
    {
        if self.delete_mode() {
            self.may = Permission::Delete;
        }
    }

    /// The copy is permitted.
    pub fn may_copy(&self) -> (r: bool)
        ensures
            r == (self.may == Permission::Copy),
    {
        match self.may {
            Permission::Copy => true,
            _ => false,
        }
    }

    /// The move is permitted.
    pub fn may_move(&self) -> (r: bool)
        ensures
            r == (self.may == Permission::Move),
    {
        match self.may {
            Permission::Move => true,
            _ => false,
        }
    }

    /// The deletion is permitted.
    pub fn may_delete(&self) -> (r: bool)
        ensures
            r == (self.may == Permission::Delete),
    {
        match self.may {
            Permission::Delete => true,
            _ => false,
        }
    }

    /// What `apply_action_permissions` leaves permitted.
    ///
    /// - A move or a copy is permitted where the target exists.
    /// - A deletion is permitted where it was declared without asking,
    ///   or the caller has confirmed it.
    /// - In every other case what was permitted stays.
    pub open spec fn granted(&self, target_exists: bool, confirmed: bool) -> Permission {
        match self.action {
            ActionMode::Move | ActionMode::Copy => if target_exists && self.target is Some {
                Self::wanted(self.action)
            } else {
                self.may
            },
            ActionMode::DirectDelete => Permission::Delete,
            ActionMode::Delete => if confirmed {
                Permission::Delete
            } else {
                self.may
            },
            ActionMode::List => self.may,
        }
    }

    /// Grants the declared action where its conditions are met, and
    /// gives the target of a move or a copy that was granted.
    ///
    /// `target_exists` says whether the target directory exists, after
    /// the caller may have made it; `confirmed` says whether the caller
    /// has agreed to a deletion. Fails with `UnresolvedTarget` exactly
    /// where a move or a copy was declared and the target is missing;
    /// nothing is permitted then that was not before.
    pub fn apply_action_permissions(&mut self, target_exists: bool, confirmed: bool) -> (r:
        Result<Option<String>, ScanError>)
        ensures
            *final(self) == (Criteria { may: old(self).granted(target_exists, confirmed), ..*old(
                self,
            ) }),
            old(self).wf() ==> final(self).wf(),
            r is Err <==> (old(self).action == ActionMode::Move || old(self).action
                == ActionMode::Copy) && !(target_exists && old(self).target is Some),
            r matches Err(e) ==> e == ScanError::UnresolvedTarget,
            r matches Ok(path) ==> opt_text(path) == if old(self).action == ActionMode::Move
                || old(self).action == ActionMode::Copy {
                opt_text(old(self).target)
            } else {
                None
            },
    {
        if self.move_or_copy_mode() {
            if target_exists && self.target.is_some() {
                if self.copy_mode() {
                    self.set_may_copy();
                } else {
                    self.set_may_move();
                }
                Ok(self.target.clone())
            } else {
                Err(ScanError::UnresolvedTarget)
            }
        } else {
            if self.action.delete_confirmed() || (self.delete_mode() && confirmed) {
                self.set_may_delete();
            }
            Ok(None)
        }
    }

    /// The target of a move or a copy; empty where there is none.
    pub fn target_ref(&self) -> (r: String)
        ensures
            r@ == match self.target {
                Some(t) => t@,
                None => Seq::empty(),
            },
    {
        match &self.target {
            Some(tg) => tg.clone(),
            None => String::new(),
        }
    }

    /// Some bound on the age is set.
    pub fn filter_by_age(&self) -> (r: bool)
        ensures
            r == (self.min_age > 0 || self.max_age > 0),
    {
        self.min_age > 0 || self.max_age > 0
    }

    /// A least age is set.
    pub fn has_min_age(&self) -> (r: bool)
        ensures
            r == (self.min_age > 0),
    {
        self.min_age > 0
    }

    /// The greatest age counts: it is above the least.
    pub fn has_max_age(&self) -> (r: bool)
        ensures
            r == (self.max_age > 0 && self.max_age > self.min_age),
    {
        self.max_age > 0 && self.max_age > self.min_age
    }

    /// The action in words, with its target.
    pub open spec fn text(&self) -> Seq<char> {
        let action = match self.action {
            ActionMode::Move => "move to"@,
            ActionMode::Copy => "copy to"@,
            ActionMode::Delete | ActionMode::DirectDelete => "delete"@,
            ActionMode::List => "list"@,
        };
        match self.action {
            ActionMode::Move | ActionMode::Copy => action + seq![' '] + match self.target {
                Some(t) => t@,
                None => Seq::empty(),
            },
            _ => action,
        }
    }

    /// The action in words, with its target.
    pub fn to_text(&self) -> (r: String)
        ensures
            r@ == self.text(),
    {
        let mut acc: Vec<char> = Vec::new();
        match self.action {
            ActionMode::Move => append_str(&mut acc, "move to"),
            ActionMode::Copy => append_str(&mut acc, "copy to"),
            ActionMode::Delete | ActionMode::DirectDelete => append_str(&mut acc, "delete"),
            ActionMode::List => append_str(&mut acc, "list"),
        }
        if self.target_mode() {
            acc.push(' ');
            let target = self.target_ref();
            append_str(&mut acc, target.as_str());
        }
        text_of(&acc)
    }
}

/// Nothing is granted that was not asked for and allowed: a listing
/// is granted nothing, a deletion that the caller has not confirmed is
/// not granted, and a move or a copy to a target that does not exist
/// is not granted. In each case what was permitted before is what is
/// permitted after.
pub proof fn lemma_nothing_granted_unasked(c: Criteria, target_exists: bool, confirmed: bool)
    requires
        c.action == ActionMode::List || (c.action == ActionMode::Delete && !confirmed) || ((c.action
            == ActionMode::Move || c.action == ActionMode::Copy) && !target_exists),
    ensures
        c.granted(target_exists, confirmed) == c.may,
{
}

/// What is granted is the declared action or nothing new: after
/// `apply_action_permissions` the permission is the one that the
/// action asks for, or the one from before.
pub proof fn lemma_granted_matches_action(c: Criteria, target_exists: bool, confirmed: bool)
    ensures
        c.granted(target_exists, confirmed) == Criteria::wanted(c.action) || c.granted(
            target_exists,
            confirmed,
        ) == c.may,
        c.wf() ==> (Criteria { may: c.granted(target_exists, confirmed), ..c }).wf(),
{
}

} // verus!
