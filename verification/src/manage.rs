//! Where a file goes when it is moved or copied, and what is recorded
//! once that was tried.

use vstd::prelude::*;
use crate::criteria::opt_text;
use crate::criteria::Criteria;
use crate::criteria::Permission;
use crate::entry::root_text;
use crate::entry::EntryInfo;
use crate::errors::ScanError;
use crate::paths::parent_text;
use crate::paths::relative_path_of;
use crate::paths::separator_text;
use crate::paths::SEPARATOR;
use crate::resource_row::ResourceRow;
use crate::resource_row::RowModel;
use crate::text::append_str;
use crate::text::chars_of;
use crate::text::text_of;

verus! {

/// Where a file is moved or copied to.
#[derive(Debug)]
pub struct Transfer {
    /// The new path of the file.
    pub new_path: String,
    /// The directory that has to exist before the file can go there.
    pub new_parent_dir: String,
}

/// What is to be done with one file that matches.
#[derive(Debug)]
pub enum Planned {
    /// Nothing: the file is only recorded.
    Keep,
    Copy(Transfer),
    Move(Transfer),
    Delete,
}

/// The new path of a file under the directory `target`: the target and
/// below it the path of the file as seen from the root of the scan.
pub open spec fn transfer_path(target: Seq<char>, row: RowModel, root: Option<EntryInfo>) -> Seq<
    char,
> {
    target + separator_text() + relative_path_of(row.file.path@, root_text(root))
}

/// The directory that receives a file under the directory `target`:
/// the target itself for a file directly in the root of the scan, and
/// otherwise the target and below it the directory of the file as seen
/// from the root.
pub open spec fn transfer_dir(target: Seq<char>, row: RowModel, root: Option<EntryInfo>) -> Seq<
    char,
> {
    if row.file.depth > 1 {
        target + separator_text() + relative_path_of(
            parent_text(row.file.path@),
            root_text(root),
        )
    } else {
        target
    }
}

/// The transfer `t` takes the file `row` to its place under the
/// directory `target`.
pub open spec fn goes_under(
    t: Transfer,
    target: Option<Seq<char>>,
    row: RowModel,
    root: Option<EntryInfo>,
) -> bool {
    match target {
        Some(base) => t.new_path@ == transfer_path(base, row, root) && t.new_parent_dir@
            == transfer_dir(base, row, root),
        None => false,
    }
}

/// `plan` is what the permission asks for the file `row`.
///
/// - Without a permission nothing is done. The same holds for a move
///   or a copy without a target.
/// - A move or a copy goes to the file's place under the target.
/// - A deletion is a deletion.
pub open spec fn plan_is(
    plan: Planned,
    may: Permission,
    target: Option<Seq<char>>,
    row: RowModel,
    root: Option<EntryInfo>,
) -> bool {
    match plan {
        Planned::Keep => may == Permission::Nothing || (may != Permission::Delete
            && target is None),
        Planned::Copy(t) => may == Permission::Copy && goes_under(t, target, row, root),
        Planned::Move(t) => may == Permission::Move && goes_under(t, target, row, root),
        Planned::Delete => may == Permission::Delete,
    }
}

/// The row after what was planned for it was tried: where it succeeded
/// the row says so, where it failed the row is as before.
pub open spec fn settled(row: RowModel, plan: Planned, succeeded: bool) -> RowModel {
    if !succeeded {
        row
    } else {
        match plan {
            Planned::Keep => row,
            Planned::Copy(t) => RowModel { move_target: Some(t.new_path@), ..row },
            Planned::Move(t) => RowModel { move_target: Some(t.new_path@), ..row },
            Planned::Delete => RowModel { deleted: true, ..row },
        }
    }
}

/// Where the file `resource` goes under the directory `target`.
pub fn plan_transfer(resource: &ResourceRow, target: &str, root_ref: &Option<EntryInfo>) -> (r:
    Transfer)
    ensures
        r.new_path@ == transfer_path(target@, resource@, *root_ref),
        r.new_parent_dir@ == transfer_dir(target@, resource@, *root_ref),
{
    let mut path: Vec<char> = chars_of(target);
    path.push(SEPARATOR);
    let relative = resource.relative_path(root_ref);
    append_str(&mut path, relative.as_str());
    let mut dir: Vec<char> = chars_of(target);
    if resource.depth() > 1 {
        dir.push(SEPARATOR);
        let parent = resource.relative_parent_path(root_ref);
        append_str(&mut dir, parent.as_str());
    }
    Transfer { new_path: text_of(&path), new_parent_dir: text_of(&dir) }
}

/// What is to be done with the file `resource`, which matches the
/// criteria, by what the criteria permit.
pub fn plan_action(
    resource: &ResourceRow,
    criteria: &Criteria,
    target: &Option<String>,
    root_ref: &Option<EntryInfo>,
) -> (r: Planned)
    ensures
        plan_is(r, criteria.may, opt_text(*target), resource@, *root_ref),
        criteria.may == Permission::Nothing ==> r is Keep,
{
    if criteria.may_delete() {
        Planned::Delete
    } else {
        match target {
            Some(base) => {
                if criteria.may_copy() {
                    Planned::Copy(plan_transfer(resource, base.as_str(), root_ref))
                } else if criteria.may_move() {
                    Planned::Move(plan_transfer(resource, base.as_str(), root_ref))
                } else {
                    Planned::Keep
                }
            },
            None => Planned::Keep,
        }
    }
}

/// Records in `resource` how what was planned for it has ended. Fails
/// with `PrimitiveFailure` exactly where something was to be done and
/// it did not succeed; the row is then as it was.
pub fn settle(resource: &mut ResourceRow, plan: &Planned, succeeded: bool) -> (r: Result<
    (),
    ScanError,
>)
    ensures
        final(resource)@ == settled(old(resource)@, *plan, succeeded),
        r is Err <==> !(plan is Keep) && !succeeded,
        r matches Err(e) ==> e == ScanError::PrimitiveFailure,
{
    match plan {
        Planned::Keep => Ok(()),
        Planned::Copy(t) => {
            if succeeded {
                resource.set_move_target(t.new_path.as_str());
                Ok(())
            } else {
                Err(ScanError::PrimitiveFailure)
            }
        },
        Planned::Move(t) => {
            if succeeded {
                resource.set_move_target(t.new_path.as_str());
                Ok(())
            } else {
                Err(ScanError::PrimitiveFailure)
            }
        },
        Planned::Delete => {
            if succeeded {
                resource.set_deleted();
                Ok(())
            } else {
                Err(ScanError::PrimitiveFailure)
            }
        },
    }
}

} // verus!
