use vstd::prelude::*;

use crate::errors::EngineError;
use crate::listing::entry_is_dir;
use crate::listing::entry_path;
use crate::listing::Entry;
use crate::names::name_taken;
use crate::names::resolve_create;
use crate::names::resolve_create_spec;
use crate::names::resolve_general;
use crate::names::resolve_general_spec;
use crate::pathops::base_name_of;
use crate::pathops::base_name_spec;
use crate::pathops::join_path;
use crate::pathops::join_spec;
use crate::pathops::parent_of;
use crate::pathops::parent_spec;

verus! {

/// The default name a new empty file is created under.
pub open spec fn default_file_name() -> Seq<char> {
    "new_file.txt"@
}

/// The default name a new folder is created under.
pub open spec fn default_folder_name() -> Seq<char> {
    "new_folder"@
}

/// The name for a new empty file in a directory whose entry names are
/// `existing`: `new_file.txt` when free, else `new_file_0.txt`,
/// `new_file_1.txt`, … — the creation scheme keeps the extension last.
pub fn plan_create_file(existing: &Vec<String>) -> (r: Result<String, EngineError>)
    ensures
        match r {
            Ok(name) => {
                &&& Some(name@) == resolve_create_spec(default_file_name(), existing@)
                &&& !name_taken(existing@, name@)
            },
            Err(e) => {
                &&& e is NameSpaceExhausted
                &&& resolve_create_spec(default_file_name(), existing@) is None
            },
        },
        r is Ok <==> resolve_create_spec(default_file_name(), existing@) is Some,
{
    resolve_create("new_file.txt", existing)
}

/// The name for a new folder in a directory whose entry names are
/// `existing`: `new_folder` when free, else `new_folder0`, `new_folder1`, …
pub fn plan_create_directory(existing: &Vec<String>) -> (r: Result<String, EngineError>)
    ensures
        match r {
            Ok(name) => {
                &&& Some(name@) == resolve_general_spec(default_folder_name(), existing@)
                &&& !name_taken(existing@, name@)
            },
            Err(e) => {
                &&& e is NameSpaceExhausted
                &&& resolve_general_spec(default_folder_name(), existing@) is None
            },
        },
        r is Ok <==> resolve_general_spec(default_folder_name(), existing@) is Some,
{
    resolve_general("new_folder", existing)
}

/// Where a paste will copy to: the destination's full path and its name
/// within the destination directory.
#[derive(Debug)]
pub struct CopyPlan {
    pub dest_path: String,
    pub dest_name: String,
}

/// Plan pasting `source_path` into `dest_dir`, whose entry names are
/// `existing`. Only a single file can be copied — a directory source is
/// refused, never silently ignored. The destination name is the source's
/// final component, disambiguated with the rename/paste scheme.
pub fn plan_copy_into(
    source_path: &String,
    source_is_dir: bool,
    dest_dir: &String,
    existing: &Vec<String>,
) -> (r: Result<CopyPlan, EngineError>)
    ensures
        match r {
            Ok(plan) => {
                &&& !source_is_dir
                &&& Some(plan.dest_name@) == resolve_general_spec(
                    base_name_spec(source_path@),
                    existing@,
                )
                &&& !name_taken(existing@, plan.dest_name@)
                &&& plan.dest_path@ == join_spec(dest_dir@, plan.dest_name@)
            },
            Err(e) => {
                &&& (e is UnsupportedOperation <==> source_is_dir)
                &&& (e is NameSpaceExhausted ==> resolve_general_spec(
                    base_name_spec(source_path@),
                    existing@,
                ) is None)
                &&& (e is UnsupportedOperation || e is NameSpaceExhausted)
            },
        },
        r is Ok <==> (!source_is_dir && resolve_general_spec(
            base_name_spec(source_path@),
            existing@,
        ) is Some),
{
    if source_is_dir {
        return Err(EngineError::UnsupportedOperation);
    }
    let desired = base_name_of(source_path.as_str());
    match resolve_general(desired.as_str(), existing) {
        Ok(name) => {
            let dest_path = join_path(dest_dir.as_str(), name.as_str());
            Ok(CopyPlan { dest_path, dest_name: name })
        },
        Err(e) => Err(e),
    }
}

/// The outcome of planning a rename: the full new path, the resolved name,
/// and whether that name had to be adjusted to avoid a collision — an
/// adjusted rename is still a success, and the caller learns the new name.
#[derive(Debug)]
pub struct RenamePlan {
    pub new_path: String,
    pub resolved_name: String,
    pub adjusted: bool,
}

/// Plan renaming the entry at `old_path` to `new_name`, against the entry
/// names `existing` of `old_path`'s parent directory. A collision is
/// resolved with the rename/paste scheme (`new_name0`, `new_name1`, …).
pub fn plan_rename(
    old_path: &String,
    new_name: &String,
    existing: &Vec<String>,
) -> (r: Result<RenamePlan, EngineError>)
    ensures
        match r {
            Ok(plan) => {
                &&& Some(plan.resolved_name@) == resolve_general_spec(new_name@, existing@)
                &&& !name_taken(existing@, plan.resolved_name@)
                &&& plan.new_path@ == join_spec(parent_spec(old_path@), plan.resolved_name@)
                &&& (plan.adjusted <==> name_taken(existing@, new_name@))
            },
            Err(e) => {
                &&& e is NameSpaceExhausted
                &&& resolve_general_spec(new_name@, existing@) is None
            },
        },
        r is Ok <==> resolve_general_spec(new_name@, existing@) is Some,
{
    match resolve_general(new_name.as_str(), existing) {
        Ok(resolved) => {
            let parent = parent_of(old_path.as_str());
            let new_path = join_path(parent.as_str(), resolved.as_str());
            let adjusted = !(*new_name == resolved);
            Ok(RenamePlan { new_path, resolved_name: resolved, adjusted })
        },
        Err(e) => Err(e),
    }
}

/// Which OS primitive removes an entry: a directory goes with its whole
/// subtree, a file singly.
pub enum DeleteAction {
    RemoveDirRecursive { path: String },
    RemoveFile { path: String },
}

pub fn delete_action(e: &Entry) -> (r: DeleteAction)
    ensures
        match r {
            DeleteAction::RemoveDirRecursive { path } => entry_is_dir(e@) && path@ == entry_path(
                e@,
            ),
            DeleteAction::RemoveFile { path } => !entry_is_dir(e@) && path@ == entry_path(e@),
        },
{
    match e {
        Entry::Directory { path, .. } => DeleteAction::RemoveDirRecursive { path: path.clone() },
        Entry::File { path, .. } => DeleteAction::RemoveFile { path: path.clone() },
    }
}

} // verus!
