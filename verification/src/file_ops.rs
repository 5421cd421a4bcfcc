//! Backend-neutral higher-level filesystem operations.

use vstd::prelude::*;
use crate::backend::{Backend, BackendError, ErrorKind, presence};
use crate::domain::{BackendPath, EntryKind};

verus! {

/// Nesting depth that a recursive delete follows before it gives up.
pub const MAX_TREE_DEPTH: u64 = 0xffff_ffff_ffff_ffff;

/// Recursive delete report.
#[derive(Clone, Copy, Debug, Default, PartialEq, Eq, Structural)]
pub struct RemoveTreeReport {
    /// Files, links, or non-directory entries removed.
    pub files_removed: u64,
    /// Directories removed, including the requested root when it is a directory.
    pub directories_removed: u64,
}

/// Saturating sum of two counters.
pub open spec fn saturating_sum(a: u64, b: u64) -> u64 {
    if a + b > u64::MAX { u64::MAX } else { (a + b) as u64 }
}

impl RemoveTreeReport {
    /// Returns total removed entries.
    pub fn entries_removed(self) -> (r: u64)
        ensures
            r == saturating_sum(self.files_removed, self.directories_removed),
    {
        self.files_removed.saturating_add(self.directories_removed)
    }

    /// A report of nothing removed.
    pub fn empty() -> (r: RemoveTreeReport)
        ensures
            r.files_removed == 0,
            r.directories_removed == 0,
    {
        RemoveTreeReport { files_removed: 0, directories_removed: 0 }
    }
}

/// Files removed across the children's reports, saturating.
pub open spec fn files_in(children: Seq<RemoveTreeReport>) -> u64
    decreases children.len(),
{
    if children.len() == 0 {
        0
    } else {
        saturating_sum(files_in(children.drop_last()), children.last().files_removed)
    }
}

/// Directories removed across the children's reports, saturating.
pub open spec fn directories_in(children: Seq<RemoveTreeReport>) -> u64
    decreases children.len(),
{
    if children.len() == 0 {
        0
    } else {
        saturating_sum(directories_in(children.drop_last()), children.last().directories_removed)
    }
}

/// Report of a directory removed after its children: their counts, plus the
/// directory itself.
pub fn directory_removal_report(children: &Vec<RemoveTreeReport>) -> (r: RemoveTreeReport)
    ensures
        r.files_removed == files_in(children@),
        r.directories_removed == saturating_sum(directories_in(children@), 1),
{
    let mut report = RemoveTreeReport::empty();
    let mut i: usize = 0;
    while i < children.len()
        invariant
            i <= children@.len(),
            report.files_removed == files_in(children@.subrange(0, i as int)),
            report.directories_removed == directories_in(children@.subrange(0, i as int)),
        decreases children@.len() - i,
    {
        proof {
            let next = children@.subrange(0, i + 1);
            assert(next.drop_last() =~= children@.subrange(0, i as int));
            assert(next.last() == children@[i as int]);
        }
        report.files_removed = report.files_removed.saturating_add(children[i].files_removed);
        report.directories_removed = report.directories_removed.saturating_add(children[i].directories_removed);
        i = i + 1;
    }
    proof {
        assert(children@.subrange(0, children@.len() as int) =~= children@);
    }
    report.directories_removed = report.directories_removed.saturating_add(1);
    report
}

/// Removes one file or a complete directory tree.
///
/// Children are removed depth-first so the backend only needs an empty-directory
/// remove primitive. Whatever is removed, the report counts at least the root.
pub fn remove_tree<B: Backend>(backend: &B, path: &BackendPath) -> (r: Result<RemoveTreeReport, BackendError>)
    ensures
        r matches Ok(report) ==> report.files_removed + report.directories_removed >= 1,
{
    remove_tree_within(backend, path, MAX_TREE_DEPTH)
}

fn remove_tree_within<B: Backend>(backend: &B, path: &BackendPath, depth: u64) -> (r: Result<
    RemoveTreeReport,
    BackendError,
>)
    ensures
        r matches Ok(report) ==> report.files_removed + report.directories_removed >= 1,
    decreases depth,
{
    let entry = match backend.stat(path) {
        Ok(entry) => entry,
        Err(e) => return Err(e),
    };
    if entry.kind != EntryKind::Directory {
        match backend.remove(path) {
            Ok(()) => {},
            Err(e) => return Err(e),
        }
        return Ok(RemoveTreeReport { files_removed: 1, directories_removed: 0 });
    }
    if depth == 0 {
        return Err(
            BackendError::new(
                ErrorKind::InvalidInput,
                "remove directory tree",
                Some(path.clone()),
                "directory nesting is too deep",
            ),
        );
    }
    let children = match backend.list(path) {
        Ok(children) => children,
        Err(e) => return Err(e),
    };
    let mut removed: Vec<RemoveTreeReport> = Vec::new();
    let mut i: usize = 0;
    while i < children.len()
        invariant
            i <= children@.len(),
            depth > 0,
        decreases children@.len() - i,
    {
        let child = match remove_tree_within(backend, &children[i].path, depth - 1) {
            Ok(child) => child,
            Err(e) => return Err(e),
        };
        removed.push(child);
        i = i + 1;
    }
    match backend.remove(path) {
        Ok(()) => {},
        Err(e) => return Err(e),
    }
    Ok(directory_removal_report(&removed))
}

/// Removes a tree if present; a missing root removes nothing.
pub fn remove_tree_if_present<B: Backend>(backend: &B, path: &BackendPath) -> (r: Result<
    RemoveTreeReport,
    BackendError,
>)
    ensures
        r matches Ok(report) ==> (report.files_removed == 0 && report.directories_removed == 0)
            || report.files_removed + report.directories_removed >= 1,
{
    match presence(backend.stat(path)) {
        Ok(true) => remove_tree(backend, path),
        Ok(false) => Ok(RemoveTreeReport::empty()),
        Err(error) => Err(error),
    }
}

} // verus!
