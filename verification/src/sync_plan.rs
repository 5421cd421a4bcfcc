//! Deterministic backend-neutral synchronization planning.
//!
//! A plan is computed from two snapshots (relative path to entry) of a source
//! and a destination tree. Its actions come in a safe order: directories to
//! create (parents first), files to copy, conflicts, skipped entries, then
//! removals of destination orphans (children first).

use vstd::prelude::*;
use crate::backend::{Backend, BackendError};
use crate::domain::{BackendPath, EntryKind, FileEntry};
use crate::paths::{
    depth, join_text, joined_text, lemma_lex_less_transitive, lex_less, path_depth, relative_text, relative_to, text_less,
};
use crate::rules::{RuleDecision, RuleSet, RuleTarget, TargetView, evaluate, evaluation};
use crate::text::{owned, text_equals};

verus! {

/// Planner options.
#[derive(Clone, Debug, PartialEq, Eq)]
pub struct SyncOptions {
    /// Remove destination-only entries.
    pub delete_orphans: bool,
    /// Request symbolic-link traversal.
    pub follow_symlinks: bool,
    /// Ordered rules.
    pub rules: Vec<RuleSet>,
}

impl Default for SyncOptions {
    fn default() -> (r: Self)
        ensures
            !r.delete_orphans,
            !r.follow_symlinks,
            r.rules@.len() == 0,
    {
        SyncOptions { delete_orphans: false, follow_symlinks: false, rules: Vec::new() }
    }
}

/// Planned action.
#[derive(Clone, Copy, Debug, PartialEq, Eq, Structural)]
pub enum SyncActionKind {
    /// Create a destination directory.
    CreateDirectory,
    /// Copy a source file to the destination.
    CopyFile,
    /// Remove a destination file or symbolic link.
    RemoveFile,
    /// Remove a destination directory after its children.
    RemoveDirectory,
    /// Source and destination entry kinds disagree.
    Conflict,
    /// Entry is unsupported or intentionally skipped.
    Skip,
}

/// One sync action.
#[derive(Debug, PartialEq, Eq)]
pub struct SyncAction {
    /// Action category.
    pub kind: SyncActionKind,
    /// Slash-separated path relative to both sync roots.
    pub relative_path: String,
    /// Source path when the action reads a source object.
    pub source: Option<BackendPath>,
    /// Destination path when the action targets a destination object.
    pub destination: Option<BackendPath>,
    /// Human-readable explanation used by preview UIs.
    pub reason: String,
}

/// Mathematical value of an action.
pub struct ActionView {
    /// Category.
    pub kind: SyncActionKind,
    /// Relative path.
    pub relative: Seq<char>,
    /// Source path text.
    pub source: Option<Seq<char>>,
    /// Destination path text.
    pub destination: Option<Seq<char>>,
    /// Explanation.
    pub reason: Seq<char>,
}

/// Text of an optional path.
pub open spec fn opt_path(o: Option<BackendPath>) -> Option<Seq<char>> {
    match o {
        Some(p) => Some(p@),
        None => None,
    }
}

impl View for SyncAction {
    type V = ActionView;

    open spec fn view(&self) -> ActionView {
        ActionView {
            kind: self.kind,
            relative: self.relative_path@,
            source: opt_path(self.source),
            destination: opt_path(self.destination),
            reason: self.reason@,
        }
    }
}

fn clone_opt_path(o: &Option<BackendPath>) -> (r: Option<BackendPath>)
    ensures
        opt_path(r) == opt_path(*o),
{
    match o {
        Some(p) => Some(p.clone()),
        None => None,
    }
}

impl Clone for SyncAction {
    fn clone(&self) -> (r: Self)
        ensures
            r@ == self@,
    {
        SyncAction {
            kind: self.kind,
            relative_path: self.relative_path.clone(),
            source: clone_opt_path(&self.source),
            destination: clone_opt_path(&self.destination),
            reason: self.reason.clone(),
        }
    }
}

/// Values of a sequence of actions.
pub open spec fn actions_view(v: Seq<SyncAction>) -> Seq<ActionView> {
    v.map_values(|a: SyncAction| a@)
}

/// Plan summary.
#[derive(Clone, Copy, Debug, PartialEq, Eq, Structural)]
pub struct SyncSummary {
    /// Directories to create.
    pub directories_to_create: u64,
    /// Files to copy.
    pub files_to_copy: u64,
    /// Destination entries to remove.
    pub entries_to_remove: u64,
    /// Conflicts requiring a decision.
    pub conflicts: u64,
    /// Unsupported or intentionally skipped entries.
    pub skipped: u64,
}

impl Default for SyncSummary {
    fn default() -> (r: Self)
        ensures
            r.directories_to_create == 0,
            r.files_to_copy == 0,
            r.entries_to_remove == 0,
            r.conflicts == 0,
            r.skipped == 0,
    {
        SyncSummary { directories_to_create: 0, files_to_copy: 0, entries_to_remove: 0, conflicts: 0, skipped: 0 }
    }
}

/// Immutable plan.
#[derive(Debug, PartialEq, Eq)]
pub struct SyncPlan {
    actions: Vec<SyncAction>,
    summary: SyncSummary,
}

impl SyncPlan {
    /// Values of the planned actions in order.
    pub closed spec fn spec_actions(&self) -> Seq<ActionView> {
        actions_view(self.actions@)
    }

    /// The plan summary.
    pub closed spec fn spec_summary(&self) -> SyncSummary {
        self.summary
    }

    /// Returns actions in safe deterministic order.
    pub fn actions(&self) -> (r: &[SyncAction])
        ensures
            actions_view(r@) == self.spec_actions(),
    {
        self.actions.as_slice()
    }

    /// Returns summary.
    pub fn summary(&self) -> (r: SyncSummary)
        ensures
            r == self.spec_summary(),
    {
        self.summary
    }
}

/// Planning error.
#[derive(Debug)]
pub enum SyncPlanError {
    /// Backend enumeration or metadata failed.
    Backend(BackendError),
    /// A sync root is not a directory.
    RootNotDirectory {
        /// Invalid root path.
        path: BackendPath,
        /// Reported entry kind.
        kind: EntryKind,
    },
    /// A child path could not be represented relative to its root.
    PathOutsideRoot {
        /// Sync root.
        root: BackendPath,
        /// Child path.
        child: BackendPath,
    },
}

/// One snapshot entry: an entry and its path relative to the snapshot root.
#[derive(Debug)]
pub struct SnapshotEntry {
    /// Relative path (the snapshot key).
    pub relative: String,
    /// The entry.
    pub entry: FileEntry,
}

/// Mathematical value of a snapshot entry.
pub struct SnapView {
    /// Relative path.
    pub relative: Seq<char>,
    /// Entry name.
    pub name: Seq<char>,
    /// Full backend path.
    pub path: Seq<char>,
    /// Kind.
    pub kind: EntryKind,
    /// Size.
    pub size: Option<u64>,
    /// Modification time.
    pub modified: Option<u64>,
}

impl View for SnapshotEntry {
    type V = SnapView;

    open spec fn view(&self) -> SnapView {
        SnapView {
            relative: self.relative@,
            name: self.entry.name@,
            path: self.entry.path@,
            kind: self.entry.kind,
            size: self.entry.size,
            modified: self.entry.modified,
        }
    }
}

/// Values of a snapshot.
pub open spec fn snapshot_view(v: Seq<SnapshotEntry>) -> Seq<SnapView> {
    v.map_values(|e: SnapshotEntry| e@)
}

/// Entry of a relative path in a snapshot (the first one, keys being unique).
pub open spec fn lookup(d: Seq<SnapView>, relative: Seq<char>) -> Option<SnapView>
    decreases d.len(),
{
    if d.len() == 0 {
        None
    } else if d[0].relative == relative {
        Some(d[0])
    } else {
        lookup(d.drop_first(), relative)
    }
}

/// Builds an action value.
pub open spec fn action_view(
    kind: SyncActionKind,
    relative: Seq<char>,
    source: Option<Seq<char>>,
    destination: Option<Seq<char>>,
    reason: Seq<char>,
) -> ActionView {
    ActionView { kind, relative, source, destination, reason }
}

/// Reason given for entries the backend contract cannot represent.
pub open spec fn unsupported_reason() -> Seq<char> {
    "entry type is not representable by the current backend contract"@
}

/// The action, if any, that one source entry calls for.
pub open spec fn source_action(s: SnapView, d: Option<SnapView>, root: Seq<char>) -> Option<ActionView> {
    let dest = joined_text(root, s.relative);
    match d {
        None => Some(
            match s.kind {
                EntryKind::Directory => action_view(
                    SyncActionKind::CreateDirectory,
                    s.relative,
                    Some(s.path),
                    Some(dest),
                    "destination directory is missing"@,
                ),
                EntryKind::File => action_view(
                    SyncActionKind::CopyFile,
                    s.relative,
                    Some(s.path),
                    Some(dest),
                    "destination file is missing"@,
                ),
                _ => action_view(SyncActionKind::Skip, s.relative, Some(s.path), Some(dest), unsupported_reason()),
            },
        ),
        Some(dv) => if dv.kind != s.kind {
            Some(
                action_view(
                    SyncActionKind::Conflict,
                    s.relative,
                    Some(s.path),
                    Some(dv.path),
                    "source and destination entry kinds differ"@,
                ),
            )
        } else if s.kind == EntryKind::File && (s.size != dv.size || s.modified != dv.modified) {
            Some(
                action_view(
                    SyncActionKind::CopyFile,
                    s.relative,
                    Some(s.path),
                    Some(dv.path),
                    "source and destination metadata differ"@,
                ),
            )
        } else if s.kind == EntryKind::Symlink || s.kind == EntryKind::Other {
            Some(action_view(SyncActionKind::Skip, s.relative, Some(s.path), Some(dest), unsupported_reason()))
        } else {
            None
        },
    }
}

/// Source actions of one kind, in snapshot order.
pub open spec fn bucket(src: Seq<SnapView>, dst: Seq<SnapView>, root: Seq<char>, kind: SyncActionKind) -> Seq<ActionView>
    decreases src.len(),
{
    if src.len() == 0 {
        seq![]
    } else {
        let prev = bucket(src.drop_last(), dst, root, kind);
        match source_action(src.last(), lookup(dst, src.last().relative), root) {
            Some(a) => if a.kind == kind { prev.push(a) } else { prev },
            None => prev,
        }
    }
}

/// Removals of destination entries absent from the source, in snapshot order.
pub open spec fn removals(src: Seq<SnapView>, dst: Seq<SnapView>) -> Seq<ActionView>
    decreases dst.len(),
{
    if dst.len() == 0 {
        seq![]
    } else {
        let prev = removals(src, dst.drop_last());
        let d = dst.last();
        if lookup(src, d.relative) is None {
            prev.push(
                action_view(
                    if d.kind == EntryKind::Directory { SyncActionKind::RemoveDirectory } else { SyncActionKind::RemoveFile },
                    d.relative,
                    None,
                    Some(d.path),
                    "destination entry is absent from source"@,
                ),
            )
        } else {
            prev
        }
    }
}

/// Orders used to arrange the plan's groups.
#[derive(Clone, Copy, Debug, PartialEq, Eq, Structural)]
pub enum ActionOrder {
    /// Shallower first, then by path (parents before children).
    ShallowFirst,
    /// By path.
    ByPath,
    /// Deeper first, then by path (children before parents).
    DeepFirst,
}

/// Whether `a` must come before `b` in an order.
pub open spec fn precedes(order: ActionOrder, a: ActionView, b: ActionView) -> bool {
    let da = path_depth(a.relative);
    let db = path_depth(b.relative);
    match order {
        ActionOrder::ShallowFirst => da < db || (da == db && lex_less(a.relative, b.relative)),
        ActionOrder::ByPath => lex_less(a.relative, b.relative),
        ActionOrder::DeepFirst => da > db || (da == db && lex_less(a.relative, b.relative)),
    }
}

/// Where insertion sort places `x`: before the first element it precedes.
pub open spec fn insertion_point(order: ActionOrder, s: Seq<ActionView>, x: ActionView) -> int
    decreases s.len(),
{
    if s.len() == 0 {
        0
    } else if precedes(order, x, s[0]) {
        0
    } else {
        1 + insertion_point(order, s.drop_first(), x)
    }
}

/// Stable insertion sort of actions under an order.
pub open spec fn sorted_by(order: ActionOrder, s: Seq<ActionView>) -> Seq<ActionView>
    decreases s.len(),
{
    if s.len() == 0 {
        s
    } else {
        let rest = sorted_by(order, s.drop_last());
        rest.insert(insertion_point(order, rest, s.last()), s.last())
    }
}

/// The planned actions for two snapshot values.
pub open spec fn planned_actions(
    src: Seq<SnapView>,
    dst: Seq<SnapView>,
    root: Seq<char>,
    delete_orphans: bool,
) -> Seq<ActionView> {
    sorted_by(ActionOrder::ShallowFirst, bucket(src, dst, root, SyncActionKind::CreateDirectory))
        + sorted_by(ActionOrder::ByPath, bucket(src, dst, root, SyncActionKind::CopyFile))
        + sorted_by(ActionOrder::ByPath, bucket(src, dst, root, SyncActionKind::Conflict))
        + sorted_by(ActionOrder::ByPath, bucket(src, dst, root, SyncActionKind::Skip))
        + if delete_orphans { sorted_by(ActionOrder::DeepFirst, removals(src, dst)) } else { seq![] }
}

/// Number of actions of a kind.
pub open spec fn count_kind(s: Seq<ActionView>, kind: SyncActionKind) -> nat
    decreases s.len(),
{
    if s.len() == 0 {
        0
    } else {
        count_kind(s.drop_last(), kind) + if s.last().kind == kind { 1nat } else { 0nat }
    }
}

/// Saturating count.
pub open spec fn capped(n: nat) -> u64 {
    if n > u64::MAX { u64::MAX } else { n as u64 }
}

/// The summary of a list of actions.
pub open spec fn summary_of(s: Seq<ActionView>) -> SyncSummary {
    SyncSummary {
        directories_to_create: capped(count_kind(s, SyncActionKind::CreateDirectory)),
        files_to_copy: capped(count_kind(s, SyncActionKind::CopyFile)),
        entries_to_remove: capped(count_kind(s, SyncActionKind::RemoveFile) + count_kind(s, SyncActionKind::RemoveDirectory)),
        conflicts: capped(count_kind(s, SyncActionKind::Conflict)),
        skipped: capped(count_kind(s, SyncActionKind::Skip)),
    }
}

/// Whether `a` must come before `b` in an order.
pub fn precedes_exec(order: ActionOrder, a: &SyncAction, b: &SyncAction) -> (r: bool)
    ensures
        r == precedes(order, a@, b@),
{
    let da = depth(a.relative_path.as_str());
    let db = depth(b.relative_path.as_str());
    match order {
        ActionOrder::ShallowFirst => da < db || (da == db && text_less(
            a.relative_path.as_str(),
            b.relative_path.as_str(),
        )),
        ActionOrder::ByPath => text_less(a.relative_path.as_str(), b.relative_path.as_str()),
        ActionOrder::DeepFirst => da > db || (da == db && text_less(
            a.relative_path.as_str(),
            b.relative_path.as_str(),
        )),
    }
}

fn find_insertion_point(order: ActionOrder, out: &Vec<SyncAction>, x: &SyncAction) -> (r: usize)
    ensures
        r <= out@.len(),
        r == insertion_point(order, actions_view(out@), x@),
{
    let ghost s = actions_view(out@);
    let mut j: usize = 0;
    assert(s.subrange(0, s.len() as int) =~= s);
    while j < out.len() && !precedes_exec(order, x, &out[j])
        invariant
            s == actions_view(out@),
            j <= out@.len(),
            insertion_point(order, s, x@) == j + insertion_point(order, s.subrange(j as int, s.len() as int), x@),
        decreases out@.len() - j,
    {
        proof {
            let rest = s.subrange(j as int, s.len() as int);
            assert(rest.drop_first() =~= s.subrange(j + 1, s.len() as int));
            assert(rest[0] == s[j as int]);
        }
        j = j + 1;
    }
    proof {
        let rest = s.subrange(j as int, s.len() as int);
        if j < s.len() {
            assert(rest[0] == s[j as int]);
        }
    }
    j
}

/// Stable insertion sort of actions under an order.
pub fn sort_actions(order: ActionOrder, v: &Vec<SyncAction>) -> (r: Vec<SyncAction>)
    ensures
        actions_view(r@) == sorted_by(order, actions_view(v@)),
{
    let ghost s = actions_view(v@);
    let mut out: Vec<SyncAction> = Vec::new();
    let mut i: usize = 0;
    while i < v.len()
        invariant
            s == actions_view(v@),
            i <= v@.len(),
            actions_view(out@) == sorted_by(order, s.subrange(0, i as int)),
        decreases v@.len() - i,
    {
        let ghost before = actions_view(out@);
        let p = find_insertion_point(order, &out, &v[i]);
        let a = v[i].clone();
        out.insert(p, a);
        proof {
            let sub = s.subrange(0, i + 1);
            assert(sub.drop_last() =~= s.subrange(0, i as int));
            assert(sub.last() == s[i as int]);
            assert(actions_view(out@) =~= before.insert(p as int, s[i as int]));
        }
        i = i + 1;
    }
    assert(s.subrange(0, v@.len() as int) =~= s);
    out
}

/// Finds the entry of a relative path in a snapshot.
fn find_relative(d: &Vec<SnapshotEntry>, relative: &str) -> (r: Option<usize>)
    ensures
        r is None ==> lookup(snapshot_view(d@), relative@) is None,
        r matches Some(i) ==> i < d@.len() && lookup(snapshot_view(d@), relative@) == Some(d@[i as int]@),
{
    let ghost s = snapshot_view(d@);
    let mut i: usize = 0;
    assert(s.subrange(0, s.len() as int) =~= s);
    while i < d.len()
        invariant
            s == snapshot_view(d@),
            i <= d@.len(),
            lookup(s, relative@) == lookup(s.subrange(i as int, s.len() as int), relative@),
        decreases d@.len() - i,
    {
        proof {
            let rest = s.subrange(i as int, s.len() as int);
            assert(rest.drop_first() =~= s.subrange(i + 1, s.len() as int));
            assert(rest[0] == s[i as int]);
        }
        if text_equals(d[i].relative.as_str(), relative) {
            return Some(i);
        }
        i = i + 1;
    }
    None
}

/// Builds an action.
fn action(
    kind: SyncActionKind,
    relative_path: &str,
    source: Option<BackendPath>,
    destination: Option<BackendPath>,
    reason: &str,
) -> (r: SyncAction)
    ensures
        r@ == action_view(kind, relative_path@, opt_path(source), opt_path(destination), reason@),
{
    SyncAction { kind, relative_path: owned(relative_path), source, destination, reason: owned(reason) }
}

fn join_root(root: &BackendPath, relative: &str) -> (r: BackendPath)
    ensures
        r@ == joined_text(root@, relative@),
{
    let text = join_text(root.as_str(), relative);
    match BackendPath::from_string(text) {
        Ok(p) => p,
        Err(_) => {
            assert(false);
            root.clone()
        },
    }
}

/// The action, if any, that one source entry calls for.
fn source_action_for(s: &SnapshotEntry, d: Option<&SnapshotEntry>, root: &BackendPath) -> (r: Option<SyncAction>)
    ensures
        match r {
            Some(a) => source_action(s@, match d { Some(x) => Some(x@), None => None }, root@) == Some(a@),
            None => source_action(s@, match d { Some(x) => Some(x@), None => None }, root@) is None,
        },
{
    let relative = s.relative.as_str();
    let dest = join_root(root, relative);
    proof {
        reveal_strlit("destination directory is missing");
        reveal_strlit("destination file is missing");
        reveal_strlit("entry type is not representable by the current backend contract");
        reveal_strlit("source and destination entry kinds differ");
        reveal_strlit("source and destination metadata differ");
    }
    match d {
        None => {
            let a = match s.entry.kind {
                EntryKind::Directory => action(
                    SyncActionKind::CreateDirectory,
                    relative,
                    Some(s.entry.path.clone()),
                    Some(dest),
                    "destination directory is missing",
                ),
                EntryKind::File => action(
                    SyncActionKind::CopyFile,
                    relative,
                    Some(s.entry.path.clone()),
                    Some(dest),
                    "destination file is missing",
                ),
                _ => action(
                    SyncActionKind::Skip,
                    relative,
                    Some(s.entry.path.clone()),
                    Some(dest),
                    "entry type is not representable by the current backend contract",
                ),
            };
            Some(a)
        },
        Some(dv) => {
            if dv.entry.kind != s.entry.kind {
                Some(
                    action(
                        SyncActionKind::Conflict,
                        relative,
                        Some(s.entry.path.clone()),
                        Some(dv.entry.path.clone()),
                        "source and destination entry kinds differ",
                    ),
                )
            } else if s.entry.kind == EntryKind::File && (s.entry.size != dv.entry.size
                || s.entry.modified != dv.entry.modified) {
                Some(
                    action(
                        SyncActionKind::CopyFile,
                        relative,
                        Some(s.entry.path.clone()),
                        Some(dv.entry.path.clone()),
                        "source and destination metadata differ",
                    ),
                )
            } else if s.entry.kind == EntryKind::Symlink || s.entry.kind == EntryKind::Other {
                Some(
                    action(
                        SyncActionKind::Skip,
                        relative,
                        Some(s.entry.path.clone()),
                        Some(dest),
                        "entry type is not representable by the current backend contract",
                    ),
                )
            } else {
                None
            }
        },
    }
}

/// Source actions grouped by kind, each group in snapshot order.
struct ActionBuckets {
    create_dirs: Vec<SyncAction>,
    copy_files: Vec<SyncAction>,
    conflicts: Vec<SyncAction>,
    skipped: Vec<SyncAction>,
}

fn plan_source_actions(src: &Vec<SnapshotEntry>, dst: &Vec<SnapshotEntry>, root: &BackendPath) -> (r: ActionBuckets)
    ensures
        actions_view(r.create_dirs@) == bucket(snapshot_view(src@), snapshot_view(dst@), root@, SyncActionKind::CreateDirectory),
        actions_view(r.copy_files@) == bucket(snapshot_view(src@), snapshot_view(dst@), root@, SyncActionKind::CopyFile),
        actions_view(r.conflicts@) == bucket(snapshot_view(src@), snapshot_view(dst@), root@, SyncActionKind::Conflict),
        actions_view(r.skipped@) == bucket(snapshot_view(src@), snapshot_view(dst@), root@, SyncActionKind::Skip),
{
    let ghost sv = snapshot_view(src@);
    let ghost dv = snapshot_view(dst@);
    let mut b = ActionBuckets {
        create_dirs: Vec::new(),
        copy_files: Vec::new(),
        conflicts: Vec::new(),
        skipped: Vec::new(),
    };
    let mut i: usize = 0;
    while i < src.len()
        invariant
            sv == snapshot_view(src@),
            dv == snapshot_view(dst@),
            i <= src@.len(),
            actions_view(b.create_dirs@) == bucket(sv.subrange(0, i as int), dv, root@, SyncActionKind::CreateDirectory),
            actions_view(b.copy_files@) == bucket(sv.subrange(0, i as int), dv, root@, SyncActionKind::CopyFile),
            actions_view(b.conflicts@) == bucket(sv.subrange(0, i as int), dv, root@, SyncActionKind::Conflict),
            actions_view(b.skipped@) == bucket(sv.subrange(0, i as int), dv, root@, SyncActionKind::Skip),
        decreases src@.len() - i,
    {
        let ghost c0 = actions_view(b.create_dirs@);
        let ghost c1 = actions_view(b.copy_files@);
        let ghost c2 = actions_view(b.conflicts@);
        let ghost c3 = actions_view(b.skipped@);
        let entry = &src[i];
        let d = match find_relative(dst, entry.relative.as_str()) {
            Some(k) => Some(&dst[k]),
            None => None,
        };
        let planned = source_action_for(entry, d, root);
        proof {
            let sub = sv.subrange(0, i + 1);
            assert(sub.drop_last() =~= sv.subrange(0, i as int));
            assert(sub.last() == sv[i as int]);
            assert(sv[i as int] == entry@);
        }
        match planned {
            Some(a) => {
                let ghost av = a@;
                match a.kind {
                    SyncActionKind::CreateDirectory => b.create_dirs.push(a),
                    SyncActionKind::CopyFile => b.copy_files.push(a),
                    SyncActionKind::Conflict => b.conflicts.push(a),
                    _ => b.skipped.push(a),
                }
                proof {
                    assert(av.kind == SyncActionKind::CreateDirectory || av.kind == SyncActionKind::CopyFile
                        || av.kind == SyncActionKind::Conflict || av.kind == SyncActionKind::Skip);
                    if av.kind == SyncActionKind::CreateDirectory {
                        assert(actions_view(b.create_dirs@) =~= c0.push(av));
                        assert(actions_view(b.copy_files@) =~= c1);
                    } else if av.kind == SyncActionKind::CopyFile {
                        assert(actions_view(b.copy_files@) =~= c1.push(av));
                    } else if av.kind == SyncActionKind::Conflict {
                        assert(actions_view(b.conflicts@) =~= c2.push(av));
                    } else {
                        assert(actions_view(b.skipped@) =~= c3.push(av));
                    }
                }
            },
            None => {},
        }
        i = i + 1;
    }
    proof {
        assert(sv.subrange(0, src@.len() as int) =~= sv);
    }
    b
}

fn plan_removals(src: &Vec<SnapshotEntry>, dst: &Vec<SnapshotEntry>) -> (r: Vec<SyncAction>)
    ensures
        actions_view(r@) == removals(snapshot_view(src@), snapshot_view(dst@)),
{
    let ghost sv = snapshot_view(src@);
    let ghost dv = snapshot_view(dst@);
    let mut out: Vec<SyncAction> = Vec::new();
    let mut i: usize = 0;
    proof {
        reveal_strlit("destination entry is absent from source");
    }
    while i < dst.len()
        invariant
            sv == snapshot_view(src@),
            dv == snapshot_view(dst@),
            i <= dst@.len(),
            actions_view(out@) == removals(sv, dv.subrange(0, i as int)),
        decreases dst@.len() - i,
    {
        let ghost before = actions_view(out@);
        let entry = &dst[i];
        proof {
            let sub = dv.subrange(0, i + 1);
            assert(sub.drop_last() =~= dv.subrange(0, i as int));
            assert(sub.last() == dv[i as int]);
            assert(dv[i as int] == entry@);
        }
        if find_relative(src, entry.relative.as_str()).is_none() {
            let kind = if entry.entry.kind == EntryKind::Directory {
                SyncActionKind::RemoveDirectory
            } else {
                SyncActionKind::RemoveFile
            };
            let a = action(
                kind,
                entry.relative.as_str(),
                None,
                Some(entry.entry.path.clone()),
                "destination entry is absent from source",
            );
            out.push(a);
            proof {
                assert(actions_view(out@) =~= before.push(a@));
            }
        }
        i = i + 1;
    }
    proof {
        assert(dv.subrange(0, dst@.len() as int) =~= dv);
    }
    out
}

/// Counts actions by kind.
pub fn summarize(actions: &[SyncAction]) -> (r: SyncSummary)
    ensures
        r == summary_of(actions_view(actions@)),
{
    let ghost s = actions_view(actions@);
    let mut summary = SyncSummary::default();
    let mut i: usize = 0;
    while i < actions.len()
        invariant
            s == actions_view(actions@),
            i <= actions@.len(),
            summary == summary_of(s.subrange(0, i as int)),
        decreases actions@.len() - i,
    {
        proof {
            let sub = s.subrange(0, i + 1);
            assert(sub.drop_last() =~= s.subrange(0, i as int));
            assert(sub.last() == s[i as int]);
        }
        match actions[i].kind {
            SyncActionKind::CreateDirectory => {
                summary.directories_to_create = summary.directories_to_create.saturating_add(1);
            },
            SyncActionKind::CopyFile => {
                summary.files_to_copy = summary.files_to_copy.saturating_add(1);
            },
            SyncActionKind::RemoveFile | SyncActionKind::RemoveDirectory => {
                summary.entries_to_remove = summary.entries_to_remove.saturating_add(1);
            },
            SyncActionKind::Conflict => {
                summary.conflicts = summary.conflicts.saturating_add(1);
            },
            SyncActionKind::Skip => {
                summary.skipped = summary.skipped.saturating_add(1);
            },
        }
        i = i + 1;
    }
    assert(s.subrange(0, actions@.len() as int) =~= s);
    summary
}

fn append_all(out: &mut Vec<SyncAction>, more: Vec<SyncAction>)
    ensures
        actions_view(final(out)@) == actions_view(old(out)@) + actions_view(more@),
{
    let ghost start = actions_view(out@);
    let mut i: usize = 0;
    while i < more.len()
        invariant
            i <= more@.len(),
            actions_view(out@) == start + actions_view(more@).subrange(0, i as int),
        decreases more@.len() - i,
    {
        let ghost before = actions_view(out@);
        let a = more[i].clone();
        out.push(a);
        proof {
            assert(actions_view(out@) =~= before.push(more@[i as int]@));
            assert(actions_view(more@).subrange(0, i + 1) =~= actions_view(more@).subrange(0, i as int).push(more@[i as int]@));
            assert(start + actions_view(more@).subrange(0, i + 1) =~= (start + actions_view(more@).subrange(0, i as int)).push(more@[i as int]@));
        }
        i = i + 1;
    }
    assert(actions_view(more@).subrange(0, more@.len() as int) =~= actions_view(more@));
}

/// Plans a one-way sync from two snapshots of a source and a destination tree.
pub fn plan_from_snapshots(
    source_snapshot: &Vec<SnapshotEntry>,
    destination_snapshot: &Vec<SnapshotEntry>,
    destination_root: &BackendPath,
    delete_orphans: bool,
) -> (r: SyncPlan)
    ensures
        r.spec_actions() == planned_actions(
            snapshot_view(source_snapshot@),
            snapshot_view(destination_snapshot@),
            destination_root@,
            delete_orphans,
        ),
        r.spec_summary() == summary_of(r.spec_actions()),
{
    let buckets = plan_source_actions(source_snapshot, destination_snapshot, destination_root);
    let mut actions = sort_actions(ActionOrder::ShallowFirst, &buckets.create_dirs);
    append_all(&mut actions, sort_actions(ActionOrder::ByPath, &buckets.copy_files));
    append_all(&mut actions, sort_actions(ActionOrder::ByPath, &buckets.conflicts));
    append_all(&mut actions, sort_actions(ActionOrder::ByPath, &buckets.skipped));
    if delete_orphans {
        let removed = plan_removals(source_snapshot, destination_snapshot);
        append_all(&mut actions, sort_actions(ActionOrder::DeepFirst, &removed));
    } else {
        proof {
            assert(actions_view(actions@) + seq![] =~= actions_view(actions@));
        }
    }
    let summary = summarize(actions.as_slice());
    SyncPlan { actions, summary }
}

/// Nesting depth a snapshot walk follows before it gives up.
pub const MAX_SNAPSHOT_DEPTH: u64 = 0xffff_ffff_ffff_ffff;

/// Relative paths of a snapshot are unique.
pub open spec fn unique_keys(s: Seq<SnapView>) -> bool {
    forall|i: int, j: int| 0 <= i < j < s.len() ==> s[i].relative != s[j].relative
}

/// Every entry lies under the root, keyed by its path relative to it.
pub open spec fn all_under(root: Seq<char>, v: Seq<SnapView>) -> bool {
    forall|i: int| 0 <= i < v.len() ==> relative_text(root, (#[trigger] v[i]).path) == Some(v[i].relative)
}

/// No rule set skips a snapshot entry.
pub open spec fn rules_keep(rules: Seq<RuleSet>, name: Seq<char>, e: SnapView) -> bool {
    evaluation(rules, TargetView { name, path: e.relative, kind: e.kind }) != RuleDecision::Skip
}

/// Every entry was kept by the rules.
pub open spec fn all_kept(rules: Seq<RuleSet>, v: Seq<SnapshotEntry>) -> bool {
    forall|i: int| 0 <= i < v.len() ==> rules_keep(rules, v[i].entry.name@, #[trigger] v[i]@)
}

/// Inserts an entry under its relative path, replacing an existing one.
fn snapshot_insert(entries: &mut Vec<SnapshotEntry>, entry: SnapshotEntry, Ghost(rules): Ghost<Seq<RuleSet>>)
    requires
        unique_keys(snapshot_view(old(entries)@)),
        all_kept(rules, old(entries)@),
        rules_keep(rules, entry.entry.name@, entry@),
    ensures
        unique_keys(snapshot_view(final(entries)@)),
        all_kept(rules, final(entries)@),
        lookup(snapshot_view(old(entries)@), entry@.relative) is None ==> final(entries)@ == old(entries)@.push(
            entry,
        ),
        lookup(snapshot_view(old(entries)@), entry@.relative) is Some ==> exists|k: int|
            0 <= k < old(entries)@.len() && (#[trigger] old(entries)@[k])@.relative == entry@.relative
                && final(entries)@ == old(entries)@.update(k, entry),
{
    let ghost e = entry@;
    match find_relative(entries, entry.relative.as_str()) {
        Some(k) => {
            let ghost before = entries@;
            proof {
                lemma_lookup_index(snapshot_view(before), entry.relative@, k as int);
                assert(snapshot_view(before)[k as int] == before[k as int]@);
            }
            entries.set(k, entry);
            proof {
                assert(snapshot_view(entries@) =~= snapshot_view(before).update(k as int, e));
                assert forall|i: int| 0 <= i < entries@.len() implies rules_keep(rules, entries@[i].entry.name@, #[trigger] entries@[i]@) by {
                    if i != k {
                        assert(entries@[i] == before[i]);
                    }
                }
            }
        },
        None => {
            let ghost before = entries@;
            entries.push(entry);
            proof {
                assert(snapshot_view(entries@) =~= snapshot_view(before).push(e));
                lemma_lookup_none(snapshot_view(before), e.relative);
                assert forall|i: int| 0 <= i < entries@.len() implies rules_keep(rules, entries@[i].entry.name@, #[trigger] entries@[i]@) by {
                    if i < before.len() {
                        assert(entries@[i] == before[i]);
                    }
                }
            }
        },
    }
}

/// Inserting an entry under the root keeps every entry under it.
proof fn lemma_insert_keeps_under(root: Seq<char>, before: Seq<SnapshotEntry>, after: Seq<SnapshotEntry>, e: SnapView)
    requires
        all_under(root, snapshot_view(before)),
        relative_text(root, e.path) == Some(e.relative),
        forall|i: int| 0 <= i < after.len() ==> (#[trigger] after[i])@ == e || (i < before.len() && after[i] == before[i]),
    ensures
        all_under(root, snapshot_view(after)),
{
    assert forall|i: int| 0 <= i < snapshot_view(after).len() implies relative_text(root, (#[trigger] snapshot_view(after)[i]).path)
        == Some(snapshot_view(after)[i].relative) by {
        if after[i]@ != e {
            assert(snapshot_view(before)[i] == before[i]@);
        }
    }
}

/// The lookup of an index's key finds that index's entry.
proof fn lemma_lookup_index(d: Seq<SnapView>, relative: Seq<char>, k: int)
    requires
        0 <= k < d.len(),
        lookup(d, relative) == Some(d[k]),
    ensures
        d[k].relative == relative,
{
    lemma_lookup_found(d, relative);
}

/// A found entry has the looked-up key.
proof fn lemma_lookup_found(d: Seq<SnapView>, relative: Seq<char>)
    ensures
        lookup(d, relative) matches Some(e) ==> e.relative == relative,
    decreases d.len(),
{
    if d.len() > 0 && d[0].relative != relative {
        lemma_lookup_found(d.drop_first(), relative);
    }
}

/// A key that is not found occurs nowhere.
proof fn lemma_lookup_none(d: Seq<SnapView>, relative: Seq<char>)
    requires
        lookup(d, relative) is None,
    ensures
        forall|i: int| 0 <= i < d.len() ==> d[i].relative != relative,
    decreases d.len(),
{
    if d.len() > 0 {
        lemma_lookup_none(d.drop_first(), relative);
        assert forall|i: int| 0 <= i < d.len() implies d[i].relative != relative by {
            if i > 0 {
                assert(d[i] == d.drop_first()[i - 1]);
            }
        }
    }
}

fn relative_path(root: &BackendPath, child: &BackendPath) -> (r: Result<String, SyncPlanError>)
    ensures
        r is Ok <==> relative_text(root@, child@) is Some,
        r matches Ok(t) ==> relative_text(root@, child@) == Some(t@),
        r matches Err(e) ==> (e matches SyncPlanError::PathOutsideRoot { root: a, child: b } && a@ == root@ && b@ == child@),
{
    match relative_to(root.as_str(), child.as_str()) {
        Some(t) => Ok(t),
        None => Err(SyncPlanError::PathOutsideRoot { root: root.clone(), child: child.clone() }),
    }
}

/// Walks one directory into the snapshot; entries the rules skip are left out
/// and not descended into.
fn visit_directory<B: Backend>(
    backend: &B,
    root: &BackendPath,
    directory: &BackendPath,
    options: &SyncOptions,
    entries: &mut Vec<SnapshotEntry>,
    depth_left: u64,
) -> (r: Result<(), SyncPlanError>)
    requires
        unique_keys(snapshot_view(old(entries)@)),
        all_kept(options.rules@, old(entries)@),
        all_under(root@, snapshot_view(old(entries)@)),
    ensures
        unique_keys(snapshot_view(final(entries)@)),
        all_kept(options.rules@, final(entries)@),
        all_under(root@, snapshot_view(final(entries)@)),
        !(r matches Err(SyncPlanError::RootNotDirectory { .. })),
    decreases depth_left,
{
    let listed = match backend.list(directory) {
        Ok(l) => l,
        Err(e) => return Err(SyncPlanError::Backend(e)),
    };
    let mut i: usize = 0;
    while i < listed.len()
        invariant
            i <= listed@.len(),
            unique_keys(snapshot_view(entries@)),
            all_kept(options.rules@, entries@),
            all_under(root@, snapshot_view(entries@)),
        decreases listed@.len() - i,
    {
        let entry = listed[i].clone();
        let relative = match relative_path(root, &entry.path) {
            Ok(t) => t,
            Err(e) => return Err(e),
        };
        let decision = evaluate(
            options.rules.as_slice(),
            RuleTarget { name: entry.name.as_str(), path: relative.as_str(), kind: entry.kind },
        );
        if decision != RuleDecision::Skip {
            let recurse = entry.kind == EntryKind::Directory;
            let path = entry.path.clone();
            let ghost before = entries@;
            let item = SnapshotEntry { relative, entry };
            let ghost e = item@;
            snapshot_insert(entries, item, Ghost(options.rules@));
            proof {
                lemma_insert_keeps_under(root@, before, entries@, e);
            }
            if recurse {
                if depth_left == 0 {
                    return Err(
                        SyncPlanError::Backend(
                            BackendError::new(
                                crate::backend::ErrorKind::InvalidInput,
                                "snapshot directory tree",
                                Some(path),
                                "directory nesting is too deep",
                            ),
                        ),
                    );
                }
                match visit_directory(backend, root, &path, options, entries, depth_left - 1) {
                    Ok(()) => {},
                    Err(e) => return Err(e),
                }
            }
        }
        i = i + 1;
    }
    Ok(())
}

/// Snapshot of every entry below a root, keyed by relative path.
pub fn snapshot<B: Backend>(backend: &B, root: &BackendPath, options: &SyncOptions) -> (r: Result<
    Vec<SnapshotEntry>,
    SyncPlanError,
>)
    ensures
        r matches Ok(v) ==> unique_keys(snapshot_view(v@)) && all_kept(options.rules@, v@),
        r matches Ok(v) ==> all_under(root@, snapshot_view(v@)),
        !(r matches Err(SyncPlanError::RootNotDirectory { .. })),
{
    let mut entries: Vec<SnapshotEntry> = Vec::new();
    assert(snapshot_view(entries@) =~= Seq::<SnapView>::empty());
    match visit_directory(backend, root, root, options, &mut entries, MAX_SNAPSHOT_DEPTH) {
        Ok(()) => Ok(entries),
        Err(e) => Err(e),
    }
}

/// Fails unless the root is a directory.
fn ensure_directory<B: Backend>(backend: &B, root: &BackendPath) -> (r: Result<(), SyncPlanError>)
    ensures
        r matches Err(SyncPlanError::RootNotDirectory { path, kind }) ==> path@ == root@ && kind
            != EntryKind::Directory,
        !(r matches Err(SyncPlanError::PathOutsideRoot { .. })),
{
    let entry = match backend.stat(root) {
        Ok(e) => e,
        Err(e) => return Err(SyncPlanError::Backend(e)),
    };
    if entry.kind == EntryKind::Directory {
        Ok(())
    } else {
        Err(SyncPlanError::RootNotDirectory { path: root.clone(), kind: entry.kind })
    }
}

/// Plans a one-way source-to-destination sync.
///
/// Both roots must be directories. The source snapshot honours the rules of
/// the options; the destination snapshot takes every entry.
pub fn plan_one_way<S: Backend, D: Backend>(
    source: &S,
    source_root: &BackendPath,
    destination: &D,
    destination_root: &BackendPath,
    options: &SyncOptions,
) -> (r: Result<SyncPlan, SyncPlanError>)
    ensures
        r matches Ok(plan) ==> exists|src: Seq<SnapView>, dst: Seq<SnapView>|
            unique_keys(src) && unique_keys(dst) && all_under(source_root@, src) && all_under(
                destination_root@,
                dst,
            ) && plan.spec_actions() == planned_actions(
                src,
                dst,
                destination_root@,
                options.delete_orphans,
            ),
        r matches Ok(plan) ==> plan.spec_summary() == summary_of(plan.spec_actions()),
        r matches Err(SyncPlanError::RootNotDirectory { path, .. }) ==> (path@ == source_root@ || path@
            == destination_root@),
{
    match ensure_directory(source, source_root) {
        Ok(()) => {},
        Err(e) => return Err(e),
    }
    match ensure_directory(destination, destination_root) {
        Ok(()) => {},
        Err(e) => return Err(e),
    }
    let source_snapshot = match snapshot(source, source_root, options) {
        Ok(s) => s,
        Err(e) => return Err(e),
    };
    let everything = SyncOptions::default();
    let destination_snapshot = match snapshot(destination, destination_root, &everything) {
        Ok(s) => s,
        Err(e) => return Err(e),
    };
    let plan = plan_from_snapshots(
        &source_snapshot,
        &destination_snapshot,
        destination_root,
        options.delete_orphans,
    );
    proof {
        let src = snapshot_view(source_snapshot@);
        let dst = snapshot_view(destination_snapshot@);
        assert(unique_keys(src) && unique_keys(dst) && all_under(source_root@, src) && all_under(
            destination_root@,
            dst,
        ) && plan.spec_actions() == planned_actions(
            src,
            dst,
            destination_root@,
            options.delete_orphans,
        ));
    }
    Ok(plan)
}

/// The insertion point lies within the sequence, after every element that
/// `x` does not precede and before one that it does.
pub proof fn lemma_insertion_point_exists(order: ActionOrder, s: Seq<ActionView>, x: ActionView)
    ensures
        0 <= insertion_point(order, s, x) <= s.len(),
        forall|t: int| 0 <= t < insertion_point(order, s, x) ==> !precedes(order, x, #[trigger] s[t]),
        insertion_point(order, s, x) < s.len() ==> precedes(order, x, s[insertion_point(order, s, x)]),
    decreases s.len(),
{
    if s.len() > 0 && !precedes(order, x, s[0]) {
        let rest = s.drop_first();
        lemma_insertion_point_exists(order, rest, x);
        assert forall|t: int| 0 <= t < insertion_point(order, s, x) implies !precedes(order, x, #[trigger] s[t]) by {
            if t > 0 {
                assert(s[t] == rest[t - 1]);
            }
        }
        if insertion_point(order, s, x) < s.len() {
            assert(s[insertion_point(order, s, x)] == rest[insertion_point(order, rest, x)]);
        }
    }
}

/// Sorting keeps the length and takes every element from the input.
pub proof fn lemma_sorted_members(order: ActionOrder, s: Seq<ActionView>)
    ensures
        sorted_by(order, s).len() == s.len(),
        forall|k: int| 0 <= k < s.len() ==> exists|j: int| 0 <= j < s.len() && s[j] == #[trigger] sorted_by(order, s)[k],
    decreases s.len(),
{
    if s.len() > 0 {
        let rest = sorted_by(order, s.drop_last());
        lemma_sorted_members(order, s.drop_last());
        lemma_insertion_point_exists(order, rest, s.last());
        let p = insertion_point(order, rest, s.last());
        let r = rest.insert(p, s.last());
        assert forall|k: int| 0 <= k < s.len() implies exists|j: int| 0 <= j < s.len() && s[j] == #[trigger] r[k] by {
            if k < p {
                assert(r[k] == rest[k]);
                let j = choose|j: int| 0 <= j < s.drop_last().len() && s.drop_last()[j] == rest[k];
                assert(s[j] == r[k]);
            } else if k == p {
                assert(s[s.len() - 1] == r[k]);
            } else {
                assert(r[k] == rest[k - 1]);
                let j = choose|j: int| 0 <= j < s.drop_last().len() && s.drop_last()[j] == rest[k - 1];
                assert(s[j] == r[k]);
            }
        }
    }
}

/// Depths never decrease along a sequence.
pub open spec fn shallow_to_deep(s: Seq<ActionView>) -> bool {
    forall|i: int, j: int| 0 <= i < j < s.len() ==> path_depth(#[trigger] s[i].relative) <= path_depth(#[trigger] s[j].relative)
}

/// Depths never increase along a sequence.
pub open spec fn deep_to_shallow(s: Seq<ActionView>) -> bool {
    forall|i: int, j: int| 0 <= i < j < s.len() ==> path_depth(#[trigger] s[i].relative) >= path_depth(#[trigger] s[j].relative)
}

/// Directories to create are ordered parents first: depth never decreases.
pub proof fn lemma_shallow_first_sorted(s: Seq<ActionView>)
    ensures
        shallow_to_deep(sorted_by(ActionOrder::ShallowFirst, s)),
    decreases s.len(),
{
    if s.len() > 0 {
        let order = ActionOrder::ShallowFirst;
        let rest = sorted_by(order, s.drop_last());
        lemma_shallow_first_sorted(s.drop_last());
        lemma_insertion_point_exists(order, rest, s.last());
        let p = insertion_point(order, rest, s.last());
        let x = s.last();
        let r = rest.insert(p, x);
        assert forall|i: int, j: int| 0 <= i < j < r.len() implies path_depth(#[trigger] r[i].relative) <= path_depth(#[trigger] r[j].relative) by {
            if i < p && j < p {
                assert(r[i] == rest[i] && r[j] == rest[j]);
            } else if i < p && j == p {
                assert(!precedes(order, x, rest[i]));
            } else if i < p && j > p {
                assert(r[i] == rest[i] && r[j] == rest[j - 1]);
            } else if i == p {
                assert(r[j] == rest[j - 1]);
                assert(precedes(order, x, rest[p]));
                assert(path_depth(rest[p].relative) <= path_depth(rest[j - 1].relative)) by {
                    if p < j - 1 {
                    }
                }
            } else {
                assert(r[i] == rest[i - 1] && r[j] == rest[j - 1]);
            }
        }
    }
}

/// Sorting by path leaves no action before one whose path comes earlier.
pub proof fn lemma_by_path_sorted(s: Seq<ActionView>)
    ensures
        forall|i: int, j: int|
            0 <= i < j < sorted_by(ActionOrder::ByPath, s).len() ==> !lex_less(
                (#[trigger] sorted_by(ActionOrder::ByPath, s)[j]).relative,
                (#[trigger] sorted_by(ActionOrder::ByPath, s)[i]).relative,
            ),
    decreases s.len(),
{
    if s.len() > 0 {
        let order = ActionOrder::ByPath;
        let rest = sorted_by(order, s.drop_last());
        lemma_by_path_sorted(s.drop_last());
        lemma_insertion_point_exists(order, rest, s.last());
        let p = insertion_point(order, rest, s.last());
        let x = s.last();
        let r = rest.insert(p, x);
        assert forall|i: int, j: int| 0 <= i < j < r.len() implies !lex_less(
            (#[trigger] r[j]).relative,
            (#[trigger] r[i]).relative,
        ) by {
            if i < p && j < p {
                assert(r[i] == rest[i] && r[j] == rest[j]);
            } else if i < p && j == p {
                assert(!precedes(order, x, rest[i]));
            } else if i < p && j > p {
                assert(r[i] == rest[i] && r[j] == rest[j - 1]);
            } else if i == p {
                assert(r[j] == rest[j - 1]);
                assert(precedes(order, x, rest[p]));
                if lex_less(rest[j - 1].relative, x.relative) {
                    lemma_lex_less_transitive(rest[j - 1].relative, x.relative, rest[p].relative);
                    if p < j - 1 {
                        assert(!lex_less(rest[j - 1].relative, rest[p].relative));
                    } else {
                        lemma_lex_less_irreflexive(rest[p].relative);
                    }
                }
            } else {
                assert(r[i] == rest[i - 1] && r[j] == rest[j - 1]);
            }
        }
    }
}

/// No path comes before itself.
proof fn lemma_lex_less_irreflexive(a: Seq<char>)
    ensures
        !lex_less(a, a),
{
}

/// Removals are ordered children first: depth never increases.
pub proof fn lemma_deep_first_sorted(s: Seq<ActionView>)
    ensures
        deep_to_shallow(sorted_by(ActionOrder::DeepFirst, s)),
    decreases s.len(),
{
    if s.len() > 0 {
        let order = ActionOrder::DeepFirst;
        let rest = sorted_by(order, s.drop_last());
        lemma_deep_first_sorted(s.drop_last());
        lemma_insertion_point_exists(order, rest, s.last());
        let p = insertion_point(order, rest, s.last());
        let x = s.last();
        let r = rest.insert(p, x);
        assert forall|i: int, j: int| 0 <= i < j < r.len() implies path_depth(#[trigger] r[i].relative) >= path_depth(#[trigger] r[j].relative) by {
            if i < p && j < p {
                assert(r[i] == rest[i] && r[j] == rest[j]);
            } else if i < p && j == p {
                assert(!precedes(order, x, rest[i]));
            } else if i < p && j > p {
                assert(r[i] == rest[i] && r[j] == rest[j - 1]);
            } else if i == p {
                assert(r[j] == rest[j - 1]);
                assert(precedes(order, x, rest[p]));
                assert(path_depth(rest[p].relative) >= path_depth(rest[j - 1].relative)) by {
                    if p < j - 1 {
                    }
                }
            } else {
                assert(r[i] == rest[i - 1] && r[j] == rest[j - 1]);
            }
        }
    }
}

/// Every action in a bucket has the bucket's kind.
pub proof fn lemma_bucket_kind(src: Seq<SnapView>, dst: Seq<SnapView>, root: Seq<char>, kind: SyncActionKind)
    ensures
        forall|i: int| 0 <= i < bucket(src, dst, root, kind).len() ==> (#[trigger] bucket(src, dst, root, kind)[i]).kind == kind,
    decreases src.len(),
{
    if src.len() > 0 {
        lemma_bucket_kind(src.drop_last(), dst, root, kind);
    }
}

/// Every removal removes a file or a directory.
pub proof fn lemma_removal_kinds(src: Seq<SnapView>, dst: Seq<SnapView>)
    ensures
        forall|i: int| 0 <= i < removals(src, dst).len() ==> ((#[trigger] removals(src, dst)[i]).kind
            == SyncActionKind::RemoveFile || removals(src, dst)[i].kind == SyncActionKind::RemoveDirectory),
    decreases dst.len(),
{
    if dst.len() > 0 {
        lemma_removal_kinds(src, dst.drop_last());
    }
}

/// Position of an action kind's group in a plan.
pub open spec fn kind_rank(kind: SyncActionKind) -> int {
    match kind {
        SyncActionKind::CreateDirectory => 0,
        SyncActionKind::CopyFile => 1,
        SyncActionKind::Conflict => 2,
        SyncActionKind::Skip => 3,
        SyncActionKind::RemoveFile => 4,
        SyncActionKind::RemoveDirectory => 4,
    }
}

/// Every element of a sequence has rank `k`.
pub open spec fn all_rank(s: Seq<ActionView>, k: int) -> bool {
    forall|i: int| 0 <= i < s.len() ==> kind_rank((#[trigger] s[i]).kind) == k
}

proof fn lemma_sorted_bucket_rank(src: Seq<SnapView>, dst: Seq<SnapView>, root: Seq<char>, order: ActionOrder, kind: SyncActionKind)
    ensures
        all_rank(sorted_by(order, bucket(src, dst, root, kind)), kind_rank(kind)),
{
    let b = bucket(src, dst, root, kind);
    lemma_bucket_kind(src, dst, root, kind);
    lemma_sorted_members(order, b);
    assert forall|i: int| 0 <= i < sorted_by(order, b).len() implies kind_rank((#[trigger] sorted_by(order, b)[i]).kind) == kind_rank(kind) by {
        let j = choose|j: int| 0 <= j < b.len() && b[j] == sorted_by(order, b)[i];
        assert(b[j].kind == kind);
    }
}

proof fn lemma_sorted_removals_rank(src: Seq<SnapView>, dst: Seq<SnapView>)
    ensures
        all_rank(sorted_by(ActionOrder::DeepFirst, removals(src, dst)), 4),
{
    let b = removals(src, dst);
    lemma_removal_kinds(src, dst);
    lemma_sorted_members(ActionOrder::DeepFirst, b);
    assert forall|i: int| 0 <= i < sorted_by(ActionOrder::DeepFirst, b).len() implies kind_rank((#[trigger] sorted_by(ActionOrder::DeepFirst, b)[i]).kind) == 4 by {
        let j = choose|j: int| 0 <= j < b.len() && b[j] == sorted_by(ActionOrder::DeepFirst, b)[i];
        assert(b[j].kind == SyncActionKind::RemoveFile || b[j].kind == SyncActionKind::RemoveDirectory);
    }
}

/// The order every plan keeps: groups come as creations, copies, conflicts,
/// skips, removals; directories are created parents first and removed
/// children first; nothing is removed unless orphans are deleted.
pub proof fn lemma_plan_order(src: Seq<SnapView>, dst: Seq<SnapView>, root: Seq<char>, delete_orphans: bool)
    ensures
        forall|i: int, j: int| 0 <= i < j < planned_actions(src, dst, root, delete_orphans).len()
            ==> kind_rank((#[trigger] planned_actions(src, dst, root, delete_orphans)[i]).kind)
            <= kind_rank((#[trigger] planned_actions(src, dst, root, delete_orphans)[j]).kind),
        forall|i: int, j: int| 0 <= i < j < planned_actions(src, dst, root, delete_orphans).len()
            && (#[trigger] planned_actions(src, dst, root, delete_orphans)[i]).kind == SyncActionKind::CreateDirectory
            && (#[trigger] planned_actions(src, dst, root, delete_orphans)[j]).kind == SyncActionKind::CreateDirectory
            ==> path_depth(planned_actions(src, dst, root, delete_orphans)[i].relative)
            <= path_depth(planned_actions(src, dst, root, delete_orphans)[j].relative),
        forall|i: int, j: int| 0 <= i < j < planned_actions(src, dst, root, delete_orphans).len()
            && kind_rank((#[trigger] planned_actions(src, dst, root, delete_orphans)[i]).kind) == 4
            && kind_rank((#[trigger] planned_actions(src, dst, root, delete_orphans)[j]).kind) == 4
            ==> path_depth(planned_actions(src, dst, root, delete_orphans)[i].relative)
            >= path_depth(planned_actions(src, dst, root, delete_orphans)[j].relative),
        !delete_orphans ==> forall|i: int| 0 <= i < planned_actions(src, dst, root, delete_orphans).len()
            ==> kind_rank((#[trigger] planned_actions(src, dst, root, delete_orphans)[i]).kind) < 4,
{
    let a = sorted_by(ActionOrder::ShallowFirst, bucket(src, dst, root, SyncActionKind::CreateDirectory));
    let b = sorted_by(ActionOrder::ByPath, bucket(src, dst, root, SyncActionKind::CopyFile));
    let c = sorted_by(ActionOrder::ByPath, bucket(src, dst, root, SyncActionKind::Conflict));
    let d = sorted_by(ActionOrder::ByPath, bucket(src, dst, root, SyncActionKind::Skip));
    let e: Seq<ActionView> = if delete_orphans { sorted_by(ActionOrder::DeepFirst, removals(src, dst)) } else { seq![] };
    lemma_sorted_bucket_rank(src, dst, root, ActionOrder::ShallowFirst, SyncActionKind::CreateDirectory);
    lemma_sorted_bucket_rank(src, dst, root, ActionOrder::ByPath, SyncActionKind::CopyFile);
    lemma_sorted_bucket_rank(src, dst, root, ActionOrder::ByPath, SyncActionKind::Conflict);
    lemma_sorted_bucket_rank(src, dst, root, ActionOrder::ByPath, SyncActionKind::Skip);
    lemma_shallow_first_sorted(bucket(src, dst, root, SyncActionKind::CreateDirectory));
    if delete_orphans {
        lemma_sorted_removals_rank(src, dst);
        lemma_deep_first_sorted(removals(src, dst));
    }
    let p = planned_actions(src, dst, root, delete_orphans);
    assert(p == a + b + c + d + e);
    let la = a.len() as int;
    let lb = la + b.len();
    let lc = lb + c.len();
    let ld = lc + d.len();
    assert forall|i: int| 0 <= i < p.len() implies
        (i < la ==> p[i] == a[i] && kind_rank(p[i].kind) == 0)
        && (la <= i < lb ==> kind_rank(p[i].kind) == 1)
        && (lb <= i < lc ==> kind_rank(p[i].kind) == 2)
        && (lc <= i < ld ==> kind_rank(p[i].kind) == 3)
        && (ld <= i ==> p[i] == e[i - ld] && kind_rank(p[i].kind) == 4) by {
        if i < la {
            assert(p[i] == a[i]);
        } else if i < lb {
            assert(p[i] == b[i - la]);
        } else if i < lc {
            assert(p[i] == c[i - lb]);
        } else if i < ld {
            assert(p[i] == d[i - lc]);
        } else {
            assert(p[i] == e[i - ld]);
            if !delete_orphans {
                assert(e.len() == 0);
            }
        }
    }
    assert forall|i: int, j: int| 0 <= i < j < p.len() implies kind_rank((#[trigger] p[i]).kind) <= kind_rank((#[trigger] p[j]).kind) by {
    }
    assert forall|i: int, j: int| 0 <= i < j < p.len() && (#[trigger] p[i]).kind == SyncActionKind::CreateDirectory
        && (#[trigger] p[j]).kind == SyncActionKind::CreateDirectory implies path_depth(p[i].relative) <= path_depth(p[j].relative) by {
        assert(i < la && j < la);
        assert(p[i] == a[i] && p[j] == a[j]);
    }
    assert forall|i: int, j: int| 0 <= i < j < p.len() && kind_rank((#[trigger] p[i]).kind) == 4
        && kind_rank((#[trigger] p[j]).kind) == 4 implies path_depth(p[i].relative) >= path_depth(p[j].relative) by {
        assert(ld <= i && ld <= j);
        assert(p[i] == e[i - ld] && p[j] == e[j - ld]);
        if !delete_orphans {
            assert(e.len() == 0);
        }
    }
}


/// No two actions share a relative path.
pub open spec fn distinct_paths(s: Seq<ActionView>) -> bool {
    forall|i: int, j: int| 0 <= i < j < s.len() ==> (#[trigger] s[i]).relative != (#[trigger] s[j]).relative
}

/// The action is what the source entry with its relative path calls for.
pub open spec fn from_source(src: Seq<SnapView>, dst: Seq<SnapView>, root: Seq<char>, a: ActionView) -> bool {
    exists|j: int|
        0 <= j < src.len() && (#[trigger] src[j]).relative == a.relative && source_action(
            src[j],
            lookup(dst, src[j].relative),
            root,
        ) == Some(a)
}

proof fn lemma_source_action_path(s: SnapView, d: Option<SnapView>, root: Seq<char>)
    ensures
        source_action(s, d, root) matches Some(a) ==> a.relative == s.relative,
{
}

proof fn lemma_bucket_paths(src: Seq<SnapView>, dst: Seq<SnapView>, root: Seq<char>, kind: SyncActionKind)
    requires
        unique_keys(src),
    ensures
        distinct_paths(bucket(src, dst, root, kind)),
        forall|i: int|
            0 <= i < bucket(src, dst, root, kind).len() ==> from_source(
                src,
                dst,
                root,
                #[trigger] bucket(src, dst, root, kind)[i],
            ),
    decreases src.len(),
{
    if src.len() > 0 {
        let init = src.drop_last();
        assert(unique_keys(init)) by {
            assert forall|i: int, j: int| 0 <= i < j < init.len() implies init[i].relative != init[j].relative by {
                assert(init[i] == src[i] && init[j] == src[j]);
            }
        }
        lemma_bucket_paths(init, dst, root, kind);
        let prev = bucket(init, dst, root, kind);
        let b = bucket(src, dst, root, kind);
        let n = src.len() - 1;
        lemma_source_action_path(src.last(), lookup(dst, src.last().relative), root);
        assert forall|i: int| 0 <= i < prev.len() implies from_source(src, dst, root, #[trigger] prev[i]) by {
            let j = choose|j: int|
                0 <= j < init.len() && (#[trigger] init[j]).relative == prev[i].relative && source_action(
                    init[j],
                    lookup(dst, init[j].relative),
                    root,
                ) == Some(prev[i]);
            assert(src[j] == init[j]);
        }
        assert forall|i: int| 0 <= i < prev.len() implies (#[trigger] prev[i]).relative != src[n].relative by {
            let j = choose|j: int|
                0 <= j < src.len() && (#[trigger] src[j]).relative == prev[i].relative && source_action(
                    src[j],
                    lookup(dst, src[j].relative),
                    root,
                ) == Some(prev[i]);
            let k = choose|k: int|
                0 <= k < init.len() && (#[trigger] init[k]).relative == prev[i].relative && source_action(
                    init[k],
                    lookup(dst, init[k].relative),
                    root,
                ) == Some(prev[i]);
            assert(src[k] == init[k]);
        }
        if b.len() > prev.len() {
            assert(b == prev.push(b.last()));
            assert(from_source(src, dst, root, b.last())) by {
                assert(src[n] == src.last());
            }
            assert forall|i: int| 0 <= i < b.len() implies from_source(src, dst, root, #[trigger] b[i]) by {
                if i < prev.len() {
                    assert(b[i] == prev[i]);
                }
            }
            assert forall|i: int, j: int| 0 <= i < j < b.len() implies (#[trigger] b[i]).relative
                != (#[trigger] b[j]).relative by {
                assert(b[i] == prev[i]);
                if j < prev.len() {
                    assert(b[j] == prev[j]);
                }
            }
        }
    }
}

/// Some entry has this relative path.
pub open spec fn has_key(d: Seq<SnapView>, relative: Seq<char>) -> bool {
    exists|j: int| 0 <= j < d.len() && (#[trigger] d[j]).relative == relative
}

proof fn lemma_removal_paths(src: Seq<SnapView>, dst: Seq<SnapView>)
    requires
        unique_keys(dst),
    ensures
        distinct_paths(removals(src, dst)),
        forall|i: int|
            0 <= i < removals(src, dst).len() ==> lookup(src, (#[trigger] removals(src, dst)[i]).relative) is None,
        forall|i: int| 0 <= i < removals(src, dst).len() ==> has_key(dst, (#[trigger] removals(src, dst)[i]).relative),
    decreases dst.len(),
{
    if dst.len() > 0 {
        let init = dst.drop_last();
        assert(unique_keys(init)) by {
            assert forall|i: int, j: int| 0 <= i < j < init.len() implies init[i].relative != init[j].relative by {
                assert(init[i] == dst[i] && init[j] == dst[j]);
            }
        }
        lemma_removal_paths(src, init);
        let prev = removals(src, init);
        let r = removals(src, dst);
        let n = dst.len() - 1;
        assert forall|i: int| 0 <= i < prev.len() implies (#[trigger] prev[i]).relative != dst[n].relative
            && has_key(dst, prev[i].relative) by {
            let j = choose|j: int| 0 <= j < init.len() && (#[trigger] init[j]).relative == prev[i].relative;
            assert(dst[j] == init[j]);
        }
        if r.len() > prev.len() {
            assert(r == prev.push(r.last()));
            assert forall|i: int| 0 <= i < r.len() implies lookup(src, (#[trigger] r[i]).relative) is None
                && has_key(dst, r[i].relative) by {
                if i < prev.len() {
                    assert(r[i] == prev[i]);
                } else {
                    assert(dst[n].relative == r[i].relative);
                }
            }
            assert forall|i: int, j: int| 0 <= i < j < r.len() implies (#[trigger] r[i]).relative
                != (#[trigger] r[j]).relative by {
                assert(r[i] == prev[i]);
                if j < prev.len() {
                    assert(r[j] == prev[j]);
                }
            }
        }
    }
}

proof fn lemma_sorted_paths(order: ActionOrder, s: Seq<ActionView>)
    requires
        distinct_paths(s),
    ensures
        distinct_paths(sorted_by(order, s)),
    decreases s.len(),
{
    if s.len() > 0 {
        let init = s.drop_last();
        assert(distinct_paths(init)) by {
            assert forall|i: int, j: int| 0 <= i < j < init.len() implies (#[trigger] init[i]).relative
                != (#[trigger] init[j]).relative by {
                assert(init[i] == s[i] && init[j] == s[j]);
            }
        }
        lemma_sorted_paths(order, init);
        let rest = sorted_by(order, init);
        lemma_sorted_members(order, init);
        lemma_insertion_point_exists(order, rest, s.last());
        let p = insertion_point(order, rest, s.last());
        let r = rest.insert(p, s.last());
        assert forall|k: int| 0 <= k < rest.len() implies (#[trigger] rest[k]).relative != s.last().relative by {
            let j = choose|j: int| 0 <= j < init.len() && init[j] == #[trigger] rest[k];
            assert(init[j] == s[j]);
        }
        assert forall|i: int, j: int| 0 <= i < j < r.len() implies (#[trigger] r[i]).relative
            != (#[trigger] r[j]).relative by {
            if i < p {
                assert(r[i] == rest[i]);
            } else if i > p {
                assert(r[i] == rest[i - 1]);
            }
            if j < p {
                assert(r[j] == rest[j]);
            } else if j > p {
                assert(r[j] == rest[j - 1]);
            }
        }
    }
}

/// Sorting keeps the actions and their kinds.
proof fn lemma_sorted_sources(
    order: ActionOrder,
    s: Seq<ActionView>,
    src: Seq<SnapView>,
    dst: Seq<SnapView>,
    root: Seq<char>,
)
    requires
        forall|i: int| 0 <= i < s.len() ==> from_source(src, dst, root, #[trigger] s[i]),
    ensures
        forall|i: int| 0 <= i < sorted_by(order, s).len() ==> from_source(src, dst, root, #[trigger] sorted_by(order, s)[i]),
{
    lemma_sorted_members(order, s);
    assert forall|i: int| 0 <= i < sorted_by(order, s).len() implies from_source(src, dst, root, #[trigger] sorted_by(order, s)[i]) by {
        let j = choose|j: int| 0 <= j < s.len() && s[j] == #[trigger] sorted_by(order, s)[i];
        assert(from_source(src, dst, root, s[j]));
    }
}

/// No action of one sequence shares a relative path with one of the other.
pub open spec fn disjoint_paths(x: Seq<ActionView>, y: Seq<ActionView>) -> bool {
    forall|i: int, j: int| 0 <= i < x.len() && 0 <= j < y.len() ==> (#[trigger] x[i]).relative != (#[trigger] y[j]).relative
}

proof fn lemma_concat_paths(x: Seq<ActionView>, y: Seq<ActionView>)
    requires
        distinct_paths(x),
        distinct_paths(y),
        disjoint_paths(x, y),
    ensures
        distinct_paths(x + y),
{
    let z = x + y;
    assert forall|i: int, j: int| 0 <= i < j < z.len() implies (#[trigger] z[i]).relative != (#[trigger] z[j]).relative by {
        if j < x.len() {
            assert(z[i] == x[i] && z[j] == x[j]);
        } else if i >= x.len() {
            assert(z[i] == y[i - x.len()] && z[j] == y[j - x.len()]);
        } else {
            assert(z[i] == x[i] && z[j] == y[j - x.len()]);
        }
    }
}

proof fn lemma_disjoint_concat(x: Seq<ActionView>, y: Seq<ActionView>, z: Seq<ActionView>)
    requires
        disjoint_paths(x, z),
        disjoint_paths(y, z),
    ensures
        disjoint_paths(x + y, z),
{
    let w = x + y;
    assert forall|i: int, j: int| 0 <= i < w.len() && 0 <= j < z.len() implies (#[trigger] w[i]).relative
        != (#[trigger] z[j]).relative by {
        if i < x.len() {
            assert(w[i] == x[i]);
        } else {
            assert(w[i] == y[i - x.len()]);
        }
    }
}

proof fn lemma_sorted_bucket_facts(
    order: ActionOrder,
    src: Seq<SnapView>,
    dst: Seq<SnapView>,
    root: Seq<char>,
    kind: SyncActionKind,
)
    requires
        unique_keys(src),
    ensures
        distinct_paths(sorted_by(order, bucket(src, dst, root, kind))),
        forall|i: int|
            0 <= i < sorted_by(order, bucket(src, dst, root, kind)).len() ==> from_source(
                src,
                dst,
                root,
                #[trigger] sorted_by(order, bucket(src, dst, root, kind))[i],
            ) && sorted_by(order, bucket(src, dst, root, kind))[i].kind == kind,
{
    let b = bucket(src, dst, root, kind);
    lemma_bucket_paths(src, dst, root, kind);
    lemma_bucket_kind(src, dst, root, kind);
    lemma_sorted_paths(order, b);
    lemma_sorted_sources(order, b, src, dst, root);
    lemma_sorted_members(order, b);
    assert forall|i: int| 0 <= i < sorted_by(order, b).len() implies (#[trigger] sorted_by(order, b)[i]).kind == kind by {
        let j = choose|j: int| 0 <= j < b.len() && b[j] == #[trigger] sorted_by(order, b)[i];
        assert(b[j].kind == kind);
    }
}

proof fn lemma_source_kinds_disjoint(
    x: Seq<ActionView>,
    y: Seq<ActionView>,
    src: Seq<SnapView>,
    dst: Seq<SnapView>,
    root: Seq<char>,
    kx: SyncActionKind,
    ky: SyncActionKind,
)
    requires
        unique_keys(src),
        kx != ky,
        forall|i: int| 0 <= i < x.len() ==> from_source(src, dst, root, #[trigger] x[i]) && x[i].kind == kx,
        forall|i: int| 0 <= i < y.len() ==> from_source(src, dst, root, #[trigger] y[i]) && y[i].kind == ky,
    ensures
        disjoint_paths(x, y),
{
    assert forall|i: int, j: int| 0 <= i < x.len() && 0 <= j < y.len() implies (#[trigger] x[i]).relative
        != (#[trigger] y[j]).relative by {
        assert(from_source(src, dst, root, x[i]));
        assert(from_source(src, dst, root, y[j]));
        let a = choose|a: int|
            0 <= a < src.len() && (#[trigger] src[a]).relative == x[i].relative && source_action(
                src[a],
                lookup(dst, src[a].relative),
                root,
            ) == Some(x[i]);
        let b = choose|b: int|
            0 <= b < src.len() && (#[trigger] src[b]).relative == y[j].relative && source_action(
                src[b],
                lookup(dst, src[b].relative),
                root,
            ) == Some(y[j]);
        if x[i].relative == y[j].relative {
            assert(a == b);
        }
    }
}

proof fn lemma_sources_removals_disjoint(
    x: Seq<ActionView>,
    e: Seq<ActionView>,
    src: Seq<SnapView>,
    dst: Seq<SnapView>,
    root: Seq<char>,
)
    requires
        forall|i: int| 0 <= i < x.len() ==> from_source(src, dst, root, #[trigger] x[i]),
        forall|i: int| 0 <= i < e.len() ==> lookup(src, (#[trigger] e[i]).relative) is None,
    ensures
        disjoint_paths(x, e),
{
    assert forall|i: int, j: int| 0 <= i < x.len() && 0 <= j < e.len() implies (#[trigger] x[i]).relative
        != (#[trigger] e[j]).relative by {
        assert(from_source(src, dst, root, x[i]));
        let a = choose|a: int|
            0 <= a < src.len() && (#[trigger] src[a]).relative == x[i].relative && source_action(
                src[a],
                lookup(dst, src[a].relative),
                root,
            ) == Some(x[i]);
        assert(lookup(src, e[j].relative) is None);
        lemma_lookup_none(src, e[j].relative);
    }
}

/// A plan made from snapshots whose keys are unique lists each relative path
/// at most once: every source entry calls for at most one action, and only
/// destination entries absent from the source are removed.
pub proof fn lemma_plan_lists_each_path_once(
    src: Seq<SnapView>,
    dst: Seq<SnapView>,
    root: Seq<char>,
    delete_orphans: bool,
)
    requires
        unique_keys(src),
        unique_keys(dst),
    ensures
        distinct_paths(planned_actions(src, dst, root, delete_orphans)),
{
    let a = sorted_by(ActionOrder::ShallowFirst, bucket(src, dst, root, SyncActionKind::CreateDirectory));
    let b = sorted_by(ActionOrder::ByPath, bucket(src, dst, root, SyncActionKind::CopyFile));
    let c = sorted_by(ActionOrder::ByPath, bucket(src, dst, root, SyncActionKind::Conflict));
    let d = sorted_by(ActionOrder::ByPath, bucket(src, dst, root, SyncActionKind::Skip));
    let e: Seq<ActionView> = if delete_orphans { sorted_by(ActionOrder::DeepFirst, removals(src, dst)) } else { seq![] };
    lemma_sorted_bucket_facts(ActionOrder::ShallowFirst, src, dst, root, SyncActionKind::CreateDirectory);
    lemma_sorted_bucket_facts(ActionOrder::ByPath, src, dst, root, SyncActionKind::CopyFile);
    lemma_sorted_bucket_facts(ActionOrder::ByPath, src, dst, root, SyncActionKind::Conflict);
    lemma_sorted_bucket_facts(ActionOrder::ByPath, src, dst, root, SyncActionKind::Skip);
    if delete_orphans {
        let r = removals(src, dst);
        lemma_removal_paths(src, dst);
        lemma_sorted_paths(ActionOrder::DeepFirst, r);
        lemma_sorted_members(ActionOrder::DeepFirst, r);
        assert forall|i: int| 0 <= i < e.len() implies lookup(src, (#[trigger] e[i]).relative) is None by {
            let j = choose|j: int| 0 <= j < r.len() && r[j] == #[trigger] sorted_by(ActionOrder::DeepFirst, r)[i];
            assert(lookup(src, r[j].relative) is None);
        }
    } else {
        assert(distinct_paths(e));
    }
    lemma_source_kinds_disjoint(a, b, src, dst, root, SyncActionKind::CreateDirectory, SyncActionKind::CopyFile);
    lemma_source_kinds_disjoint(a, c, src, dst, root, SyncActionKind::CreateDirectory, SyncActionKind::Conflict);
    lemma_source_kinds_disjoint(a, d, src, dst, root, SyncActionKind::CreateDirectory, SyncActionKind::Skip);
    lemma_source_kinds_disjoint(b, c, src, dst, root, SyncActionKind::CopyFile, SyncActionKind::Conflict);
    lemma_source_kinds_disjoint(b, d, src, dst, root, SyncActionKind::CopyFile, SyncActionKind::Skip);
    lemma_source_kinds_disjoint(c, d, src, dst, root, SyncActionKind::Conflict, SyncActionKind::Skip);
    lemma_sources_removals_disjoint(a, e, src, dst, root);
    lemma_sources_removals_disjoint(b, e, src, dst, root);
    lemma_sources_removals_disjoint(c, e, src, dst, root);
    lemma_sources_removals_disjoint(d, e, src, dst, root);
    lemma_concat_paths(a, b);
    lemma_disjoint_concat(a, b, c);
    lemma_concat_paths(a + b, c);
    lemma_disjoint_concat(a, b, d);
    lemma_disjoint_concat(a + b, c, d);
    lemma_concat_paths(a + b + c, d);
    lemma_disjoint_concat(a, b, e);
    lemma_disjoint_concat(a + b, c, e);
    lemma_disjoint_concat(a + b + c, d, e);
    lemma_concat_paths(a + b + c + d, e);
    assert(planned_actions(src, dst, root, delete_orphans) == a + b + c + d + e);
}

/// With unique keys, the lookup of an entry's key finds that entry.
proof fn lemma_lookup_finds(d: Seq<SnapView>, j: int)
    requires
        unique_keys(d),
        0 <= j < d.len(),
    ensures
        lookup(d, d[j].relative) == Some(d[j]),
    decreases d.len(),
{
    if j > 0 {
        let rest = d.drop_first();
        assert(d[0].relative != d[j].relative);
        assert(unique_keys(rest)) by {
            assert forall|a: int, b: int| 0 <= a < b < rest.len() implies rest[a].relative != rest[b].relative by {
                assert(rest[a] == d[a + 1] && rest[b] == d[b + 1]);
            }
        }
        assert(rest[j - 1] == d[j]);
        lemma_lookup_finds(rest, j - 1);
    }
}

/// The action a source entry calls for, when of the bucket's kind, is in the
/// bucket.
proof fn lemma_bucket_contains(src: Seq<SnapView>, dst: Seq<SnapView>, root: Seq<char>, kind: SyncActionKind, i: int)
    requires
        0 <= i < src.len(),
        source_action(src[i], lookup(dst, src[i].relative), root) matches Some(a) && a.kind == kind,
    ensures
        exists|t: int|
            0 <= t < bucket(src, dst, root, kind).len() && #[trigger] bucket(src, dst, root, kind)[t]
                == source_action(src[i], lookup(dst, src[i].relative), root)->0,
    decreases src.len(),
{
    let init = src.drop_last();
    let prev = bucket(init, dst, root, kind);
    let b = bucket(src, dst, root, kind);
    let a = source_action(src[i], lookup(dst, src[i].relative), root)->0;
    if i == src.len() - 1 {
        assert(b == prev.push(a));
        assert(b[prev.len() as int] == a);
    } else {
        assert(init[i] == src[i]);
        lemma_bucket_contains(init, dst, root, kind, i);
        let t = choose|t: int| 0 <= t < prev.len() && #[trigger] prev[t] == a;
        assert(b[t] == prev[t]);
    }
}

/// Sorting keeps every action.
proof fn lemma_sorted_contains(order: ActionOrder, s: Seq<ActionView>, t: int)
    requires
        0 <= t < s.len(),
    ensures
        exists|u: int| 0 <= u < sorted_by(order, s).len() && #[trigger] sorted_by(order, s)[u] == s[t],
    decreases s.len(),
{
    let init = s.drop_last();
    let rest = sorted_by(order, init);
    lemma_sorted_members(order, init);
    lemma_insertion_point_exists(order, rest, s.last());
    let p = insertion_point(order, rest, s.last());
    let r = rest.insert(p, s.last());
    assert(sorted_by(order, s) == r);
    if t == s.len() - 1 {
        assert(r[p] == s[t]);
    } else {
        assert(init[t] == s[t]);
        lemma_sorted_contains(order, init, t);
        let u = choose|u: int| 0 <= u < rest.len() && #[trigger] rest[u] == init[t];
        if u < p {
            assert(r[u] == rest[u]);
        } else {
            assert(r[u + 1] == rest[u]);
        }
    }
}

/// A source file whose destination counterpart (same relative path, also a
/// file) differs in size or in modification time is copied: the plan holds
/// a file copy for that path.
pub proof fn lemma_changed_files_are_copied(
    src: Seq<SnapView>,
    dst: Seq<SnapView>,
    root: Seq<char>,
    delete_orphans: bool,
    i: int,
    j: int,
)
    requires
        unique_keys(dst),
        0 <= i < src.len(),
        0 <= j < dst.len(),
        src[i].relative == dst[j].relative,
        src[i].kind == EntryKind::File,
        dst[j].kind == EntryKind::File,
        src[i].size != dst[j].size || src[i].modified != dst[j].modified,
    ensures
        exists|k: int|
            0 <= k < planned_actions(src, dst, root, delete_orphans).len() && (#[trigger] planned_actions(
                src,
                dst,
                root,
                delete_orphans,
            )[k]).kind == SyncActionKind::CopyFile && planned_actions(src, dst, root, delete_orphans)[k].relative
                == src[i].relative,
{
    lemma_lookup_finds(dst, j);
    let a = source_action(src[i], lookup(dst, src[i].relative), root)->0;
    assert(a.kind == SyncActionKind::CopyFile && a.relative == src[i].relative);
    lemma_bucket_contains(src, dst, root, SyncActionKind::CopyFile, i);
    let b = bucket(src, dst, root, SyncActionKind::CopyFile);
    let t = choose|t: int| 0 <= t < b.len() && #[trigger] b[t] == a;
    lemma_sorted_contains(ActionOrder::ByPath, b, t);
    let sb = sorted_by(ActionOrder::ByPath, b);
    let u = choose|u: int| 0 <= u < sb.len() && #[trigger] sb[u] == b[t];
    let sa = sorted_by(ActionOrder::ShallowFirst, bucket(src, dst, root, SyncActionKind::CreateDirectory));
    let sc = sorted_by(ActionOrder::ByPath, bucket(src, dst, root, SyncActionKind::Conflict));
    let sd = sorted_by(ActionOrder::ByPath, bucket(src, dst, root, SyncActionKind::Skip));
    let se: Seq<ActionView> = if delete_orphans { sorted_by(ActionOrder::DeepFirst, removals(src, dst)) } else { seq![] };
    let plan = planned_actions(src, dst, root, delete_orphans);
    assert(plan == sa + sb + sc + sd + se);
    let k = sa.len() + u;
    assert(plan[k] == sb[u]);
}

} // verus!
