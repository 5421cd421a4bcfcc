//! Decisions of a pane-to-pane copy: which conflict policy a copy starts
//! with, what a conflict prompt offers, and what finishing a copy reports.

use vstd::prelude::*;
use crate::decisions::{DecisionChoice, DecisionKind, DecisionScope};
use crate::display::{format_size, size_text};
use crate::domain::EntryKind;
use crate::history::HistoryState;
use crate::messages::{decimal, decimal_text};
use crate::preferences::{ExistingItemAction, TransferPreferences};
use crate::runtime::{CopyConflictPolicy, CopyRuntimeOutcome};
use crate::text::{concat2, concat3, owned};

verus! {

/// The preference that governs a copy onto an existing item: a copy from a
/// remote pane into a local one is a download, anything else an upload, and
/// folders and files have preferences of their own.
pub open spec fn governing_preference(
    t: TransferPreferences,
    source_is_local: bool,
    destination_is_local: bool,
    kind: EntryKind,
) -> ExistingItemAction {
    let downloading = !source_is_local && destination_is_local;
    if downloading {
        if kind == EntryKind::Directory { t.downloading_folders } else { t.downloading_files }
    } else {
        if kind == EntryKind::Directory { t.uploading_folders } else { t.uploading_files }
    }
}

/// Returns the preference that governs a copy onto an existing item.
pub fn preferred_existing_action(
    preferences: &TransferPreferences,
    source_is_local: bool,
    destination_is_local: bool,
    kind: EntryKind,
) -> (r: ExistingItemAction)
    ensures
        r == governing_preference(*preferences, source_is_local, destination_is_local, kind),
{
    let downloading = !source_is_local && destination_is_local;
    let folder = kind == EntryKind::Directory;
    if downloading {
        if folder { preferences.downloading_folders } else { preferences.downloading_files }
    } else {
        if folder { preferences.uploading_folders } else { preferences.uploading_files }
    }
}

/// How a copy request proceeds once the destination has been checked.
#[derive(Clone, Copy, Debug, PartialEq, Eq, Structural)]
pub enum CopyStep {
    /// Links and special entries are not copied.
    Unsupported,
    /// The copy is queued with this conflict policy.
    Enqueue(CopyConflictPolicy),
    /// The user is asked what to do with the existing item.
    Ask,
}

/// The step for a selected entry: links and special entries are refused, a
/// free destination is copied failing on any conflict that appears, and an
/// existing one follows the governing preference.
pub open spec fn request_step(kind: EntryKind, destination_exists: bool, preferred: ExistingItemAction) -> CopyStep {
    if kind == EntryKind::Symlink || kind == EntryKind::Other {
        CopyStep::Unsupported
    } else if !destination_exists {
        CopyStep::Enqueue(CopyConflictPolicy::Fail)
    } else {
        match preferred {
            ExistingItemAction::Replace => CopyStep::Enqueue(CopyConflictPolicy::Replace),
            ExistingItemAction::Skip => CopyStep::Enqueue(CopyConflictPolicy::Skip),
            ExistingItemAction::Ask => CopyStep::Ask,
        }
    }
}

/// Decides how a copy request proceeds.
pub fn copy_request_step(kind: EntryKind, destination_exists: bool, preferred: ExistingItemAction) -> (r: CopyStep)
    ensures
        r == request_step(kind, destination_exists, preferred),
{
    if kind == EntryKind::Symlink || kind == EntryKind::Other {
        return CopyStep::Unsupported;
    }
    if !destination_exists {
        return CopyStep::Enqueue(CopyConflictPolicy::Fail);
    }
    match preferred {
        ExistingItemAction::Replace => CopyStep::Enqueue(CopyConflictPolicy::Replace),
        ExistingItemAction::Skip => CopyStep::Enqueue(CopyConflictPolicy::Skip),
        ExistingItemAction::Ask => CopyStep::Ask,
    }
}

/// Kind of conflict decision raised for an existing destination item.
pub fn existing_item_decision_kind(kind: EntryKind) -> (r: DecisionKind)
    ensures
        kind == EntryKind::Directory ==> r == DecisionKind::ExistingDirectory,
        kind != EntryKind::Directory ==> r == DecisionKind::ExistingFile,
{
    if kind == EntryKind::Directory {
        DecisionKind::ExistingDirectory
    } else {
        DecisionKind::ExistingFile
    }
}

/// Choices a copy conflict offers, in prompt order.
pub fn existing_item_choices() -> (r: Vec<DecisionChoice>)
    ensures
        r@ == seq![DecisionChoice::Replace, DecisionChoice::Skip, DecisionChoice::KeepBoth, DecisionChoice::Cancel],
{
    let mut choices = Vec::new();
    choices.push(DecisionChoice::Replace);
    choices.push(DecisionChoice::Skip);
    choices.push(DecisionChoice::KeepBoth);
    choices.push(DecisionChoice::Cancel);
    choices
}

/// Message of a copy conflict prompt.
pub fn existing_item_message(name: &str) -> (r: String)
    ensures
        r@ == "The destination already contains “"@ + name@ + "”."@,
{
    concat3("The destination already contains “", name, "”.")
}

/// Scope of a conflict answer: every matching conflict of the session when
/// the user asks to remember it, else only this item.
pub fn decision_scope(remember: bool) -> (r: DecisionScope)
    ensures
        r == (if remember { DecisionScope::AllMatching } else { DecisionScope::ThisItem }),
{
    if remember {
        DecisionScope::AllMatching
    } else {
        DecisionScope::ThisItem
    }
}

/// Conflict policy a resolved choice starts the copy with; any other choice
/// cancels the copy before it runs.
pub open spec fn choice_policy(choice: DecisionChoice) -> Option<CopyConflictPolicy> {
    match choice {
        DecisionChoice::Replace => Some(CopyConflictPolicy::Replace),
        DecisionChoice::Skip => Some(CopyConflictPolicy::Skip),
        DecisionChoice::KeepBoth => Some(CopyConflictPolicy::KeepBoth),
        _ => None,
    }
}

/// Returns the policy of a resolved conflict choice.
pub fn policy_for_choice(choice: DecisionChoice) -> (r: Option<CopyConflictPolicy>)
    ensures
        r == choice_policy(choice),
{
    match choice {
        DecisionChoice::Replace => Some(CopyConflictPolicy::Replace),
        DecisionChoice::Skip => Some(CopyConflictPolicy::Skip),
        DecisionChoice::KeepBoth => Some(CopyConflictPolicy::KeepBoth),
        _ => None,
    }
}

/// What the operation queue records when a copy ends.
#[derive(Clone, Copy, Debug, PartialEq, Eq, Structural)]
pub enum QueueStep {
    /// The operation completed.
    Complete,
    /// The operation was cancelled.
    Cancel,
    /// The operation failed.
    Fail,
}

/// Everything the copy bar reports when a copy ends.
#[derive(Debug, PartialEq, Eq)]
pub struct CopyFinish {
    /// Queue transition.
    pub step: QueueStep,
    /// Activity state recorded.
    pub state: HistoryState,
    /// Status line.
    pub status: String,
    /// Activity label.
    pub label: String,
    /// Activity detail.
    pub detail: String,
    /// Whether the destination pane is reloaded.
    pub refresh_destination: bool,
}

/// `"{files} files • {size}"`.
pub open spec fn files_and_size(files: u64, bytes: u64) -> Seq<char> {
    decimal_text(files as nat) + " files • "@ + size_text(Some(bytes))
}

fn files_and_size_text(files: u64, bytes: u64) -> (r: String)
    ensures
        r@ == files_and_size(files, bytes),
{
    let mut out = decimal(files);
    out.append(" files • ");
    let size = format_size(Some(bytes));
    out.append(size.as_str());
    out
}

/// Status line of a finished copy.
pub open spec fn finish_status(name: Seq<char>, result: Result<CopyRuntimeOutcome, String>) -> Seq<char> {
    match result {
        Ok(CopyRuntimeOutcome::Completed(report)) => "Copied "@ + name + " — "@ + files_and_size(
            report.transfer.spec_files_copied(),
            report.transfer.spec_bytes_copied(),
        ),
        Ok(CopyRuntimeOutcome::Skipped { .. }) => "Skipped existing "@ + name,
        Ok(CopyRuntimeOutcome::Cancelled(report)) => "Cancelled "@ + name + " after "@ + decimal_text(
            report.spec_files_copied() as nat,
        ) + " files"@,
        Err(e) => "Copy failed: "@ + e@,
    }
}

/// Activity detail of a finished copy.
pub open spec fn finish_detail(result: Result<CopyRuntimeOutcome, String>) -> Seq<char> {
    match result {
        Ok(CopyRuntimeOutcome::Completed(report)) => files_and_size(
            report.transfer.spec_files_copied(),
            report.transfer.spec_bytes_copied(),
        ) + if report.replaced_existing { " • replaced existing"@ } else { ""@ },
        Ok(CopyRuntimeOutcome::Skipped { .. }) => "Skipped existing destination"@,
        Ok(CopyRuntimeOutcome::Cancelled(report)) => files_and_size(
            report.spec_files_copied(),
            report.spec_bytes_copied(),
        ),
        Err(e) => e@,
    }
}

/// Reports the end of a copy of `item_name`: completed and skipped copies
/// complete the operation, cancelled ones cancel it, failures fail it; the
/// destination pane is reloaded after a copy that wrote anything.
pub fn copy_finish(item_name: &str, result: &Result<CopyRuntimeOutcome, String>) -> (r: CopyFinish)
    ensures
        r.status@ == finish_status(item_name@, *result),
        r.detail@ == finish_detail(*result),
        r.label@ == "Copy "@ + item_name@,
        r.step == (match *result {
            Ok(CopyRuntimeOutcome::Cancelled(_)) => QueueStep::Cancel,
            Ok(_) => QueueStep::Complete,
            Err(_) => QueueStep::Fail,
        }),
        r.state == (match *result {
            Ok(CopyRuntimeOutcome::Cancelled(_)) => HistoryState::Cancelled,
            Ok(_) => HistoryState::Completed,
            Err(_) => HistoryState::Failed,
        }),
        r.refresh_destination == (match *result {
            Ok(CopyRuntimeOutcome::Completed(_)) => true,
            Ok(CopyRuntimeOutcome::Cancelled(_)) => true,
            _ => false,
        }),
{
    let label = concat2("Copy ", item_name);
    match result {
        Ok(CopyRuntimeOutcome::Completed(report)) => {
            let counts = files_and_size_text(report.transfer.files_copied(), report.transfer.bytes_copied());
            let mut status = concat3("Copied ", item_name, " — ");
            status.append(counts.as_str());
            let mut detail = files_and_size_text(report.transfer.files_copied(), report.transfer.bytes_copied());
            if report.replaced_existing {
                detail.append(" • replaced existing");
            } else {
                detail.append("");
            }
            CopyFinish {
                step: QueueStep::Complete,
                state: HistoryState::Completed,
                status,
                label,
                detail,
                refresh_destination: true,
            }
        },
        Ok(CopyRuntimeOutcome::Skipped { .. }) => CopyFinish {
            step: QueueStep::Complete,
            state: HistoryState::Completed,
            status: concat2("Skipped existing ", item_name),
            label,
            detail: owned("Skipped existing destination"),
            refresh_destination: false,
        },
        Ok(CopyRuntimeOutcome::Cancelled(report)) => {
            let mut status = concat3("Cancelled ", item_name, " after ");
            let files = decimal(report.files_copied());
            status.append(files.as_str());
            status.append(" files");
            CopyFinish {
                step: QueueStep::Cancel,
                state: HistoryState::Cancelled,
                status,
                label,
                detail: files_and_size_text(report.files_copied(), report.bytes_copied()),
                refresh_destination: true,
            }
        },
        Err(e) => CopyFinish {
            step: QueueStep::Fail,
            state: HistoryState::Failed,
            status: concat2("Copy failed: ", e.as_str()),
            label,
            detail: e.clone(),
            refresh_destination: false,
        },
    }
}

/// Status line while a copy runs.
pub fn copy_progress_status(item_name: &str, files_copied: u64, total_files: u64, active: usize) -> (r: String)
    ensures
        r@ == "Copying "@ + item_name@ + " — "@ + decimal_text(files_copied as nat) + "/"@ + decimal_text(
            total_files as nat,
        ) + " files • "@ + decimal_text(active as nat) + " active"@,
{
    let mut out = concat3("Copying ", item_name, " — ");
    out.append(decimal(files_copied).as_str());
    out.append("/");
    out.append(decimal(total_files).as_str());
    out.append(" files • ");
    out.append(decimal(active as u64).as_str());
    out.append(" active");
    out
}

/// Status line after a copy is queued.
pub fn copy_queued_status(active: usize, waiting: usize) -> (r: String)
    ensures
        r@ == "Queued copy • "@ + decimal_text(active as nat) + " active • "@ + decimal_text(waiting as nat)
            + " waiting"@,
{
    let mut out = owned("Queued copy • ");
    out.append(decimal(active as u64).as_str());
    out.append(" active • ");
    out.append(decimal(waiting as u64).as_str());
    out.append(" waiting");
    out
}

/// The copy bar can cancel while copies run or wait.
pub fn can_cancel_copies(active: usize, waiting: usize) -> (r: bool)
    ensures
        r == (active > 0 || waiting > 0),
{
    active > 0 || waiting > 0
}

} // verus!
