//! What the synchronization panel shows and decides: the plan preview, when
//! a run may start, progress lines, and what finishing a run reports.

use vstd::prelude::*;
use crate::copy_flow::QueueStep;
use crate::display::{format_size, size_text};
use crate::messages::{decimal, decimal_text};
use crate::sync::{SyncExecutionOutcome, SyncExecutionProgress, SyncExecutionReport};
use crate::sync_plan::{SyncAction, SyncActionKind, SyncSummary};
use crate::text::{concat2, owned};

verus! {

/// Direction of a pane-to-pane synchronization.
#[derive(Clone, Copy, Debug, PartialEq, Eq, Structural)]
pub enum SyncDirection {
    /// Left pane to right pane.
    LeftToRight,
    /// Right pane to left pane.
    RightToLeft,
}

/// Direction picked in the direction selector: the second entry is right to
/// left, anything else left to right.
pub fn direction_from_choice(choice: Option<u32>) -> (r: SyncDirection)
    ensures
        r == (if choice == Some(1u32) { SyncDirection::RightToLeft } else { SyncDirection::LeftToRight }),
{
    match choice {
        Some(1) => SyncDirection::RightToLeft,
        _ => SyncDirection::LeftToRight,
    }
}

/// Whether the left pane is the source of a direction.
pub fn source_is_left(direction: SyncDirection) -> (r: bool)
    ensures
        r == (direction == SyncDirection::LeftToRight),
{
    match direction {
        SyncDirection::LeftToRight => true,
        SyncDirection::RightToLeft => false,
    }
}

/// Summary line of a plan.
pub open spec fn summary_text(s: SyncSummary) -> Seq<char> {
    decimal_text(s.directories_to_create as nat) + " directories • "@ + decimal_text(s.files_to_copy as nat)
        + " files • "@ + decimal_text(s.entries_to_remove as nat) + " removals • "@ + decimal_text(
        s.conflicts as nat,
    ) + " conflicts • "@ + decimal_text(s.skipped as nat) + " skipped"@
}

/// Builds the summary line of a plan.
pub fn plan_summary_text(summary: SyncSummary) -> (r: String)
    ensures
        r@ == summary_text(summary),
{
    let mut out = decimal(summary.directories_to_create);
    out.append(" directories • ");
    out.append(decimal(summary.files_to_copy).as_str());
    out.append(" files • ");
    out.append(decimal(summary.entries_to_remove).as_str());
    out.append(" removals • ");
    out.append(decimal(summary.conflicts).as_str());
    out.append(" conflicts • ");
    out.append(decimal(summary.skipped).as_str());
    out.append(" skipped");
    out
}

/// Verb shown for an action kind.
pub open spec fn action_verb(kind: SyncActionKind) -> Seq<char> {
    match kind {
        SyncActionKind::CreateDirectory => "Create folder"@,
        SyncActionKind::CopyFile => "Copy"@,
        SyncActionKind::RemoveFile => "Remove file"@,
        SyncActionKind::RemoveDirectory => "Remove folder"@,
        SyncActionKind::Conflict => "CONFLICT"@,
        SyncActionKind::Skip => "Skip"@,
    }
}

fn action_verb_text(kind: SyncActionKind) -> (r: &'static str)
    ensures
        r@ == action_verb(kind),
{
    match kind {
        SyncActionKind::CreateDirectory => "Create folder",
        SyncActionKind::CopyFile => "Copy",
        SyncActionKind::RemoveFile => "Remove file",
        SyncActionKind::RemoveDirectory => "Remove folder",
        SyncActionKind::Conflict => "CONFLICT",
        SyncActionKind::Skip => "Skip",
    }
}

/// One preview row: its text, and whether it is shown as ordinary (conflicts
/// are highlighted).
pub open spec fn action_row(a: SyncAction) -> (Seq<char>, bool) {
    (action_verb(a.kind) + "  "@ + a.relative_path@ + "  —  "@ + a.reason@, a.kind != SyncActionKind::Conflict)
}

/// Rows of a plan preview; an empty plan shows one ordinary row saying so.
pub open spec fn preview_rows(actions: Seq<SyncAction>) -> Seq<(Seq<char>, bool)> {
    if actions.len() == 0 {
        seq![("No changes required."@, true)]
    } else {
        actions.map_values(|a: SyncAction| action_row(a))
    }
}

/// Builds the rows of a plan preview.
pub fn plan_preview_rows(actions: &[SyncAction]) -> (r: Vec<(String, bool)>)
    ensures
        r@.len() == preview_rows(actions@).len(),
        forall|i: int| 0 <= i < r@.len() ==> r@[i].0@ == preview_rows(actions@)[i].0 && r@[i].1
            == preview_rows(actions@)[i].1,
{
    let mut rows: Vec<(String, bool)> = Vec::new();
    if actions.len() == 0 {
        rows.push((owned("No changes required."), true));
        return rows;
    }
    let mut i: usize = 0;
    while i < actions.len()
        invariant
            actions@.len() > 0,
            i <= actions@.len(),
            rows@.len() == i,
            forall|k: int| 0 <= k < i ==> rows@[k].0@ == action_row(actions@[k]).0 && rows@[k].1 == action_row(
                actions@[k],
            ).1,
        decreases actions@.len() - i,
    {
        let a = &actions[i];
        let mut text = owned(action_verb_text(a.kind));
        text.append("  ");
        text.append(a.relative_path.as_str());
        text.append("  —  ");
        text.append(a.reason.as_str());
        rows.push((text, a.kind != SyncActionKind::Conflict));
        i = i + 1;
    }
    rows
}

/// Why a run cannot start: no simulated plan, or a plan with conflicts.
pub fn execution_refusal(prepared: bool, conflicts: u64) -> (r: Option<&'static str>)
    ensures
        !prepared ==> (r matches Some(m) && m@ == "Simulate before synchronizing."@),
        prepared && conflicts > 0 ==> (r matches Some(m) && m@ == "Resolve plan conflicts before synchronizing."@),
        prepared && conflicts == 0 ==> r is None,
{
    if !prepared {
        Some("Simulate before synchronizing.")
    } else if conflicts > 0 {
        Some("Resolve plan conflicts before synchronizing.")
    } else {
        None
    }
}

/// Progress line of a running synchronization.
pub open spec fn progress_text(p: SyncExecutionProgress) -> Seq<char> {
    "Synchronizing "@ + p.spec_current_path() + " — "@ + decimal_text(p.spec_completed_actions() as nat) + "/"@
        + decimal_text(p.spec_total_actions() as nat) + " actions • "@ + match p.spec_current_total_bytes() {
        None => size_text(Some(p.spec_current_bytes())),
        Some(total) => size_text(Some(p.spec_current_bytes())) + " / "@ + size_text(Some(total)),
    }
}

/// Builds the progress line of a running synchronization.
pub fn sync_progress_text(progress: &SyncExecutionProgress) -> (r: String)
    ensures
        r@ == progress_text(*progress),
{
    let mut out = concat2("Synchronizing ", progress.current_path());
    out.append(" — ");
    out.append(decimal(progress.completed_actions()).as_str());
    out.append("/");
    out.append(decimal(progress.total_actions()).as_str());
    out.append(" actions • ");
    out.append(format_size(Some(progress.current_bytes())).as_str());
    match progress.current_total_bytes() {
        None => {},
        Some(total) => {
            out.append(" / ");
            out.append(format_size(Some(total)).as_str());
        },
    }
    out
}

/// Summary line of a finished run.
pub open spec fn completion_text(state: Seq<char>, r: SyncExecutionReport) -> Seq<char> {
    state + ": "@ + decimal_text(r.files_copied as nat) + " files • "@ + decimal_text(r.directories_created as nat)
        + " folders • "@ + decimal_text(r.entries_removed as nat) + " removals • "@ + decimal_text(
        r.skipped as nat,
    ) + " skipped • "@ + size_text(Some(r.bytes_copied))
}

/// Activity detail of a finished run.
pub open spec fn activity_detail(r: SyncExecutionReport) -> Seq<char> {
    decimal_text(r.files_copied as nat) + " files • "@ + decimal_text(r.directories_created as nat)
        + " folders • "@ + decimal_text(r.entries_removed as nat) + " removals • "@ + size_text(
        Some(r.bytes_copied),
    )
}

fn counts_text(report: SyncExecutionReport) -> (r: String)
    ensures
        r@ == decimal_text(report.files_copied as nat) + " files • "@ + decimal_text(
            report.directories_created as nat,
        ) + " folders • "@ + decimal_text(report.entries_removed as nat) + " removals • "@,
{
    let mut out = decimal(report.files_copied);
    out.append(" files • ");
    out.append(decimal(report.directories_created).as_str());
    out.append(" folders • ");
    out.append(decimal(report.entries_removed).as_str());
    out.append(" removals • ");
    out
}

/// Builds the summary line of a finished run.
pub fn sync_completion_text(state: &str, report: SyncExecutionReport) -> (r: String)
    ensures
        r@ == completion_text(state@, report),
{
    let mut out = concat2(state, ": ");
    out.append(counts_text(report).as_str());
    out.append(decimal(report.skipped).as_str());
    out.append(" skipped • ");
    out.append(format_size(Some(report.bytes_copied)).as_str());
    out
}

/// Everything the panel does when a run ends.
#[derive(Debug, PartialEq, Eq)]
pub struct SyncFinish {
    /// Queue transition.
    pub step: QueueStep,
    /// Summary line.
    pub summary: String,
    /// Activity state word.
    pub activity_state: String,
    /// Activity detail.
    pub activity_detail: String,
    /// Whether the destination pane is reloaded.
    pub refresh_destination: bool,
    /// Whether the prepared plan may run again.
    pub keep_plan: bool,
}

/// Reports the end of a run: a completed run completes the operation and
/// drops the plan; a cancelled run cancels it and keeps the plan; a failure
/// fails it and keeps the plan. Runs that reached the destination reload it.
pub fn sync_finish(result: &Result<SyncExecutionOutcome, String>) -> (r: SyncFinish)
    ensures
        match *result {
            Ok(SyncExecutionOutcome::Completed(report)) => r.step == QueueStep::Complete && r.summary@
                == completion_text("Completed"@, report) && r.activity_state@ == "Completed"@
                && r.activity_detail@ == activity_detail(report) && r.refresh_destination && !r.keep_plan,
            Ok(SyncExecutionOutcome::Cancelled(report)) => r.step == QueueStep::Cancel && r.summary@
                == completion_text("Cancelled"@, report) && r.activity_state@ == "Cancelled"@
                && r.activity_detail@ == activity_detail(report) && r.refresh_destination && r.keep_plan,
            Err(e) => r.step == QueueStep::Fail && r.summary@ == "Synchronization failed: "@ + e@
                && r.activity_state@ == "Failed"@ && r.activity_detail@ == e@ && !r.refresh_destination
                && r.keep_plan,
        },
{
    proof {
        reveal_strlit("Completed");
        reveal_strlit("Cancelled");
    }
    match result {
        Ok(SyncExecutionOutcome::Completed(report)) => {
            let mut detail = counts_text(*report);
            detail.append(format_size(Some(report.bytes_copied)).as_str());
            SyncFinish {
                step: QueueStep::Complete,
                summary: sync_completion_text("Completed", *report),
                activity_state: owned("Completed"),
                activity_detail: detail,
                refresh_destination: true,
                keep_plan: false,
            }
        },
        Ok(SyncExecutionOutcome::Cancelled(report)) => {
            let mut detail = counts_text(*report);
            detail.append(format_size(Some(report.bytes_copied)).as_str());
            SyncFinish {
                step: QueueStep::Cancel,
                summary: sync_completion_text("Cancelled", *report),
                activity_state: owned("Cancelled"),
                activity_detail: detail,
                refresh_destination: true,
                keep_plan: true,
            }
        },
        Err(e) => SyncFinish {
            step: QueueStep::Fail,
            summary: concat2("Synchronization failed: ", e.as_str()),
            activity_state: owned("Failed"),
            activity_detail: e.clone(),
            refresh_destination: false,
            keep_plan: true,
        },
    }
}

/// Activity line of a run: `#{id} • Sync • {state} • {detail}`.
pub fn sync_activity_line(id: u64, state: &str, detail: &str) -> (r: String)
    ensures
        r@ == "#"@ + decimal_text(id as nat) + " • Sync • "@ + state@ + " • "@ + detail@,
{
    let mut out = owned("#");
    out.append(decimal(id).as_str());
    out.append(" • Sync • ");
    out.append(state);
    out.append(" • ");
    out.append(detail);
    out
}

} // verus!
