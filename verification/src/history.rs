//! Versioned operation/activity history; it holds no credentials.

use vstd::prelude::*;
use crate::messages::{decimal, decimal_text};
use crate::text::{concat2, owned};

verus! {

/// Schema version written by this library.
pub const HISTORY_VERSION: u32 = 1;

/// Activity category stored in history.
#[derive(Clone, Copy, Debug, PartialEq, Eq, Structural)]
pub enum HistoryKind {
    /// File or tree copy/transfer.
    Copy,
    /// Synchronization run.
    Sync,
    /// Connection attempt or session event.
    Connection,
    /// Delete operation.
    Delete,
    /// Rename/move operation.
    Rename,
    /// Remote-edit watcher, upload, conflict, or stop event.
    RemoteEdit,
    /// Other operation not covered by a stable category.
    Other,
}

/// Observable state stored in activity history.
#[derive(Clone, Copy, Debug, PartialEq, Eq, Structural)]
pub enum HistoryState {
    /// Operation or session is currently active.
    Active,
    /// Operation completed successfully.
    Completed,
    /// Operation was cancelled.
    Cancelled,
    /// Operation failed.
    Failed,
}

/// One persisted activity record.
#[derive(Clone, Debug, PartialEq, Eq)]
pub struct HistoryEntry {
    /// Optional runtime operation identifier.
    pub operation_id: Option<u64>,
    /// Activity category.
    pub kind: HistoryKind,
    /// Activity state.
    pub state: HistoryState,
    /// Short user-facing label.
    pub label: String,
    /// Additional detail.
    pub detail: String,
    /// Unix timestamp in seconds.
    pub timestamp: u64,
}

impl HistoryEntry {
    /// Creates a history entry with an explicit timestamp.
    pub fn new(
        operation_id: Option<u64>,
        kind: HistoryKind,
        state: HistoryState,
        label: &str,
        detail: &str,
        timestamp: u64,
    ) -> (r: HistoryEntry)
        ensures
            r.operation_id == operation_id,
            r.kind == kind,
            r.state == state,
            r.label@ == label@,
            r.detail@ == detail@,
            r.timestamp == timestamp,
    {
        HistoryEntry { operation_id, kind, state, label: owned(label), detail: owned(detail), timestamp }
    }
}

/// Versioned history collection, oldest entry first.
#[derive(Clone, Debug, PartialEq, Eq)]
pub struct HistoryLog {
    /// On-disk schema version.
    pub version: u32,
    /// Oldest-to-newest entries.
    pub entries: Vec<HistoryEntry>,
}

impl Default for HistoryLog {
    fn default() -> (r: Self)
        ensures
            r.version == HISTORY_VERSION,
            r.entries@.len() == 0,
    {
        HistoryLog { version: HISTORY_VERSION, entries: Vec::new() }
    }
}

/// The newest `maximum` entries of a sequence (all of them when fewer).
pub open spec fn newest<T>(s: Seq<T>, maximum: nat) -> Seq<T> {
    if s.len() > maximum {
        s.subrange(s.len() - maximum, s.len() as int)
    } else {
        s
    }
}

impl HistoryLog {
    /// Appends an entry and keeps only the newest `maximum_entries`; a zero
    /// maximum keeps nothing.
    pub fn append(&mut self, entry: HistoryEntry, maximum_entries: usize)
        ensures
            final(self).version == old(self).version,
            final(self).entries@ == newest(old(self).entries@.push(entry), maximum_entries as nat),
    {
        let ghost pushed = self.entries@.push(entry);
        let ghost version = self.version;
        self.entries.push(entry);
        let ghost mut dropped: int = 0;
        while self.entries.len() > maximum_entries
            invariant
                0 <= dropped <= pushed.len(),
                self.entries@ == pushed.subrange(dropped, pushed.len() as int),
                self.entries@.len() >= maximum_entries || dropped == 0,
                self.version == version,
            decreases self.entries@.len(),
        {
            self.entries.remove(0);
            proof {
                dropped = dropped + 1;
                assert(self.entries@ =~= pushed.subrange(dropped, pushed.len() as int));
            }
        }
        proof {
            if pushed.len() > maximum_entries {
                assert(dropped == pushed.len() - maximum_entries);
            } else {
                assert(dropped == 0);
                assert(self.entries@ =~= pushed);
            }
        }
    }

    /// Removes all retained history entries.
    pub fn clear(&mut self)
        ensures
            final(self).version == old(self).version,
            final(self).entries@.len() == 0,
    {
        self.entries.clear();
    }
}

/// A bounded append keeps at most the bound, and with a non-zero bound the
/// newest entry is the one just appended.
pub proof fn lemma_append_keeps_newest(s: Seq<HistoryEntry>, entry: HistoryEntry, maximum: nat)
    ensures
        newest(s.push(entry), maximum).len() == if s.len() + 1 > maximum { maximum } else { s.len() + 1 },
        maximum > 0 ==> newest(s.push(entry), maximum).last() == entry,
{
}

/// Most activity entries the persistent history keeps.
pub const MAX_ACTIVITY_ENTRIES: usize = 200;

/// Word of an activity state.
pub open spec fn history_state_name(s: HistoryState) -> Seq<char> {
    match s {
        HistoryState::Active => "Active"@,
        HistoryState::Completed => "Completed"@,
        HistoryState::Cancelled => "Cancelled"@,
        HistoryState::Failed => "Failed"@,
    }
}

fn history_state_text(s: HistoryState) -> (r: &'static str)
    ensures
        r@ == history_state_name(s),
{
    match s {
        HistoryState::Active => "Active",
        HistoryState::Completed => "Completed",
        HistoryState::Cancelled => "Cancelled",
        HistoryState::Failed => "Failed",
    }
}

/// One line of the activity list: `#id` (or a dash without an operation),
/// label, state and detail.
pub open spec fn activity_row(entry: HistoryEntry) -> Seq<char> {
    (match entry.operation_id {
        Some(n) => "#"@ + decimal_text(n as nat),
        None => "—"@,
    }) + " • "@ + entry.label@ + " • "@ + history_state_name(entry.state) + " • "@ + entry.detail@
}

/// Builds one line of the activity list.
pub fn activity_row_text(entry: &HistoryEntry) -> (r: String)
    ensures
        r@ == activity_row(*entry),
{
    let mut out = match entry.operation_id {
        Some(n) => concat2("#", decimal(n).as_str()),
        None => owned("—"),
    };
    out.append(" • ");
    out.append(entry.label.as_str());
    out.append(" • ");
    out.append(history_state_text(entry.state));
    out.append(" • ");
    out.append(entry.detail.as_str());
    out
}

/// Records an activity entry in the persistent history when the user keeps
/// activity; the history then holds its newest entries up to the limit.
pub fn record_activity(log: &mut HistoryLog, entry: HistoryEntry, keep_activity: bool)
    ensures
        final(log).version == old(log).version,
        keep_activity ==> final(log).entries@ == newest(old(log).entries@.push(entry), MAX_ACTIVITY_ENTRIES as nat),
        !keep_activity ==> final(log).entries@ == old(log).entries@,
{
    if keep_activity {
        log.append(entry, MAX_ACTIVITY_ENTRIES);
    }
}

} // verus!
