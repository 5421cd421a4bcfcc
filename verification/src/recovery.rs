//! Recovery journal for interrupted replacement transactions.
//!
//! A journal lists, per operation, the destination, the operation-owned stage
//! and backup sidecars, and the last phase that was durably reached. Startup
//! recovery replays it conservatively against a backend.

use vstd::prelude::*;
use crate::backend::{Backend, BackendError, ErrorKind, presence};
use crate::domain::BackendPath;
use crate::file_ops::remove_tree_if_present;
use crate::text::{clone_opt, last_index_of, opt_text, rfind_char, substring, text_equals};
use crate::messages::{decimal, decimal_text};

verus! {

/// Most journal files that one discovery walk accepts.
pub const MAX_DISCOVERED_JOURNALS: usize = 1024;

/// Recovery state for one replacement transaction.
#[derive(Clone, Copy, Debug, PartialEq, Eq, Structural)]
pub enum RecoveryPhase {
    /// Temporary stage may exist; original destination has not moved.
    Staging,
    /// Original destination has moved to backup.
    BackupMoved,
    /// New destination finalized; backup may remain.
    Finalized,
}

/// Persisted recovery entry.
#[derive(Debug, PartialEq, Eq)]
pub struct RecoveryEntry {
    /// Stable operation identifier.
    pub operation_id: u64,
    /// Destination path.
    pub destination: String,
    /// Optional stage sidecar.
    pub stage: Option<String>,
    /// Optional backup sidecar.
    pub backup: Option<String>,
    /// Last durable phase.
    pub phase: RecoveryPhase,
}

/// Mathematical value of a recovery entry.
pub struct EntryView {
    /// Operation identifier.
    pub operation_id: u64,
    /// Destination text.
    pub destination: Seq<char>,
    /// Stage text.
    pub stage: Option<Seq<char>>,
    /// Backup text.
    pub backup: Option<Seq<char>>,
    /// Phase.
    pub phase: RecoveryPhase,
}

impl View for RecoveryEntry {
    type V = EntryView;

    open spec fn view(&self) -> EntryView {
        EntryView {
            operation_id: self.operation_id,
            destination: self.destination@,
            stage: opt_text(self.stage),
            backup: opt_text(self.backup),
            phase: self.phase,
        }
    }
}

impl Clone for RecoveryEntry {
    fn clone(&self) -> (r: Self)
        ensures
            r@ == self@,
    {
        RecoveryEntry {
            operation_id: self.operation_id,
            destination: self.destination.clone(),
            stage: clone_opt(&self.stage),
            backup: clone_opt(&self.backup),
            phase: self.phase,
        }
    }
}

/// Values of a sequence of entries.
pub open spec fn entries_view(v: Seq<RecoveryEntry>) -> Seq<EntryView> {
    v.map_values(|e: RecoveryEntry| e@)
}

/// Index of the first entry for `id`, or -1 when there is none.
pub open spec fn first_index_of(s: Seq<EntryView>, id: u64) -> int {
    if exists|i: int| 0 <= i < s.len() && s[i].operation_id == id {
        choose|i: int|
            0 <= i < s.len() && s[i].operation_id == id && forall|j: int|
                0 <= j < i ==> s[j].operation_id != id
    } else {
        -1
    }
}

/// Where a stable sort by operation id places a new last entry: after every
/// entry whose id is not greater.
pub open spec fn insert_position(s: Seq<EntryView>, id: u64) -> int {
    choose|j: int|
        0 <= j <= s.len() && (forall|t: int| 0 <= t < j ==> s[t].operation_id <= id) && (j < s.len()
            ==> s[j].operation_id > id)
}

/// Stable sort of entries by operation id (insertion of each entry in turn).
pub open spec fn stable_sort(s: Seq<EntryView>) -> Seq<EntryView>
    decreases s.len(),
{
    if s.len() == 0 {
        s
    } else {
        let rest = stable_sort(s.drop_last());
        rest.insert(insert_position(rest, s.last().operation_id), s.last())
    }
}

/// Entries after inserting or replacing one operation's entry.
pub open spec fn upsert_view(s: Seq<EntryView>, e: EntryView) -> Seq<EntryView> {
    let i = first_index_of(s, e.operation_id);
    if i >= 0 {
        s.update(i, e)
    } else {
        stable_sort(s.push(e))
    }
}

/// Entries after removing every entry of one operation.
pub open spec fn remove_view(s: Seq<EntryView>, id: u64) -> Seq<EntryView> {
    s.filter(|e: EntryView| e.operation_id != id)
}

/// Whether some entry belongs to the operation.
pub open spec fn has_entry(s: Seq<EntryView>, id: u64) -> bool {
    exists|i: int| 0 <= i < s.len() && s[i].operation_id == id
}

/// Every entry of a stable sort comes from the sorted sequence, and the
/// length is unchanged.
pub proof fn lemma_stable_sort_members(s: Seq<EntryView>)
    ensures
        stable_sort(s).len() == s.len(),
        forall|k: int| 0 <= k < s.len() ==> exists|j: int| 0 <= j < s.len() && s[j] == #[trigger] stable_sort(s)[k],
    decreases s.len(),
{
    if s.len() > 0 {
        let rest = stable_sort(s.drop_last());
        lemma_stable_sort_members(s.drop_last());
        let p = insert_position(rest, s.last().operation_id);
        lemma_insert_position_exists(rest, s.last().operation_id);
        let r = rest.insert(p, s.last());
        assert forall|k: int| 0 <= k < s.len() implies exists|j: int| 0 <= j < s.len() && s[j] == #[trigger] r[k] by {
            if k < p {
                assert(r[k] == rest[k]);
                let j = choose|j: int| 0 <= j < s.drop_last().len() && s.drop_last()[j] == rest[k];
                assert(s[j] == r[k]);
            } else if k == p {
                assert(s[s.len() - 1] == r[k]);
            } else {
                assert(r[k] == rest[k - 1]);
                let j = choose|j: int| 0 <= j < s.drop_last().len() && s.drop_last()[j] == rest[k - 1];
                assert(s[j] == r[k]);
            }
        }
    }
}

/// The insertion point of a stable sort always exists.
pub proof fn lemma_insert_position_exists(s: Seq<EntryView>, id: u64)
    ensures
        0 <= insert_position(s, id) <= s.len(),
        forall|t: int| 0 <= t < insert_position(s, id) ==> s[t].operation_id <= id,
        insert_position(s, id) < s.len() ==> s[insert_position(s, id)].operation_id > id,
{
    insert_position_witness(s, id, 0);
}

proof fn insert_position_witness(s: Seq<EntryView>, id: u64, j: int)
    requires
        0 <= j <= s.len(),
        forall|t: int| 0 <= t < j ==> s[t].operation_id <= id,
    ensures
        exists|k: int|
            0 <= k <= s.len() && (forall|t: int| 0 <= t < k ==> s[t].operation_id <= id) && (k
                < s.len() ==> s[k].operation_id > id),
    decreases s.len() - j,
{
    if j < s.len() && s[j].operation_id <= id {
        insert_position_witness(s, id, j + 1);
    } else {
        assert(0 <= j <= s.len() && (forall|t: int| 0 <= t < j ==> s[t].operation_id <= id) && (j
            < s.len() ==> s[j].operation_id > id));
    }
}

/// When an operation has entries, its first entry exists.
pub proof fn lemma_first_index_exists(s: Seq<EntryView>, id: u64)
    requires
        has_entry(s, id),
    ensures
        0 <= first_index_of(s, id) < s.len(),
        s[first_index_of(s, id)].operation_id == id,
        forall|j: int| 0 <= j < first_index_of(s, id) ==> s[j].operation_id != id,
{
    first_index_witness(s, id, 0);
}

proof fn first_index_witness(s: Seq<EntryView>, id: u64, j: int)
    requires
        0 <= j <= s.len(),
        forall|t: int| 0 <= t < j ==> s[t].operation_id != id,
        exists|i: int| j <= i < s.len() && s[i].operation_id == id,
    ensures
        exists|k: int|
            0 <= k < s.len() && s[k].operation_id == id && forall|t: int|
                0 <= t < k ==> s[t].operation_id != id,
    decreases s.len() - j,
{
    if s[j].operation_id == id {
        assert(0 <= j < s.len() && s[j].operation_id == id && forall|t: int|
            0 <= t < j ==> s[t].operation_id != id);
    } else {
        first_index_witness(s, id, j + 1);
    }
}

/// After an upsert, the first entry of the operation is the entry just written.
pub proof fn lemma_upsert_then_lookup(s: Seq<EntryView>, e: EntryView)
    ensures
        has_entry(upsert_view(s, e), e.operation_id),
        0 <= first_index_of(upsert_view(s, e), e.operation_id) < upsert_view(s, e).len(),
        upsert_view(s, e)[first_index_of(upsert_view(s, e), e.operation_id)] == e,
        upsert_view(s, e).len() == if has_entry(s, e.operation_id) { s.len() } else { s.len() + 1 },
{
    if has_entry(s, e.operation_id) {
        upsert_existing(s, e);
    } else {
        upsert_new(s, e);
    }
}

/// The first index is the only index before which no entry matches.
proof fn first_index_is(r: Seq<EntryView>, id: u64, p: int)
    requires
        0 <= p < r.len(),
        r[p].operation_id == id,
        forall|j: int| 0 <= j < p ==> r[j].operation_id != id,
    ensures
        first_index_of(r, id) == p,
{
    assert(has_entry(r, id));
    lemma_first_index_exists(r, id);
    let k = first_index_of(r, id);
    if k < p {
        assert(r[k].operation_id != id);
    }
    if k > p {
        assert(r[p].operation_id != id);
    }
}

proof fn upsert_existing(s: Seq<EntryView>, e: EntryView)
    requires
        has_entry(s, e.operation_id),
    ensures
        0 <= first_index_of(upsert_view(s, e), e.operation_id) < upsert_view(s, e).len(),
        upsert_view(s, e)[first_index_of(upsert_view(s, e), e.operation_id)] == e,
        upsert_view(s, e).len() == s.len(),
{
    let id = e.operation_id;
    lemma_first_index_exists(s, id);
    let i = first_index_of(s, id);
    let r = s.update(i, e);
    assert(upsert_view(s, e) == r);
    assert forall|j: int| 0 <= j < i implies r[j].operation_id != id by {
        assert(r[j] == s[j]);
    }
    first_index_is(r, id, i);
}

proof fn upsert_new(s: Seq<EntryView>, e: EntryView)
    requires
        !has_entry(s, e.operation_id),
    ensures
        0 <= first_index_of(upsert_view(s, e), e.operation_id) < upsert_view(s, e).len(),
        upsert_view(s, e)[first_index_of(upsert_view(s, e), e.operation_id)] == e,
        upsert_view(s, e).len() == s.len() + 1,
{
    let id = e.operation_id;
    let pushed = s.push(e);
    assert(pushed.drop_last() =~= s);
    assert(pushed.last() == e);
    let rest = stable_sort(s);
    lemma_stable_sort_members(s);
    lemma_insert_position_exists(rest, id);
    let p = insert_position(rest, id);
    let r = rest.insert(p, e);
    assert(stable_sort(pushed) == r);
    assert(upsert_view(s, e) == r);
    assert forall|j: int| 0 <= j < p implies r[j].operation_id != id by {
        assert(r[j] == rest[j]);
        let w = choose|w: int| 0 <= w < s.len() && s[w] == #[trigger] rest[j];
        assert(s[w].operation_id != id);
    }
    first_index_is(r, id, p);
}

/// Removing an operation leaves none of its entries and keeps all others.
pub proof fn lemma_remove_clears(s: Seq<EntryView>, id: u64)
    ensures
        !has_entry(remove_view(s, id), id),
        forall|i: int| 0 <= i < s.len() && s[i].operation_id != id ==> remove_view(s, id).contains(s[i]),
{
    let pred = |e: EntryView| e.operation_id != id;
    broadcast use vstd::seq_lib::group_filter_ensures;
    assert forall|i: int| 0 <= i < remove_view(s, id).len() implies remove_view(s, id)[i].operation_id != id by {
        s.lemma_filter_pred(pred, i);
    }
    assert forall|i: int| 0 <= i < s.len() && s[i].operation_id != id implies remove_view(s, id).contains(s[i]) by {
        s.lemma_filter_contains(pred, i);
    }
}

/// Versioned journal.
#[derive(Debug, PartialEq, Eq)]
pub struct RecoveryJournal {
    /// On-disk format version.
    pub version: u32,
    /// Active recovery entries.
    pub entries: Vec<RecoveryEntry>,
}

impl Default for RecoveryJournal {
    fn default() -> (r: Self)
        ensures
            r.version == 1,
            r.entries@.len() == 0,
    {
        RecoveryJournal { version: 1, entries: Vec::new() }
    }
}

/// Finds the first entry of an operation.
fn find_first(entries: &Vec<RecoveryEntry>, id: u64) -> (r: Option<usize>)
    ensures
        r is None ==> first_index_of(entries_view(entries@), id) == -1,
        r matches Some(i) ==> i < entries@.len() && first_index_of(entries_view(entries@), id) == i,
{
    let ghost s = entries_view(entries@);
    let mut i: usize = 0;
    while i < entries.len()
        invariant
            s == entries_view(entries@),
            i <= entries@.len(),
            forall|j: int| 0 <= j < i ==> s[j].operation_id != id,
        decreases entries@.len() - i,
    {
        if entries[i].operation_id == id {
            assert(s[i as int].operation_id == id);
            let ghost k = first_index_of(s, id);
            assert(0 <= k < s.len() && s[k].operation_id == id && forall|j: int|
                0 <= j < k ==> s[j].operation_id != id);
            assert(k == i as int) by {
                if k < i as int {
                    assert(s[k].operation_id != id);
                }
                if k > i as int {
                    assert(s[i as int].operation_id != id);
                }
            }
            return Some(i);
        }
        i = i + 1;
    }
    assert(!exists|j: int| 0 <= j < s.len() && s[j].operation_id == id);
    None
}

/// Position after every entry whose id is not greater than `id`.
fn find_insert_position(entries: &Vec<RecoveryEntry>, id: u64) -> (r: usize)
    ensures
        r <= entries@.len(),
        r == insert_position(entries_view(entries@), id),
{
    let ghost s = entries_view(entries@);
    let mut j: usize = 0;
    while j < entries.len() && entries[j].operation_id <= id
        invariant
            s == entries_view(entries@),
            j <= entries@.len(),
            forall|t: int| 0 <= t < j ==> s[t].operation_id <= id,
        decreases entries@.len() - j,
    {
        j = j + 1;
    }
    let ghost k = insert_position(s, id);
    assert(0 <= k <= s.len() && (forall|t: int| 0 <= t < k ==> s[t].operation_id <= id) && (k
        < s.len() ==> s[k].operation_id > id));
    assert(k == j as int) by {
        if k < j as int {
            assert(s[k].operation_id <= id);
        }
        if k > j as int {
            assert(s[j as int].operation_id <= id);
        }
    }
    j
}

/// Stable sort by operation id.
fn sort_by_operation_id(entries: &Vec<RecoveryEntry>) -> (r: Vec<RecoveryEntry>)
    ensures
        entries_view(r@) == stable_sort(entries_view(entries@)),
{
    let ghost s = entries_view(entries@);
    let mut out: Vec<RecoveryEntry> = Vec::new();
    let mut i: usize = 0;
    while i < entries.len()
        invariant
            s == entries_view(entries@),
            i <= entries@.len(),
            entries_view(out@) == stable_sort(s.subrange(0, i as int)),
        decreases entries@.len() - i,
    {
        let ghost before = entries_view(out@);
        let p = find_insert_position(&out, entries[i].operation_id);
        let e = entries[i].clone();
        out.insert(p, e);
        proof {
            let sub = s.subrange(0, i + 1);
            assert(sub.drop_last() =~= s.subrange(0, i as int));
            assert(sub.last() == s[i as int]);
            assert(entries_view(out@) =~= before.insert(p as int, s[i as int]));
        }
        i = i + 1;
    }
    assert(s.subrange(0, entries@.len() as int) =~= s);
    out
}

impl RecoveryJournal {
    /// Values of the entries.
    pub open spec fn spec_entries(&self) -> Seq<EntryView> {
        entries_view(self.entries@)
    }

    /// Inserts or replaces one operation entry; a new operation's entry is
    /// placed by a stable sort on operation id.
    pub fn upsert(&mut self, entry: RecoveryEntry)
        ensures
            final(self).version == old(self).version,
            final(self).spec_entries() == upsert_view(old(self).spec_entries(), entry@),
    {
        let ghost s = self.spec_entries();
        match find_first(&self.entries, entry.operation_id) {
            Some(i) => {
                let mut entries = Vec::new();
                std::mem::swap(&mut entries, &mut self.entries);
                entries.set(i, entry);
                self.entries = entries;
                proof {
                    assert(self.spec_entries() =~= s.update(i as int, entry@));
                }
            },
            None => {
                let ghost e = entry@;
                let mut entries = Vec::new();
                std::mem::swap(&mut entries, &mut self.entries);
                entries.push(entry);
                assert(entries_view(entries@) =~= s.push(e));
                self.entries = sort_by_operation_id(&entries);
            },
        }
    }

    /// Removes every entry of a completed operation.
    pub fn remove(&mut self, operation_id: u64)
        ensures
            final(self).version == old(self).version,
            final(self).spec_entries() == remove_view(old(self).spec_entries(), operation_id),
    {
        let ghost s = self.spec_entries();
        let mut kept: Vec<RecoveryEntry> = Vec::new();
        let mut i: usize = 0;
        while i < self.entries.len()
            invariant
                s == self.spec_entries(),
                i <= self.entries@.len(),
                entries_view(kept@) == remove_view(s.subrange(0, i as int), operation_id),
            decreases self.entries@.len() - i,
        {
            let ghost before = entries_view(kept@);
            if self.entries[i].operation_id != operation_id {
                let e = self.entries[i].clone();
                kept.push(e);
            }
            proof {
                let sub = s.subrange(0, i + 1);
                assert(sub.drop_last() =~= s.subrange(0, i as int));
                assert(sub.last() == s[i as int]);
                reveal(Seq::filter);
                if s[i as int].operation_id != operation_id {
                    assert(entries_view(kept@) =~= before.push(s[i as int]));
                } else {
                    assert(entries_view(kept@) =~= before);
                }
            }
            i = i + 1;
        }
        assert(s.subrange(0, self.entries@.len() as int) =~= s);
        self.entries = kept;
    }

    /// What storing this journal does: an empty journal is discarded, any
    /// other is saved.
    pub fn disposition(&self) -> (r: JournalDisposition)
        ensures
            self.entries@.len() == 0 ==> r == JournalDisposition::Discard,
            self.entries@.len() > 0 ==> r == JournalDisposition::Save,
    {
        if self.entries.len() == 0 {
            JournalDisposition::Discard
        } else {
            JournalDisposition::Save
        }
    }

    /// Saves a non-empty journal, or discards the stored journal when empty;
    /// the answer is the store's.
    pub fn save_or_remove<J: JournalStore>(&self, store: &J) -> Result<(), String> {
        match self.disposition() {
            JournalDisposition::Discard => store.discard(),
            JournalDisposition::Save => store.save(self),
        }
    }
}

/// How a journal is stored.
#[derive(Clone, Copy, Debug, PartialEq, Eq, Structural)]
pub enum JournalDisposition {
    /// Remove the stored journal: nothing is left to recover.
    Discard,
    /// Replace the stored journal with this one.
    Save,
}

/// Durable place of one recovery journal, owned by the caller (a local file).
pub trait JournalStore {
    /// Where the journal lives, for diagnostics.
    fn location(&self) -> String;

    /// Loads the journal; a journal that was never written loads as empty.
    fn load(&self) -> Result<RecoveryJournal, String>;

    /// Durably replaces the stored journal.
    fn save(&self, journal: &RecoveryJournal) -> Result<(), String>;

    /// Removes the stored journal; removing an absent journal succeeds.
    fn discard(&self) -> Result<(), String>;
}

/// Recovery action taken for one journal entry.
#[derive(Clone, Copy, Debug, PartialEq, Eq, Structural)]
pub enum RecoveryAction {
    /// Stage/backup sidecars were cleaned.
    Cleaned,
    /// Backup was restored to the destination.
    Restored,
    /// Entry required no backend mutation.
    Noop,
}

/// Aggregate startup recovery result.
#[derive(Clone, Copy, Debug, PartialEq, Eq, Structural)]
pub struct RecoverySweepReport {
    /// Entries examined successfully.
    pub entries_processed: u64,
    /// Entries that restored an original destination.
    pub restored: u64,
    /// Entries that cleaned stage/backup sidecars.
    pub cleaned: u64,
    /// Entries requiring no backend mutation.
    pub noop: u64,
}

impl Default for RecoverySweepReport {
    fn default() -> (r: Self)
        ensures
            r.entries_processed == 0,
            r.restored == 0,
            r.cleaned == 0,
            r.noop == 0,
    {
        RecoverySweepReport { entries_processed: 0, restored: 0, cleaned: 0, noop: 0 }
    }
}

/// Failure while loading, applying, or persisting a recovery sweep.
#[derive(Debug)]
pub enum RecoverySweepError {
    /// Journal storage or decoding failure.
    Io(String),
    /// Backend recovery action failed.
    Backend(BackendError),
}

/// Whether optional text is present but empty (an undecodable path).
pub open spec fn is_empty_path(o: Option<Seq<char>>) -> bool {
    o matches Some(t) && t.len() == 0
}

/// Whether every path of the entry decodes.
pub open spec fn entry_decodes(e: EntryView) -> bool {
    e.destination.len() > 0 && !is_empty_path(e.stage) && !is_empty_path(e.backup)
}

/// Decodes an optional path; empty text is rejected as invalid input.
pub fn decode_optional(operation: &'static str, value: Option<&str>) -> (r: Result<
    Option<BackendPath>,
    BackendError,
>)
    ensures
        value is None ==> r matches Ok(None),
        value matches Some(t) ==> (t@.len() == 0 <==> r is Err),
        value matches Some(t) ==> (r matches Ok(Some(p)) ==> p@ == t@),
        r matches Err(e) ==> e.spec_kind() == ErrorKind::InvalidInput && e.spec_operation()
            == operation@ && e.spec_path() is None,
        r matches Ok(o) ==> (o is Some <==> value is Some),
{
    match value {
        None => Ok(None),
        Some(text) => match BackendPath::new(text) {
            Ok(path) => Ok(Some(path)),
            Err(error) => Err(BackendError::new(ErrorKind::InvalidInput, operation, None, error.message())),
        },
    }
}

fn as_opt_str(o: &Option<String>) -> (r: Option<&str>)
    ensures
        r is None <==> o is None,
        r matches Some(t) ==> opt_text(*o) == Some(t@),
{
    match o {
        Some(s) => Some(s.as_str()),
        None => None,
    }
}

/// Whether a path exists; only a not-found failure means absent.
pub fn path_exists<B: Backend>(backend: &B, path: &BackendPath) -> (r: Result<bool, BackendError>)
    ensures
        r matches Err(e) ==> e.spec_kind() != ErrorKind::NotFound,
{
    presence(backend.stat(path))
}

/// Removes an optional sidecar tree; whether anything was removed.
fn clean_optional<B: Backend>(backend: &B, path: &Option<BackendPath>) -> (r: Result<bool, BackendError>)
    ensures
        path is None ==> r == Ok::<bool, BackendError>(false),
{
    match path {
        Some(p) => match remove_tree_if_present(backend, p) {
            Ok(report) => Ok(report.entries_removed() > 0),
            Err(e) => Err(e),
        },
        None => Ok(false),
    }
}

fn cleaned_or_noop(cleaned: bool) -> (r: RecoveryAction)
    ensures
        cleaned ==> r == RecoveryAction::Cleaned,
        !cleaned ==> r == RecoveryAction::Noop,
{
    if cleaned {
        RecoveryAction::Cleaned
    } else {
        RecoveryAction::Noop
    }
}

/// What recovering an entry amounts to, from what the backend reported:
/// whether a backup is recorded, whether it still exists, and whether the
/// stage and backup cleanups removed anything.
pub open spec fn recovery_action_of(
    phase: RecoveryPhase,
    backup_recorded: bool,
    backup_exists: bool,
    stage_cleaned: bool,
    backup_cleaned: bool,
) -> RecoveryAction {
    match phase {
        RecoveryPhase::Staging => if stage_cleaned {
            RecoveryAction::Cleaned
        } else {
            RecoveryAction::Noop
        },
        RecoveryPhase::BackupMoved => if backup_recorded && backup_exists {
            RecoveryAction::Restored
        } else if stage_cleaned {
            RecoveryAction::Cleaned
        } else {
            RecoveryAction::Noop
        },
        RecoveryPhase::Finalized => if stage_cleaned || backup_cleaned {
            RecoveryAction::Cleaned
        } else {
            RecoveryAction::Noop
        },
    }
}

/// Whether recovery removes whatever stands at the destination before
/// renaming the backup back: only a `BackupMoved` entry whose recorded backup
/// still exists, with something at the destination.
pub open spec fn recovery_clears_destination(
    phase: RecoveryPhase,
    backup_recorded: bool,
    backup_exists: bool,
    destination_exists: bool,
) -> bool {
    phase == RecoveryPhase::BackupMoved && backup_recorded && backup_exists && destination_exists
}

/// Decides the action of one recovered entry from the backend's answers.
pub fn recovery_action(
    phase: RecoveryPhase,
    backup_recorded: bool,
    backup_exists: bool,
    stage_cleaned: bool,
    backup_cleaned: bool,
) -> (r: RecoveryAction)
    ensures
        r == recovery_action_of(phase, backup_recorded, backup_exists, stage_cleaned, backup_cleaned),
{
    match phase {
        RecoveryPhase::Staging => cleaned_or_noop(stage_cleaned),
        RecoveryPhase::BackupMoved => {
            if backup_recorded && backup_exists {
                RecoveryAction::Restored
            } else {
                cleaned_or_noop(stage_cleaned)
            }
        },
        RecoveryPhase::Finalized => cleaned_or_noop(stage_cleaned || backup_cleaned),
    }
}

/// Recovers one interrupted replacement conservatively.
///
/// `Staging` removes the stage. `BackupMoved` treats the original as
/// authoritative: when the backup still exists, whatever stands at the
/// destination is removed and the backup renamed back. `Finalized` removes
/// leftover stage and backup sidecars.
pub fn recover_entry<B: Backend>(backend: &B, entry: &RecoveryEntry) -> (r: Result<
    RecoveryAction,
    BackendError,
>)
    ensures
        entry@.destination.len() == 0 ==> (r matches Err(e) && e.spec_kind() == ErrorKind::InvalidInput
            && e.spec_operation() == "decode recovery destination"@),
        entry@.destination.len() > 0 && is_empty_path(entry@.stage) ==> (r matches Err(e)
            && e.spec_kind() == ErrorKind::InvalidInput && e.spec_operation()
            == "decode recovery stage"@),
        entry@.destination.len() > 0 && !is_empty_path(entry@.stage) && is_empty_path(entry@.backup)
            ==> (r matches Err(e) && e.spec_kind() == ErrorKind::InvalidInput && e.spec_operation()
            == "decode recovery backup"@),
        entry_decodes(entry@) && entry@.stage is None && (entry.phase == RecoveryPhase::Staging
            || entry@.backup is None) ==> r == Ok::<RecoveryAction, BackendError>(RecoveryAction::Noop),
        r matches Ok(RecoveryAction::Restored) ==> entry.phase == RecoveryPhase::BackupMoved
            && entry@.backup is Some,
        r matches Ok(RecoveryAction::Cleaned) ==> (entry@.stage is Some || (entry.phase
            == RecoveryPhase::Finalized && entry@.backup is Some)),
        r matches Ok(a) ==> exists|backup_exists: bool, stage_cleaned: bool, backup_cleaned: bool|
            a == #[trigger] recovery_action_of(
                entry.phase,
                entry@.backup is Some,
                backup_exists,
                stage_cleaned,
                backup_cleaned,
            ),
{
    let destination = match BackendPath::new(entry.destination.as_str()) {
        Ok(p) => p,
        Err(error) => {
            return Err(
                BackendError::new(
                    ErrorKind::InvalidInput,
                    "decode recovery destination",
                    None,
                    error.message(),
                ),
            );
        },
    };
    let stage = match decode_optional("decode recovery stage", as_opt_str(&entry.stage)) {
        Ok(s) => s,
        Err(e) => return Err(e),
    };
    let backup = match decode_optional("decode recovery backup", as_opt_str(&entry.backup)) {
        Ok(b) => b,
        Err(e) => return Err(e),
    };
    match entry.phase {
        RecoveryPhase::Staging => {
            match clean_optional(backend, &stage) {
                Ok(cleaned) => Ok(recovery_action(entry.phase, backup.is_some(), false, cleaned, false)),
                Err(e) => Err(e),
            }
        },
        RecoveryPhase::BackupMoved => {
            let backup = match backup {
                Some(b) => b,
                None => {
                    return match clean_optional(backend, &stage) {
                        Ok(cleaned) => Ok(recovery_action(entry.phase, false, false, cleaned, false)),
                        Err(e) => Err(e),
                    };
                },
            };
            let destination_exists = match path_exists(backend, &destination) {
                Ok(b) => b,
                Err(e) => return Err(e),
            };
            let backup_exists = match path_exists(backend, &backup) {
                Ok(b) => b,
                Err(e) => return Err(e),
            };
            if !backup_exists {
                return match clean_optional(backend, &stage) {
                    Ok(cleaned) => Ok(recovery_action(entry.phase, true, false, cleaned, false)),
                    Err(e) => Err(e),
                };
            }
            // Until `Finalized` is durably recorded the original object is
            // authoritative, so a partial or even complete replacement at the
            // destination is rolled back.
            if destination_exists {
                match remove_tree_if_present(backend, &destination) {
                    Ok(_) => {},
                    Err(e) => return Err(e),
                }
            }
            match backend.rename(&backup, &destination) {
                Ok(()) => {},
                Err(e) => return Err(e),
            }
            let stage_cleaned = match clean_optional(backend, &stage) {
                Ok(c) => c,
                Err(e) => return Err(e),
            };
            Ok(recovery_action(entry.phase, true, true, stage_cleaned, false))
        },
        RecoveryPhase::Finalized => {
            let stage_cleaned = match clean_optional(backend, &stage) {
                Ok(c) => c,
                Err(e) => return Err(e),
            };
            let backup_cleaned = match clean_optional(backend, &backup) {
                Ok(c) => c,
                Err(e) => return Err(e),
            };
            Ok(recovery_action(entry.phase, backup.is_some(), false, stage_cleaned, backup_cleaned))
        },
    }
}

/// Sweep counters after one more processed entry.
fn count_action(report: RecoverySweepReport, action: RecoveryAction) -> (r: RecoverySweepReport)
    requires
        report.entries_processed < u64::MAX,
        report.entries_processed == report.restored + report.cleaned + report.noop,
    ensures
        r.entries_processed == report.entries_processed + 1,
        r.entries_processed == r.restored + r.cleaned + r.noop,
        r.restored == report.restored + (if action == RecoveryAction::Restored { 1int } else { 0 }),
        r.cleaned == report.cleaned + (if action == RecoveryAction::Cleaned { 1int } else { 0 }),
        r.noop == report.noop + (if action == RecoveryAction::Noop { 1int } else { 0 }),
{
    let mut next = report;
    next.entries_processed = report.entries_processed.saturating_add(1);
    match action {
        RecoveryAction::Restored => next.restored = report.restored.saturating_add(1),
        RecoveryAction::Cleaned => next.cleaned = report.cleaned.saturating_add(1),
        RecoveryAction::Noop => next.noop = report.noop.saturating_add(1),
    }
    next
}

/// Loads a journal and drains it one entry at a time: each entry is recovered,
/// removed, and the shrunken journal stored before the next entry.
pub fn recover_journal<B: Backend, J: JournalStore>(backend: &B, store: &J) -> (r: Result<
    RecoverySweepReport,
    RecoverySweepError,
>)
    ensures
        r matches Ok(report) ==> report.entries_processed == report.restored + report.cleaned
            + report.noop,
{
    let journal = match store.load() {
        Ok(j) => j,
        Err(message) => return Err(RecoverySweepError::Io(message)),
    };
    recover_loaded(backend, store, journal)
}

/// Drains a loaded journal: every entry is recovered in order, removed, and
/// the shrunken journal stored before the next entry; the first failure stops
/// the sweep with the rest of the journal still stored.
pub fn recover_loaded<B: Backend, J: JournalStore>(backend: &B, store: &J, journal: RecoveryJournal) -> (r:
    Result<RecoverySweepReport, RecoverySweepError>)
    ensures
        r matches Ok(report) ==> report.entries_processed == journal.entries@.len(),
        r matches Ok(report) ==> report.entries_processed == report.restored + report.cleaned
            + report.noop,
{
    let ghost loaded = journal.entries@.len();
    let mut journal = journal;
    let mut entries: Vec<RecoveryEntry> = Vec::new();
    let mut k: usize = 0;
    while k < journal.entries.len()
        invariant
            k <= journal.entries@.len(),
            journal.entries@.len() == loaded,
            entries@.len() == k,
        decreases journal.entries@.len() - k,
    {
        entries.push(journal.entries[k].clone());
        k = k + 1;
    }
    let mut report = RecoverySweepReport::default();
    if entries.len() == 0 {
        return match journal.save_or_remove(store) {
            Ok(()) => Ok(report),
            Err(message) => Err(RecoverySweepError::Io(message)),
        };
    }
    let mut i: usize = 0;
    while i < entries.len()
        invariant
            i <= entries@.len(),
            entries@.len() == loaded,
            report.entries_processed == i,
            report.entries_processed == report.restored + report.cleaned + report.noop,
        decreases entries@.len() - i,
    {
        let action = match recover_entry(backend, &entries[i]) {
            Ok(a) => a,
            Err(e) => return Err(RecoverySweepError::Backend(e)),
        };
        assert(i < u64::MAX) by {
            assert(entries@.len() <= usize::MAX);
        }
        report = count_action(report, action);
        journal.remove(entries[i].operation_id);
        match journal.save_or_remove(store) {
            Ok(()) => {},
            Err(message) => return Err(RecoverySweepError::Io(message)),
        }
        i = i + 1;
    }
    Ok(report)
}

/// Whether a file name has the `json` extension: text after its last dot, the
/// dot not leading the name.
pub open spec fn has_json_extension(name: Seq<char>) -> bool {
    match last_index_of(name, '.') {
        Some(i) => i > 0 && name.subrange(i + 1, name.len() as int) == "json"@,
        None => false,
    }
}

/// Whether a directory entry's file name marks a recovery journal.
pub fn is_journal_file_name(name: &str) -> (r: bool)
    ensures
        r == has_json_extension(name@),
{
    let n = name.unicode_len();
    match rfind_char(name, '.') {
        Some(i) => i > 0 && text_equals(substring(name, i + 1, n), "json"),
        None => false,
    }
}

/// Whether a discovery walk has found more journals than it accepts.
pub fn journal_limit_exceeded(found: usize) -> (r: bool)
    ensures
        r == (found > MAX_DISCOVERED_JOURNALS),
{
    found > MAX_DISCOVERED_JOURNALS
}

/// Activity detail of a replayed journal; a journal with no entries reports
/// nothing.
pub fn sweep_activity_detail(report: RecoverySweepReport) -> (r: Option<String>)
    ensures
        report.entries_processed == 0 ==> r is None,
        report.entries_processed > 0 ==> (r matches Some(t) && t@ == decimal_text(report.entries_processed as nat)
            + " entries • "@ + decimal_text(report.restored as nat) + " restored • "@ + decimal_text(
            report.cleaned as nat,
        ) + " cleaned"@),
{
    if report.entries_processed == 0 {
        return None;
    }
    let mut out = decimal(report.entries_processed);
    out.append(" entries • ");
    out.append(decimal(report.restored).as_str());
    out.append(" restored • ");
    out.append(decimal(report.cleaned).as_str());
    out.append(" cleaned");
    Some(out)
}

/// Note about remote journals that wait for a reconnect; none when no entry waits.
pub fn pending_remote_note(pending_entries: u64) -> (r: Option<String>)
    ensures
        pending_entries == 0 ==> r is None,
        pending_entries > 0 ==> (r matches Some(t) && t@ == decimal_text(pending_entries as nat)
            + " interrupted remote transaction(s) require a reconnect before recovery"@),
{
    if pending_entries == 0 {
        return None;
    }
    let mut out = decimal(pending_entries);
    out.append(" interrupted remote transaction(s) require a reconnect before recovery");
    Some(out)
}

/// Note about journal locations that could not be read; none when all could.
pub fn unreadable_journals_note(unreadable: u64) -> (r: Option<String>)
    ensures
        unreadable == 0 ==> r is None,
        unreadable > 0 ==> (r matches Some(t) && t@ == decimal_text(unreadable as nat)
            + " recovery journal location(s) could not be read"@),
{
    if unreadable == 0 {
        return None;
    }
    let mut out = decimal(unreadable);
    out.append(" recovery journal location(s) could not be read");
    Some(out)
}

} // verus!
