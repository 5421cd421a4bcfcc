//! How a directory listing is shown: sizes, ages, entry labels, the entries a
//! pane shows and their order, and the pane footer.

use vstd::prelude::*;
use crate::domain::{BackendPath, EntryKind, FileEntry};
use crate::messages::{decimal, decimal_text};
use crate::paths::{lex_less, text_less};
use crate::text::{
    concat2, contains_char, lowercase_text, owned, seq_contains_seq, starts_with_char, text_contains,
    text_equals, to_lowercase,
};

verus! {

/// Human-readable size: bytes below one KiB, then whole KiB, MiB or GiB
/// (rounded down); an unknown size is a dash.
pub open spec fn size_text(size: Option<u64>) -> Seq<char> {
    match size {
        None => "—"@,
        Some(b) => if b < 1024 {
            decimal_text(b as nat) + " B"@
        } else if b < 1_048_576 {
            decimal_text((b / 1024) as nat) + " KiB"@
        } else if b < 1_073_741_824 {
            decimal_text((b / 1_048_576) as nat) + " MiB"@
        } else {
            decimal_text((b / 1_073_741_824) as nat) + " GiB"@
        },
    }
}

/// Formats an optional byte size.
pub fn format_size(size: Option<u64>) -> (r: String)
    ensures
        r@ == size_text(size),
{
    match size {
        None => owned("—"),
        Some(b) => if b < 1024 {
            concat2(decimal(b).as_str(), " B")
        } else if b < 1_048_576 {
            concat2(decimal(b / 1024).as_str(), " KiB")
        } else if b < 1_073_741_824 {
            concat2(decimal(b / 1_048_576).as_str(), " MiB")
        } else {
            concat2(decimal(b / 1_073_741_824).as_str(), " GiB")
        },
    }
}

/// Age of a modification time relative to `now` (Unix seconds): a dash when
/// unknown, `now` when not in the past, else whole minutes, hours, days,
/// 30-day months or 365-day years. Without a clock reading the time counts as
/// now.
pub open spec fn age_text(modified: Option<u64>, now: Option<u64>) -> Seq<char> {
    match modified {
        None => "—"@,
        Some(seconds) => {
            let current = match now {
                Some(n) => n,
                None => seconds,
            };
            if seconds >= current {
                "now"@
            } else {
                let age = (current - seconds) as nat;
                if age < 3_600 {
                    decimal_text(age / 60) + "m ago"@
                } else if age < 86_400 {
                    decimal_text(age / 3_600) + "h ago"@
                } else if age < 2_592_000 {
                    decimal_text(age / 86_400) + "d ago"@
                } else if age < 31_536_000 {
                    decimal_text(age / 2_592_000) + "mo ago"@
                } else {
                    decimal_text(age / 31_536_000) + "y ago"@
                }
            }
        },
    }
}

/// Formats how long ago an entry was modified.
pub fn format_age(modified: Option<u64>, now: Option<u64>) -> (r: String)
    ensures
        r@ == age_text(modified, now),
{
    let seconds = match modified {
        None => return owned("—"),
        Some(s) => s,
    };
    let current = match now {
        Some(n) => n,
        None => seconds,
    };
    if seconds >= current {
        return owned("now");
    }
    let age = current - seconds;
    if age < 3_600 {
        concat2(decimal(age / 60).as_str(), "m ago")
    } else if age < 86_400 {
        concat2(decimal(age / 3_600).as_str(), "h ago")
    } else if age < 2_592_000 {
        concat2(decimal(age / 86_400).as_str(), "d ago")
    } else if age < 31_536_000 {
        concat2(decimal(age / 2_592_000).as_str(), "mo ago")
    } else {
        concat2(decimal(age / 31_536_000).as_str(), "y ago")
    }
}

/// Symbolic icon shown for an entry kind.
pub open spec fn icon_name(kind: EntryKind) -> Seq<char> {
    match kind {
        EntryKind::File => "text-x-generic-symbolic"@,
        EntryKind::Directory => "folder-symbolic"@,
        EntryKind::Symlink => "emblem-symbolic-link-symbolic"@,
        EntryKind::Other => "unknown-symbolic"@,
    }
}

/// Returns the icon name of an entry kind.
pub fn entry_icon_name(kind: EntryKind) -> (r: &'static str)
    ensures
        r@ == icon_name(kind),
{
    match kind {
        EntryKind::File => "text-x-generic-symbolic",
        EntryKind::Directory => "folder-symbolic",
        EntryKind::Symlink => "emblem-symbolic-link-symbolic",
        EntryKind::Other => "unknown-symbolic",
    }
}

/// User-facing name of an entry kind.
pub open spec fn kind_label(kind: EntryKind) -> Seq<char> {
    match kind {
        EntryKind::File => "File"@,
        EntryKind::Directory => "Folder"@,
        EntryKind::Symlink => "Link"@,
        EntryKind::Other => "Other"@,
    }
}

/// Returns the user-facing name of an entry kind.
pub fn entry_kind_text(kind: EntryKind) -> (r: &'static str)
    ensures
        r@ == kind_label(kind),
{
    match kind {
        EntryKind::File => "File",
        EntryKind::Directory => "Folder",
        EntryKind::Symlink => "Link",
        EntryKind::Other => "Other",
    }
}

/// Column a listing is ordered by.
#[derive(Clone, Copy, Debug, PartialEq, Eq, Structural)]
pub enum SortMode {
    /// Case-insensitive name.
    Name,
    /// Kind label, then name.
    Type,
    /// Size (unknown counts as zero), then name.
    Size,
    /// Modification time (unknown counts as zero), then name.
    Date,
}

/// Lower-case word of a sort mode.
pub open spec fn sort_mode_name(mode: SortMode) -> Seq<char> {
    match mode {
        SortMode::Name => "name"@,
        SortMode::Type => "type"@,
        SortMode::Size => "size"@,
        SortMode::Date => "date"@,
    }
}

/// Returns the word of a sort mode.
pub fn sort_mode_text(mode: SortMode) -> (r: &'static str)
    ensures
        r@ == sort_mode_name(mode),
{
    match mode {
        SortMode::Name => "name",
        SortMode::Type => "type",
        SortMode::Size => "size",
        SortMode::Date => "date",
    }
}

/// A new file or folder name is refused when empty or when it holds a slash.
pub fn invalid_name(name: &str) -> (r: bool)
    ensures
        r == (name@.len() == 0 || name@.contains('/')),
{
    name.unicode_len() == 0 || contains_char(name, '/')
}

/// `directory` joined with `name` the way a path buffer joins: an absolute
/// name replaces the directory, otherwise a separator is added unless the
/// directory already ends with one.
pub open spec fn child_text(directory: Seq<char>, name: Seq<char>) -> Seq<char> {
    if name.len() > 0 && name[0] == '/' {
        name
    } else if directory.len() > 0 && directory.last() == '/' {
        directory + name
    } else {
        directory + "/"@ + name
    }
}

/// Path of a child entry of a directory.
pub fn child_path(directory: &BackendPath, name: &str) -> (r: Result<BackendPath, String>)
    ensures
        r matches Ok(p) && p@ == child_text(directory@, name@),
{
    let base = directory.as_str();
    let joined = if starts_with_char(name, '/') {
        owned(name)
    } else if crate::text::ends_with_char(base, '/') {
        concat2(base, name)
    } else {
        crate::text::concat3(base, "/", name)
    };
    proof {
        reveal_strlit("/");
    }
    assert(joined@.len() > 0);
    match BackendPath::from_string(joined) {
        Ok(p) => Ok(p),
        Err(e) => Err(owned(e.message())),
    }
}

/// Folders come before everything else.
pub open spec fn folder_rank(kind: EntryKind) -> int {
    if kind == EntryKind::Directory {
        0
    } else {
        1
    }
}

/// Name order: case-insensitive first, then exact.
pub open spec fn names_before(a: Seq<char>, b: Seq<char>) -> bool {
    lex_less(lowercase_text(a), lowercase_text(b)) || (lowercase_text(a) == lowercase_text(b) && lex_less(a, b))
}

/// Size key of an entry; an unknown size counts as zero.
pub open spec fn size_key(e: FileEntry) -> u64 {
    match e.size {
        Some(s) => s,
        None => 0,
    }
}

/// Date key of an entry; an unknown time counts as zero.
pub open spec fn date_key(e: FileEntry) -> u64 {
    match e.modified {
        Some(m) => m,
        None => 0,
    }
}

/// Whether `a` is listed strictly before `b`: folders first, then the mode's
/// key, then the name.
pub open spec fn entry_before(a: FileEntry, b: FileEntry, mode: SortMode) -> bool {
    if folder_rank(a.kind) != folder_rank(b.kind) {
        folder_rank(a.kind) < folder_rank(b.kind)
    } else {
        match mode {
            SortMode::Name => names_before(a.name@, b.name@),
            SortMode::Type => lex_less(kind_label(a.kind), kind_label(b.kind)) || (kind_label(a.kind)
                == kind_label(b.kind) && names_before(a.name@, b.name@)),
            SortMode::Size => size_key(a) < size_key(b) || (size_key(a) == size_key(b) && names_before(
                a.name@,
                b.name@,
            )),
            SortMode::Date => date_key(a) < date_key(b) || (date_key(a) == date_key(b) && names_before(
                a.name@,
                b.name@,
            )),
        }
    }
}

fn names_before_exec(a: &str, b: &str) -> (r: bool)
    ensures
        r == names_before(a@, b@),
{
    let la = to_lowercase(a);
    let lb = to_lowercase(b);
    text_less(la.as_str(), lb.as_str()) || (text_equals(la.as_str(), lb.as_str()) && text_less(a, b))
}

/// Whether one entry is listed strictly before another.
pub fn entry_precedes(a: &FileEntry, b: &FileEntry, mode: SortMode) -> (r: bool)
    ensures
        r == entry_before(*a, *b, mode),
{
    let ra: u8 = if a.kind == EntryKind::Directory { 0 } else { 1 };
    let rb: u8 = if b.kind == EntryKind::Directory { 0 } else { 1 };
    if ra != rb {
        return ra < rb;
    }
    match mode {
        SortMode::Name => names_before_exec(a.name.as_str(), b.name.as_str()),
        SortMode::Type => {
            let ka = entry_kind_text(a.kind);
            let kb = entry_kind_text(b.kind);
            text_less(ka, kb) || (text_equals(ka, kb) && names_before_exec(a.name.as_str(), b.name.as_str()))
        },
        SortMode::Size => {
            let sa = match a.size {
                Some(s) => s,
                None => 0,
            };
            let sb = match b.size {
                Some(s) => s,
                None => 0,
            };
            sa < sb || (sa == sb && names_before_exec(a.name.as_str(), b.name.as_str()))
        },
        SortMode::Date => {
            let da = match a.modified {
                Some(m) => m,
                None => 0,
            };
            let db = match b.modified {
                Some(m) => m,
                None => 0,
            };
            da < db || (da == db && names_before_exec(a.name.as_str(), b.name.as_str()))
        },
    }
}

/// Where a stable sort places `x` among already ordered entries: before the
/// first entry it strictly precedes.
pub open spec fn display_position(s: Seq<FileEntry>, x: FileEntry, mode: SortMode) -> int
    decreases s.len(),
{
    if s.len() == 0 {
        0
    } else if entry_before(x, s[0], mode) {
        0
    } else {
        1 + display_position(s.drop_first(), x, mode)
    }
}

/// Stable sort of entries in listing order.
pub open spec fn display_sorted(s: Seq<FileEntry>, mode: SortMode) -> Seq<FileEntry>
    decreases s.len(),
{
    if s.len() == 0 {
        s
    } else {
        let rest = display_sorted(s.drop_last(), mode);
        rest.insert(display_position(rest, s.last(), mode), s.last())
    }
}

/// Whether a pane shows an entry: dot-names only when hidden entries are
/// shown, and, with a (lower-case) query, only names whose lower-case form
/// contains it.
pub open spec fn entry_shown(e: FileEntry, show_hidden: bool, query: Seq<char>) -> bool {
    &&& show_hidden || !(e.name@.len() > 0 && e.name@[0] == '.')
    &&& query.len() == 0 || seq_contains_seq(lowercase_text(e.name@), query)
}

/// Entries a pane shows, in listing order.
pub open spec fn shown_entries(s: Seq<FileEntry>, show_hidden: bool, query: Seq<char>) -> Seq<FileEntry>
    decreases s.len(),
{
    if s.len() == 0 {
        s
    } else {
        let rest = shown_entries(s.drop_last(), show_hidden, query);
        if entry_shown(s.last(), show_hidden, query) {
            rest.push(s.last())
        } else {
            rest
        }
    }
}

/// The rows of a pane: the shown entries ordered by the mode, reversed when
/// descending.
pub open spec fn listing_rows(
    s: Seq<FileEntry>,
    show_hidden: bool,
    query: Seq<char>,
    mode: SortMode,
    descending: bool,
) -> Seq<FileEntry> {
    let sorted = display_sorted(shown_entries(s, show_hidden, query), mode);
    if descending {
        sorted.reverse()
    } else {
        sorted
    }
}

fn is_shown(e: &FileEntry, show_hidden: bool, query: &str) -> (r: bool)
    ensures
        r == entry_shown(*e, show_hidden, query@),
{
    let visible = show_hidden || !starts_with_char(e.name.as_str(), '.');
    if !visible {
        return false;
    }
    if query.unicode_len() == 0 {
        return true;
    }
    let lower = to_lowercase(e.name.as_str());
    text_contains(lower.as_str(), query)
}

fn display_insertion(out: &Vec<FileEntry>, x: &FileEntry, mode: SortMode) -> (r: usize)
    ensures
        r <= out@.len(),
        r == display_position(out@, *x, mode),
{
    let ghost s = out@;
    let mut j: usize = 0;
    assert(s.subrange(0, s.len() as int) =~= s);
    while j < out.len() && !entry_precedes(x, &out[j], mode)
        invariant
            s == out@,
            j <= out@.len(),
            display_position(s, *x, mode) == j + display_position(s.subrange(j as int, s.len() as int), *x, mode),
        decreases out@.len() - j,
    {
        proof {
            let rest = s.subrange(j as int, s.len() as int);
            assert(rest.drop_first() =~= s.subrange(j + 1, s.len() as int));
            assert(rest[0] == s[j as int]);
        }
        j = j + 1;
    }
    proof {
        if j < s.len() {
            let rest = s.subrange(j as int, s.len() as int);
            assert(rest[0] == s[j as int]);
        }
    }
    j
}

/// The rows a pane shows for a loaded directory: hidden entries and entries
/// outside the (lower-case) query are dropped, the rest ordered by the mode,
/// reversed when descending.
pub fn visible_entries(
    loaded: Vec<FileEntry>,
    show_hidden: bool,
    query: &str,
    mode: SortMode,
    descending: bool,
) -> (r: Vec<FileEntry>)
    ensures
        r@ == listing_rows(loaded@, show_hidden, query@, mode, descending),
{
    let ghost original = loaded@;
    let mut pending = loaded;
    let mut shown: Vec<FileEntry> = Vec::new();
    let ghost mut taken: int = 0;
    while pending.len() > 0
        invariant
            0 <= taken <= original.len(),
            pending@ == original.subrange(taken, original.len() as int),
            shown@ == shown_entries(original.subrange(0, taken), show_hidden, query@),
        decreases pending@.len(),
    {
        let x = pending.remove(0);
        proof {
            let sub = original.subrange(0, taken + 1);
            assert(sub.drop_last() =~= original.subrange(0, taken));
            assert(x == original[taken]);
            assert(sub.last() == original[taken]);
        }
        if is_shown(&x, show_hidden, query) {
            shown.push(x);
        }
        proof {
            taken = taken + 1;
            assert(pending@ =~= original.subrange(taken, original.len() as int));
        }
    }
    proof {
        assert(original.subrange(0, taken) =~= original);
    }
    let ghost filtered = shown@;
    let mut sorted: Vec<FileEntry> = Vec::new();
    let ghost mut placed: int = 0;
    while shown.len() > 0
        invariant
            0 <= placed <= filtered.len(),
            shown@ == filtered.subrange(placed, filtered.len() as int),
            sorted@ == display_sorted(filtered.subrange(0, placed), mode),
        decreases shown@.len(),
    {
        let x = shown.remove(0);
        let p = display_insertion(&sorted, &x, mode);
        proof {
            let sub = filtered.subrange(0, placed + 1);
            assert(sub.drop_last() =~= filtered.subrange(0, placed));
            assert(x == filtered[placed]);
            assert(sub.last() == filtered[placed]);
        }
        sorted.insert(p, x);
        proof {
            placed = placed + 1;
            assert(shown@ =~= filtered.subrange(placed, filtered.len() as int));
        }
    }
    proof {
        assert(filtered.subrange(0, placed) =~= filtered);
    }
    if !descending {
        return sorted;
    }
    let ghost ordered = sorted@;
    let n = sorted.len();
    let mut reversed: Vec<FileEntry> = Vec::new();
    while sorted.len() > 0
        invariant
            n == ordered.len(),
            reversed@.len() <= n,
            sorted@ == ordered.subrange(0, n - reversed@.len()),
            forall|k: int| 0 <= k < reversed@.len() ==> reversed@[k] == ordered[n - 1 - k],
        decreases sorted@.len(),
    {
        let ghost before = reversed@;
        let ghost remaining = sorted@;
        let x = sorted.pop().unwrap();
        assert(x == ordered[n - 1 - before.len()]);
        reversed.push(x);
        proof {
            assert(sorted@ =~= ordered.subrange(0, n - reversed@.len()));
        }
    }
    proof {
        assert(reversed@.len() == n);
        if n > 0 {
            assert(reversed@ =~= ordered.reverse());
        } else {
            assert(reversed@ =~= ordered.reverse());
        }
    }
    reversed
}

/// Footer of a pane: item count, whether hidden entries are shown, whether a
/// filter applies, and the order.
pub open spec fn footer_text(count: nat, show_hidden: bool, filtered: bool, mode: SortMode, descending: bool) -> Seq<char> {
    decimal_text(count) + " items"@ + (if show_hidden { " • hidden shown"@ } else { ""@ }) + (if filtered {
        " • filtered"@
    } else {
        ""@
    }) + " • "@ + sort_mode_name(mode) + " "@ + (if descending { "descending"@ } else { "ascending"@ })
}

/// Builds the footer of a pane.
pub fn listing_footer(count: usize, show_hidden: bool, query: &str, mode: SortMode, descending: bool) -> (r: String)
    ensures
        r@ == footer_text(count as nat, show_hidden, query@.len() > 0, mode, descending),
{
    let mut out = decimal(count as u64);
    out.append(" items");
    if show_hidden {
        out.append(" • hidden shown");
    } else {
        out.append("");
    }
    if query.unicode_len() > 0 {
        out.append(" • filtered");
    } else {
        out.append("");
    }
    out.append(" • ");
    out.append(sort_mode_text(mode));
    out.append(" ");
    if descending {
        out.append("descending");
    } else {
        out.append("ascending");
    }
    out
}

proof fn lemma_display_position_bound(s: Seq<FileEntry>, x: FileEntry, mode: SortMode)
    ensures
        0 <= display_position(s, x, mode) <= s.len(),
    decreases s.len(),
{
    if s.len() > 0 {
        lemma_display_position_bound(s.drop_first(), x, mode);
    }
}

proof fn lemma_display_sorted_multiset(s: Seq<FileEntry>, mode: SortMode)
    ensures
        display_sorted(s, mode).to_multiset() == s.to_multiset(),
    decreases s.len(),
{
    if s.len() > 0 {
        let rest = display_sorted(s.drop_last(), mode);
        lemma_display_sorted_multiset(s.drop_last(), mode);
        lemma_display_position_bound(rest, s.last(), mode);
        vstd::seq_lib::to_multiset_insert(rest, display_position(rest, s.last(), mode), s.last());
        vstd::seq_lib::to_multiset_build(s.drop_last(), s.last());
        assert(s.drop_last().push(s.last()) =~= s);
    } else {
        assert(display_sorted(s, mode) =~= s);
    }
}

proof fn lemma_shown_entries_members(s: Seq<FileEntry>, show_hidden: bool, query: Seq<char>)
    ensures
        forall|k: int| 0 <= k < shown_entries(s, show_hidden, query).len() ==> entry_shown(
            #[trigger] shown_entries(s, show_hidden, query)[k],
            show_hidden,
            query,
        ) && s.contains(shown_entries(s, show_hidden, query)[k]),
    decreases s.len(),
{
    if s.len() > 0 {
        let init = s.drop_last();
        lemma_shown_entries_members(init, show_hidden, query);
        let rest = shown_entries(init, show_hidden, query);
        let r = shown_entries(s, show_hidden, query);
        assert forall|k: int| 0 <= k < r.len() implies entry_shown(#[trigger] r[k], show_hidden, query) && s.contains(r[k]) by {
            if k < rest.len() {
                assert(r[k] == rest[k]);
                let j = choose|j: int| 0 <= j < init.len() && init[j] == rest[k];
                assert(s[j] == init[j]);
            } else {
                assert(r[k] == s.last());
                assert(s[s.len() - 1] == s.last());
            }
        }
    }
}

/// A pane lists each entry it shows exactly as often as it was loaded, and
/// nothing else: its rows are the shown entries, in some order, and every
/// row is a loaded entry that passes the hidden-entry and query filters.
pub proof fn lemma_listing_shows_exactly_the_shown_entries(
    s: Seq<FileEntry>,
    show_hidden: bool,
    query: Seq<char>,
    mode: SortMode,
    descending: bool,
)
    ensures
        listing_rows(s, show_hidden, query, mode, descending).to_multiset() == shown_entries(
            s,
            show_hidden,
            query,
        ).to_multiset(),
        forall|k: int| 0 <= k < listing_rows(s, show_hidden, query, mode, descending).len() ==> entry_shown(
            #[trigger] listing_rows(s, show_hidden, query, mode, descending)[k],
            show_hidden,
            query,
        ) && s.contains(listing_rows(s, show_hidden, query, mode, descending)[k]),
{
    let shown = shown_entries(s, show_hidden, query);
    let sorted = display_sorted(shown, mode);
    lemma_display_sorted_multiset(shown, mode);
    sorted.lemma_reverse_to_multiset();
    lemma_shown_entries_members(s, show_hidden, query);
    let rows = listing_rows(s, show_hidden, query, mode, descending);
    assert(rows.to_multiset() == shown.to_multiset());
    assert forall|k: int| 0 <= k < rows.len() implies entry_shown(#[trigger] rows[k], show_hidden, query) && s.contains(rows[k]) by {
        vstd::seq_lib::to_multiset_contains(rows, rows[k]);
        assert(rows.contains(rows[k]));
        vstd::seq_lib::to_multiset_contains(shown, rows[k]);
        let j = choose|j: int| 0 <= j < shown.len() && shown[j] == rows[k];
        assert(entry_shown(shown[j], show_hidden, query) && s.contains(shown[j]));
    }
}

} // verus!
