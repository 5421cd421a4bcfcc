//! Parsing of command-line words for the command-line companion: values,
//! ports, argument cursors, and preference updates.

use vstd::prelude::*;
use crate::preferences::{AdvancedPreferences, AppPreferences, DoubleClickAction, ExistingItemAction, FilePreferences, TransferPreferences};
use crate::runtime::CopyConflictPolicy;
use crate::text::{concat2, owned, text_equals};

verus! {

/// Outcome of reading decimal digits left to right.
pub enum DigitsReading {
    /// Every character was a digit and the value fits.
    Value(nat),
    /// A character that is not a digit was met first.
    InvalidDigit,
    /// The value left the range first.
    Overflow,
}

/// Whether a character is an ASCII decimal digit.
pub open spec fn is_digit(c: char) -> bool {
    '0' <= c && c <= '9'
}

/// Value of an ASCII decimal digit.
pub open spec fn digit_value(c: char) -> nat {
    (c as u32 - '0' as u32) as nat
}

/// Reads digits left to right the way the standard integer parser does: the
/// next character must be a digit, then the running value is multiplied by
/// ten and the digit added (an overflow of either step stops the reading).
pub open spec fn read_digits(s: Seq<char>, maximum: nat) -> DigitsReading
    decreases s.len(),
{
    if s.len() == 0 {
        DigitsReading::Value(0)
    } else {
        match read_digits(s.drop_last(), maximum) {
            DigitsReading::Value(r) => if !is_digit(s.last()) {
                DigitsReading::InvalidDigit
            } else if r * 10 > maximum {
                DigitsReading::Overflow
            } else if r * 10 + digit_value(s.last()) > maximum {
                DigitsReading::Overflow
            } else {
                DigitsReading::Value(r * 10 + digit_value(s.last()))
            },
            other => other,
        }
    }
}

/// Unsigned decimal text to a number no larger than `maximum`: an optional
/// leading `+`, then digits; the messages are those of the standard parser.
pub open spec fn parsed_unsigned(s: Seq<char>, maximum: nat) -> Result<nat, Seq<char>> {
    if s.len() == 0 {
        Err("cannot parse integer from empty string"@)
    } else if (s[0] == '+' || s[0] == '-') && s.len() == 1 {
        Err("invalid digit found in string"@)
    } else {
        let digits = if s[0] == '+' { s.drop_first() } else { s };
        match read_digits(digits, maximum) {
            DigitsReading::Value(v) => Ok(v),
            DigitsReading::InvalidDigit => Err("invalid digit found in string"@),
            DigitsReading::Overflow => Err("number too large to fit in target type"@),
        }
    }
}

/// Parses unsigned decimal text no larger than `maximum`.
pub fn parse_unsigned(text: &str, maximum: u64) -> (r: Result<u64, String>)
    ensures
        match parsed_unsigned(text@, maximum as nat) {
            Ok(v) => r matches Ok(x) && x == v,
            Err(m) => r matches Err(e) && e@ == m,
        },
{
    let n = text.unicode_len();
    if n == 0 {
        return Err(owned("cannot parse integer from empty string"));
    }
    let first = text.get_char(0);
    if (first == '+' || first == '-') && n == 1 {
        return Err(owned("invalid digit found in string"));
    }
    let start: usize = if first == '+' { 1 } else { 0 };
    let ghost digits = if first == '+' { text@.drop_first() } else { text@ };
    assert(digits =~= text@.subrange(start as int, n as int));
    let mut value: u64 = 0;
    let mut i: usize = start;
    assert(digits.subrange(0, 0) =~= Seq::<char>::empty());
    while i < n
        invariant
            n == text@.len(),
            n > 0,
            !((text@[0] == '+' || text@[0] == '-') && n == 1),
            start == (if text@[0] == '+' { 1usize } else { 0usize }),
            digits == (if text@[0] == '+' { text@.drop_first() } else { text@ }),
            start <= i <= n,
            digits == text@.subrange(start as int, n as int),
            read_digits(digits.subrange(0, i - start), maximum as nat) == DigitsReading::Value(value as nat),
            value <= maximum,
        decreases n - i,
    {
        let c = text.get_char(i);
        let ghost prefix = digits.subrange(0, i - start);
        proof {
            let next = digits.subrange(0, i + 1 - start);
            assert(next.drop_last() =~= prefix);
            assert(next.last() == c);
        }
        if !('0' <= c && c <= '9') {
            proof {
                assert(read_digits(digits.subrange(0, i + 1 - start), maximum as nat) == DigitsReading::InvalidDigit);
                lemma_reading_stops(digits, (i + 1 - start) as int, maximum as nat);
            }
            return Err(owned("invalid digit found in string"));
        }
        if value > maximum / 10 {
            assert(value * 10 > maximum) by (nonlinear_arith)
                requires
                    value > maximum / 10,
            ;
            proof {
                assert(read_digits(digits.subrange(0, i + 1 - start), maximum as nat) == DigitsReading::Overflow);
                lemma_reading_stops(digits, (i + 1 - start) as int, maximum as nat);
            }
            return Err(owned("number too large to fit in target type"));
        }
        assert(value * 10 <= maximum) by (nonlinear_arith)
            requires
                value <= maximum / 10,
        ;
        let d = (c as u32 - '0' as u32) as u64;
        if d > maximum - value * 10 {
            proof {
                assert(read_digits(digits.subrange(0, i + 1 - start), maximum as nat) == DigitsReading::Overflow);
                lemma_reading_stops(digits, (i + 1 - start) as int, maximum as nat);
            }
            return Err(owned("number too large to fit in target type"));
        }
        value = value * 10 + d;
        i = i + 1;
    }
    assert(digits.subrange(0, n - start) =~= digits);
    Ok(value)
}

/// Once reading stops with an error at a prefix, the whole text reads the same error.
pub proof fn lemma_reading_stops(s: Seq<char>, k: int, maximum: nat)
    requires
        0 <= k <= s.len(),
        !(read_digits(s.subrange(0, k), maximum) is Value),
    ensures
        read_digits(s, maximum) == read_digits(s.subrange(0, k), maximum),
    decreases s.len() - k,
{
    if k < s.len() {
        let next = s.subrange(0, k + 1);
        assert(next.drop_last() =~= s.subrange(0, k));
        lemma_reading_stops(s, k + 1, maximum);
    } else {
        assert(s.subrange(0, k) =~= s);
    }
}

/// The port an optional word names: 22 when absent; zero is refused.
pub open spec fn port_outcome(value: Option<Seq<char>>) -> Result<u16, Seq<char>> {
    match value {
        None => Ok(22u16),
        Some(t) => match parsed_unsigned(t, 0xffff) {
            Ok(v) => if v == 0 { Err("port must be non-zero"@) } else { Ok(v as u16) },
            Err(m) => Err(m),
        },
    }
}

/// Parses an optional port word.
pub fn optional_port(value: Option<&str>) -> (r: Result<u16, String>)
    ensures
        match port_outcome(match value { Some(t) => Some(t@), None => None }) {
            Ok(p) => r == Ok::<u16, String>(p),
            Err(m) => r matches Err(e) && e@ == m,
        },
{
    let port = match value {
        None => 22u16,
        Some(text) => match parse_unsigned(text, 0xffff) {
            Ok(v) => v as u16,
            Err(e) => return Err(e),
        },
    };
    if port == 0 {
        return Err(owned("port must be non-zero"));
    }
    Ok(port)
}

/// Strict boolean words: `true|1|yes` and `false|0|no`.
pub open spec fn bool_word(value: Seq<char>) -> Option<bool> {
    if value == "true"@ || value == "1"@ || value == "yes"@ {
        Some(true)
    } else if value == "false"@ || value == "0"@ || value == "no"@ {
        Some(false)
    } else {
        None
    }
}

/// Parses a strict boolean word.
pub fn parse_bool(value: &str) -> (r: Result<bool, String>)
    ensures
        bool_word(value@) matches Some(b) ==> r == Ok::<bool, String>(b),
        bool_word(value@) is None ==> (r matches Err(e) && e@ == "expected boolean value, got "@ + value@),
{
    if text_equals(value, "true") || text_equals(value, "1") || text_equals(value, "yes") {
        Ok(true)
    } else if text_equals(value, "false") || text_equals(value, "0") || text_equals(value, "no") {
        Ok(false)
    } else {
        Err(concat2("expected boolean value, got ", value))
    }
}

/// Conflict-policy words: `fail|replace|skip|keep-both`.
pub open spec fn conflict_policy_word(value: Seq<char>) -> Option<CopyConflictPolicy> {
    if value == "fail"@ {
        Some(CopyConflictPolicy::Fail)
    } else if value == "replace"@ {
        Some(CopyConflictPolicy::Replace)
    } else if value == "skip"@ {
        Some(CopyConflictPolicy::Skip)
    } else if value == "keep-both"@ {
        Some(CopyConflictPolicy::KeepBoth)
    } else {
        None
    }
}

/// Parses a copy conflict-policy word.
pub fn parse_runtime_conflict_policy(value: &str) -> (r: Result<CopyConflictPolicy, String>)
    ensures
        conflict_policy_word(value@) matches Some(p) ==> r == Ok::<CopyConflictPolicy, String>(p),
        conflict_policy_word(value@) is None ==> (r matches Err(e) && e@ == "unsupported conflict policy: "@ + value@),
{
    if text_equals(value, "fail") {
        Ok(CopyConflictPolicy::Fail)
    } else if text_equals(value, "replace") {
        Ok(CopyConflictPolicy::Replace)
    } else if text_equals(value, "skip") {
        Ok(CopyConflictPolicy::Skip)
    } else if text_equals(value, "keep-both") {
        Ok(CopyConflictPolicy::KeepBoth)
    } else {
        Err(concat2("unsupported conflict policy: ", value))
    }
}

/// Existing-item words: `ask|replace|skip`.
pub open spec fn existing_item_word(value: Seq<char>) -> Option<ExistingItemAction> {
    if value == "ask"@ {
        Some(ExistingItemAction::Ask)
    } else if value == "replace"@ {
        Some(ExistingItemAction::Replace)
    } else if value == "skip"@ {
        Some(ExistingItemAction::Skip)
    } else {
        None
    }
}

/// Parses an existing-item word.
pub fn parse_existing_item_action(value: &str) -> (r: Result<ExistingItemAction, String>)
    ensures
        existing_item_word(value@) matches Some(a) ==> r == Ok::<ExistingItemAction, String>(a),
        existing_item_word(value@) is None ==> (r matches Err(e) && e@ == "expected ask|replace|skip, got "@ + value@),
{
    if text_equals(value, "ask") {
        Ok(ExistingItemAction::Ask)
    } else if text_equals(value, "replace") {
        Ok(ExistingItemAction::Replace)
    } else if text_equals(value, "skip") {
        Ok(ExistingItemAction::Skip)
    } else {
        Err(concat2("expected ask|replace|skip, got ", value))
    }
}

/// Double-click words: `open|transfer|inspect`.
pub open spec fn double_click_word(value: Seq<char>) -> Option<DoubleClickAction> {
    if value == "open"@ {
        Some(DoubleClickAction::Open)
    } else if value == "transfer"@ {
        Some(DoubleClickAction::Transfer)
    } else if value == "inspect"@ {
        Some(DoubleClickAction::Inspect)
    } else {
        None
    }
}

/// Parses a double-click word.
pub fn parse_double_click_action(value: &str) -> (r: Result<DoubleClickAction, String>)
    ensures
        double_click_word(value@) matches Some(a) ==> r == Ok::<DoubleClickAction, String>(a),
        double_click_word(value@) is None ==> (r matches Err(e) && e@ == "expected open|transfer|inspect, got "@ + value@),
{
    if text_equals(value, "open") {
        Ok(DoubleClickAction::Open)
    } else if text_equals(value, "transfer") {
        Ok(DoubleClickAction::Transfer)
    } else if text_equals(value, "inspect") {
        Ok(DoubleClickAction::Inspect)
    } else {
        Err(concat2("expected open|transfer|inspect, got ", value))
    }
}

/// Takes the next required argument, advancing the cursor.
pub fn next_arg(args: &[String], cursor: &mut usize, name: &'static str) -> (r: Result<String, String>)
    ensures
        *old(cursor) < args@.len() ==> (r matches Ok(a) && a@ == args@[*old(cursor) as int]@
            && *final(cursor) == *old(cursor) + 1),
        *old(cursor) >= args@.len() ==> (r matches Err(e) && e@ == "missing required argument: "@ + name@
            && *final(cursor) == *old(cursor)),
{
    if *cursor < args.len() {
        let a = args[*cursor].clone();
        *cursor = *cursor + 1;
        Ok(a)
    } else {
        Err(concat2("missing required argument: ", name))
    }
}

/// Takes the next argument when there is one, advancing the cursor.
pub fn next_optional(args: &[String], cursor: &mut usize) -> (r: Option<String>)
    ensures
        *old(cursor) < args@.len() ==> (r matches Some(a) && a@ == args@[*old(cursor) as int]@
            && *final(cursor) == *old(cursor) + 1),
        *old(cursor) >= args@.len() ==> r is None && *final(cursor) == *old(cursor),
{
    if *cursor < args.len() {
        let a = args[*cursor].clone();
        *cursor = *cursor + 1;
        Some(a)
    } else {
        None
    }
}

/// Fails when any argument is left after the cursor.
pub fn ensure_finished(args: &[String], cursor: usize) -> (r: Result<(), String>)
    ensures
        cursor >= args@.len() <==> r is Ok,
        cursor < args@.len() ==> (r matches Err(e) && e@ == "unexpected argument: "@ + args@[cursor as int]@),
{
    if cursor < args.len() {
        Err(concat2("unexpected argument: ", args[cursor].as_str()))
    } else {
        Ok(())
    }
}

/// The preferences after one `key value` update, or the failure message.
pub open spec fn preference_update(p: AppPreferences, key: Seq<char>, value: Seq<char>) -> Result<AppPreferences, Seq<char>> {
    let not_bool = "expected boolean value, got "@ + value;
    let not_action = "expected ask|replace|skip, got "@ + value;
    if key == "files.confirm-delete"@ {
        match bool_word(value) {
            Some(b) => Ok(AppPreferences { files: FilePreferences { confirm_delete: b, ..p.files }, ..p }),
            None => Err(not_bool),
        }
    } else if key == "files.double-click-action"@ {
        match double_click_word(value) {
            Some(a) => Ok(AppPreferences { files: FilePreferences { double_click_action: a, ..p.files }, ..p }),
            None => Err("expected open|transfer|inspect, got "@ + value),
        }
    } else if key == "transfers.downloading-files"@ {
        match existing_item_word(value) {
            Some(a) => Ok(AppPreferences { transfers: TransferPreferences { downloading_files: a, ..p.transfers }, ..p }),
            None => Err(not_action),
        }
    } else if key == "transfers.downloading-folders"@ {
        match existing_item_word(value) {
            Some(a) => Ok(AppPreferences { transfers: TransferPreferences { downloading_folders: a, ..p.transfers }, ..p }),
            None => Err(not_action),
        }
    } else if key == "transfers.uploading-files"@ {
        match existing_item_word(value) {
            Some(a) => Ok(AppPreferences { transfers: TransferPreferences { uploading_files: a, ..p.transfers }, ..p }),
            None => Err(not_action),
        }
    } else if key == "transfers.uploading-folders"@ {
        match existing_item_word(value) {
            Some(a) => Ok(AppPreferences { transfers: TransferPreferences { uploading_folders: a, ..p.transfers }, ..p }),
            None => Err(not_action),
        }
    } else if key == "transfers.simultaneous-transfers"@ {
        match parsed_unsigned(value, 255) {
            Ok(n) => if 1 <= n <= 20 {
                Ok(AppPreferences { transfers: TransferPreferences { simultaneous_transfers: n as u8, ..p.transfers }, ..p })
            } else {
                Err("simultaneous transfers must be in 1..=20"@)
            },
            Err(m) => Err(m),
        }
    } else if key == "transfers.keep-activity"@ {
        match bool_word(value) {
            Some(b) => Ok(AppPreferences { transfers: TransferPreferences { keep_activity: b, ..p.transfers }, ..p }),
            None => Err(not_bool),
        }
    } else if key == "advanced.keep-connections-alive"@ {
        match bool_word(value) {
            Some(b) => Ok(AppPreferences { advanced: AdvancedPreferences { keep_connections_alive: b, ..p.advanced }, ..p }),
            None => Err(not_bool),
        }
    } else if key == "advanced.verbose-logging"@ {
        match bool_word(value) {
            Some(b) => Ok(AppPreferences { advanced: AdvancedPreferences { verbose_logging: b, ..p.advanced }, ..p }),
            None => Err(not_bool),
        }
    } else {
        Err("unknown preference key: "@ + key)
    }
}

/// Applies one `key value` preference update; nothing changes on failure.
pub fn apply_preference(preferences: &mut AppPreferences, key: &str, value: &str) -> (r: Result<(), String>)
    ensures
        match preference_update(*old(preferences), key@, value@) {
            Ok(p) => r is Ok && *final(preferences) == p,
            Err(m) => (r matches Err(e) && e@ == m) && *final(preferences) == *old(preferences),
        },
{
    proof {
        reveal_strlit("files.confirm-delete");
        reveal_strlit("files.double-click-action");
        reveal_strlit("transfers.downloading-files");
        reveal_strlit("transfers.downloading-folders");
        reveal_strlit("transfers.uploading-files");
        reveal_strlit("transfers.uploading-folders");
        reveal_strlit("transfers.simultaneous-transfers");
        reveal_strlit("transfers.keep-activity");
        reveal_strlit("advanced.keep-connections-alive");
        reveal_strlit("advanced.verbose-logging");
    }
    if text_equals(key, "files.confirm-delete") {
        let b = match parse_bool(value) {
            Ok(b) => b,
            Err(e) => return Err(e),
        };
        preferences.files.confirm_delete = b;
    } else if text_equals(key, "files.double-click-action") {
        let a = match parse_double_click_action(value) {
            Ok(a) => a,
            Err(e) => return Err(e),
        };
        preferences.files.double_click_action = a;
    } else if text_equals(key, "transfers.downloading-files") {
        let a = match parse_existing_item_action(value) {
            Ok(a) => a,
            Err(e) => return Err(e),
        };
        preferences.transfers.downloading_files = a;
    } else if text_equals(key, "transfers.downloading-folders") {
        let a = match parse_existing_item_action(value) {
            Ok(a) => a,
            Err(e) => return Err(e),
        };
        preferences.transfers.downloading_folders = a;
    } else if text_equals(key, "transfers.uploading-files") {
        let a = match parse_existing_item_action(value) {
            Ok(a) => a,
            Err(e) => return Err(e),
        };
        preferences.transfers.uploading_files = a;
    } else if text_equals(key, "transfers.uploading-folders") {
        let a = match parse_existing_item_action(value) {
            Ok(a) => a,
            Err(e) => return Err(e),
        };
        preferences.transfers.uploading_folders = a;
    } else if text_equals(key, "transfers.simultaneous-transfers") {
        let count = match parse_unsigned(value, 255) {
            Ok(c) => c,
            Err(e) => return Err(e),
        };
        if count < 1 || count > 20 {
            return Err(owned("simultaneous transfers must be in 1..=20"));
        }
        preferences.transfers.simultaneous_transfers = count as u8;
    } else if text_equals(key, "transfers.keep-activity") {
        let b = match parse_bool(value) {
            Ok(b) => b,
            Err(e) => return Err(e),
        };
        preferences.transfers.keep_activity = b;
    } else if text_equals(key, "advanced.keep-connections-alive") {
        let b = match parse_bool(value) {
            Ok(b) => b,
            Err(e) => return Err(e),
        };
        preferences.advanced.keep_connections_alive = b;
    } else if text_equals(key, "advanced.verbose-logging") {
        let b = match parse_bool(value) {
            Ok(b) => b,
            Err(e) => return Err(e),
        };
        preferences.advanced.verbose_logging = b;
    } else {
        return Err(concat2("unknown preference key: ", key));
    }
    Ok(())
}

} // verus!
