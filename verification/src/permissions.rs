//! POSIX permission modes as the inspector edits them: octal text, the nine
//! read/write/execute flags, and the special bits kept across edits.

use vstd::prelude::*;
use crate::messages::digit_char;
use crate::text::{concat2, owned, substring, text_starts_with, trim, trimmed};

verus! {

/// Largest POSIX mode, `7777` in octal.
pub const MAX_MODE: u32 = 4095;

/// Bit of the `i`-th permission flag, owner read first and other execute last.
pub open spec fn permission_bit(i: int) -> u32 {
    if i == 0 { 256 } else if i == 1 { 128 } else if i == 2 { 64 } else if i == 3 { 32 } else if i == 4 { 16 }
    else if i == 5 { 8 } else if i == 6 { 4 } else if i == 7 { 2 } else { 1 }
}

fn flag_bit(i: usize) -> (r: u32)
    requires
        i < 9,
    ensures
        r == permission_bit(i as int),
{
    if i == 0 { 256 } else if i == 1 { 128 } else if i == 2 { 64 } else if i == 3 { 32 } else if i == 4 { 16 }
    else if i == 5 { 8 } else if i == 6 { 4 } else if i == 7 { 2 } else { 1 }
}

/// The nine flags a mode sets, owner read first.
pub fn permission_flags(mode: u32) -> (r: Vec<bool>)
    ensures
        r@.len() == 9,
        forall|i: int| 0 <= i < 9 ==> r@[i] == (mode & permission_bit(i) != 0),
{
    let mut flags: Vec<bool> = Vec::new();
    let mut i: usize = 0;
    while i < 9
        invariant
            i <= 9,
            flags@.len() == i,
            forall|k: int| 0 <= k < i ==> flags@[k] == (mode & permission_bit(k) != 0),
        decreases 9 - i,
    {
        let bit = flag_bit(i);
        flags.push(mode & bit != 0);
        i = i + 1;
    }
    flags
}

/// Mode made of the bits whose flags are set, among the first `n` flags.
pub open spec fn flags_mode(flags: Seq<bool>, n: int) -> u32
    decreases n,
{
    if n <= 0 {
        0
    } else if flags[n - 1] {
        flags_mode(flags, n - 1) | permission_bit(n - 1)
    } else {
        flags_mode(flags, n - 1)
    }
}

/// Mode the nine flags select.
pub fn mode_from_flags(flags: &[bool]) -> (r: u32)
    requires
        flags@.len() == 9,
    ensures
        r == flags_mode(flags@, 9),
{
    let mut mode: u32 = 0;
    let mut i: usize = 0;
    while i < 9
        invariant
            flags@.len() == 9,
            i <= 9,
            mode == flags_mode(flags@, i as int),
        decreases 9 - i,
    {
        if flags[i] {
            mode = mode | flag_bit(i);
        }
        i = i + 1;
    }
    mode
}

/// Value of octal digits.
pub open spec fn octal_value(digits: Seq<char>) -> nat
    decreases digits.len(),
{
    if digits.len() == 0 {
        0
    } else {
        octal_value(digits.drop_last()) * 8 + (digits.last() as u32 - '0' as u32) as nat
    }
}

/// Whether every character is an octal digit.
pub open spec fn all_octal(digits: Seq<char>) -> bool {
    forall|i: int| 0 <= i < digits.len() ==> '0' <= #[trigger] digits[i] && digits[i] <= '7'
}

/// Digits of a mode field: the trimmed text without a leading `0o`.
pub open spec fn mode_digits(text: Seq<char>) -> Seq<char> {
    let t = trimmed(text);
    if t.len() >= 2 && t[0] == '0' && t[1] == 'o' {
        t.subrange(2, t.len() as int)
    } else {
        t
    }
}

/// A mode field read: one to four octal digits, optionally after `0o`.
pub open spec fn parsed_mode(text: Seq<char>) -> Result<nat, Seq<char>> {
    let d = mode_digits(text);
    if d.len() == 0 || d.len() > 4 || !all_octal(d) {
        Err("Enter an octal mode from 0000 through 7777."@)
    } else {
        Ok(octal_value(d))
    }
}

proof fn lemma_octal_value_bound(d: Seq<char>)
    requires
        all_octal(d),
    ensures
        octal_value(d) < vstd::arithmetic::power::pow(8, d.len()),
    decreases d.len(),
{
    reveal(vstd::arithmetic::power::pow);
    if d.len() > 0 {
        let p = d.drop_last();
        assert(all_octal(p)) by {
            assert forall|i: int| 0 <= i < p.len() implies '0' <= #[trigger] p[i] && p[i] <= '7' by {
                assert(p[i] == d[i]);
            }
        }
        lemma_octal_value_bound(p);
        assert(d[d.len() - 1] <= '7');
        let v = octal_value(p);
        let b = vstd::arithmetic::power::pow(8, p.len());
        assert(v * 8 + 7 < b * 8) by (nonlinear_arith)
            requires
                v < b,
        ;
    }
}

/// Reads a mode field.
pub fn parse_mode(text: &str) -> (r: Result<u32, String>)
    ensures
        match parsed_mode(text@) {
            Ok(v) => r matches Ok(m) && m == v,
            Err(e) => r matches Err(m) && m@ == e,
        },
{
    let t = trim(text);
    proof {
        reveal_strlit("0o");
    }
    let digits = if text_starts_with(t, "0o") {
        proof {
            assert(t@.subrange(0, 2)[0] == t@[0]);
            assert(t@.subrange(0, 2)[1] == t@[1]);
        }
        substring(t, 2, t.unicode_len())
    } else {
        proof {
            if t@.len() >= 2 && t@[0] == '0' && t@[1] == 'o' {
                assert(t@.subrange(0, 2) =~= "0o"@);
            }
        }
        t
    };
    assert(digits@ == mode_digits(text@));
    let n = digits.unicode_len();
    if n == 0 || n > 4 {
        return Err(owned("Enter an octal mode from 0000 through 7777."));
    }
    let mut value: u32 = 0;
    let mut i: usize = 0;
    proof {
        reveal(vstd::arithmetic::power::pow);
        assert(digits@.subrange(0, 0) =~= Seq::<char>::empty());
    }
    while i < n
        invariant
            digits@ == mode_digits(text@),
            n == digits@.len(),
            1 <= n <= 4,
            i <= n,
            all_octal(digits@.subrange(0, i as int)),
            value == octal_value(digits@.subrange(0, i as int)),
            value < vstd::arithmetic::power::pow(8, i as nat),
        decreases n - i,
    {
        let c = digits.get_char(i);
        let prefix = Ghost(digits@.subrange(0, i as int));
        let next = Ghost(digits@.subrange(0, i + 1));
        proof {
            assert(next@.drop_last() =~= prefix@);
            assert(next@.last() == c);
        }
        if !('0' <= c && c <= '7') {
            proof {
                assert(!all_octal(digits@));
            }
            return Err(owned("Enter an octal mode from 0000 through 7777."));
        }
        proof {
            assert(all_octal(next@)) by {
                assert forall|k: int| 0 <= k < next@.len() implies '0' <= #[trigger] next@[k] && next@[k] <= '7' by {
                    if k < i {
                        assert(next@[k] == prefix@[k]);
                    }
                }
            }
            reveal(vstd::arithmetic::power::pow);
            vstd::arithmetic::power::lemma_pow_increases(8, i as nat, 3);
            assert(vstd::arithmetic::power::pow(8, 3) == 512) by {
                reveal_with_fuel(vstd::arithmetic::power::pow, 4);
            }
            lemma_octal_value_bound(next@);
            assert(vstd::arithmetic::power::pow(8, (i + 1) as nat) == 8 * vstd::arithmetic::power::pow(8, i as nat));
        }
        value = value * 8 + (c as u32 - '0' as u32);
        i = i + 1;
    }
    proof {
        assert(digits@.subrange(0, n as int) =~= digits@);
    }
    Ok(value)
}

/// Octal digits of a number, without padding.
pub open spec fn octal_digits(n: nat) -> Seq<char>
    decreases n,
{
    if n < 8 {
        seq![digit_char(n)]
    } else {
        octal_digits(n / 8).push(digit_char(n % 8))
    }
}

/// `{mode:04o}`: octal digits padded with zeros to four places.
pub open spec fn mode_text(mode: u32) -> Seq<char> {
    let d = octal_digits(mode as nat);
    if d.len() >= 4 {
        d
    } else {
        Seq::new((4 - d.len()) as nat, |i: int| '0') + d
    }
}

fn octal_string(n: u32) -> (r: String)
    ensures
        r@ == octal_digits(n as nat),
    decreases n,
{
    let d = crate::messages::digit_text((n % 8) as u64);
    if n < 8 {
        owned(d)
    } else {
        let mut s = octal_string(n / 8);
        s.append(d);
        assert(seq![digit_char((n % 8) as nat)] =~= seq![].push(digit_char((n % 8) as nat)));
        s
    }
}

/// Formats a mode as four or more octal digits.
pub fn format_mode(mode: u32) -> (r: String)
    ensures
        r@ == mode_text(mode),
{
    let digits = octal_string(mode);
    let len = digits.as_str().unicode_len();
    if len >= 4 {
        return digits;
    }
    let mut out = String::new();
    let mut k: usize = 0;
    proof {
        reveal_strlit("0");
    }
    while k < 4 - len
        invariant
            len < 4,
            k <= 4 - len,
            out@ == Seq::new(k as nat, |i: int| '0'),
        decreases 4 - len - k,
    {
        out.append("0");
        proof {
            reveal_strlit("0");
            assert(out@ =~= Seq::new((k + 1) as nat, |i: int| '0'));
        }
        k = k + 1;
    }
    out.append(digits.as_str());
    out
}

/// Mode after a flag is toggled: the special bits (set-user-id, set-group-id,
/// sticky) of the mode field, when it reads, combined with the flags.
pub fn toggled_mode(field: &str, flags: &[bool]) -> (r: u32)
    requires
        flags@.len() == 9,
    ensures
        r == (match parsed_mode(field@) {
            Ok(m) => (m as u32) & 3584,
            Err(_) => 0u32,
        }) | flags_mode(flags@, 9),
{
    let special = match parse_mode(field) {
        Ok(m) => m & 3584,
        Err(_) => 0,
    };
    special | mode_from_flags(flags)
}

/// Status after a mode was read.
pub fn loaded_mode_status(mode: u32) -> (r: String)
    ensures
        r@ == "Loaded POSIX mode "@ + mode_text(mode) + "."@,
{
    let mut out = owned("Loaded POSIX mode ");
    out.append(format_mode(mode).as_str());
    out.append(".");
    out
}

/// Status after a mode was written and read back: the read-back mode when
/// there is one, else the requested mode and why it could not be checked.
pub fn applied_mode_status(requested: u32, verification: &Result<Option<u32>, String>) -> (r: String)
    ensures
        r@ == (match *verification {
            Ok(Some(applied)) => "Applied and verified POSIX mode "@ + mode_text(applied) + "."@,
            Ok(None) => "Applied POSIX mode "@ + mode_text(requested) + "; verification unavailable."@,
            Err(e) => "Applied POSIX mode "@ + mode_text(requested) + ", but verification failed: "@ + e@,
        }),
{
    match verification {
        Ok(Some(applied)) => {
            let mut out = owned("Applied and verified POSIX mode ");
            out.append(format_mode(*applied).as_str());
            out.append(".");
            out
        },
        Ok(None) => {
            let mut out = owned("Applied POSIX mode ");
            out.append(format_mode(requested).as_str());
            out.append("; verification unavailable.");
            out
        },
        Err(e) => {
            let mut out = owned("Applied POSIX mode ");
            out.append(format_mode(requested).as_str());
            out.append(", but verification failed: ");
            out.append(e.as_str());
            out
        },
    }
}

} // verus!
