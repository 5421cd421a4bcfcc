//! Secret-storage contract: profiles hold references, secrets live in a store.

use vstd::prelude::*;
use crate::text::{concat2, owned, text_equals};

verus! {

/// Secret-store failure.
#[derive(Clone, Debug, PartialEq, Eq)]
pub enum SecretError {
    /// Native credential helper is unavailable.
    Unavailable(String),
    /// Native credential helper failed.
    Command(String),
    /// Stored secret could not be decoded as UTF-8.
    InvalidUtf8,
}

/// Text of a secret-store failure.
pub open spec fn secret_error_text(e: SecretError) -> Seq<char> {
    match e {
        SecretError::Unavailable(m) => "secret store unavailable: "@ + m@,
        SecretError::Command(m) => "secret store command failed: "@ + m@,
        SecretError::InvalidUtf8 => "secret store returned invalid UTF-8"@,
    }
}

impl SecretError {
    /// Describes the failure.
    pub fn describe(&self) -> (r: String)
        ensures
            r@ == secret_error_text(*self),
    {
        match self {
            SecretError::Unavailable(m) => concat2("secret store unavailable: ", m.as_str()),
            SecretError::Command(m) => concat2("secret store command failed: ", m.as_str()),
            SecretError::InvalidUtf8 => owned("secret store returned invalid UTF-8"),
        }
    }
}

/// Backend-neutral secret storage; platform stores implement it outside the library.
pub trait SecretStore {
    /// Stores or replaces one secret.
    fn set(&mut self, key: &str, secret: &str) -> Result<(), SecretError>;

    /// Retrieves one secret.
    fn get(&self, key: &str) -> Result<Option<String>, SecretError>;

    /// Deletes one secret when present.
    fn delete(&mut self, key: &str) -> Result<(), SecretError>;
}

/// One stored secret.
#[derive(Debug)]
pub struct SecretEntry {
    /// Lookup key.
    pub key: String,
    /// Secret value.
    pub value: String,
}

/// Value of the first entry stored under a key.
pub open spec fn secret_of(s: Seq<(Seq<char>, Seq<char>)>, key: Seq<char>) -> Option<Seq<char>>
    decreases s.len(),
{
    if s.len() == 0 {
        None
    } else if s[0].0 == key {
        Some(s[0].1)
    } else {
        secret_of(s.drop_first(), key)
    }
}

/// Index of the first entry stored under a key, or -1.
pub open spec fn secret_index(s: Seq<(Seq<char>, Seq<char>)>, key: Seq<char>) -> int
    decreases s.len(),
{
    if s.len() == 0 {
        -1
    } else if s[0].0 == key {
        0
    } else {
        let rest = secret_index(s.drop_first(), key);
        if rest < 0 { -1 } else { rest + 1 }
    }
}

/// Entries after storing a secret: the first entry of the key is replaced, or
/// a new entry is added.
pub open spec fn stored(s: Seq<(Seq<char>, Seq<char>)>, key: Seq<char>, value: Seq<char>) -> Seq<(Seq<char>, Seq<char>)> {
    let i = secret_index(s, key);
    if i >= 0 {
        s.update(i, (key, value))
    } else {
        s.push((key, value))
    }
}

/// Entries after deleting every secret of a key.
pub open spec fn deleted(s: Seq<(Seq<char>, Seq<char>)>, key: Seq<char>) -> Seq<(Seq<char>, Seq<char>)> {
    s.filter(|e: (Seq<char>, Seq<char>)| e.0 != key)
}

/// Deterministic in-memory store for tests and temporary sessions.
#[derive(Debug)]
pub struct MemorySecretStore {
    values: Vec<SecretEntry>,
}

/// Key and value texts of entries.
pub open spec fn entries_view(v: Seq<SecretEntry>) -> Seq<(Seq<char>, Seq<char>)> {
    v.map_values(|e: SecretEntry| (e.key@, e.value@))
}

impl Default for MemorySecretStore {
    fn default() -> (r: Self)
        ensures
            r.spec_entries().len() == 0,
    {
        MemorySecretStore { values: Vec::new() }
    }
}

impl MemorySecretStore {
    /// Stored key/value texts, oldest first.
    pub closed spec fn spec_entries(&self) -> Seq<(Seq<char>, Seq<char>)> {
        entries_view(self.values@)
    }

    fn find(&self, key: &str) -> (r: Option<usize>)
        ensures
            r is None ==> secret_index(self.spec_entries(), key@) == -1,
            r matches Some(i) ==> i < self.values@.len() && secret_index(self.spec_entries(), key@) == i,
    {
        let ghost s = self.spec_entries();
        let mut i: usize = 0;
        assert(s.subrange(0, s.len() as int) =~= s);
        while i < self.values.len()
            invariant
                s == self.spec_entries(),
                i <= self.values@.len(),
                secret_index(s, key@) == (if secret_index(s.subrange(i as int, s.len() as int), key@) < 0 {
                    -1
                } else {
                    secret_index(s.subrange(i as int, s.len() as int), key@) + i
                }),
            decreases self.values@.len() - i,
        {
            proof {
                let rest = s.subrange(i as int, s.len() as int);
                assert(rest.drop_first() =~= s.subrange(i + 1, s.len() as int));
                assert(rest[0] == s[i as int]);
            }
            if text_equals(self.values[i].key.as_str(), key) {
                return Some(i);
            }
            i = i + 1;
        }
        None
    }
}

/// The first-entry index and value agree.
pub proof fn lemma_secret_index(s: Seq<(Seq<char>, Seq<char>)>, key: Seq<char>)
    ensures
        secret_index(s, key) >= -1,
        secret_index(s, key) < s.len(),
        secret_index(s, key) == -1 ==> secret_of(s, key) is None,
        secret_index(s, key) >= 0 ==> s[secret_index(s, key)].0 == key && secret_of(s, key) == Some(
            s[secret_index(s, key)].1,
        ) && forall|j: int| 0 <= j < secret_index(s, key) ==> s[j].0 != key,
        secret_index(s, key) == -1 ==> forall|j: int| 0 <= j < s.len() ==> s[j].0 != key,
    decreases s.len(),
{
    if s.len() > 0 && s[0].0 != key {
        let rest = s.drop_first();
        lemma_secret_index(rest, key);
        assert forall|j: int| 0 < j < s.len() implies s[j] == rest[j - 1] by {}
    }
}

impl SecretStore for MemorySecretStore {
    fn set(&mut self, key: &str, secret: &str) -> (r: Result<(), SecretError>)
        ensures
            r is Ok,
            final(self).spec_entries() == stored(old(self).spec_entries(), key@, secret@),
    {
        let ghost s = self.spec_entries();
        match self.find(key) {
            Some(i) => {
                self.values.set(i, SecretEntry { key: owned(key), value: owned(secret) });
                assert(self.spec_entries() =~= s.update(i as int, (key@, secret@)));
            },
            None => {
                self.values.push(SecretEntry { key: owned(key), value: owned(secret) });
                assert(self.spec_entries() =~= s.push((key@, secret@)));
            },
        }
        Ok(())
    }

    fn get(&self, key: &str) -> (r: Result<Option<String>, SecretError>)
        ensures
            r is Ok,
            r matches Ok(o) ==> (match o {
                Some(v) => secret_of(self.spec_entries(), key@) == Some(v@),
                None => secret_of(self.spec_entries(), key@) is None,
            }),
    {
        proof {
            lemma_secret_index(self.spec_entries(), key@);
        }
        match self.find(key) {
            Some(i) => Ok(Some(self.values[i].value.clone())),
            None => Ok(None),
        }
    }

    fn delete(&mut self, key: &str) -> (r: Result<(), SecretError>)
        ensures
            r is Ok,
            final(self).spec_entries() == deleted(old(self).spec_entries(), key@),
    {
        let ghost s = self.spec_entries();
        let mut kept: Vec<SecretEntry> = Vec::new();
        let mut i: usize = 0;
        while i < self.values.len()
            invariant
                s == self.spec_entries(),
                i <= self.values@.len(),
                entries_view(kept@) == deleted(s.subrange(0, i as int), key@),
            decreases self.values@.len() - i,
        {
            let ghost prev = entries_view(kept@);
            if !text_equals(self.values[i].key.as_str(), key) {
                kept.push(
                    SecretEntry { key: self.values[i].key.clone(), value: self.values[i].value.clone() },
                );
            }
            proof {
                let sub = s.subrange(0, i + 1);
                assert(sub.drop_last() =~= s.subrange(0, i as int));
                assert(sub.last() == s[i as int]);
                reveal(Seq::filter);
                if s[i as int].0 != key@ {
                    assert(entries_view(kept@) =~= prev.push(s[i as int]));
                } else {
                    assert(entries_view(kept@) =~= prev);
                }
            }
            i = i + 1;
        }
        assert(s.subrange(0, self.values@.len() as int) =~= s);
        self.values = kept;
        Ok(())
    }
}

/// Reading a key right after storing it returns the stored secret; other keys
/// keep their secrets.
pub proof fn lemma_get_after_set(s: Seq<(Seq<char>, Seq<char>)>, key: Seq<char>, value: Seq<char>, other: Seq<char>)
    ensures
        secret_of(stored(s, key, value), key) == Some(value),
        other != key ==> secret_of(stored(s, key, value), other) == secret_of(s, other),
{
    lemma_secret_index(s, key);
    lemma_secret_index(s, other);
    let t = stored(s, key, value);
    let i = secret_index(s, key);
    lemma_secret_index(t, key);
    lemma_secret_index(t, other);
    let k = secret_index(t, key);
    if i >= 0 {
        assert(t[i].0 == key);
        assert(k == i) by {
            if k == -1 {
                assert(t[i].0 != key);
            } else if k < i {
                assert(t[k] == s[k]);
            } else if k > i {
                assert(t[i].0 != key);
            }
        }
    } else {
        assert(t[s.len() as int].0 == key);
        assert(k == s.len()) by {
            if k == -1 {
                assert(t[s.len() as int].0 != key);
            } else if k < s.len() {
                assert(t[k] == s[k]);
            }
        }
    }
    if other != key {
        let o = secret_index(s, other);
        let ot = secret_index(t, other);
        if o >= 0 {
            assert(t[o] == s[o]);
            assert(ot == o) by {
                if ot == -1 {
                    assert(t[o].0 != other);
                } else if ot < o {
                    assert(t[ot].0 == other);
                    if i >= 0 && ot == i {
                    } else {
                        assert(t[ot] == s[ot]);
                    }
                } else if ot > o {
                    assert(t[o].0 != other);
                }
            }
        } else {
            assert(ot == -1) by {
                if ot >= 0 {
                    if i >= 0 && ot == i {
                    } else if ot < s.len() {
                        assert(t[ot] == s[ot]);
                    }
                }
            }
        }
    }
}

/// No entry of a deleted key remains.
pub proof fn lemma_deleted_has_no_key(s: Seq<(Seq<char>, Seq<char>)>, key: Seq<char>)
    ensures
        forall|k: int| 0 <= k < deleted(s, key).len() ==> (#[trigger] deleted(s, key)[k]).0 != key,
    decreases s.len(),
{
    reveal(Seq::filter);
    if s.len() > 0 {
        lemma_deleted_has_no_key(s.drop_last(), key);
    }
}

/// After deleting a key, reading it finds nothing.
pub proof fn lemma_get_after_delete(s: Seq<(Seq<char>, Seq<char>)>, key: Seq<char>)
    ensures
        secret_of(deleted(s, key), key) is None,
{
    let r = deleted(s, key);
    lemma_deleted_has_no_key(s, key);
    lemma_secret_index(r, key);
    if secret_index(r, key) >= 0 {
        assert(r[secret_index(r, key)].0 != key);
    }
}

/// Trailing carriage returns and line feeds removed (how a helper's line of
/// output is read back).
pub open spec fn without_line_endings(s: Seq<char>) -> Seq<char>
    decreases s.len(),
{
    if s.len() > 0 && (s.last() == '\r' || s.last() == '\n') {
        without_line_endings(s.drop_last())
    } else {
        s
    }
}

/// Removes trailing carriage returns and line feeds.
pub fn trim_line_endings(s: &str) -> (r: &str)
    ensures
        r@ == without_line_endings(s@),
{
    let mut n = s.unicode_len();
    assert(s@.subrange(0, n as int) =~= s@);
    while n > 0 && (s.get_char(n - 1) == '\r' || s.get_char(n - 1) == '\n')
        invariant
            n <= s@.len(),
            without_line_endings(s@) == without_line_endings(s@.subrange(0, n as int)),
        decreases n,
    {
        proof {
            let t = s@.subrange(0, n as int);
            assert(t.drop_last() =~= s@.subrange(0, n - 1));
        }
        n = n - 1;
    }
    s.substring_char(0, n)
}

} // verus!
