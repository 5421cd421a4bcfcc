//! Server connection decisions: profile identifiers and search, the quick
//! connect form, host trust on first use, and the secrets a saved profile
//! refers to.

use vstd::prelude::*;
use crate::cli::{parse_unsigned, parsed_unsigned};
use crate::connection::PaneSftpAuth;
use crate::messages::{decimal, decimal_text};
use crate::profiles::{ProfileView, SavedAuthentication, SavedConnection, validation_error};
use crate::secrets::{SecretError, SecretStore, secret_error_text};
use crate::ssh::HostKeyCheck;
use crate::text::{
    concat2, concat3, is_blank, is_blank_seq, lowercase_text, opt_text, owned, seq_contains_seq, substring,
    text_contains, text_equals, text_starts_with, to_lowercase, trim, trimmed,
};

verus! {

/// Whether a character is an ASCII letter or digit.
pub open spec fn is_ascii_alphanumeric(c: char) -> bool {
    ('a' <= c && c <= 'z') || ('A' <= c && c <= 'Z') || ('0' <= c && c <= '9')
}

/// Character of a profile identifier: letters, digits and dashes stay, the
/// rest becomes a dash.
pub open spec fn slug_char(c: char) -> char {
    if is_ascii_alphanumeric(c) || c == '-' {
        c
    } else {
        '-'
    }
}

/// Identifier of a new profile: `name-username-host`, lower-cased, with every
/// character other than an ASCII letter, digit or dash turned into a dash.
pub open spec fn profile_id_text(name: Seq<char>, host: Seq<char>, username: Seq<char>) -> Seq<char> {
    lowercase_text(name + "-"@ + username + "-"@ + host).map_values(|c: char| slug_char(c))
}

/// Derives the identifier of a new profile.
pub fn profile_id(name: &str, host: &str, username: &str) -> (r: String)
    ensures
        r@ == profile_id_text(name@, host@, username@),
{
    let mut joined = concat3(name, "-", username);
    joined.append("-");
    joined.append(host);
    proof {
        reveal_strlit("-");
    }
    let lower = to_lowercase(joined.as_str());
    let text = lower.as_str();
    let n = text.unicode_len();
    let mut out = String::new();
    let mut i: usize = 0;
    while i < n
        invariant
            n == text@.len(),
            i <= n,
            out@ == text@.subrange(0, i as int).map_values(|c: char| slug_char(c)),
        decreases n - i,
    {
        let c = text.get_char(i);
        let ghost before = out@;
        if ('a' <= c && c <= 'z') || ('A' <= c && c <= 'Z') || ('0' <= c && c <= '9') || c == '-' {
            let piece = substring(text, i, i + 1);
            assert(piece@ =~= seq![c]);
            out.append(piece);
        } else {
            out.append("-");
            proof {
                reveal_strlit("-");
            }
            assert("-"@ =~= seq!['-']);
        }
        proof {
            assert(out@ =~= before.push(slug_char(c)));
            assert(text@.subrange(0, i + 1) =~= text@.subrange(0, i as int).push(c));
            assert(text@.subrange(0, i + 1).map_values(|c: char| slug_char(c)) =~= text@.subrange(
                0,
                i as int,
            ).map_values(|c: char| slug_char(c)).push(slug_char(c)));
        }
        i = i + 1;
    }
    assert(text@.subrange(0, n as int) =~= text@);
    out
}

/// Whether a saved profile matches a (lower-case) search query: by
/// lower-cased name, host or username.
pub open spec fn profile_matches_query(p: ProfileView, query: Seq<char>) -> bool {
    ||| seq_contains_seq(lowercase_text(p.name), query)
    ||| seq_contains_seq(lowercase_text(p.host), query)
    ||| seq_contains_seq(lowercase_text(p.username), query)
}

/// Tests a saved profile against a search query.
pub fn profile_matches(profile: &SavedConnection, query: &str) -> (r: bool)
    ensures
        r == profile_matches_query(profile@, query@),
{
    let name = to_lowercase(profile.name.as_str());
    if text_contains(name.as_str(), query) {
        return true;
    }
    let host = to_lowercase(profile.host.as_str());
    if text_contains(host.as_str(), query) {
        return true;
    }
    let username = to_lowercase(profile.username.as_str());
    text_contains(username.as_str(), query)
}

/// A path with a leading `~` resolved against the home directory: `~` alone
/// is the home directory and `~/rest` is `home/rest`; without a home
/// directory, or without a leading `~`, the path stays as it is.
pub open spec fn expanded_path(path: Seq<char>, home: Option<Seq<char>>) -> Seq<char> {
    if path == "~"@ {
        match home {
            Some(h) => h,
            None => path,
        }
    } else if path.len() >= 2 && path[0] == '~' && path[1] == '/' && home is Some {
        home.unwrap() + "/"@ + path.subrange(2, path.len() as int)
    } else {
        path
    }
}

/// Resolves a leading `~` in a path.
pub fn expand_home(path: &str, home: Option<&str>) -> (r: String)
    ensures
        r@ == expanded_path(path@, match home {
            Some(h) => Some(h@),
            None => None::<Seq<char>>,
        }),
{
    proof {
        reveal_strlit("~");
        reveal_strlit("~/");
        reveal_strlit("/");
    }
    if text_equals(path, "~") {
        return match home {
            Some(h) => owned(h),
            None => owned(path),
        };
    }
    match home {
        Some(h) => {
            let prefixed = text_starts_with(path, "~/");
            proof {
                let tilde_slash = seq!['~', '/'];
                assert("~/"@ =~= tilde_slash);
                if path@.len() >= 2 && path@[0] == '~' && path@[1] == '/' {
                    assert(path@.subrange(0, 2) =~= tilde_slash);
                }
                if prefixed {
                    assert(path@.subrange(0, 2)[0] == path@[0]);
                    assert(path@.subrange(0, 2)[1] == path@[1]);
                }
            }
            if prefixed {
                let n = path.unicode_len();
                let rest = substring(path, 2, n);
                concat3(h, "/", rest)
            } else {
                owned(path)
            }
        },
        None => owned(path),
    }
}

/// Port typed into a connection form: its value when it reads as a port
/// number, else the SSH default.
pub open spec fn form_port_value(text: Seq<char>) -> u16 {
    match parsed_unsigned(text, 0xffff) {
        Ok(v) => v as u16,
        Err(_) => 22,
    }
}

/// Reads the port field of a connection form.
pub fn form_port(text: &str) -> (r: u16)
    ensures
        r == form_port_value(text@),
{
    match parse_unsigned(text, 0xffff) {
        Ok(v) => v as u16,
        Err(_) => 22,
    }
}

/// Name a quick connection is saved under: the typed name, or the host when
/// the name is blank.
pub fn connection_name(display_name: &str, host: &str) -> (r: String)
    ensures
        r@ == (if is_blank_seq(display_name@) { host@ } else { display_name@ }),
{
    if is_blank(display_name) {
        owned(host)
    } else {
        owned(display_name)
    }
}

/// Authentication method picked in the quick connect form.
#[derive(Clone, Copy, Debug, PartialEq, Eq, Structural)]
pub enum AuthMethod {
    /// SSH agent.
    Agent,
    /// Password.
    Password,
    /// Private key file.
    PrivateKey,
}

/// A refusal shown to the user: a title and a message.
#[derive(Debug, PartialEq, Eq)]
pub struct Refusal {
    /// Dialog title.
    pub title: String,
    /// Dialog message.
    pub message: String,
}

/// Authentication from the quick connect form. A password must not be
/// empty; a private-key path must not be blank and has `~` resolved; an
/// empty passphrase means none.
pub fn quick_connect_auth(
    method: AuthMethod,
    password: &str,
    private_key: &str,
    passphrase: &str,
    home: Option<&str>,
) -> (r: Result<PaneSftpAuth, Refusal>)
    ensures
        method == AuthMethod::Agent ==> r == Ok::<PaneSftpAuth, Refusal>(PaneSftpAuth::Agent),
        method == AuthMethod::Password && password@.len() == 0 ==> (r matches Err(e) && e.title@
            == "Password required"@ && e.message@ == "Enter an SFTP password."@),
        method == AuthMethod::Password && password@.len() > 0 ==> (r matches Ok(PaneSftpAuth::Password(p))
            && p@ == password@),
        method == AuthMethod::PrivateKey && is_blank_seq(private_key@) ==> (r matches Err(e) && e.title@
            == "Private key required"@ && e.message@ == "Choose or enter a private-key path."@),
        method == AuthMethod::PrivateKey && !is_blank_seq(private_key@) ==> (r matches Ok(
            PaneSftpAuth::PrivateKey { private_key: k, passphrase: p },
        ) && k@ == expanded_path(private_key@, match home {
            Some(h) => Some(h@),
            None => None::<Seq<char>>,
        }) && opt_text(p) == (if passphrase@.len() == 0 { None } else { Some(passphrase@) })),
{
    match method {
        AuthMethod::Agent => Ok(PaneSftpAuth::Agent),
        AuthMethod::Password => {
            if password.unicode_len() == 0 {
                Err(Refusal { title: owned("Password required"), message: owned("Enter an SFTP password.") })
            } else {
                Ok(PaneSftpAuth::Password(owned(password)))
            }
        },
        AuthMethod::PrivateKey => {
            if is_blank(private_key) {
                return Err(
                    Refusal {
                        title: owned("Private key required"),
                        message: owned("Choose or enter a private-key path."),
                    },
                );
            }
            let passphrase = if passphrase.unicode_len() == 0 {
                None
            } else {
                Some(owned(passphrase))
            };
            Ok(PaneSftpAuth::PrivateKey { private_key: expand_home(private_key, home), passphrase })
        },
    }
}

/// What connecting does after the host key was checked against known_hosts.
#[derive(Debug, PartialEq, Eq)]
pub enum TrustStep {
    /// Connect, pinning the fingerprint when the host was trusted by the application.
    Connect(Option<String>),
    /// Refuse the connection.
    Refuse(Refusal),
    /// Ask whether to trust the presented key.
    Ask,
}

/// Decides how a connection proceeds: a known_hosts match connects; a changed
/// key or a failed check is refused; an unknown host connects when the
/// application already trusts exactly this fingerprint, and is asked about
/// otherwise.
pub fn host_trust_step(check: HostKeyCheck, fingerprint: &str, trusted: Option<&str>) -> (r: TrustStep)
    ensures
        check == HostKeyCheck::Match ==> r == TrustStep::Connect(None),
        check == HostKeyCheck::Mismatch ==> (r matches TrustStep::Refuse(e) && e.title@
            == "SSH host key changed"@ && e.message@
            == "The server key does not match OpenSSH known_hosts.\n\nPresented SHA-256 fingerprint:\n"@
            + fingerprint@),
        check == HostKeyCheck::Failure ==> (r matches TrustStep::Refuse(e) && e.title@
            == "SSH host verification failed"@ && e.message@ == "Fingerprint: "@ + fingerprint@),
        check == HostKeyCheck::NotFound ==> (match trusted {
            Some(t) => if t@ == fingerprint@ {
                r matches TrustStep::Connect(Some(f)) && f@ == fingerprint@
            } else {
                r == TrustStep::Ask
            },
            None => r == TrustStep::Ask,
        }),
{
    match check {
        HostKeyCheck::Match => TrustStep::Connect(None),
        HostKeyCheck::Mismatch => TrustStep::Refuse(
            Refusal {
                title: owned("SSH host key changed"),
                message: concat2(
                    "The server key does not match OpenSSH known_hosts.\n\nPresented SHA-256 fingerprint:\n",
                    fingerprint,
                ),
            },
        ),
        HostKeyCheck::Failure => TrustStep::Refuse(
            Refusal { title: owned("SSH host verification failed"), message: concat2("Fingerprint: ", fingerprint) },
        ),
        HostKeyCheck::NotFound => match trusted {
            Some(t) => if text_equals(t, fingerprint) {
                TrustStep::Connect(Some(owned(fingerprint)))
            } else {
                TrustStep::Ask
            },
            None => TrustStep::Ask,
        },
    }
}

/// Question asked about an unknown host.
pub fn unknown_host_message(host: &str, port: u16, fingerprint: &str) -> (r: String)
    ensures
        r@ == "The host is not in OpenSSH known_hosts.\n\n"@ + host@ + ":"@ + decimal_text(port as nat)
            + "\nSHA-256 fingerprint:\n"@ + fingerprint@ + "\n\nVerify this fingerprint before trusting it."@,
{
    let mut out = concat3("The host is not in OpenSSH known_hosts.\n\n", host, ":");
    out.append(decimal(port as u64).as_str());
    out.append("\nSHA-256 fingerprint:\n");
    out.append(fingerprint);
    out.append("\n\nVerify this fingerprint before trusting it.");
    out
}

/// Answer to an unknown-host question.
#[derive(Clone, Copy, Debug, PartialEq, Eq, Structural)]
pub enum TrustAnswer {
    /// Connect this time only.
    TrustOnce,
    /// Record the fingerprint, then connect.
    TrustAlways,
    /// Do not connect.
    Cancel,
}

/// Whether an answer connects, and whether it records the fingerprint first.
pub fn trust_answer_effect(answer: TrustAnswer) -> (r: (bool, bool))
    ensures
        r == (match answer {
            TrustAnswer::TrustOnce => (true, false),
            TrustAnswer::TrustAlways => (true, true),
            TrustAnswer::Cancel => (false, false),
        }),
{
    match answer {
        TrustAnswer::TrustOnce => (true, false),
        TrustAnswer::TrustAlways => (true, true),
        TrustAnswer::Cancel => (false, false),
    }
}

/// Key under which a saved profile's password is stored.
pub open spec fn password_key_text(id: Seq<char>) -> Seq<char> {
    "connection:"@ + id + ":password"@
}

/// Key under which a saved profile's key passphrase is stored.
pub open spec fn passphrase_key_text(id: Seq<char>) -> Seq<char> {
    "connection:"@ + id + ":key-passphrase"@
}

/// Authentication of a saved profile, given what the secret store answered
/// for the profile's secret key (when the profile has one).
pub fn auth_from_lookup(profile: &SavedConnection, lookup: Result<Option<String>, SecretError>) -> (r: Result<
    PaneSftpAuth,
    String,
>)
    ensures
        profile.authentication == SavedAuthentication::Agent ==> r == Ok::<PaneSftpAuth, String>(
            PaneSftpAuth::Agent,
        ),
        profile.authentication == SavedAuthentication::Password ==> (match profile@.secret_key {
            None => r matches Err(m) && m@ == "saved password reference is missing"@,
            Some(k) => match lookup {
                Err(e) => r matches Err(m) && m@ == secret_error_text(e),
                Ok(None) => r matches Err(m) && m@ == "password is missing from OS credential store: "@ + k,
                Ok(Some(v)) => r matches Ok(PaneSftpAuth::Password(p)) && p@ == v@,
            },
        }),
        profile.authentication == SavedAuthentication::PrivateKey ==> (match profile@.private_key {
            None => r matches Err(m) && m@ == "saved private-key path is missing"@,
            Some(path) => match profile@.secret_key {
                None => r matches Ok(PaneSftpAuth::PrivateKey { private_key: k, passphrase: p }) && k@
                    == path && p is None,
                Some(_) => match lookup {
                    Err(e) => r matches Err(m) && m@ == secret_error_text(e),
                    Ok(o) => r matches Ok(PaneSftpAuth::PrivateKey { private_key: k, passphrase: p }) && k@
                        == path && opt_text(p) == opt_text(o),
                },
            },
        }),
{
    match profile.authentication {
        SavedAuthentication::Agent => Ok(PaneSftpAuth::Agent),
        SavedAuthentication::Password => {
            let key = match &profile.secret_key {
                Some(k) => k,
                None => return Err(owned("saved password reference is missing")),
            };
            match lookup {
                Err(e) => Err(e.describe()),
                Ok(None) => Err(concat2("password is missing from OS credential store: ", key.as_str())),
                Ok(Some(v)) => Ok(PaneSftpAuth::Password(v)),
            }
        },
        SavedAuthentication::PrivateKey => {
            let private_key = match &profile.private_key {
                Some(k) => k.clone(),
                None => return Err(owned("saved private-key path is missing")),
            };
            let passphrase = match &profile.secret_key {
                None => None,
                Some(_) => match lookup {
                    Err(e) => return Err(e.describe()),
                    Ok(o) => o,
                },
            };
            Ok(PaneSftpAuth::PrivateKey { private_key, passphrase })
        },
    }
}

/// Authentication of a saved profile, looking its secret up in a store. What
/// the store answers decides between the outcomes `auth_from_lookup` lists;
/// profiles that need no lookup are decided here.
pub fn auth_from_profile<S: SecretStore>(profile: &SavedConnection, store: &S) -> (r: Result<PaneSftpAuth, String>)
    ensures
        profile.authentication == SavedAuthentication::Agent ==> r == Ok::<PaneSftpAuth, String>(
            PaneSftpAuth::Agent,
        ),
        profile.authentication == SavedAuthentication::Password && profile.secret_key is None ==> (r matches Err(
            m,
        ) && m@ == "saved password reference is missing"@),
        profile.authentication == SavedAuthentication::PrivateKey && profile.private_key is None ==> (r matches Err(
            m,
        ) && m@ == "saved private-key path is missing"@),
        profile.authentication == SavedAuthentication::PrivateKey && profile@.private_key is Some
            && profile.secret_key is None ==> (r matches Ok(
            PaneSftpAuth::PrivateKey { private_key: k, passphrase: p },
        ) && Some(k@) == profile@.private_key && p is None),
        r matches Ok(PaneSftpAuth::Password(_)) ==> profile.authentication == SavedAuthentication::Password,
        r matches Ok(PaneSftpAuth::PrivateKey { private_key: k, .. }) ==> profile.authentication
            == SavedAuthentication::PrivateKey && Some(k@) == profile@.private_key,
        r matches Ok(PaneSftpAuth::Agent) ==> profile.authentication == SavedAuthentication::Agent,
{
    let lookup = match &profile.secret_key {
        Some(key) => match profile.authentication {
            SavedAuthentication::Agent => Ok(None),
            SavedAuthentication::Password => store.get(key.as_str()),
            SavedAuthentication::PrivateKey => if profile.private_key.is_some() {
                store.get(key.as_str())
            } else {
                Ok(None)
            },
        },
        None => Ok(None),
    };
    auth_from_lookup(profile, lookup)
}

/// A password or passphrase to keep in the secret store: its key and value.
pub open spec fn secret_to_keep(id: Seq<char>, auth: PaneSftpAuth, save_secret: bool) -> Result<
    Option<(Seq<char>, Seq<char>)>,
    Seq<char>,
> {
    match auth {
        PaneSftpAuth::Agent => Ok(None),
        PaneSftpAuth::Password(p) => if !save_secret {
            Err(
                "Password connections can only be saved when the password is stored in the OS credential store."@,
            )
        } else {
            Ok(Some((password_key_text(id), p@)))
        },
        PaneSftpAuth::PrivateKey { passphrase: Some(p), .. } => if !save_secret {
            Err(
                "A passphrase-protected key can only be saved when its passphrase is stored in the OS credential store."@,
            )
        } else {
            Ok(Some((passphrase_key_text(id), p@)))
        },
        PaneSftpAuth::PrivateKey { passphrase: None, .. } => Ok(None),
    }
}

/// Decides which secret a saved connection keeps in the secret store; a
/// secret the user chose not to store makes the connection unsavable.
pub fn secret_for_profile(id: &str, auth: &PaneSftpAuth, save_secret: bool) -> (r: Result<
    Option<(String, String)>,
    String,
>)
    ensures
        match secret_to_keep(id@, *auth, save_secret) {
            Ok(None) => r matches Ok(None),
            Ok(Some((k, v))) => r matches Ok(Some((rk, rv))) && rk@ == k && rv@ == v,
            Err(m) => r matches Err(e) && e@ == m,
        },
{
    match auth {
        PaneSftpAuth::Agent => Ok(None),
        PaneSftpAuth::Password(p) => {
            if !save_secret {
                return Err(
                    owned(
                        "Password connections can only be saved when the password is stored in the OS credential store.",
                    ),
                );
            }
            Ok(Some((concat3("connection:", id, ":password"), p.clone())))
        },
        PaneSftpAuth::PrivateKey { passphrase, .. } => match passphrase {
            Some(p) => {
                if !save_secret {
                    return Err(
                        owned(
                            "A passphrase-protected key can only be saved when its passphrase is stored in the OS credential store.",
                        ),
                    );
                }
                Ok(Some((concat3("connection:", id, ":key-passphrase"), p.clone())))
            },
            None => Ok(None),
        },
    }
}

/// The profile a quick connection is saved as, once its secret (if any) is
/// stored under `secret_key`.
pub open spec fn saved_profile(
    id: Seq<char>,
    name: Seq<char>,
    host: Seq<char>,
    username: Seq<char>,
    port: u16,
    path: Seq<char>,
    auth: PaneSftpAuth,
    secret_key: Option<Seq<char>>,
) -> ProfileView {
    let base = ProfileView {
        id,
        name,
        host,
        username,
        port,
        initial_path: path,
        authentication: SavedAuthentication::Agent,
        secret_key: None,
        private_key: None,
    };
    match auth {
        PaneSftpAuth::Agent => base,
        PaneSftpAuth::Password(_) => ProfileView {
            authentication: SavedAuthentication::Password,
            secret_key,
            private_key: None,
            ..base
        },
        PaneSftpAuth::PrivateKey { private_key: k, .. } => ProfileView {
            authentication: SavedAuthentication::PrivateKey,
            private_key: Some(k@),
            secret_key,
            ..base
        },
    }
}

/// Builds the profile of a quick connection, storing its password or
/// passphrase first when there is one; the caller persists the profile.
pub fn profile_with_secret<S: SecretStore>(
    store: &mut S,
    id: &str,
    name: &str,
    host: &str,
    username: &str,
    port: u16,
    path: &str,
    auth: &PaneSftpAuth,
    save_secret: bool,
) -> (r: Result<SavedConnection, String>)
    ensures
        ({
            let base = ProfileView {
                id: id@,
                name: name@,
                host: host@,
                username: username@,
                port,
                initial_path: path@,
                authentication: SavedAuthentication::Agent,
                secret_key: None,
                private_key: None,
            };
            &&& validation_error(base) matches Some(m) ==> (r matches Err(e) && e@ == m)
            &&& validation_error(base) is None ==> (secret_to_keep(id@, *auth, save_secret) matches Err(m) ==> (r matches Err(e) && e@ == m))
            &&& r matches Ok(p) ==> validation_error(base) is None && validation_error(p@) is None
                && (secret_to_keep(id@, *auth, save_secret) matches Ok(kept) && p@ == saved_profile(
                id@,
                name@,
                host@,
                username@,
                port,
                path@,
                *auth,
                match kept {
                    Some((k, _)) => Some(k),
                    None => None,
                },
            ))
        }),
{
    let profile = match SavedConnection::new(id, name, host, username, port, path) {
        Ok(p) => p,
        Err(m) => return Err(m),
    };
    let kept = match secret_for_profile(id, auth, save_secret) {
        Ok(k) => k,
        Err(m) => return Err(m),
    };
    let secret_key = match kept {
        Some((key, value)) => {
            match store.set(key.as_str(), value.as_str()) {
                Ok(()) => {},
                Err(e) => return Err(e.describe()),
            }
            Some(key)
        },
        None => None,
    };
    let profile = match auth {
        PaneSftpAuth::Agent => profile,
        PaneSftpAuth::Password(_) => match &secret_key {
            Some(k) => profile.with_password_secret(k.as_str()),
            None => profile,
        },
        PaneSftpAuth::PrivateKey { private_key, .. } => profile.with_private_key(private_key.as_str(), secret_key),
    };
    match profile.validate() {
        Ok(()) => Ok(profile),
        Err(m) => Err(m),
    }
}

/// Outcome of deleting a removed profile's secret.
pub fn secret_cleanup_outcome(result: Result<(), SecretError>) -> (r: Result<(), String>)
    ensures
        match result {
            Ok(()) => r is Ok,
            Err(e) => r matches Err(m) && m@ == "connection removed, but credential cleanup failed: "@
                + secret_error_text(e),
        },
{
    match result {
        Ok(()) => Ok(()),
        Err(e) => {
            let text = e.describe();
            Err(concat2("connection removed, but credential cleanup failed: ", text.as_str()))
        },
    }
}

/// Deletes the secret a removed profile referred to; a profile without one
/// needs nothing.
pub fn forget_profile_secret<S: SecretStore>(profile: &SavedConnection, store: &mut S) -> (r: Result<(), String>)
    ensures
        profile.secret_key is None ==> r is Ok,
        r matches Err(m) ==> profile.secret_key is Some,
{
    match &profile.secret_key {
        None => Ok(()),
        Some(key) => secret_cleanup_outcome(store.delete(key.as_str())),
    }
}

} // verus!
