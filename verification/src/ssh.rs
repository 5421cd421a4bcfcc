//! SSH configuration, authentication choices, and the decisions the transport
//! makes from what the SSH library reports.

use vstd::prelude::*;
use std::time::Duration;
use crate::text::{clone_opt, concat2, is_blank, is_blank_seq, opt_text, owned};

verus! {

/// Default SSH port.
pub const DEFAULT_PORT: u16 = 22;

/// Session timeout used when the configured one does not fit in milliseconds.
pub const DEFAULT_TIMEOUT_MS: u32 = 30_000;

/// SSH failure category.
#[derive(Clone, Copy, Debug, PartialEq, Eq, Structural)]
pub enum SshErrorKind {
    /// Configuration is invalid.
    InvalidInput,
    /// TCP connection or socket setup failed.
    Transport,
    /// SSH protocol negotiation failed.
    Protocol,
    /// Host identity validation failed.
    HostKey,
    /// Authentication failed.
    Authentication,
}

/// SSH-layer failure with a stable category.
#[derive(Debug, PartialEq, Eq)]
pub struct SshError {
    kind: SshErrorKind,
    operation: &'static str,
    message: String,
}

impl SshError {
    /// Category.
    pub closed spec fn spec_kind(&self) -> SshErrorKind {
        self.kind
    }

    /// Failed operation.
    pub closed spec fn spec_operation(&self) -> Seq<char> {
        self.operation@
    }

    /// Diagnostic text.
    pub closed spec fn spec_message(&self) -> Seq<char> {
        self.message@
    }

    /// Creates an SSH error.
    pub fn new(kind: SshErrorKind, operation: &'static str, message: &str) -> (r: SshError)
        ensures
            r.spec_kind() == kind,
            r.spec_operation() == operation@,
            r.spec_message() == message@,
    {
        SshError { kind, operation, message: owned(message) }
    }

    /// Returns the failure category.
    pub fn kind(&self) -> (r: SshErrorKind)
        ensures
            r == self.spec_kind(),
    {
        self.kind
    }

    /// Returns the failed operation.
    pub fn operation(&self) -> (r: &'static str)
        ensures
            r@ == self.spec_operation(),
    {
        self.operation
    }

    /// Returns the diagnostic message.
    pub fn message(&self) -> (r: &str)
        ensures
            r@ == self.spec_message(),
    {
        self.message.as_str()
    }

    /// Describes the failure: `{operation} failed: {message}`.
    pub fn describe(&self) -> (r: String)
        ensures
            r@ == self.spec_operation() + " failed: "@ + self.spec_message(),
    {
        let mut out = owned(self.operation);
        out.append(" failed: ");
        out.append(self.message.as_str());
        out
    }
}

impl Clone for SshError {
    fn clone(&self) -> (r: Self)
        ensures
            r.spec_kind() == self.spec_kind(),
            r.spec_operation() == self.spec_operation(),
            r.spec_message() == self.spec_message(),
    {
        SshError { kind: self.kind, operation: self.operation, message: self.message.clone() }
    }
}

/// The duration of a number of whole seconds (what `Duration::from_secs` returns).
pub uninterp spec fn seconds_duration(seconds: u64) -> Duration;

/// `std::time::Duration::from_secs`: a duration of whole seconds, which
/// depends on the count alone; the result is named, not described.
#[verifier::external_body]
fn duration_from_secs(seconds: u64) -> (r: Duration)
    ensures
        r == seconds_duration(seconds),
{
    Duration::from_secs(seconds)
}

/// `known_hosts` below a home directory: `{home}/.ssh/known_hosts`.
pub open spec fn home_known_hosts(home: Seq<char>) -> Seq<char> {
    if home.len() == 0 {
        ".ssh/known_hosts"@
    } else if home.last() == '/' {
        home + ".ssh/known_hosts"@
    } else {
        home + "/"@ + ".ssh/known_hosts"@
    }
}

/// SSH connection settings. The secret material is never stored here.
#[derive(Debug, PartialEq, Eq)]
pub struct SshConfig {
    host: String,
    port: u16,
    username: String,
    known_hosts_file: String,
    timeout: Duration,
    keepalive_interval: Option<Duration>,
    max_redials: u8,
    trusted_host_fingerprint: Option<String>,
}

impl SshConfig {
    /// Host.
    pub closed spec fn spec_host(&self) -> Seq<char> {
        self.host@
    }

    /// Port.
    pub closed spec fn spec_port(&self) -> u16 {
        self.port
    }

    /// Username.
    pub closed spec fn spec_username(&self) -> Seq<char> {
        self.username@
    }

    /// `known_hosts` file path.
    pub closed spec fn spec_known_hosts_file(&self) -> Seq<char> {
        self.known_hosts_file@
    }

    /// Timeout.
    pub closed spec fn spec_timeout(&self) -> Duration {
        self.timeout
    }

    /// Keepalive interval.
    pub closed spec fn spec_keepalive_interval(&self) -> Option<Duration> {
        self.keepalive_interval
    }

    /// Reconnection attempts allowed.
    pub closed spec fn spec_max_redials(&self) -> u8 {
        self.max_redials
    }

    /// Pinned host-key fingerprint.
    pub closed spec fn spec_trusted_host_fingerprint(&self) -> Option<Seq<char>> {
        opt_text(self.trusted_host_fingerprint)
    }

    /// Creates settings on the default port with `known_hosts` under the given
    /// home directory (the value of `HOME`). Host and username must not be
    /// blank, and a home directory is required.
    pub fn new(host: &str, username: &str, home: Option<&str>) -> (r: Result<SshConfig, SshError>)
        ensures
            is_blank_seq(host@) ==> (r matches Err(e) && e.spec_kind() == SshErrorKind::InvalidInput
                && e.spec_operation() == "configure SSH"@ && e.spec_message() == "host must not be blank"@),
            !is_blank_seq(host@) && is_blank_seq(username@) ==> (r matches Err(e) && e.spec_kind()
                == SshErrorKind::InvalidInput && e.spec_operation() == "configure SSH"@ && e.spec_message()
                == "username must not be blank"@),
            !is_blank_seq(host@) && !is_blank_seq(username@) && home is None ==> (r matches Err(e)
                && e.spec_kind() == SshErrorKind::InvalidInput && e.spec_operation() == "resolve known_hosts"@
                && e.spec_message() == "HOME is not set"@),
            r is Ok <==> (!is_blank_seq(host@) && !is_blank_seq(username@) && home is Some),
            r matches Ok(c) ==> c.spec_host() == host@ && c.spec_username() == username@ && c.spec_port()
                == DEFAULT_PORT && c.spec_timeout() == seconds_duration(30) && c.spec_max_redials() == 0 && c.spec_keepalive_interval() is None
                && c.spec_trusted_host_fingerprint() is None,
            r matches Ok(c) ==> (home matches Some(h) && c.spec_known_hosts_file() == home_known_hosts(h@)),
    {
        if is_blank(host) {
            return Err(SshError::new(SshErrorKind::InvalidInput, "configure SSH", "host must not be blank"));
        }
        if is_blank(username) {
            return Err(SshError::new(SshErrorKind::InvalidInput, "configure SSH", "username must not be blank"));
        }
        let home = match home {
            Some(h) => h,
            None => {
                return Err(SshError::new(SshErrorKind::InvalidInput, "resolve known_hosts", "HOME is not set"));
            },
        };
        proof {
            reveal_strlit("/");
            reveal_strlit(".ssh/known_hosts");
        }
        let known_hosts_file = if home.unicode_len() == 0 {
            owned(".ssh/known_hosts")
        } else if crate::text::ends_with_char(home, '/') {
            concat2(home, ".ssh/known_hosts")
        } else {
            crate::text::concat3(home, "/", ".ssh/known_hosts")
        };
        Ok(
            SshConfig {
                host: owned(host),
                port: DEFAULT_PORT,
                username: owned(username),
                known_hosts_file,
                timeout: duration_from_secs(30),
                keepalive_interval: None,
                max_redials: 0,
                trusted_host_fingerprint: None,
            },
        )
    }

    /// Overrides the port.
    pub fn with_port(self, port: u16) -> (r: SshConfig)
        ensures
            r.spec_port() == port,
            r.spec_host() == self.spec_host(),
            r.spec_username() == self.spec_username(),
            r.spec_known_hosts_file() == self.spec_known_hosts_file(),
            r.spec_timeout() == self.spec_timeout(),
            r.spec_keepalive_interval() == self.spec_keepalive_interval(),
            r.spec_max_redials() == self.spec_max_redials(),
            r.spec_trusted_host_fingerprint() == self.spec_trusted_host_fingerprint(),
    {
        let mut c = self;
        c.port = port;
        c
    }

    /// Overrides the `known_hosts` file.
    pub fn with_known_hosts_file(self, path: &str) -> (r: SshConfig)
        ensures
            r.spec_known_hosts_file() == path@,
            r.spec_port() == self.spec_port(),
            r.spec_host() == self.spec_host(),
            r.spec_username() == self.spec_username(),
            r.spec_timeout() == self.spec_timeout(),
            r.spec_keepalive_interval() == self.spec_keepalive_interval(),
            r.spec_max_redials() == self.spec_max_redials(),
            r.spec_trusted_host_fingerprint() == self.spec_trusted_host_fingerprint(),
    {
        let mut c = self;
        c.known_hosts_file = owned(path);
        c
    }

    /// Overrides the timeout.
    pub fn with_timeout(self, timeout: Duration) -> (r: SshConfig)
        ensures
            r.spec_timeout() == timeout,
            r.spec_port() == self.spec_port(),
            r.spec_host() == self.spec_host(),
            r.spec_username() == self.spec_username(),
            r.spec_known_hosts_file() == self.spec_known_hosts_file(),
            r.spec_keepalive_interval() == self.spec_keepalive_interval(),
            r.spec_max_redials() == self.spec_max_redials(),
            r.spec_trusted_host_fingerprint() == self.spec_trusted_host_fingerprint(),
    {
        let mut c = self;
        c.timeout = timeout;
        c
    }

    /// Sets the keepalive interval (`None` disables keepalive).
    pub fn with_keepalive_interval(self, interval: Option<Duration>) -> (r: SshConfig)
        ensures
            r.spec_keepalive_interval() == interval,
            r.spec_port() == self.spec_port(),
            r.spec_host() == self.spec_host(),
            r.spec_username() == self.spec_username(),
            r.spec_known_hosts_file() == self.spec_known_hosts_file(),
            r.spec_timeout() == self.spec_timeout(),
            r.spec_max_redials() == self.spec_max_redials(),
            r.spec_trusted_host_fingerprint() == self.spec_trusted_host_fingerprint(),
    {
        let mut c = self;
        c.keepalive_interval = interval;
        c
    }

    /// Sets how many times a dropped connection may be redialed.
    pub fn with_max_redials(self, max_redials: u8) -> (r: SshConfig)
        ensures
            r.spec_max_redials() == max_redials,
            r.spec_port() == self.spec_port(),
            r.spec_host() == self.spec_host(),
            r.spec_username() == self.spec_username(),
            r.spec_known_hosts_file() == self.spec_known_hosts_file(),
            r.spec_timeout() == self.spec_timeout(),
            r.spec_keepalive_interval() == self.spec_keepalive_interval(),
            r.spec_trusted_host_fingerprint() == self.spec_trusted_host_fingerprint(),
    {
        let mut c = self;
        c.max_redials = max_redials;
        c
    }

    /// Pins the host-key fingerprint the application already trusts.
    pub fn with_trusted_host_fingerprint(self, fingerprint: &str) -> (r: SshConfig)
        ensures
            r.spec_trusted_host_fingerprint() == Some(fingerprint@),
            r.spec_port() == self.spec_port(),
            r.spec_host() == self.spec_host(),
            r.spec_username() == self.spec_username(),
            r.spec_known_hosts_file() == self.spec_known_hosts_file(),
            r.spec_timeout() == self.spec_timeout(),
            r.spec_keepalive_interval() == self.spec_keepalive_interval(),
            r.spec_max_redials() == self.spec_max_redials(),
    {
        let mut c = self;
        c.trusted_host_fingerprint = Some(owned(fingerprint));
        c
    }

    /// Returns the host.
    pub fn host(&self) -> (r: &str)
        ensures
            r@ == self.spec_host(),
    {
        self.host.as_str()
    }

    /// Returns the port.
    pub fn port(&self) -> (r: u16)
        ensures
            r == self.spec_port(),
    {
        self.port
    }

    /// Returns the username.
    pub fn username(&self) -> (r: &str)
        ensures
            r@ == self.spec_username(),
    {
        self.username.as_str()
    }

    /// Returns the `known_hosts` file path.
    pub fn known_hosts_file(&self) -> (r: &str)
        ensures
            r@ == self.spec_known_hosts_file(),
    {
        self.known_hosts_file.as_str()
    }

    /// Returns the timeout.
    pub fn timeout(&self) -> (r: Duration)
        ensures
            r == self.spec_timeout(),
    {
        self.timeout
    }

    /// Returns the keepalive interval.
    pub fn keepalive_interval(&self) -> (r: Option<Duration>)
        ensures
            r == self.spec_keepalive_interval(),
    {
        self.keepalive_interval
    }

    /// Returns how many redials are allowed.
    pub fn max_redials(&self) -> (r: u8)
        ensures
            r == self.spec_max_redials(),
    {
        self.max_redials
    }

    /// Returns the pinned host-key fingerprint.
    pub fn trusted_host_fingerprint(&self) -> (r: Option<&str>)
        ensures
            r is Some <==> self.spec_trusted_host_fingerprint() is Some,
            r matches Some(f) ==> self.spec_trusted_host_fingerprint() == Some(f@),
    {
        match &self.trusted_host_fingerprint {
            Some(f) => Some(f.as_str()),
            None => None,
        }
    }
}

impl Clone for SshConfig {
    fn clone(&self) -> (r: Self)
        ensures
            r.spec_host() == self.spec_host(),
            r.spec_port() == self.spec_port(),
            r.spec_username() == self.spec_username(),
            r.spec_known_hosts_file() == self.spec_known_hosts_file(),
            r.spec_timeout() == self.spec_timeout(),
            r.spec_keepalive_interval() == self.spec_keepalive_interval(),
            r.spec_max_redials() == self.spec_max_redials(),
            r.spec_trusted_host_fingerprint() == self.spec_trusted_host_fingerprint(),
    {
        SshConfig {
            host: self.host.clone(),
            port: self.port,
            username: self.username.clone(),
            known_hosts_file: self.known_hosts_file.clone(),
            timeout: self.timeout,
            keepalive_interval: self.keepalive_interval,
            max_redials: self.max_redials,
            trusted_host_fingerprint: clone_opt(&self.trusted_host_fingerprint),
        }
    }
}

/// Private-key authentication material; the passphrase is held only in memory.
#[derive(Debug)]
pub struct PrivateKeyAuth {
    /// Private key file.
    pub private_key: String,
    /// Optional public key file.
    pub public_key: Option<String>,
    /// Optional passphrase.
    pub passphrase: Option<String>,
}

impl PrivateKeyAuth {
    /// Private-key authentication without public key or passphrase.
    pub fn new(private_key: &str) -> (r: PrivateKeyAuth)
        ensures
            r.private_key@ == private_key@,
            r.public_key is None,
            r.passphrase is None,
    {
        PrivateKeyAuth { private_key: owned(private_key), public_key: None, passphrase: None }
    }

    /// Adds the public key file.
    pub fn with_public_key(self, public_key: &str) -> (r: PrivateKeyAuth)
        ensures
            r.private_key@ == self.private_key@,
            opt_text(r.public_key) == Some(public_key@),
            opt_text(r.passphrase) == opt_text(self.passphrase),
    {
        let mut a = self;
        a.public_key = Some(owned(public_key));
        a
    }

    /// Adds the key passphrase.
    pub fn with_passphrase(self, passphrase: &str) -> (r: PrivateKeyAuth)
        ensures
            r.private_key@ == self.private_key@,
            opt_text(r.public_key) == opt_text(self.public_key),
            opt_text(r.passphrase) == Some(passphrase@),
    {
        let mut a = self;
        a.passphrase = Some(owned(passphrase));
        a
    }
}

/// Authentication choice.
#[derive(Debug)]
pub enum SshAuth {
    /// Authenticate through the SSH agent.
    Agent,
    /// Authenticate with a private key file.
    PrivateKey(Box<PrivateKeyAuth>),
}

/// What checking a host key against `known_hosts` reported.
#[derive(Clone, Copy, Debug, PartialEq, Eq, Structural)]
pub enum HostKeyCheck {
    /// The key matches the recorded one.
    Match,
    /// A different key is recorded for the host.
    Mismatch,
    /// The host is not recorded.
    NotFound,
    /// The check itself failed.
    Failure,
}

/// Only a matching recorded key is accepted.
pub fn host_key_verdict(check: HostKeyCheck) -> (r: Result<(), SshError>)
    ensures
        r is Ok <==> check == HostKeyCheck::Match,
        r matches Err(e) ==> e.spec_kind() == SshErrorKind::HostKey && e.spec_operation()
            == "verify SSH host key"@,
        check == HostKeyCheck::Mismatch ==> (r matches Err(e) && e.spec_message() == "host key does not match known_hosts"@),
        check == HostKeyCheck::NotFound ==> (r matches Err(e) && e.spec_message() == "host is not present in known_hosts"@),
        check == HostKeyCheck::Failure ==> (r matches Err(e) && e.spec_message() == "known_hosts verification failed"@),
{
    match check {
        HostKeyCheck::Match => Ok(()),
        HostKeyCheck::Mismatch => Err(
            SshError::new(SshErrorKind::HostKey, "verify SSH host key", "host key does not match known_hosts"),
        ),
        HostKeyCheck::NotFound => Err(
            SshError::new(SshErrorKind::HostKey, "verify SSH host key", "host is not present in known_hosts"),
        ),
        HostKeyCheck::Failure => Err(
            SshError::new(SshErrorKind::HostKey, "verify SSH host key", "known_hosts verification failed"),
        ),
    }
}

/// Authentication succeeds only when the library call succeeded and the
/// session then reports itself authenticated.
pub fn authentication_verdict(call: Result<(), String>, authenticated: bool) -> (r: Result<(), SshError>)
    ensures
        r is Ok <==> (call is Ok && authenticated),
        r matches Err(e) ==> e.spec_kind() == SshErrorKind::Authentication && e.spec_operation()
            == "SSH authentication"@,
        call matches Err(m) ==> (r matches Err(e) && e.spec_message() == m@),
        call is Ok && !authenticated ==> (r matches Err(e) && e.spec_message() == "server did not accept authentication"@),
{
    match call {
        Err(message) => Err(SshError::new(SshErrorKind::Authentication, "SSH authentication", message.as_str())),
        Ok(()) => {
            if authenticated {
                Ok(())
            } else {
                Err(
                    SshError::new(
                        SshErrorKind::Authentication,
                        "SSH authentication",
                        "server did not accept authentication",
                    ),
                )
            }
        },
    }
}

/// A connection needs a non-zero port.
pub fn check_connect_port(port: u16) -> (r: Result<(), SshError>)
    ensures
        r is Ok <==> port != 0,
        r matches Err(e) ==> e.spec_kind() == SshErrorKind::InvalidInput && e.spec_operation()
            == "configure SSH"@ && e.spec_message() == "port must be non-zero"@,
{
    if port == 0 {
        Err(SshError::new(SshErrorKind::InvalidInput, "configure SSH", "port must be non-zero"))
    } else {
        Ok(())
    }
}

/// Session timeout in milliseconds: the configured value when it fits in
/// `u32`, otherwise the default.
pub fn session_timeout_ms(timeout_ms: u128) -> (r: u32)
    ensures
        timeout_ms <= u32::MAX ==> r == timeout_ms,
        timeout_ms > u32::MAX ==> r == DEFAULT_TIMEOUT_MS,
{
    if timeout_ms <= 0xffff_ffff {
        timeout_ms as u32
    } else {
        DEFAULT_TIMEOUT_MS
    }
}

/// Transport failure of one socket operation.
pub fn io_error(operation: &'static str, message: &str) -> (r: SshError)
    ensures
        r.spec_kind() == SshErrorKind::Transport,
        r.spec_operation() == operation@,
        r.spec_message() == message@,
{
    SshError::new(SshErrorKind::Transport, operation, message)
}

} // verus!
