//! SFTP backend configuration and the decisions an SFTP backend makes from
//! what the SSH library reports.

use vstd::prelude::*;
use std::time::Duration;
use crate::backend::{BackendError, ErrorKind};
use crate::domain::{BackendCapabilities, BackendId, CapabilitySupport, EntryKind, FileEntry};
use crate::paths::{lex_less, text_less};
use crate::ssh::{SshConfig, SshError, SshErrorKind};

verus! {

/// SFTP backend configuration: a backend identifier and SSH settings.
#[derive(Debug, PartialEq, Eq)]
pub struct SftpConfig {
    id: BackendId,
    ssh: SshConfig,
}

/// Backend category of an SSH failure.
pub open spec fn ssh_kind_to_backend(kind: SshErrorKind) -> ErrorKind {
    match kind {
        SshErrorKind::InvalidInput => ErrorKind::InvalidInput,
        SshErrorKind::Transport => ErrorKind::Transport,
        SshErrorKind::Protocol => ErrorKind::Protocol,
        SshErrorKind::HostKey => ErrorKind::HostKey,
        SshErrorKind::Authentication => ErrorKind::Authentication,
    }
}

/// Converts an SSH failure into a backend failure with the same category,
/// operation, and message.
pub fn map_ssh_error(error: &SshError) -> (r: BackendError)
    ensures
        r.spec_kind() == ssh_kind_to_backend(error.spec_kind()),
        r.spec_operation() == error.spec_operation(),
        r.spec_path() is None,
        r.spec_message() == error.spec_message(),
{
    let kind = match error.kind() {
        SshErrorKind::InvalidInput => ErrorKind::InvalidInput,
        SshErrorKind::Transport => ErrorKind::Transport,
        SshErrorKind::Protocol => ErrorKind::Protocol,
        SshErrorKind::HostKey => ErrorKind::HostKey,
        SshErrorKind::Authentication => ErrorKind::Authentication,
    };
    BackendError::new(kind, error.operation(), None, error.message())
}

impl SftpConfig {
    /// Backend identifier.
    pub closed spec fn spec_id(&self) -> Seq<char> {
        self.id@
    }

    /// SSH settings.
    pub closed spec fn spec_ssh(&self) -> SshConfig {
        self.ssh
    }

    /// Creates a configuration; host and username must not be blank and a home
    /// directory (the value of `HOME`) is needed for `known_hosts`.
    pub fn new(id: BackendId, host: &str, username: &str, home: Option<&str>) -> (r: Result<SftpConfig, BackendError>)
        ensures
            r is Ok <==> (!crate::text::is_blank_seq(host@) && !crate::text::is_blank_seq(username@)
                && home is Some),
            r matches Ok(c) ==> c.spec_id() == id@ && c.spec_ssh().spec_host() == host@
                && c.spec_ssh().spec_username() == username@ && c.spec_ssh().spec_port() == 22,
            r matches Err(e) ==> e.spec_kind() == ErrorKind::InvalidInput,
    {
        match SshConfig::new(host, username, home) {
            Ok(ssh) => Ok(SftpConfig { id, ssh }),
            Err(e) => Err(map_ssh_error(&e)),
        }
    }

    /// Overrides the port.
    pub fn with_port(self, port: u16) -> (r: SftpConfig)
        ensures
            r.spec_id() == self.spec_id(),
            r.spec_ssh().spec_port() == port,
            r.spec_ssh().spec_host() == self.spec_ssh().spec_host(),
            r.spec_ssh().spec_username() == self.spec_ssh().spec_username(),
            r.spec_ssh().spec_known_hosts_file() == self.spec_ssh().spec_known_hosts_file(),
    {
        SftpConfig { id: self.id, ssh: self.ssh.with_port(port) }
    }

    /// Overrides the `known_hosts` file.
    pub fn with_known_hosts_file(self, path: &str) -> (r: SftpConfig)
        ensures
            r.spec_id() == self.spec_id(),
            r.spec_ssh().spec_known_hosts_file() == path@,
            r.spec_ssh().spec_port() == self.spec_ssh().spec_port(),
            r.spec_ssh().spec_host() == self.spec_ssh().spec_host(),
    {
        SftpConfig { id: self.id, ssh: self.ssh.with_known_hosts_file(path) }
    }

    /// Overrides the timeout.
    pub fn with_timeout(self, timeout: Duration) -> (r: SftpConfig)
        ensures
            r.spec_id() == self.spec_id(),
            r.spec_ssh().spec_timeout() == timeout,
            r.spec_ssh().spec_port() == self.spec_ssh().spec_port(),
            r.spec_ssh().spec_host() == self.spec_ssh().spec_host(),
    {
        SftpConfig { id: self.id, ssh: self.ssh.with_timeout(timeout) }
    }

    /// Sets the keepalive interval.
    pub fn with_keepalive_interval(self, interval: Option<Duration>) -> (r: SftpConfig)
        ensures
            r.spec_id() == self.spec_id(),
            r.spec_ssh().spec_keepalive_interval() == interval,
            r.spec_ssh().spec_port() == self.spec_ssh().spec_port(),
            r.spec_ssh().spec_host() == self.spec_ssh().spec_host(),
    {
        SftpConfig { id: self.id, ssh: self.ssh.with_keepalive_interval(interval) }
    }

    /// Sets how many times a dropped connection may be redialed.
    pub fn with_max_redials(self, max_redials: u8) -> (r: SftpConfig)
        ensures
            r.spec_id() == self.spec_id(),
            r.spec_ssh().spec_max_redials() == max_redials,
            r.spec_ssh().spec_port() == self.spec_ssh().spec_port(),
            r.spec_ssh().spec_host() == self.spec_ssh().spec_host(),
    {
        SftpConfig { id: self.id, ssh: self.ssh.with_max_redials(max_redials) }
    }

    /// Pins the trusted host-key fingerprint.
    pub fn with_trusted_host_fingerprint(self, fingerprint: &str) -> (r: SftpConfig)
        ensures
            r.spec_id() == self.spec_id(),
            r.spec_ssh().spec_trusted_host_fingerprint() == Some(fingerprint@),
            r.spec_ssh().spec_port() == self.spec_ssh().spec_port(),
            r.spec_ssh().spec_host() == self.spec_ssh().spec_host(),
    {
        SftpConfig { id: self.id, ssh: self.ssh.with_trusted_host_fingerprint(fingerprint) }
    }

    /// Returns the backend identifier.
    pub fn id(&self) -> (r: &BackendId)
        ensures
            r@ == self.spec_id(),
    {
        &self.id
    }

    /// Returns the SSH settings.
    pub fn ssh(&self) -> (r: &SshConfig)
        ensures
            *r == self.spec_ssh(),
    {
        &self.ssh
    }

    /// Returns the host.
    pub fn host(&self) -> (r: &str)
        ensures
            r@ == self.spec_ssh().spec_host(),
    {
        self.ssh.host()
    }

    /// Returns the port.
    pub fn port(&self) -> (r: u16)
        ensures
            r == self.spec_ssh().spec_port(),
    {
        self.ssh.port()
    }

    /// Returns the username.
    pub fn username(&self) -> (r: &str)
        ensures
            r@ == self.spec_ssh().spec_username(),
    {
        self.ssh.username()
    }

    /// Returns the `known_hosts` file path.
    pub fn known_hosts_file(&self) -> (r: &str)
        ensures
            r@ == self.spec_ssh().spec_known_hosts_file(),
    {
        self.ssh.known_hosts_file()
    }
}

/// Backend category of an SFTP status code: 2 is "no such file", 3 is
/// "permission denied", anything else (or a session-level error) is a
/// protocol failure.
pub fn sftp_error_kind(sftp_status: Option<i32>) -> (r: ErrorKind)
    ensures
        sftp_status == Some(2i32) ==> r == ErrorKind::NotFound,
        sftp_status == Some(3i32) ==> r == ErrorKind::PermissionDenied,
        sftp_status != Some(2i32) && sftp_status != Some(3i32) ==> r == ErrorKind::Protocol,
{
    match sftp_status {
        Some(2) => ErrorKind::NotFound,
        Some(3) => ErrorKind::PermissionDenied,
        _ => ErrorKind::Protocol,
    }
}

/// Entry kind from file-type tests, checked in the order file, directory, link.
pub fn entry_kind_of(is_file: bool, is_dir: bool, is_symlink: bool) -> (r: EntryKind)
    ensures
        is_file ==> r == EntryKind::File,
        !is_file && is_dir ==> r == EntryKind::Directory,
        !is_file && !is_dir && is_symlink ==> r == EntryKind::Symlink,
        !is_file && !is_dir && !is_symlink ==> r == EntryKind::Other,
{
    if is_file {
        EntryKind::File
    } else if is_dir {
        EntryKind::Directory
    } else if is_symlink {
        EntryKind::Symlink
    } else {
        EntryKind::Other
    }
}

/// Capabilities of the file backends (local and SFTP): atomic rename and
/// POSIX permissions, no resumable writes or server checksums.
pub fn file_backend_capabilities() -> (r: BackendCapabilities)
    ensures
        r == (BackendCapabilities {
            resumable_write: CapabilitySupport::Unsupported,
            atomic_rename: CapabilitySupport::Supported,
            unix_permissions: CapabilitySupport::Supported,
            server_checksum: CapabilitySupport::Unsupported,
        }),
{
    BackendCapabilities {
        resumable_write: CapabilitySupport::Unsupported,
        atomic_rename: CapabilitySupport::Supported,
        unix_permissions: CapabilitySupport::Supported,
        server_checksum: CapabilitySupport::Unsupported,
    }
}

/// Where a stable sort by name places `x`: before the first entry whose name
/// it precedes.
pub open spec fn entry_position(s: Seq<FileEntry>, x: FileEntry) -> int
    decreases s.len(),
{
    if s.len() == 0 {
        0
    } else if lex_less(x.name@, s[0].name@) {
        0
    } else {
        1 + entry_position(s.drop_first(), x)
    }
}

/// Stable sort of entries by name.
pub open spec fn sorted_entries(s: Seq<FileEntry>) -> Seq<FileEntry>
    decreases s.len(),
{
    if s.len() == 0 {
        s
    } else {
        let rest = sorted_entries(s.drop_last());
        rest.insert(entry_position(rest, s.last()), s.last())
    }
}

fn find_entry_position(out: &Vec<FileEntry>, x: &FileEntry) -> (r: usize)
    ensures
        r <= out@.len(),
        r == entry_position(out@, *x),
{
    let ghost s = out@;
    let mut j: usize = 0;
    assert(s.subrange(0, s.len() as int) =~= s);
    while j < out.len() && !text_less(x.name.as_str(), out[j].name.as_str())
        invariant
            s == out@,
            j <= out@.len(),
            entry_position(s, *x) == j + entry_position(s.subrange(j as int, s.len() as int), *x),
        decreases out@.len() - j,
    {
        proof {
            let rest = s.subrange(j as int, s.len() as int);
            assert(rest.drop_first() =~= s.subrange(j + 1, s.len() as int));
            assert(rest[0] == s[j as int]);
        }
        j = j + 1;
    }
    proof {
        if j < s.len() {
            let rest = s.subrange(j as int, s.len() as int);
            assert(rest[0] == s[j as int]);
        }
    }
    j
}

/// Orders directory entries by name, keeping the listing order of equal names.
pub fn sort_entries_by_name(entries: Vec<FileEntry>) -> (r: Vec<FileEntry>)
    ensures
        r@ == sorted_entries(entries@),
{
    let ghost original = entries@;
    let mut pending = entries;
    let mut out: Vec<FileEntry> = Vec::new();
    let ghost mut taken: int = 0;
    while pending.len() > 0
        invariant
            0 <= taken <= original.len(),
            pending@ == original.subrange(taken, original.len() as int),
            out@ == sorted_entries(original.subrange(0, taken)),
        decreases pending@.len(),
    {
        let x = pending.remove(0);
        let p = find_entry_position(&out, &x);
        proof {
            let sub = original.subrange(0, taken + 1);
            assert(sub.drop_last() =~= original.subrange(0, taken));
            assert(x == original[taken]);
            assert(sub.last() == original[taken]);
        }
        out.insert(p, x);
        proof {
            taken = taken + 1;
            assert(pending@ =~= original.subrange(taken, original.len() as int));
        }
    }
    proof {
        assert(taken == original.len());
        assert(original.subrange(0, taken) =~= original);
    }
    out
}

} // verus!
