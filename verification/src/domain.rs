//! Backend-neutral domain model: identifiers, paths, entries and capabilities.

use vstd::prelude::*;
use crate::text::{is_blank, is_blank_seq, owned};

verus! {

/// Stable identifier for a configured backend instance; never blank.
#[derive(Debug, PartialEq, Eq, Hash)]
pub struct BackendId(String);

impl View for BackendId {
    type V = Seq<char>;

    open spec fn view(&self) -> Seq<char> {
        self.spec_text()
    }
}

impl BackendId {
    /// The identifier text.
    pub closed spec fn spec_text(&self) -> Seq<char> {
        self.0@
    }

    /// Creates an identifier after validating that it is not blank.
    pub fn new(value: &str) -> (r: Result<BackendId, CoreError>)
        ensures
            is_blank_seq(value@) <==> r is Err,
            r matches Err(e) ==> e == CoreError::InvalidBackendId,
            r matches Ok(id) ==> id@ == value@,
    {
        if is_blank(value) {
            return Err(CoreError::InvalidBackendId);
        }
        Ok(BackendId(owned(value)))
    }

    /// Returns the identifier as text.
    pub fn as_str(&self) -> (r: &str)
        ensures
            r@ == self@,
    {
        self.0.as_str()
    }

    /// Whether two identifiers hold the same text.
    pub fn same_as(&self, other: &BackendId) -> (r: bool)
        ensures
            r == (self@ == other@),
    {
        self.0 == other.0
    }
}

impl Clone for BackendId {
    fn clone(&self) -> (r: Self)
        ensures
            r@ == self@,
    {
        BackendId(self.0.clone())
    }
}

/// Path interpreted by a backend rather than the host operating system; never empty.
#[derive(Debug, PartialEq, Eq, Hash)]
pub struct BackendPath(String);

impl View for BackendPath {
    type V = Seq<char>;

    open spec fn view(&self) -> Seq<char> {
        self.spec_text()
    }
}

impl BackendPath {
    /// The path text.
    pub closed spec fn spec_text(&self) -> Seq<char> {
        self.0@
    }

    /// A backend path is never empty.
    #[verifier::type_invariant]
    spec fn nonempty(self) -> bool {
        self.0@.len() > 0
    }

    /// Creates a backend path; only the empty text is rejected.
    pub fn new(value: &str) -> (r: Result<BackendPath, CoreError>)
        ensures
            value@.len() == 0 <==> r is Err,
            r matches Err(e) ==> e == CoreError::EmptyPath,
            r matches Ok(p) ==> p@ == value@,
    {
        if value.unicode_len() == 0 {
            return Err(CoreError::EmptyPath);
        }
        Ok(BackendPath(owned(value)))
    }

    /// Creates a backend path from owned text.
    pub fn from_string(value: String) -> (r: Result<BackendPath, CoreError>)
        ensures
            value@.len() == 0 <==> r is Err,
            r matches Err(e) ==> e == CoreError::EmptyPath,
            r matches Ok(p) ==> p@ == value@,
    {
        if value.as_str().unicode_len() == 0 {
            return Err(CoreError::EmptyPath);
        }
        Ok(BackendPath(value))
    }

    /// Returns the path string exactly as stored.
    pub fn as_str(&self) -> (r: &str)
        ensures
            r@ == self@,
            r@.len() > 0,
    {
        proof {
            use_type_invariant(self);
        }
        self.0.as_str()
    }

    /// Whether two paths hold the same text.
    pub fn same_as(&self, other: &BackendPath) -> (r: bool)
        ensures
            r == (self@ == other@),
    {
        self.0 == other.0
    }
}

impl Clone for BackendPath {
    fn clone(&self) -> (r: Self)
        ensures
            r@ == self@,
    {
        proof {
            use_type_invariant(self);
        }
        BackendPath(self.0.clone())
    }
}

/// High-level kind of a file entry.
#[derive(Clone, Copy, Debug, PartialEq, Eq, Structural)]
pub enum EntryKind {
    /// Regular file.
    File,
    /// Directory/container.
    Directory,
    /// Symbolic link or backend equivalent.
    Symlink,
    /// Entry kind not representable by the common model.
    Other,
}

/// Backend-neutral directory entry.
#[derive(Debug, PartialEq, Eq)]
pub struct FileEntry {
    /// Full backend path.
    pub path: BackendPath,
    /// Display name.
    pub name: String,
    /// File kind.
    pub kind: EntryKind,
    /// Logical byte size when known.
    pub size: Option<u64>,
    /// Modification time in Unix seconds when known.
    pub modified: Option<u64>,
}

impl Clone for FileEntry {
    fn clone(&self) -> (r: Self)
        ensures
            r.path@ == self.path@,
            r.name@ == self.name@,
            r.kind == self.kind,
            r.size == self.size,
            r.modified == self.modified,
    {
        FileEntry {
            path: self.path.clone(),
            name: self.name.clone(),
            kind: self.kind,
            size: self.size,
            modified: self.modified,
        }
    }
}

/// Whether a backend offers one optional capability.
#[derive(Clone, Copy, Debug, PartialEq, Eq, Structural)]
pub enum CapabilitySupport {
    /// The capability is available.
    Supported,
    /// The capability is not available.
    Unsupported,
}

/// Capabilities used to adapt behavior without backend-specific branching.
#[derive(Clone, Copy, Debug, PartialEq, Eq, Structural)]
pub struct BackendCapabilities {
    /// Backend can seek/restart writes for resume.
    pub resumable_write: CapabilitySupport,
    /// Backend can atomically rename an object into place.
    pub atomic_rename: CapabilitySupport,
    /// Backend exposes POSIX-like permissions.
    pub unix_permissions: CapabilitySupport,
    /// Backend can provide a server-side checksum.
    pub server_checksum: CapabilitySupport,
}

/// Common core failures that are not protocol-specific.
#[derive(Clone, Copy, Debug, PartialEq, Eq, Structural)]
pub enum CoreError {
    /// Backend identifier contained no meaningful text.
    InvalidBackendId,
    /// Empty paths are rejected at the common boundary.
    EmptyPath,
}

impl CoreError {
    /// User-facing description of the failure.
    pub fn message(&self) -> (r: &'static str)
        ensures
            *self == CoreError::InvalidBackendId ==> r@ == "backend id must not be blank"@,
            *self == CoreError::EmptyPath ==> r@ == "backend path must not be empty"@,
    {
        match self {
            CoreError::InvalidBackendId => "backend id must not be blank",
            CoreError::EmptyPath => "backend path must not be empty",
        }
    }
}

} // verus!
