//! Backend failure vocabulary shared by every filesystem backend.

use vstd::prelude::*;
use crate::domain::{BackendCapabilities, BackendId, BackendPath, FileEntry};
use crate::text::owned;

verus! {

/// Stable category for backend failures.
#[derive(Clone, Copy, Debug, PartialEq, Eq, Structural)]
pub enum ErrorKind {
    /// Caller supplied an invalid configuration or path.
    InvalidInput,
    /// Local or remote object was not found.
    NotFound,
    /// Operation was rejected by permissions or authentication.
    PermissionDenied,
    /// Network connection or transport failed.
    Transport,
    /// SSH/SFTP or another protocol-level operation failed.
    Protocol,
    /// Host identity validation failed.
    HostKey,
    /// Authentication failed.
    Authentication,
    /// Filesystem or stream I/O failed.
    Io,
}

/// Backend failure with operation and path context.
#[derive(Debug, PartialEq, Eq)]
pub struct BackendError {
    kind: ErrorKind,
    operation: &'static str,
    path: Option<BackendPath>,
    message: String,
}

impl BackendError {
    /// Category of the failure.
    pub closed spec fn spec_kind(&self) -> ErrorKind {
        self.kind
    }

    /// Failed operation.
    pub closed spec fn spec_operation(&self) -> Seq<char> {
        self.operation@
    }

    /// Affected path, if any.
    pub closed spec fn spec_path(&self) -> Option<Seq<char>> {
        match self.path {
            Some(p) => Some(p@),
            None => None,
        }
    }

    /// Diagnostic text.
    pub closed spec fn spec_message(&self) -> Seq<char> {
        self.message@
    }

    /// Creates a backend error without exposing protocol-specific error types.
    pub fn new(
        kind: ErrorKind,
        operation: &'static str,
        path: Option<BackendPath>,
        message: &str,
    ) -> (r: BackendError)
        ensures
            r.spec_kind() == kind,
            r.spec_operation() == operation@,
            r.spec_path() == (match path {
                Some(p) => Some(p@),
                None => None::<Seq<char>>,
            }),
            r.spec_message() == message@,
    {
        BackendError { kind, operation, path, message: owned(message) }
    }

    /// Returns the stable error category.
    pub fn kind(&self) -> (r: ErrorKind)
        ensures
            r == self.spec_kind(),
    {
        self.kind
    }

    /// Returns the operation that failed.
    pub fn operation(&self) -> (r: &'static str)
        ensures
            r@ == self.spec_operation(),
    {
        self.operation
    }

    /// Returns the affected path when one exists.
    pub fn path(&self) -> (r: Option<&BackendPath>)
        ensures
            r is Some <==> self.spec_path() is Some,
            r matches Some(p) ==> self.spec_path() == Some(p@),
    {
        match &self.path {
            Some(p) => Some(p),
            None => None,
        }
    }

    /// Returns the backend-provided diagnostic text.
    pub fn message(&self) -> (r: &str)
        ensures
            r@ == self.spec_message(),
    {
        self.message.as_str()
    }
}

impl Clone for BackendError {
    fn clone(&self) -> (r: Self)
        ensures
            r.spec_kind() == self.spec_kind(),
            r.spec_operation() == self.spec_operation(),
            r.spec_path() == self.spec_path(),
            r.spec_message() == self.spec_message(),
    {
        let path = match &self.path {
            Some(p) => Some(p.clone()),
            None => None,
        };
        BackendError { kind: self.kind, operation: self.operation, path, message: self.message.clone() }
    }
}

} // verus!

verus! {

/// Common file-like operations required by the browser and the transfer engine.
///
/// Implementations own protocol details; the engine branches only on advertised
/// capabilities. Streams are opened per path and moved in chunks: an empty
/// chunk from `read_chunk` marks the end of the stream.
pub trait Backend {
    /// Open read stream.
    type Reader;
    /// Open write stream.
    type Writer;

    /// Identifier the backend was configured with; it stays fixed for its lifetime.
    spec fn spec_id(&self) -> BackendId;

    /// Returns the configured backend identifier.
    fn id(&self) -> (r: &BackendId)
        ensures
            r@ == self.spec_id()@;

    /// Capabilities the backend advertises; they stay fixed for its lifetime.
    spec fn spec_capabilities(&self) -> BackendCapabilities;

    /// Returns optional capabilities implemented by this backend.
    fn capabilities(&self) -> (r: BackendCapabilities)
        ensures
            r == self.spec_capabilities();

    /// Lists one directory.
    fn list(&self, path: &BackendPath) -> Result<Vec<FileEntry>, BackendError>;

    /// Reads metadata for one path without following a symbolic link.
    fn stat(&self, path: &BackendPath) -> Result<FileEntry, BackendError>;

    /// Opens a file for sequential reading from byte zero.
    fn open_read(&self, path: &BackendPath) -> Result<Self::Reader, BackendError>;

    /// Opens a file for sequential writing, creating or truncating it.
    fn open_write(&self, path: &BackendPath) -> Result<Self::Writer, BackendError>;

    /// Reads the next chunk of an open stream; an empty chunk means end of stream.
    fn read_chunk(&self, reader: &mut Self::Reader) -> Result<Vec<u8>, String>;

    /// Writes a whole chunk to an open stream.
    fn write_all(&self, writer: &mut Self::Writer, bytes: &[u8]) -> Result<(), String>;

    /// Flushes buffered bytes of an open write stream.
    fn flush(&self, writer: &mut Self::Writer) -> Result<(), String>;

    /// Creates one directory. The parent must already exist.
    fn create_dir(&self, path: &BackendPath) -> Result<(), BackendError>;

    /// Renames or moves an entry within one backend.
    fn rename(&self, source: &BackendPath, destination: &BackendPath) -> Result<(), BackendError>;

    /// Removes one file, symbolic link, or empty directory.
    fn remove(&self, path: &BackendPath) -> Result<(), BackendError>;
}

/// What a metadata lookup says of a path: an entry means present, a not-found
/// failure means absent, and any other failure stays a failure.
pub open spec fn presence_of(answer: Result<FileEntry, BackendError>) -> Result<bool, BackendError> {
    match answer {
        Ok(_) => Ok(true),
        Err(e) => if e.spec_kind() == ErrorKind::NotFound {
            Ok(false)
        } else {
            Err(e)
        },
    }
}

/// Reads a metadata lookup as presence of the path.
pub fn presence(answer: Result<FileEntry, BackendError>) -> (r: Result<bool, BackendError>)
    ensures
        r == presence_of(answer),
{
    match answer {
        Ok(_) => Ok(true),
        Err(error) => {
            if error.kind() == ErrorKind::NotFound {
                Ok(false)
            } else {
                Err(error)
            }
        },
    }
}

/// What a remove answer says: the object was removed, it was already absent
/// (a not-found failure), or the removal failed.
pub open spec fn removal_of(answer: Result<(), BackendError>) -> Result<bool, BackendError> {
    match answer {
        Ok(()) => Ok(true),
        Err(e) => if e.spec_kind() == ErrorKind::NotFound {
            Ok(false)
        } else {
            Err(e)
        },
    }
}

/// Reads a remove answer as whether the object was removed.
pub fn removal(answer: Result<(), BackendError>) -> (r: Result<bool, BackendError>)
    ensures
        r == removal_of(answer),
{
    match answer {
        Ok(()) => Ok(true),
        Err(error) => {
            if error.kind() == ErrorKind::NotFound {
                Ok(false)
            } else {
                Err(error)
            }
        },
    }
}

} // verus!
