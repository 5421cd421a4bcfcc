//! What a browser pane is connected to: the local filesystem or an SFTP host.

use vstd::prelude::*;
use crate::domain::BackendId;
use crate::messages::{decimal, decimal_text};
use crate::text::{is_blank, is_blank_seq, owned, trim, trimmed};

verus! {

/// Authentication held only in the live pane connection.
#[derive(Clone, Debug, PartialEq, Eq)]
pub enum PaneSftpAuth {
    /// SSH agent.
    Agent,
    /// Password typed for this session.
    Password(String),
    /// Private key with optional passphrase.
    PrivateKey {
        /// Private key path.
        private_key: String,
        /// Optional passphrase.
        passphrase: Option<String>,
    },
}

/// A pane's connection.
#[derive(Debug, PartialEq, Eq)]
pub enum PaneConnection {
    /// The local filesystem.
    Local {
        /// Backend identifier.
        id: BackendId,
    },
    /// An SFTP host.
    Sftp {
        /// Backend identifier.
        id: BackendId,
        /// Host, without surrounding white space.
        host: String,
        /// Username, without surrounding white space.
        username: String,
        /// Port.
        port: u16,
        /// Authentication.
        auth: PaneSftpAuth,
        /// Host-key fingerprint already trusted.
        trusted_fingerprint: Option<String>,
    },
}

impl PaneConnection {
    /// Identifier text of the connection's backend.
    pub open spec fn spec_backend_id(&self) -> Seq<char> {
        match self {
            PaneConnection::Local { id } => id@,
            PaneConnection::Sftp { id, .. } => id@,
        }
    }

    /// A local connection; the identifier must not be blank.
    pub fn local(id: &str) -> (r: Result<PaneConnection, String>)
        ensures
            r is Ok <==> !is_blank_seq(id@),
            r matches Ok(c) ==> c is Local && c.spec_backend_id() == id@,
            r matches Err(m) ==> m@ == "backend id must not be blank"@,
    {
        match BackendId::new(id) {
            Ok(id) => Ok(PaneConnection::Local { id }),
            Err(e) => Err(owned(e.message())),
        }
    }

    /// An SFTP connection; host and username must not be blank and the port
    /// must be non-zero. Host and username are stored trimmed.
    pub fn sftp(
        id: &str,
        host: &str,
        username: &str,
        port: u16,
        auth: PaneSftpAuth,
        trusted_fingerprint: Option<String>,
    ) -> (r: Result<PaneConnection, String>)
        ensures
            is_blank_seq(host@) ==> (r matches Err(m) && m@ == "SFTP host must not be blank."@),
            !is_blank_seq(host@) && is_blank_seq(username@) ==> (r matches Err(m) && m@
                == "SFTP username must not be blank."@),
            !is_blank_seq(host@) && !is_blank_seq(username@) && port == 0 ==> (r matches Err(m) && m@
                == "SFTP port must be non-zero."@),
            r is Ok <==> (!is_blank_seq(host@) && !is_blank_seq(username@) && port != 0 && !is_blank_seq(id@)),
            r matches Ok(c) ==> (c matches PaneConnection::Sftp { id: i, host: h, username: u, port: p, .. }
                && i@ == id@ && h@ == trimmed(host@) && u@ == trimmed(username@) && p == port),
    {
        if is_blank(host) {
            return Err(owned("SFTP host must not be blank."));
        }
        if is_blank(username) {
            return Err(owned("SFTP username must not be blank."));
        }
        if port == 0 {
            return Err(owned("SFTP port must be non-zero."));
        }
        let id = match BackendId::new(id) {
            Ok(id) => id,
            Err(e) => return Err(owned(e.message())),
        };
        Ok(
            PaneConnection::Sftp {
                id,
                host: owned(trim(host)),
                username: owned(trim(username)),
                port,
                auth,
                trusted_fingerprint,
            },
        )
    }

    /// Returns the backend identifier.
    pub fn backend_id(&self) -> (r: BackendId)
        ensures
            r@ == self.spec_backend_id(),
    {
        match self {
            PaneConnection::Local { id } => id.clone(),
            PaneConnection::Sftp { id, .. } => id.clone(),
        }
    }

    /// Whether the pane shows the local filesystem.
    pub fn is_local(&self) -> (r: bool)
        ensures
            r == self is Local,
    {
        match self {
            PaneConnection::Local { .. } => true,
            PaneConnection::Sftp { .. } => false,
        }
    }

    /// Title of the connection: `Local`, or `{username}@{host}:{port}`.
    pub fn display_name(&self) -> (r: String)
        ensures
            self is Local ==> r@ == "Local"@,
            self matches PaneConnection::Sftp { host, username, port, .. } ==> r@ == username@ + "@"@
                + host@ + ":"@ + decimal_text(port as nat),
    {
        match self {
            PaneConnection::Local { .. } => owned("Local"),
            PaneConnection::Sftp { host, username, port, .. } => {
                let mut out = owned(username.as_str());
                out.append("@");
                out.append(host.as_str());
                out.append(":");
                let digits = decimal(*port as u64);
                out.append(digits.as_str());
                out
            },
        }
    }
}

} // verus!
