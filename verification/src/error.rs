//! The library's error type.

use vstd::prelude::*;

use crate::text::append_str;

verus! {

#[verifier::external_type_specification]
#[verifier::external_body]
pub struct ExIoError(std::io::Error);

/// Errors raised by parsing, configuration and file-system front ends.
#[derive(Debug)]
pub enum Error {
    Io(std::io::Error),
    Vfs(String),
    Config(String),
    InvalidPath(String),
    InvalidKey(String),
    Cancelled,
    /// A host whose fingerprint is not yet known; the caller confirms with
    /// the user before recording it.
    HostKeyUnknown { host_port: String, algorithm: String, fingerprint: String },
    NotSupported,
}

/// The message of an error, as it is shown to the user; an I/O error's own
/// text is the operating system's, so for it only the `io: ` head is fixed.
pub open spec fn error_text(e: Error) -> Option<Seq<char>> {
    match e {
        Error::Io(_) => None,
        Error::Vfs(m) => Some("vfs: "@ + m@),
        Error::Config(m) => Some("config: "@ + m@),
        Error::InvalidPath(m) => Some("invalid path: "@ + m@),
        Error::InvalidKey(m) => Some("invalid key: "@ + m@),
        Error::Cancelled => Some("operation cancelled"@),
        Error::HostKeyUnknown { host_port, algorithm, fingerprint } => Some(
            "ssh host key unknown for "@ + host_port@ + " ("@ + algorithm@ + " "@ + fingerprint@ + ")"@,
        ),
        Error::NotSupported => Some("not supported"@),
    }
}

/// The text of an I/O error, through its `Display`. It comes from the
/// operating system, so nothing is stated of it.
#[verifier::external_body]
fn io_text(e: &std::io::Error) -> (r: String) {
    format!("{e}")
}

impl Error {
    /// The message shown for this error (see [`error_text`]).
    pub fn message(&self) -> (r: String)
        ensures
            match error_text(*self) {
                Some(t) => r@ == t,
                None => r@.len() >= 4 && r@.take(4) == "io: "@,
            },
    {
        proof {
            reveal_strlit("io: ");
            reveal_strlit("vfs: ");
            reveal_strlit("config: ");
            reveal_strlit("invalid path: ");
            reveal_strlit("invalid key: ");
            reveal_strlit("operation cancelled");
            reveal_strlit("ssh host key unknown for ");
            reveal_strlit(" (");
            reveal_strlit(" ");
            reveal_strlit(")");
            reveal_strlit("not supported");
        }
        match self {
            Error::Io(e) => {
                let mut m = String::from_str("io: ");
                let t = io_text(e);
                append_str(&mut m, t.as_str());
                assert(m@.take(4) =~= "io: "@);
                m
            },
            Error::Vfs(x) => {
                let mut m = String::from_str("vfs: ");
                append_str(&mut m, x.as_str());
                m
            },
            Error::Config(x) => {
                let mut m = String::from_str("config: ");
                append_str(&mut m, x.as_str());
                m
            },
            Error::InvalidPath(x) => {
                let mut m = String::from_str("invalid path: ");
                append_str(&mut m, x.as_str());
                m
            },
            Error::InvalidKey(x) => {
                let mut m = String::from_str("invalid key: ");
                append_str(&mut m, x.as_str());
                m
            },
            Error::Cancelled => String::from_str("operation cancelled"),
            Error::HostKeyUnknown { host_port, algorithm, fingerprint } => {
                let mut m = String::from_str("ssh host key unknown for ");
                append_str(&mut m, host_port.as_str());
                append_str(&mut m, " (");
                append_str(&mut m, algorithm.as_str());
                append_str(&mut m, " ");
                append_str(&mut m, fingerprint.as_str());
                append_str(&mut m, ")");
                m
            },
            Error::NotSupported => String::from_str("not supported"),
        }
    }
}

} // verus!
