//! What the session does after it has tried to connect to a remote server:
//! mount the backend, show a status line, or ask for a password. The
//! connection itself is network I/O and is made by the caller, which hands
//! its outcome in here.

use vstd::prelude::*;

use crate::commander::{contains_chars, has_infix};
use crate::error::{error_text, Error};
use crate::text::{append_str, chars_of, str_eq};

verus! {

/// The next step after a connection attempt.
pub enum AfterConnect {
    /// Register the mount; when a status is given, show it and reload the
    /// active panel.
    Mount(Option<String>),
    /// Show the status line; nothing is mounted.
    Status(String),
    /// Ask the user for the password of the location.
    AskPassword,
    /// Nothing more to do.
    Nothing,
}

/// What a step amounts to, in plain values.
pub enum AfterView {
    Mount(Option<Seq<char>>),
    Status(Seq<char>),
    AskPassword,
    Nothing,
}

pub open spec fn after_view(a: AfterConnect) -> AfterView {
    match a {
        AfterConnect::Mount(None) => AfterView::Mount(None),
        AfterConnect::Mount(Some(s)) => AfterView::Mount(Some(s@)),
        AfterConnect::Status(s) => AfterView::Status(s@),
        AfterConnect::AskPassword => AfterView::AskPassword,
        AfterConnect::Nothing => AfterView::Nothing,
    }
}

/// `connected to <scheme>://<location>`
pub open spec fn connected_msg(scheme: Seq<char>, location: Seq<char>) -> Seq<char> {
    "connected to "@ + scheme + "://"@ + location
}

/// The first connection to a panel's remote location: mount it quietly; when
/// it fails, ask for a password (FTP and SFTP) or leave it (WebDAV).
pub open spec fn first_connect_spec(scheme: Seq<char>, ok: bool) -> AfterView {
    if ok {
        AfterView::Mount(None)
    } else if scheme == "sftp"@ || scheme == "ftp"@ {
        AfterView::AskPassword
    } else {
        AfterView::Nothing
    }
}

/// See [`first_connect_spec`].
pub fn first_connect_step(scheme: &str, outcome: &Result<(), Error>) -> (r: AfterConnect)
    ensures
        after_view(r) == first_connect_spec(scheme@, outcome is Ok),
{
    match outcome {
        Ok(()) => AfterConnect::Mount(None),
        Err(_) => {
            if str_eq(scheme, "sftp") || str_eq(scheme, "ftp") {
                AfterConnect::AskPassword
            } else {
                AfterConnect::Nothing
            }
        },
    }
}

/// A retry with the password the user typed: on success mount and say so;
/// on failure show `auth failed: <error>`.
pub open spec fn password_retry_spec(scheme: Seq<char>, location: Seq<char>, outcome: Result<(), Error>) -> AfterView {
    match outcome {
        Ok(()) => AfterView::Mount(Some(connected_msg(scheme, location))),
        Err(e) => match error_text(e) {
            Some(t) => AfterView::Status("auth failed: "@ + t),
            None => AfterView::Status("auth failed: "@),
        },
    }
}

/// See [`password_retry_spec`]; for an I/O error the status is
/// `auth failed: ` and the operating system's text.
pub fn password_retry_step(scheme: &str, location: &str, outcome: &Result<(), Error>) -> (r: AfterConnect)
    ensures
        match outcome {
            Err(e) if error_text(*e) is None => r matches AfterConnect::Status(s) && s@.len() >= 13 && s@.take(13) == "auth failed: "@,
            _ => after_view(r) == password_retry_spec(scheme@, location@, *outcome),
        },
{
    proof {
        reveal_strlit("auth failed: ");
        reveal_strlit("connected to ");
        reveal_strlit("://");
    }
    match outcome {
        Ok(()) => {
            let mut m = String::from_str("connected to ");
            append_str(&mut m, scheme);
            append_str(&mut m, "://");
            append_str(&mut m, location);
            AfterConnect::Mount(Some(m))
        },
        Err(e) => {
            let mut m = String::from_str("auth failed: ");
            let t = e.message();
            append_str(&mut m, t.as_str());
            assert(m@.take(13) =~= "auth failed: "@);
            AfterConnect::Status(m)
        },
    }
}

/// Trusting a confirmed host key is offered for SFTP alone; for another
/// scheme the status says so and nothing is tried.
pub open spec fn trust_refusal_spec(scheme: Seq<char>) -> Option<Seq<char>> {
    if scheme == "sftp"@ {
        None
    } else {
        Some("host-key trust not supported for scheme "@ + scheme)
    }
}

/// See [`trust_refusal_spec`].
pub fn trust_refusal(scheme: &str) -> (r: Option<String>)
    ensures
        match r {
            Some(s) => trust_refusal_spec(scheme@) == Some(s@),
            None => trust_refusal_spec(scheme@) is None,
        },
{
    proof {
        reveal_strlit("host-key trust not supported for scheme ");
    }
    if str_eq(scheme, "sftp") {
        None
    } else {
        let mut m = String::from_str("host-key trust not supported for scheme ");
        append_str(&mut m, scheme);
        Some(m)
    }
}

/// A retry after the user accepted an SFTP host key: on success mount and
/// say so; a host key still unknown means the server showed another key
/// than the one accepted, and the connection is refused; a backend error
/// that mentions `auth` asks for a password; any other error is shown as
/// `connect failed: <error>`.
pub open spec fn trusted_retry_spec(location: Seq<char>, outcome: Result<(), Error>) -> AfterView {
    match outcome {
        Ok(()) => AfterView::Mount(Some(connected_msg("sftp"@, location))),
        Err(Error::HostKeyUnknown { .. }) => AfterView::Status(
            "host key changed for "@ + location + "; refusing connection"@,
        ),
        Err(Error::Vfs(m)) if has_infix(m@, "auth"@) => AfterView::AskPassword,
        Err(e) => match error_text(e) {
            Some(t) => AfterView::Status("connect failed: "@ + t),
            None => AfterView::Status("connect failed: "@),
        },
    }
}

/// See [`trusted_retry_spec`]; for an I/O error the status is
/// `connect failed: ` and the operating system's text.
pub fn trusted_retry_step(location: &str, outcome: &Result<(), Error>) -> (r: AfterConnect)
    ensures
        match outcome {
            Err(e) if error_text(*e) is None => r matches AfterConnect::Status(s) && s@.len() >= 16 && s@.take(16) == "connect failed: "@,
            _ => after_view(r) == trusted_retry_spec(location@, *outcome),
        },
{
    proof {
        reveal_strlit("connected to ");
        reveal_strlit("sftp");
        reveal_strlit("://");
        reveal_strlit("host key changed for ");
        reveal_strlit("; refusing connection");
        reveal_strlit("connect failed: ");
        reveal_strlit("auth");
    }
    match outcome {
        Ok(()) => {
            let mut m = String::from_str("connected to ");
            append_str(&mut m, "sftp");
            append_str(&mut m, "://");
            append_str(&mut m, location);
            AfterConnect::Mount(Some(m))
        },
        Err(Error::HostKeyUnknown { .. }) => {
            let mut m = String::from_str("host key changed for ");
            append_str(&mut m, location);
            append_str(&mut m, "; refusing connection");
            AfterConnect::Status(m)
        },
        Err(e) => {
            if let Error::Vfs(v) = e {
                let vc = chars_of(v.as_str());
                let ac = chars_of("auth");
                if contains_chars(&vc, &ac) {
                    return AfterConnect::AskPassword;
                }
            }
            let mut m = String::from_str("connect failed: ");
            let t = e.message();
            append_str(&mut m, t.as_str());
            assert(m@.take(16) =~= "connect failed: "@);
            AfterConnect::Status(m)
        },
    }
}

} // verus!
