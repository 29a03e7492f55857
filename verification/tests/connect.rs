use mc_rs::connect::{first_connect_step, password_retry_step, trust_refusal, trusted_retry_step, AfterConnect};
use mc_rs::error::Error;

fn status(a: AfterConnect) -> String {
    match a {
        AfterConnect::Status(s) => s,
        _ => panic!("expected a status"),
    }
}

#[test]
fn error_messages_read_like_their_variants() {
    assert_eq!(Error::Vfs("gone".into()).message(), "vfs: gone");
    assert_eq!(Error::InvalidPath("x".into()).message(), "invalid path: x");
    assert_eq!(Error::Cancelled.message(), "operation cancelled");
    assert_eq!(Error::NotSupported.message(), "not supported");
    let e = Error::HostKeyUnknown {
        host_port: "h:22".into(),
        algorithm: "ssh-ed25519".into(),
        fingerprint: "SHA256:abc".into(),
    };
    assert_eq!(e.message(), "ssh host key unknown for h:22 (ssh-ed25519 SHA256:abc)");
    let io = Error::Io(std::io::Error::new(std::io::ErrorKind::Other, "boom"));
    assert_eq!(io.message(), "io: boom");
}

#[test]
fn first_connection_asks_for_a_password_on_failure() {
    assert!(matches!(first_connect_step("sftp", &Ok(())), AfterConnect::Mount(None)));
    assert!(matches!(first_connect_step("ftp", &Err(Error::Vfs("no".into()))), AfterConnect::AskPassword));
    assert!(matches!(first_connect_step("sftp", &Err(Error::NotSupported)), AfterConnect::AskPassword));
    assert!(matches!(first_connect_step("dav", &Err(Error::Vfs("no".into()))), AfterConnect::Nothing));
}

#[test]
fn password_retry_mounts_or_reports() {
    match password_retry_step("ftp", "me@host", &Ok(())) {
        AfterConnect::Mount(Some(s)) => assert_eq!(s, "connected to ftp://me@host"),
        _ => panic!("expected a mount"),
    }
    assert_eq!(
        status(password_retry_step("sftp", "h", &Err(Error::Vfs("bad password".into())))),
        "auth failed: vfs: bad password"
    );
}

#[test]
fn host_key_trust_is_for_sftp_only() {
    assert_eq!(trust_refusal("sftp"), None);
    assert_eq!(trust_refusal("ftp"), Some("host-key trust not supported for scheme ftp".into()));
}

#[test]
fn trusted_retry_refuses_a_changed_key() {
    match trusted_retry_step("u@h", &Ok(())) {
        AfterConnect::Mount(Some(s)) => assert_eq!(s, "connected to sftp://u@h"),
        _ => panic!("expected a mount"),
    }
    let changed = Error::HostKeyUnknown { host_port: "h:22".into(), algorithm: "a".into(), fingerprint: "f".into() };
    assert_eq!(status(trusted_retry_step("u@h", &Err(changed))), "host key changed for u@h; refusing connection");
    assert!(matches!(trusted_retry_step("u@h", &Err(Error::Vfs("ssh auth rejected".into()))), AfterConnect::AskPassword));
    assert_eq!(
        status(trusted_retry_step("u@h", &Err(Error::Vfs("timeout".into())))),
        "connect failed: vfs: timeout"
    );
    assert_eq!(
        status(trusted_retry_step("u@h", &Err(Error::Config("auth".into())))),
        "connect failed: config: auth"
    );
}
