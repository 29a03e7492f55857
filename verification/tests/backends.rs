use mc_rs::multistatus::{multistatus_entries, XmlEvent};
use mc_rs::archive::{check_cap, decompress_capped_with, safe_archive_key, ArchiveKind};
use mc_rs::diff::{split_lines, DiffModel, Row};
use mc_rs::error::Error;
use mc_rs::net::{dav_basename, ftp_key_for, DavEndpoint, FtpEndpoint, SftpEndpoint};
use mc_rs::path::VPath;

#[test]
fn safe_key_normal() {
    assert_eq!(safe_archive_key("dir/file.txt"), Some("/dir/file.txt".into()));
    assert_eq!(safe_archive_key("/abs/path"), Some("/abs/path".into()));
    assert_eq!(safe_archive_key("trailing/"), Some("/trailing".into()));
    assert_eq!(safe_archive_key(""), Some("/".into()));
    assert_eq!(safe_archive_key("/"), Some("/".into()));
    assert_eq!(safe_archive_key("./hidden/in/the/middle"), Some("/hidden/in/the/middle".into()));
}

#[test]
fn safe_key_rejects_traversal() {
    assert_eq!(safe_archive_key("../etc/passwd"), None);
    assert_eq!(safe_archive_key("a/../../b"), None);
    assert_eq!(safe_archive_key("a/b/.."), None);
    assert_eq!(safe_archive_key(".."), None);
}

#[test]
fn safe_key_is_idempotent() {
    for s in ["a//b/./c/", "/x", "", "./.", "dir/file.txt"] {
        let k = safe_archive_key(s).unwrap();
        assert_eq!(safe_archive_key(&k), Some(k.clone()));
    }
}

#[test]
fn cap_rejects_oversize() {
    let r = std::io::repeat(0u8);
    let err = decompress_capped_with(r, 1024).unwrap_err();
    assert!(matches!(err, Error::Vfs(_)));
}

#[test]
fn cap_accepts_within() {
    let bytes = vec![0u8; 100];
    let r = std::io::Cursor::new(bytes);
    let out = decompress_capped_with(r, 1024).unwrap();
    assert_eq!(out.len(), 100);
}

#[test]
fn cap_boundary_and_message() {
    assert_eq!(check_cap(vec![1u8; 4], 4).unwrap().len(), 4);
    match check_cap(vec![1u8; 5], 4) {
        Err(Error::Vfs(m)) => assert_eq!(m, "archive exceeds 4-byte decompressed cap"),
        _ => panic!("expected the cap error"),
    }
    let exact = std::io::Cursor::new(vec![7u8; 1024]);
    assert_eq!(decompress_capped_with(exact, 1024).unwrap().len(), 1024);
}

#[test]
fn detect_archive_kinds() {
    assert_eq!(ArchiveKind::detect("/x/a.TAR.GZ"), Some(ArchiveKind::TarGz));
    assert_eq!(ArchiveKind::detect("b.tbz"), Some(ArchiveKind::TarBz2));
    assert_eq!(ArchiveKind::detect("c.tar"), Some(ArchiveKind::Tar));
    assert_eq!(ArchiveKind::detect("d.7z/"), Some(ArchiveKind::SevenZ));
    assert_eq!(ArchiveKind::detect("e.rar"), None);
    assert_eq!(ArchiveKind::detect("/"), None);
    assert_eq!(ArchiveKind::detect("x.zip/.."), None);
}

#[test]
fn parse_endpoint_https() {
    let e = DavEndpoint::parse("https://dav.example.com/foo/", None, None).unwrap();
    assert_eq!(e.base, "https://dav.example.com/foo/");
    assert!(e.user.is_none() || e.user.is_some());
}

#[test]
fn parse_endpoint_with_user() {
    let e = DavEndpoint::parse("alice@https://dav.example.com/foo/", None, None).unwrap();
    assert_eq!(e.user.as_deref(), Some("alice"));
}

#[test]
fn dav_location_defaults() {
    let e = DavEndpoint::parse("host.example%2Fdav", Some("bob".into()), Some(String::new())).unwrap();
    assert_eq!(e.base, "https://host.example/dav");
    assert_eq!(e.user.as_deref(), Some("bob"));
    assert_eq!(e.password, None);
    let f = DavEndpoint::from_decoded("https://u@h/x", None, Some("pw".into()));
    assert_eq!(f.base, "https://u@h/x");
    assert_eq!(f.user, None);
    assert_eq!(f.password.as_deref(), Some("pw"));
    assert!(matches!(DavEndpoint::parse("%FF", None, None), Err(Error::InvalidPath(_))));
    assert_eq!(DavEndpoint::encode_for_layer("https://h/a b"), "https%3A%2F%2Fh%2Fa%20b");
}

#[test]
fn ftp_parse_endpoint() {
    let e = FtpEndpoint::parse("anon@host:2121").unwrap();
    assert_eq!(e.user, "anon");
    assert_eq!(e.port, 2121);
    let e = FtpEndpoint::parse("host").unwrap();
    assert_eq!(e.user, "");
    assert_eq!(e.port, 21);
    assert!(FtpEndpoint::parse("").is_err());
}

#[test]
fn sftp_parse_endpoint() {
    let e = SftpEndpoint::parse("me@host:2222", "root").unwrap();
    assert_eq!(e.user, "me");
    assert_eq!(e.host, "host");
    assert_eq!(e.port, 2222);

    let e = SftpEndpoint::parse("me@host", "root").unwrap();
    assert_eq!(e.port, 22);

    let e = SftpEndpoint::parse("host", "root").unwrap();
    assert_eq!(e.host, "host");

    assert!(SftpEndpoint::parse("", "root").is_err());
    assert!(SftpEndpoint::parse("me@host:abc", "root").is_err());
}

#[test]
fn endpoint_messages_and_display() {
    match FtpEndpoint::parse("h:99999") {
        Err(Error::InvalidPath(m)) => assert_eq!(m, "bad port in \"h:99999\""),
        _ => panic!("expected a port error"),
    }
    match SftpEndpoint::parse("me@:22", "root") {
        Err(Error::InvalidPath(m)) => assert_eq!(m, "empty host in \"me@:22\""),
        _ => panic!("expected a host error"),
    }
    let e = SftpEndpoint::parse("host:2200", "alice").unwrap();
    assert_eq!(e.display(), "alice@host:2200");
    let d = SftpEndpoint::parse("a@b@c", "x").unwrap();
    assert_eq!(d.user, "a@b");
    assert_eq!(d.display(), "a@b@c");
}

#[test]
fn identical_inputs_have_no_hunks() {
    let m = DiffModel::build("a\nb\nc\n", "a\nb\nc\n");
    assert!(m.is_equal());
    assert!(m.rows.iter().all(|r| matches!(r, Row::Same(_))));
}

#[test]
fn pure_addition() {
    let m = DiffModel::build("a\nb\n", "a\nb\nc\n");
    assert!(!m.is_equal());
    assert!(m.rows.iter().any(|r| matches!(r, Row::Added(_))));
}

#[test]
fn pure_removal() {
    let m = DiffModel::build("a\nb\nc\n", "a\nb\n");
    assert!(m.rows.iter().any(|r| matches!(r, Row::Removed(_))));
}

#[test]
fn change_pairs_to_changed_row() {
    let m = DiffModel::build("hello\n", "world\n");
    assert_eq!(m.rows.len(), 1);
    match &m.rows[0] {
        Row::Changed(l, r) => {
            assert!(l.starts_with("hello"));
            assert!(r.starts_with("world"));
        }
        other => panic!("unexpected: {other:?}"),
    }
    assert_eq!(m.hunks.len(), 1);
}

#[test]
fn hunk_navigation() {
    let m = DiffModel::build("a\nb\nc\n", "a\nB\nc\n");
    assert_eq!(m.hunks.len(), 1);
    assert_eq!(m.next_hunk(0), Some(m.hunks[0].start));
    assert_eq!(m.prev_hunk(m.rows.len()), Some(m.hunks[0].start));
}

#[test]
fn rows_from_given_hunks() {
    let l = split_lines("a\nb\nc");
    assert_eq!(l, vec!["a\n".to_string(), "b\n".to_string(), "c".to_string()]);
    let r = split_lines("a\nx\ny\nc");
    let m = DiffModel::from_hunks(&l, &r, &vec![(1, 2, 1, 3)]);
    assert_eq!(
        m.rows,
        vec![
            Row::Same("a\n".into()),
            Row::Changed("b\n".into(), "x\n".into()),
            Row::Added("y\n".into()),
            Row::Same("c".into()),
        ]
    );
    assert_eq!(m.hunks.len(), 1);
    assert_eq!((m.hunks[0].start, m.hunks[0].end), (1, 3));
    assert_eq!(m.next_hunk(1), Some(1));
    assert_eq!(m.prev_hunk(0), Some(1));
    assert!(split_lines("").is_empty());
}

#[test]
fn dav_urls_for_paths() {
    let e = DavEndpoint::parse("https://dav.example.com/foo/", None, None).unwrap();
    let p: VPath = "dav://dav.example.com/bar/baz.txt".parse().unwrap();
    assert_eq!(e.url_for("dav", &p).unwrap(), "https://dav.example.com/foo/bar/baz.txt");
    let root: VPath = "dav://dav.example.com/".parse().unwrap();
    assert_eq!(e.url_for("dav", &root).unwrap(), "https://dav.example.com/foo");
    let local = VPath::local("/x");
    match e.url_for("dav", &local) {
        Err(Error::InvalidPath(m)) => assert_eq!(m, "vpath has no dav layer"),
        other => panic!("unexpected {other:?}"),
    }
}

#[test]
fn dav_listing_names() {
    assert_eq!(dav_basename("/remote/dav/docs/", "/remote/dav/"), "docs");
    assert_eq!(dav_basename("/remote/dav/a%20b.txt", "/remote/dav/"), "a b.txt");
    assert_eq!(dav_basename("/other/x%FF", "/remote/"), "x%FF");
    assert_eq!(dav_basename("plain", "/remote/"), "plain");
}

#[test]
fn ftp_keys_for_paths() {
    let p: VPath = "ftp://anon@host/pub/file".parse().unwrap();
    assert_eq!(ftp_key_for("ftp", &p).unwrap(), "/pub/file");
    let bare = VPath::new(vec![mc_rs::path::Layer { scheme: "ftp".into(), location: "h".into(), sub: String::new() }]);
    assert_eq!(ftp_key_for("ftp", &bare).unwrap(), "/");
    assert!(matches!(ftp_key_for("sftp", &p), Err(Error::InvalidPath(_))));
}

#[test]
fn parse_multistatus_one_collection() {
    let xml = r#"<?xml version="1.0" encoding="utf-8"?>
<D:multistatus xmlns:D="DAV:">
  <D:response>
    <D:href>/dav/</D:href>
    <D:propstat>
      <D:prop>
        <D:displayname>dav</D:displayname>
        <D:resourcetype><D:collection/></D:resourcetype>
      </D:prop>
      <D:status>HTTP/1.1 200 OK</D:status>
    </D:propstat>
  </D:response>
  <D:response>
    <D:href>/dav/file.txt</D:href>
    <D:propstat>
      <D:prop>
        <D:displayname>file.txt</D:displayname>
        <D:resourcetype/>
        <D:getcontentlength>42</D:getcontentlength>
      </D:prop>
      <D:status>HTTP/1.1 200 OK</D:status>
    </D:propstat>
  </D:response>
</D:multistatus>"#;
    let entries = mc_rs::multistatus::parse_multistatus(xml, "");
    assert_eq!(entries.len(), 2);
    assert_eq!(entries[0].name, "dav");
    assert!(matches!(entries[0].kind, mc_rs::entry::EntryKind::Dir));
    assert_eq!(entries[1].name, "file.txt");
    assert!(matches!(entries[1].kind, mc_rs::entry::EntryKind::File));
    assert_eq!(entries[1].size, 42);
}

#[test]
fn multistatus_names_from_href_and_skips_nameless() {
    let s = |t: &str| t.to_string();
    let evs = vec![
        XmlEvent::Start(s("d:response")),
        XmlEvent::Start(s("d:href")),
        XmlEvent::Text(s("/base/dir/a%20b.txt")),
        XmlEvent::End(s("d:href")),
        XmlEvent::Start(s("d:displayname")),
        XmlEvent::Text(s("")),
        XmlEvent::End(s("d:displayname")),
        XmlEvent::Start(s("d:getcontentlength")),
        XmlEvent::Text(s("+x")),
        XmlEvent::End(s("d:getcontentlength")),
        XmlEvent::End(s("d:response")),
        XmlEvent::Start(s("response")),
        XmlEvent::Empty(s("collection")),
        XmlEvent::End(s("response")),
        XmlEvent::Start(s("response")),
        XmlEvent::Start(s("resourcetype")),
        XmlEvent::Empty(s("collection")),
        XmlEvent::End(s("resourcetype")),
        XmlEvent::Start(s("displayname")),
        XmlEvent::Text(s("sub")),
        XmlEvent::End(s("displayname")),
        XmlEvent::End(s("response")),
    ];
    let es = multistatus_entries(&evs, "/base/dir/");
    assert_eq!(es.len(), 2);
    assert_eq!(es[0].name, "a b.txt");
    assert_eq!(es[0].size, 0);
    assert!(matches!(es[0].kind, mc_rs::entry::EntryKind::File));
    assert_eq!(es[1].name, "sub");
    assert!(matches!(es[1].kind, mc_rs::entry::EntryKind::Dir));
}

fn sides(rows: &[Row]) -> (String, String) {
    let mut l = String::new();
    let mut r = String::new();
    for row in rows {
        match row {
            Row::Same(s) => {
                l.push_str(s);
                r.push_str(s);
            },
            Row::Removed(s) => l.push_str(s),
            Row::Added(s) => r.push_str(s),
            Row::Changed(a, b) => {
                l.push_str(a);
                r.push_str(b);
            },
        }
    }
    (l, r)
}

#[test]
fn diff_rows_give_back_both_texts() {
    let cases = [
        ("a\nb\nc\n", "a\nB\nc\nd\n"),
        ("", "x\n"),
        ("one\ntwo", "two\nthree"),
        ("same\n", "same\n"),
    ];
    for (l, r) in cases {
        let m = DiffModel::build(l, r);
        assert_eq!(sides(&m.rows), (l.to_string(), r.to_string()));
        assert_eq!(m.is_equal(), l == r);
    }
}

#[test]
fn hunk_navigation_wraps() {
    let m = DiffModel {
        rows: vec![Row::Same("a\n".into()), Row::Changed("b\n".into(), "c\n".into()), Row::Same("d\n".into())],
        hunks: vec![mc_rs::diff::Hunk { start: 1, end: 2 }],
    };
    assert_eq!(m.next_hunk(0), Some(1));
    assert_eq!(m.next_hunk(1), Some(1));
    assert_eq!(m.prev_hunk(3), Some(1));
    assert_eq!(m.prev_hunk(1), Some(1));
    let none = DiffModel { rows: vec![], hunks: vec![] };
    assert_eq!(none.next_hunk(0), None);
    assert_eq!(none.prev_hunk(0), None);
}

#[test]
fn percent_decoding_takes_both_cases_and_keeps_stray_signs() {
    assert_eq!(dav_basename("/r/a%2fb%2Fc", "/r/"), "a/b/c");
    assert_eq!(dav_basename("/r/100%zz%4", "/r/"), "100%zz%4");
    assert_eq!(dav_basename("/r/%C3%A9t%C3%A9", "/r/"), "été");
    assert_eq!(dav_basename("/r/%C3", "/r/"), "%C3");
}

#[test]
fn sanitised_keys_sanitise_to_themselves() {
    for raw in ["a/./b//c/", "/", "", "./x", "deep/er/path"] {
        let k = safe_archive_key(raw).unwrap();
        assert_eq!(safe_archive_key(&k), Some(k.clone()));
    }
}

#[test]
fn rows_are_same_exactly_outside_hunks() {
    let m = DiffModel::build("a\nb\nc\nd\ne\n", "a\nB\nc\nd\nE\nf\n");
    assert!(!m.hunks.is_empty());
    for w in m.hunks.windows(2) {
        assert!(w[0].end <= w[1].start);
    }
    for (i, row) in m.rows.iter().enumerate() {
        let in_hunk = m.hunks.iter().any(|h| h.start <= i && i < h.end);
        assert_eq!(matches!(row, Row::Same(_)), !in_hunk);
    }
}

#[test]
fn sftp_display_reads_back() {
    for (u, h, p) in [("alice", "example.org", 22u16), ("bob", "10.0.0.1", 2222), ("x@y", "h", 0)] {
        let e = SftpEndpoint { user: u.into(), host: h.into(), port: p };
        let back = SftpEndpoint::parse(&e.display(), "root").unwrap();
        assert_eq!((back.user.as_str(), back.host.as_str(), back.port), (u, h, p));
    }
}
