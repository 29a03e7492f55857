use mc_rs::commander::Panels;
use mc_rs::config::hotlist::Hotlist;
use mc_rs::modal::{Modal, Session};
use mc_rs::dialog::input::InputDialog;
use mc_rs::net::{remote_needs, FtpEndpoint};
use mc_rs::panel::PanelState;
use mc_rs::path::{parse_vpath, VPath};

#[test]
fn remote_layers_need_backends() {
    let left: VPath = parse_vpath("sftp://u@h/srv!tar:/x").unwrap();
    let right: VPath = parse_vpath("local:/a.zip!zip:/in").unwrap();
    let needs = remote_needs(&left, &right);
    assert_eq!(needs.len(), 1);
    assert_eq!(needs[0].scheme, "sftp");
    assert_eq!(needs[0].location, "u@h");
    assert_eq!(needs[0].sample.to_text(), left.to_text());
    let both = remote_needs(&parse_vpath("ftp://h/").unwrap(), &parse_vpath("dav://w/x").unwrap());
    assert_eq!(both.iter().map(|n| n.scheme.as_str()).collect::<Vec<_>>(), vec!["ftp", "dav"]);
}

#[test]
fn password_prompt_only_over_the_panels() {
    let mut s = Session {
        panels: Panels { left: PanelState::new(VPath::local("/")), right: PanelState::new(VPath::local("/")), active_left: true },
        modal: Modal::Idle,
        hotlist: Hotlist::default(),
    };
    s.prompt_password("sftp".into(), "u@h".into());
    match &s.modal {
        Modal::Password { dlg, scheme, location } => {
            assert_eq!(scheme, "sftp");
            assert_eq!(location, "u@h");
            assert_eq!(dlg.prompt(), "password for sftp://u@h:");
        },
        _ => panic!("no password dialog"),
    }
    s.modal = Modal::QuickSearch(String::new());
    s.prompt_password("ftp".into(), "h".into());
    assert!(matches!(s.modal, Modal::QuickSearch(_)));
}

#[test]
fn paste_types_into_the_dialog() {
    let mut s = Session {
        panels: Panels { left: PanelState::new(VPath::local("/")), right: PanelState::new(VPath::local("/")), active_left: true },
        modal: Modal::Mkdir(InputDialog::new(" Mkdir ".into(), "Name:".into(), String::new())),
        hotlist: Hotlist::default(),
    };
    s.handle_paste("ab\ncd\te\r", None);
    assert!(matches!(s.modal, Modal::Mkdir(_)));
    let enter = mc_rs::key::KeyChord { code: mc_rs::key::KeyCode::Enter, mods: mc_rs::key::KeyMods::empty() };
    match s.handle_modal_key(enter, None) {
        mc_rs::commander::PanelCommand::MakeDir { name, .. } => assert_eq!(name, "ab cde "),
        _ => panic!("no mkdir"),
    }
    s.modal = Modal::Idle;
    s.handle_paste("xyz", None);
    assert!(matches!(s.modal, Modal::Idle));
}

#[test]
fn diff_compares_the_two_cursor_files() {
    use_entries();
}

fn use_entries() {
    let mut left = PanelState::new(VPath::local("/a"));
    left.entries = vec![file(".."), file("x.txt")];
    left.cursor = 1;
    let mut right = PanelState::new(VPath::local("/b"));
    right.entries = vec![file(".."), file("y.txt")];
    right.cursor = 1;
    let mut ps = Panels { left, right, active_left: true };
    assert_eq!(ps.diff_targets(), Some(("/a/x.txt".to_string(), "/b/y.txt".to_string())));
    ps.active_left = false;
    assert_eq!(ps.diff_targets(), Some(("/b/y.txt".to_string(), "/a/x.txt".to_string())));
    ps.left.cursor = 0;
    assert_eq!(ps.diff_targets(), None);
    ps.left.cursor = 1;
    ps.left.cwd = parse_vpath("local:/z.zip!zip:/").unwrap();
    assert_eq!(ps.diff_targets(), None);
}

fn file(name: &str) -> mc_rs::entry::Entry {
    mc_rs::entry::Entry {
        name: name.into(),
        kind: mc_rs::entry::EntryKind::File,
        size: 0,
        mtime: None,
        atime: None,
        ctime: None,
        mode: None,
        uid: None,
        gid: None,
        nlink: None,
        target: None,
    }
}

#[test]
fn archives_mount_under_their_scheme() {
    use_mounts();
}

fn use_mounts() {
    let t = VPath::local("/x/a.tar.gz");
    let k = mc_rs::archive::ArchiveKind::detect("/x/a.tar.gz").unwrap();
    assert_eq!(k.mount_scheme(), "tar");
    assert_eq!(mc_rs::archive::ArchiveKind::SevenZ.mount_scheme(), "7z");
    assert_eq!(mc_rs::archive::mounted_root(&t, k, 12).to_text(), "local:/x/a.tar.gz!tar://mount-12/");
}

#[test]
fn ftp_login_is_anonymous_without_a_user() {
    let anon = FtpEndpoint::parse("host").unwrap();
    assert_eq!(anon.login(Some("pw".into())), ("anonymous".to_string(), "anonymous@example.com".to_string()));
    let named = FtpEndpoint::parse("bob@host:2121").unwrap();
    assert_eq!(named.login(Some("pw".into())), ("bob".to_string(), "pw".to_string()));
    assert_eq!(named.login(None), ("bob".to_string(), String::new()));
}
