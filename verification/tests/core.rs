use mc_rs::action::{Action, SortKey};
use mc_rs::error::Error;
use mc_rs::key::{KeyChord, KeyCode, KeyMods, KeySequence};
use mc_rs::path::{parse_vpath, Layer, VPath};

#[test]
fn ids_are_unique_for_distinct_variants() {
    let ids = [Action::PanelUp.id(), Action::PanelDown.id(), Action::Copy.id(), Action::Move.id(), Action::Quit.id()];
    let mut sorted = ids.to_vec();
    sorted.sort_unstable();
    sorted.dedup();
    assert_eq!(sorted.len(), ids.len());
}

#[test]
fn payload_variants_share_one_id() {
    assert_eq!(Action::PanelSortBy(SortKey::Name).id(), "panel.sort_by");
    assert_eq!(Action::PanelSortBy(SortKey::Size).id(), Action::PanelSortBy(SortKey::Name).id());
    assert_eq!(Action::CmdlineInsertCwd.id(), "cmdline.insert_cwd");
}

#[test]
fn parse_function_keys() {
    let f1: KeyChord = "F1".parse().unwrap();
    assert_eq!(f1.code, KeyCode::F(1));
    assert!(f1.mods.is_empty());
    assert_eq!("F20".parse::<KeyChord>().unwrap().code, KeyCode::F(20));
    assert!("F0".parse::<KeyChord>().is_err());
    assert!("F25".parse::<KeyChord>().is_err());
}

#[test]
fn parse_modifiers() {
    let c: KeyChord = "C-x".parse().unwrap();
    assert_eq!(c.code, KeyCode::Char('x'));
    assert_eq!(c.mods, KeyMods::ctrl());

    let m: KeyChord = "M-?".parse().unwrap();
    assert_eq!(m.code, KeyCode::Char('?'));
    assert_eq!(m.mods, KeyMods::alt());

    let cms: KeyChord = "C-M-S-Delete".parse().unwrap();
    assert_eq!(cms.code, KeyCode::Delete);
    assert_eq!(cms.mods, KeyMods::ctrl().union(KeyMods::alt()).union(KeyMods::shift()));
}

#[test]
fn parse_named_keys() {
    for (s, expected) in [
        ("Insert", KeyCode::Insert),
        ("Tab", KeyCode::Tab),
        ("Enter", KeyCode::Enter),
        ("Esc", KeyCode::Escape),
        ("PageUp", KeyCode::PageUp),
        ("Backspace", KeyCode::Backspace),
    ] {
        assert_eq!(s.parse::<KeyChord>().unwrap().code, expected);
    }
}

#[test]
fn parse_chord_sequence() {
    let seq: KeySequence = "C-x C-c".parse().unwrap();
    assert_eq!(seq.0.len(), 2);
    assert_eq!(seq.0[0].mods, KeyMods::ctrl());
    assert_eq!(seq.0[1].code, KeyCode::Char('c'));
}

#[test]
fn display_round_trip() {
    for s in ["F1", "C-x", "M-?", "S-Tab", "C-M-Delete", "Insert"] {
        let c: KeyChord = s.parse().unwrap();
        assert_eq!(c.to_text(), s);
    }
}

#[test]
fn bad_chord_reports_the_text() {
    match "xy".parse::<KeyChord>() {
        Err(Error::InvalidKey(m)) => assert_eq!(m, "xy"),
        other => panic!("unexpected: {other:?}"),
    }
    assert!("".parse::<KeyChord>().is_err());
    assert_eq!(KeySequence::single(KeyChord::plain(KeyCode::Tab)).0.len(), 1);
}

#[test]
fn parse_local() {
    let p: VPath = "local:/home/me/x.txt".parse().unwrap();
    assert_eq!(p.layers().len(), 1);
    assert_eq!(p.layers()[0].scheme, "local");
    assert_eq!(p.layers()[0].location, "");
    assert_eq!(p.layers()[0].sub, "/home/me/x.txt");
}

#[test]
fn parse_sftp() {
    let p: VPath = "sftp://me@host:22/srv/a.tar".parse().unwrap();
    assert_eq!(p.layers()[0].scheme, "sftp");
    assert_eq!(p.layers()[0].location, "me@host:22");
    assert_eq!(p.layers()[0].sub, "/srv/a.tar");
}

#[test]
fn parse_layered() {
    let p: VPath = "local:/tmp/a.tar.gz!targz:/dir/file".parse().unwrap();
    assert_eq!(p.layers().len(), 2);
    assert_eq!(p.layers()[1].scheme, "targz");
    assert_eq!(p.layers()[1].sub, "/dir/file");
}

#[test]
fn path_round_trip() {
    let cases = ["local:/home/me/x", "sftp://me@host:22/srv/a.tar", "local:/a.tar!tar:/inner.zip!zip:/x.txt"];
    for s in cases {
        let p: VPath = s.parse().unwrap();
        assert_eq!(p.to_text(), s);
    }
}

#[test]
fn rejects_empty() {
    assert!("".parse::<VPath>().is_err());
    assert!(":x".parse::<VPath>().is_err());
}

#[test]
fn path_errors_quote_the_layer() {
    match parse_vpath("nolayer") {
        Err(Error::InvalidPath(m)) => assert_eq!(m, "missing scheme in \"nolayer\""),
        other => panic!("unexpected: {other:?}"),
    }
    match parse_vpath("local:/a!:x") {
        Err(Error::InvalidPath(m)) => assert_eq!(m, "empty scheme in \":x\""),
        other => panic!("unexpected: {other:?}"),
    }
    let p = parse_vpath("ftp://host").unwrap();
    assert_eq!(p.layers()[0].sub, "/");
}

#[test]
fn layers_push_and_pop() {
    let mut p = VPath::local("/a");
    assert_eq!(p.to_text(), "local:/a");
    p.push_layer(Layer { scheme: "tar".into(), location: String::new(), sub: "/x".into() });
    assert_eq!(p.to_text(), "local:/a!tar:/x");
    assert_eq!(p.last().unwrap().scheme, "tar");
    let l = p.pop_layer().unwrap();
    assert_eq!(l.sub, "/x");
    assert_eq!(p.layers().len(), 1);
    let q = VPath::new(vec![Layer::local("/b"), Layer { scheme: "zip".into(), location: String::new(), sub: "/y".into() }]);
    assert_eq!(q.to_text(), "local:/b!zip:/y");
}

#[test]
fn child_path_appends() {
    let p = VPath::local("/a/b");
    let c = mc_rs::path::child_path(&p, "c").unwrap();
    assert_eq!(c.last().unwrap().sub, "/a/b/c");
    let q: VPath = "local:/a.tar!tar:/".parse().unwrap();
    let d = mc_rs::path::child_path(&q, "x").unwrap();
    assert_eq!(d.to_text(), "local:/a.tar!tar:/x");
}

#[test]
fn lone_f_is_a_letter() {
    let c: KeyChord = "C-f".parse().unwrap();
    assert_eq!(c.code, KeyCode::Char('f'));
    assert_eq!(c.mods, KeyMods::ctrl());
    let f: KeyChord = "F".parse().unwrap();
    assert_eq!(f.code, KeyCode::Char('F'));
    assert_eq!(f.to_text().parse::<KeyChord>().unwrap(), f);
    assert_eq!("f7".parse::<KeyChord>().unwrap().code, KeyCode::F(7));
    assert!("f25".parse::<KeyChord>().is_err());
    assert!("fx".parse::<KeyChord>().is_err());
}
