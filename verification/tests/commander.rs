use mc_rs::commander::{
    classify_ctrl_x, classify_panel_key, hotlist_label, progress_key, quick_cd_target, CtrlXKey, ModalRequest,
    PanelCommand, PanelKey, Panels, ProgressStep, SearchStep,
};
use mc_rs::config::hotlist::Hotlist;
use mc_rs::dialog::confirm::ConfirmDialog;
use mc_rs::dialog::help::HelpDialog;
use mc_rs::dialog::hotlist::HotlistDialog;
use mc_rs::dialog::input::InputDialog;
use mc_rs::dialog::menubar::MenuBar;
use mc_rs::dialog::password::PasswordDialog;
use mc_rs::jobs::{JobHandle, JobId};
use mc_rs::modal::{Modal, Session};
use mc_rs::dialog::menubar::MenuChoice;
use mc_rs::entry::{Entry, EntryKind};
use mc_rs::key::{KeyChord, KeyCode, KeyMods};
use mc_rs::panel::PanelState;
use mc_rs::path::VPath;

fn entry(name: &str, kind: EntryKind) -> Entry {
    Entry {
        name: name.into(),
        kind,
        size: 0,
        mtime: None,
        atime: None,
        ctime: None,
        mode: None,
        uid: None,
        gid: None,
        nlink: None,
        target: None,
    }
}

fn chord(code: KeyCode, mods: KeyMods) -> KeyChord {
    KeyChord { code, mods }
}

fn plain(code: KeyCode) -> KeyChord {
    chord(code, KeyMods::empty())
}

fn panels() -> Panels {
    let mut left = PanelState::new(VPath::local("/home/u"));
    left.entries = vec![entry("..", EntryKind::Dir), entry("docs", EntryKind::Dir), entry("a.txt", EntryKind::File)];
    left.active = true;
    let mut right = PanelState::new(VPath::local("/tmp"));
    right.entries = vec![entry("..", EntryKind::Dir)];
    Panels { left, right, active_left: true }
}

fn texts(v: &[VPath]) -> Vec<String> {
    v.iter().map(|p| p.to_text()).collect()
}

#[test]
fn chords_map_to_panel_keys() {
    assert_eq!(classify_panel_key(plain(KeyCode::F(10)), false), PanelKey::Quit);
    assert_eq!(classify_panel_key(chord(KeyCode::F(10), KeyMods::ctrl()), false), PanelKey::Unbound);
    assert_eq!(classify_panel_key(chord(KeyCode::Char('q'), KeyMods::ctrl()), false), PanelKey::Quit);
    assert_eq!(classify_panel_key(chord(KeyCode::Char('t'), KeyMods::alt()), false), PanelKey::CycleListing);
    assert_eq!(classify_panel_key(chord(KeyCode::Char('o'), KeyMods::ctrl()), false), PanelKey::Shell);
    assert_eq!(classify_panel_key(chord(KeyCode::Char('o'), KeyMods::alt()), false), PanelKey::LoadOther);
    assert_eq!(classify_panel_key(plain(KeyCode::Char(':')), false), PanelKey::CommandLine);
    assert_eq!(classify_panel_key(chord(KeyCode::Char(':'), KeyMods::shift()), false), PanelKey::CommandLine);
    assert_eq!(classify_panel_key(plain(KeyCode::Char('\\')), false), PanelKey::UnselectGroup);
    assert_eq!(classify_panel_key(chord(KeyCode::Char('\\'), KeyMods::shift()), false), PanelKey::Unbound);
    assert_eq!(classify_panel_key(chord(KeyCode::Char('\\'), KeyMods::ctrl()), false), PanelKey::Hotlist);
    assert_eq!(classify_panel_key(chord(KeyCode::F(8), KeyMods::shift()), false), PanelKey::Delete);
    assert_eq!(classify_panel_key(chord(KeyCode::Char('?'), KeyMods::alt().union(KeyMods::shift())), false), PanelKey::FindFile);
    assert_eq!(classify_panel_key(chord(KeyCode::Up, KeyMods::ctrl()), false), PanelKey::Up);
    assert_eq!(classify_panel_key(plain(KeyCode::Escape), true), PanelKey::CloseProgress);
    assert_eq!(classify_panel_key(plain(KeyCode::Escape), false), PanelKey::Unbound);
    assert_eq!(classify_panel_key(plain(KeyCode::Char('x')), false), PanelKey::Unbound);
}

#[test]
fn cursor_enter_and_parent() {
    let mut ps = panels();
    assert!(matches!(ps.handle_panel_key(plain(KeyCode::Down), false), PanelCommand::Redraw));
    assert_eq!(ps.left.cursor, 1);
    assert!(matches!(ps.handle_panel_key(plain(KeyCode::Enter), false), PanelCommand::ReloadActive));
    assert_eq!(ps.left.cwd.to_text(), "local:/home/u/docs");
    assert_eq!(ps.left.cursor, 0);
    assert!(matches!(ps.handle_panel_key(plain(KeyCode::Backspace), false), PanelCommand::ReloadActive));
    assert_eq!(ps.left.cwd.to_text(), "local:/home/u");
    assert!(matches!(ps.handle_panel_key(chord(KeyCode::Char('y'), KeyMods::alt()), false), PanelCommand::ReloadActive));
    assert_eq!(ps.left.cwd.to_text(), "local:/home/u/docs");
    ps.left.cursor = 5;
    ps.handle_panel_key(plain(KeyCode::End), false);
    assert_eq!(ps.left.cursor, 2);
    ps.handle_panel_key(plain(KeyCode::PageDown), false);
    assert_eq!(ps.left.cursor, 2);
    ps.handle_panel_key(plain(KeyCode::PageUp), false);
    assert_eq!(ps.left.cursor, 0);
}

#[test]
fn enter_hands_files_on() {
    let mut ps = panels();
    ps.left.cursor = 2;
    match ps.handle_panel_key(plain(KeyCode::Enter), false) {
        PanelCommand::OpenFile { target, name } => {
            assert_eq!(target.unwrap().to_text(), "local:/home/u/a.txt");
            assert_eq!(name, "a.txt");
        }
        other => panic!("unexpected {other:?}"),
    }
    match ps.handle_panel_key(plain(KeyCode::F(4)), false) {
        PanelCommand::Edit { file } => assert_eq!(file, "/home/u/a.txt"),
        other => panic!("unexpected {other:?}"),
    }
    match ps.handle_panel_key(plain(KeyCode::F(3)), false) {
        PanelCommand::View { name, target } => {
            assert_eq!(name, "a.txt");
            assert_eq!(target.to_text(), "local:/home/u/a.txt");
        }
        other => panic!("unexpected {other:?}"),
    }
    match ps.handle_panel_key(chord(KeyCode::Char('o'), KeyMods::ctrl()), false) {
        PanelCommand::DropToShell { cwd } => assert_eq!(cwd, "/home/u"),
        other => panic!("unexpected {other:?}"),
    }
}

#[test]
fn copy_move_delete_targets() {
    let mut ps = panels();
    ps.left.cursor = 2;
    match ps.handle_panel_key(plain(KeyCode::F(5)), false) {
        PanelCommand::SubmitCopy { sources, dst_dir } => {
            assert_eq!(texts(&sources), vec!["local:/home/u/a.txt"]);
            assert_eq!(dst_dir.to_text(), "local:/tmp");
        }
        other => panic!("unexpected {other:?}"),
    }
    match ps.handle_panel_key(plain(KeyCode::F(6)), false) {
        PanelCommand::Rename { src, name } => {
            assert_eq!(src.to_text(), "local:/home/u/a.txt");
            assert_eq!(name, "a.txt");
        }
        other => panic!("unexpected {other:?}"),
    }
    match ps.handle_panel_key(plain(KeyCode::F(8)), false) {
        PanelCommand::ConfirmDelete { message, targets } => {
            assert_eq!(message, "Delete \"/home/u/a.txt\"?");
            assert_eq!(targets.len(), 1);
        }
        other => panic!("unexpected {other:?}"),
    }
    ps.left.marks = vec!["docs".into(), "a.txt".into()];
    match ps.handle_panel_key(plain(KeyCode::F(6)), false) {
        PanelCommand::SubmitMove { sources, dst_dir } => {
            assert_eq!(texts(&sources), vec!["local:/home/u/docs", "local:/home/u/a.txt"]);
            assert_eq!(dst_dir.to_text(), "local:/tmp");
        }
        other => panic!("unexpected {other:?}"),
    }
    match ps.handle_panel_key(plain(KeyCode::F(8)), false) {
        PanelCommand::ConfirmDelete { message, .. } => assert_eq!(message, "Delete 2 items?"),
        other => panic!("unexpected {other:?}"),
    }
    ps.left.marks.clear();
    ps.left.cursor = 0;
    assert!(matches!(ps.handle_panel_key(plain(KeyCode::F(5)), false), PanelCommand::Nothing));
}

#[test]
fn switch_mirror_and_load_other() {
    let mut ps = panels();
    assert!(matches!(ps.handle_panel_key(plain(KeyCode::Tab), false), PanelCommand::Redraw));
    assert!(!ps.active_left && ps.right.active && !ps.left.active);
    assert!(matches!(ps.handle_panel_key(chord(KeyCode::Char('i'), KeyMods::alt()), false), PanelCommand::ReloadBoth));
    assert_eq!(ps.left.cwd.to_text(), "local:/tmp");
    ps.handle_panel_key(plain(KeyCode::Tab), false);
    assert!(ps.active_left && ps.left.active && !ps.right.active);
    let mut ps = panels();
    ps.left.cursor = 1;
    ps.handle_panel_key(chord(KeyCode::Char('o'), KeyMods::alt()), false);
    assert_eq!(ps.right.cwd.to_text(), "local:/home/u/docs");
    ps.left.cursor = 2;
    ps.handle_panel_key(chord(KeyCode::Char('o'), KeyMods::alt()), false);
    assert_eq!(ps.right.cwd.to_text(), "local:/home");
}

#[test]
fn toggles_and_dialogs() {
    let mut ps = panels();
    assert!(matches!(ps.handle_panel_key(chord(KeyCode::Char('.'), KeyMods::ctrl()), false), PanelCommand::ReloadActive));
    assert!(ps.left.show_hidden);
    ps.handle_panel_key(chord(KeyCode::Char('s'), KeyMods::alt()), false);
    assert_eq!(ps.left.sort_by, mc_rs::action::SortKey::Extension);
    ps.handle_panel_key(chord(KeyCode::Char('r'), KeyMods::ctrl()), false);
    assert!(ps.left.reverse);
    assert!(matches!(
        ps.handle_panel_key(plain(KeyCode::F(7)), false),
        PanelCommand::OpenModal(ModalRequest::Mkdir)
    ));
    assert!(matches!(ps.handle_panel_key(plain(KeyCode::F(1)), false), PanelCommand::OpenModal(ModalRequest::Help)));
    assert!(matches!(ps.handle_panel_key(plain(KeyCode::Escape), true), PanelCommand::CloseModal));
    assert!(matches!(ps.handle_panel_key(plain(KeyCode::F(10)), false), PanelCommand::Quit));
    ps.left.cursor = 2;
    assert!(matches!(ps.handle_panel_key(plain(KeyCode::Insert), false), PanelCommand::Redraw));
}

#[test]
fn backspace_leaves_an_archive() {
    let cwd: VPath = "local:/x.tar!tar:/".parse().unwrap();
    let mut ps = Panels { left: PanelState::new(cwd), right: PanelState::new(VPath::local("/")), active_left: true };
    assert!(matches!(ps.handle_panel_key(plain(KeyCode::Backspace), false), PanelCommand::ReloadActive));
    assert_eq!(ps.left.cwd.to_text(), "local:/x.tar");
    let mut root = Panels { left: PanelState::new(VPath::local("/")), right: PanelState::new(VPath::local("/")), active_left: true };
    assert!(matches!(root.handle_panel_key(plain(KeyCode::Backspace), false), PanelCommand::Nothing));
}

fn sized(name: &str, size: u64) -> Entry {
    let mut e = entry(name, EntryKind::File);
    e.size = size;
    e
}

#[test]
fn select_and_unselect_groups() {
    let mut p = PanelState::new(VPath::local("/x"));
    p.entries = vec![entry("..", EntryKind::Dir), entry("a.txt", EntryKind::File), entry("B.TXT", EntryKind::File), entry("c.md", EntryKind::File)];
    p.select_group("*.txt", true);
    let mut m = p.marks.clone();
    m.sort();
    assert_eq!(m, vec!["B.TXT".to_string(), "a.txt".to_string()]);
    p.select_group("*", true);
    assert_eq!(p.marks.len(), 3);
    assert!(!p.marks.iter().any(|n| n == ".."));
    p.select_group("a*", false);
    let mut m = p.marks.clone();
    m.sort();
    assert_eq!(m, vec!["B.TXT".to_string(), "c.md".to_string()]);
}

#[test]
fn quick_search_moves_cursor() {
    let mut p = PanelState::new(VPath::local("/x"));
    p.entries = vec![entry("..", EntryKind::Dir), entry("Alpha", EntryKind::File), entry("beta", EntryKind::File)];
    p.quick_search("B");
    assert_eq!(p.cursor, 2);
    p.quick_search("al");
    assert_eq!(p.cursor, 1);
    p.quick_search("zz");
    assert_eq!(p.cursor, 1);
    p.quick_search("");
    assert_eq!(p.cursor, 1);
}

#[test]
fn quick_search_keys() {
    let mut ps = panels();
    let mut filter = String::new();
    assert_eq!(ps.quick_search_key(&mut filter, plain(KeyCode::Char('a'))), SearchStep::Searched);
    assert_eq!(filter, "a");
    assert_eq!(ps.left.cursor, 2);
    assert_eq!(ps.quick_search_key(&mut filter, chord(KeyCode::Char('D'), KeyMods::shift())), SearchStep::Searched);
    assert_eq!(filter, "aD");
    assert_eq!(ps.left.cursor, 2);
    assert_eq!(ps.quick_search_key(&mut filter, plain(KeyCode::Backspace)), SearchStep::Searched);
    assert_eq!(filter, "a");
    assert_eq!(ps.quick_search_key(&mut filter, chord(KeyCode::Char('x'), KeyMods::ctrl())), SearchStep::Unchanged);
    assert_eq!(ps.quick_search_key(&mut filter, plain(KeyCode::Enter)), SearchStep::Closed);
    assert_eq!(filter, "a");
}

#[test]
fn quick_cd_targets() {
    let cwd = VPath::local("/home/u");
    let home = Some("/home/u".to_string());
    assert_eq!(quick_cd_target(" /tmp ", home.clone(), &cwd).unwrap().to_text(), "local:/tmp");
    assert_eq!(quick_cd_target("~/src", home.clone(), &cwd).unwrap().to_text(), "local:/home/u/src");
    assert_eq!(quick_cd_target("~", None, &cwd).unwrap().to_text(), "local:/");
    assert_eq!(quick_cd_target("docs", home.clone(), &cwd).unwrap().to_text(), "local:/home/u/docs");
    assert_eq!(quick_cd_target("sftp://me@h/srv", home.clone(), &cwd).unwrap().to_text(), "sftp://me@h/srv");
    assert!(quick_cd_target("://x", home.clone(), &cwd).is_none());
    let remote: VPath = "sftp://me@h/srv".parse().unwrap();
    assert!(quick_cd_target("rel", home, &remote).is_none());
}

#[test]
fn bookmark_labels() {
    assert_eq!(hotlist_label("local:/home/me"), "me");
    assert_eq!(hotlist_label("c:\\dir\\x"), "x");
    assert_eq!(hotlist_label("plain"), "plain");
    assert_eq!(hotlist_label("local:/"), "");
}

#[test]
fn compare_marks_differing_files() {
    let mut left = PanelState::new(VPath::local("/a"));
    left.entries = vec![entry("..", EntryKind::Dir), sized("same", 3), sized("size", 4), sized("only", 1), entry("d", EntryKind::Dir)];
    let mut right = PanelState::new(VPath::local("/b"));
    right.entries = vec![sized("same", 3), sized("size", 5)];
    let mut ps = Panels { left, right, active_left: true };
    let mut hl = Hotlist::default();
    match ps.handle_ctrl_x(plain(KeyCode::Char('=')), &mut hl) {
        PanelCommand::Status { message } => assert_eq!(message, "Compare dirs: 2 files differ"),
        other => panic!("unexpected {other:?}"),
    }
    let mut m = ps.left.marks.clone();
    m.sort();
    assert_eq!(m, vec!["only".to_string(), "size".to_string()]);
    assert!(ps.right.marks.is_empty());
}

#[test]
fn ctrl_x_commands() {
    assert_eq!(classify_ctrl_x(plain(KeyCode::Char('='))), CtrlXKey::Compare);
    assert_eq!(classify_ctrl_x(chord(KeyCode::Char('='), KeyMods::shift())), CtrlXKey::Other);
    assert_eq!(classify_ctrl_x(chord(KeyCode::Char('C'), KeyMods::shift())), CtrlXKey::Chmod);
    assert_eq!(classify_ctrl_x(chord(KeyCode::Char('t'), KeyMods::ctrl())), CtrlXKey::Other);
    let mut ps = panels();
    let mut hl = Hotlist::default();
    assert!(matches!(ps.handle_ctrl_x(plain(KeyCode::Char('h')), &mut hl), PanelCommand::SaveHotlist));
    assert_eq!(hl.entries.len(), 1);
    assert_eq!(hl.entries[0].label, "u");
    assert_eq!(hl.entries[0].path, "local:/home/u");
    ps.left.cursor = 2;
    match ps.handle_ctrl_x(plain(KeyCode::Char('t')), &mut hl) {
        PanelCommand::CopyText { text, cwd_only } => {
            assert_eq!(text, "/home/u/a.txt");
            assert!(!cwd_only);
        }
        other => panic!("unexpected {other:?}"),
    }
    match ps.handle_ctrl_x(plain(KeyCode::Char('P')), &mut hl) {
        PanelCommand::CopyText { text, cwd_only } => {
            assert_eq!(text, "/home/u");
            assert!(cwd_only);
        }
        other => panic!("unexpected {other:?}"),
    }
    match ps.handle_ctrl_x(plain(KeyCode::Char('c')), &mut hl) {
        PanelCommand::OpenChmod { targets } => assert_eq!(texts(&targets), vec!["local:/home/u/a.txt"]),
        other => panic!("unexpected {other:?}"),
    }
    assert!(matches!(ps.handle_ctrl_x(plain(KeyCode::Char('d')), &mut hl), PanelCommand::OpenDiff));
    assert!(matches!(ps.handle_ctrl_x(plain(KeyCode::Char('z')), &mut hl), PanelCommand::Redraw));
    ps.left.cursor = 0;
    assert!(matches!(ps.handle_ctrl_x(plain(KeyCode::Char('c')), &mut hl), PanelCommand::Redraw));
}

#[test]
fn menu_choices_act_like_keys() {
    let mut ps = panels();
    let mut hl = Hotlist::default();
    assert!(matches!(ps.handle_menu_choice(MenuChoice::Quit, &mut hl), PanelCommand::Quit));
    assert!(matches!(ps.handle_menu_choice(MenuChoice::Find, &mut hl), PanelCommand::OpenModal(ModalRequest::FindFile)));
    ps.handle_menu_choice(MenuChoice::ToggleHidden, &mut hl);
    assert!(ps.left.show_hidden);
    ps.left.cursor = 2;
    assert!(matches!(ps.handle_menu_choice(MenuChoice::Copy, &mut hl), PanelCommand::SubmitCopy { .. }));
    assert!(matches!(ps.handle_menu_choice(MenuChoice::Chmod, &mut hl), PanelCommand::OpenChmod { .. }));
    assert!(matches!(ps.handle_menu_choice(MenuChoice::AddToHotlist, &mut hl), PanelCommand::SaveHotlist));
    assert_eq!(hl.entries.len(), 1);
}

#[test]
fn progress_dialog_keys() {
    assert_eq!(progress_key(KeyCode::Escape, false), ProgressStep::CancelJob);
    assert_eq!(progress_key(KeyCode::Escape, true), ProgressStep::Close);
    assert_eq!(progress_key(KeyCode::Enter, false), ProgressStep::Close);
    assert_eq!(progress_key(KeyCode::Char('x'), true), ProgressStep::Ignore);
}

fn session() -> Session {
    let mut ps = panels();
    ps.left.cursor = 2;
    Session { panels: ps, modal: Modal::Idle, hotlist: Hotlist::default() }
}

fn type_text(s: &mut Session, text: &str) {
    for c in text.chars() {
        s.handle_modal_key(plain(KeyCode::Char(c)), None);
    }
}

fn input(title: &str) -> InputDialog {
    InputDialog::new(title.into(), "?".into(), String::new())
}

#[test]
fn modal_input_dialogs_hand_on_their_text() {
    let mut s = session();
    s.modal = Modal::Mkdir(input(" Mkdir "));
    type_text(&mut s, "new");
    match s.handle_modal_key(plain(KeyCode::Enter), None) {
        PanelCommand::MakeDir { in_dir, name } => {
            assert_eq!(in_dir.to_text(), "local:/home/u");
            assert_eq!(name, "new");
        }
        other => panic!("unexpected {other:?}"),
    }
    assert!(matches!(s.modal, Modal::Idle));
    s.modal = Modal::CmdLine(input(" Command "));
    type_text(&mut s, "ls");
    match s.handle_modal_key(plain(KeyCode::Enter), None) {
        PanelCommand::RunShell { cwd, command } => {
            assert_eq!(cwd, "/home/u");
            assert_eq!(command, "ls");
        }
        other => panic!("unexpected {other:?}"),
    }
    s.modal = Modal::Rename(input(" Rename "), VPath::local("/home/u/a.txt"));
    assert!(matches!(s.handle_modal_key(plain(KeyCode::Escape), None), PanelCommand::Redraw));
    assert!(matches!(s.modal, Modal::Idle));
    assert!(matches!(s.handle_modal_key(plain(KeyCode::Enter), None), PanelCommand::Nothing));
}

#[test]
fn modal_chmod_retries_bad_modes() {
    let mut s = session();
    s.modal = Modal::Chmod { dlg: input(" Chmod "), targets: vec![VPath::local("/home/u/a.txt")] };
    type_text(&mut s, "99");
    assert!(matches!(s.handle_modal_key(plain(KeyCode::Enter), None), PanelCommand::Redraw));
    assert!(matches!(s.modal, Modal::Chmod { .. }));
    s.handle_modal_key(plain(KeyCode::Backspace), None);
    s.handle_modal_key(plain(KeyCode::Backspace), None);
    type_text(&mut s, "755");
    match s.handle_modal_key(plain(KeyCode::Enter), None) {
        PanelCommand::SetMode { targets, mode } => {
            assert_eq!(mode, 0o755);
            assert_eq!(texts(&targets), vec!["local:/home/u/a.txt"]);
        }
        other => panic!("unexpected {other:?}"),
    }
}

#[test]
fn modal_confirm_group_and_quick_cd() {
    let mut s = session();
    s.modal = Modal::DeleteConfirm(ConfirmDialog::new(" Delete ".into(), "?".into()), vec![VPath::local("/x")]);
    match s.handle_modal_key(plain(KeyCode::Char('y')), None) {
        PanelCommand::SubmitDelete { targets } => assert_eq!(texts(&targets), vec!["local:/x"]),
        other => panic!("unexpected {other:?}"),
    }
    s.modal = Modal::DeleteConfirm(ConfirmDialog::new(" Delete ".into(), "?".into()), vec![VPath::local("/x")]);
    assert!(matches!(s.handle_modal_key(plain(KeyCode::Char('n')), None), PanelCommand::Redraw));
    assert!(matches!(s.modal, Modal::Idle));
    s.modal = Modal::SelectGroup { dlg: input(" Select "), select: true };
    type_text(&mut s, "*.txt");
    s.handle_modal_key(plain(KeyCode::Enter), None);
    assert_eq!(s.panels.left.marks, vec!["a.txt".to_string()]);
    s.modal = Modal::QuickCd(input(" Quick cd "));
    type_text(&mut s, "~/src");
    assert!(matches!(s.handle_modal_key(plain(KeyCode::Enter), Some("/root".into())), PanelCommand::ReloadActive));
    assert_eq!(s.panels.left.cwd.to_text(), "local:/root/src");
}

#[test]
fn modal_prefix_progress_and_search() {
    let mut s = session();
    s.modal = Modal::PrefixCtrlX;
    assert!(matches!(s.handle_modal_key(plain(KeyCode::Char('d')), None), PanelCommand::OpenDiff));
    assert!(matches!(s.modal, Modal::Idle));
    s.show_progress(JobHandle { id: JobId(3) }, "Copy".into());
    assert!(!s.progress_finished());
    assert!(matches!(s.handle_modal_key(plain(KeyCode::Escape), None), PanelCommand::CancelJob));
    assert!(matches!(&s.modal, Modal::Progress(d) if d.finished.is_none() && d.handle.id == JobId(3)));
    assert!(matches!(s.handle_modal_key(plain(KeyCode::Char('x')), None), PanelCommand::Nothing));
    assert!(matches!(s.handle_modal_key(plain(KeyCode::Enter), None), PanelCommand::Redraw));
    assert!(matches!(s.modal, Modal::Idle));
    s.modal = Modal::QuickSearch(String::new());
    s.panels.left.cursor = 0;
    assert!(matches!(s.handle_modal_key(plain(KeyCode::Char('d')), None), PanelCommand::Redraw));
    assert_eq!(s.panels.left.cursor, 1);
    assert!(matches!(&s.modal, Modal::QuickSearch(f) if f == "d"));
    assert!(matches!(s.handle_modal_key(chord(KeyCode::Char('d'), KeyMods::ctrl()), None), PanelCommand::Nothing));
    assert!(matches!(s.handle_modal_key(plain(KeyCode::Escape), None), PanelCommand::Redraw));
    assert!(matches!(s.modal, Modal::Idle));
}

#[test]
fn modal_hotlist_menu_help_password() {
    let mut s = session();
    s.modal = Modal::Hotlist(HotlistDialog::new(Hotlist::default()));
    assert!(matches!(s.handle_modal_key(plain(KeyCode::Char('a')), None), PanelCommand::SaveHotlist));
    assert_eq!(s.hotlist.entries.len(), 1);
    assert!(matches!(s.modal, Modal::Hotlist(_)));
    s.panels.left.navigate(VPath::local("/elsewhere"));
    assert!(matches!(s.handle_modal_key(plain(KeyCode::Enter), None), PanelCommand::ReloadActive));
    assert_eq!(s.panels.left.cwd.to_text(), "local:/home/u");
    s.modal = Modal::Hotlist(HotlistDialog::new(s.hotlist.duplicate()));
    assert!(matches!(s.handle_modal_key(plain(KeyCode::Char('d')), None), PanelCommand::SaveHotlist));
    assert!(s.hotlist.entries.is_empty());
    s.modal = Modal::Help(HelpDialog::new());
    assert!(matches!(s.handle_modal_key(plain(KeyCode::Down), None), PanelCommand::Redraw));
    assert!(matches!(s.handle_modal_key(plain(KeyCode::Char('q')), None), PanelCommand::Redraw));
    assert!(matches!(s.modal, Modal::Idle));
    s.modal = Modal::Password { dlg: PasswordDialog::new(" Password ".into(), "?".into()), scheme: "sftp".into(), location: "me@h".into() };
    type_text(&mut s, "pw");
    match s.handle_modal_key(plain(KeyCode::Enter), None) {
        PanelCommand::RetryWithPassword { scheme, location, password } => {
            assert_eq!((scheme.as_str(), location.as_str(), password.as_str()), ("sftp", "me@h", "pw"));
        }
        other => panic!("unexpected {other:?}"),
    }
    s.modal = Modal::Menu(MenuBar::new());
    assert!(matches!(s.handle_modal_key(plain(KeyCode::Escape), None), PanelCommand::Redraw));
    assert!(matches!(s.modal, Modal::Idle));
}
