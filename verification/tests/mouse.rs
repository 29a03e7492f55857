use mc_rs::commander::{PanelCommand, Panels};
use mc_rs::config::hotlist::Hotlist;
use mc_rs::dialog::input::InputDialog;
use mc_rs::dialog::{MouseEvent, MouseKind, Rect};
use mc_rs::entry::{Entry, EntryKind};
use mc_rs::modal::{Modal, Session};
use mc_rs::mouse::{ButtonSegment, ClickMemory, ScreenAreas};
use mc_rs::panel::PanelState;
use mc_rs::path::VPath;

fn entry(name: &str, kind: EntryKind) -> Entry {
    Entry {
        name: name.into(),
        kind,
        size: 0,
        mtime: None,
        atime: None,
        ctime: None,
        mode: None,
        uid: None,
        gid: None,
        nlink: None,
        target: None,
    }
}

fn session() -> Session {
    let mut left = PanelState::new(VPath::local("/home/u"));
    left.entries = vec![
        entry("..", EntryKind::Dir),
        entry("docs", EntryKind::Dir),
        entry("a.txt", EntryKind::File),
        entry("b.txt", EntryKind::File),
        entry("c.txt", EntryKind::File),
    ];
    left.active = true;
    let mut right = PanelState::new(VPath::local("/tmp"));
    right.entries = vec![entry("..", EntryKind::Dir), entry("x", EntryKind::File)];
    Session { panels: Panels { left, right, active_left: true }, modal: Modal::Idle, hotlist: Hotlist::default() }
}

fn areas() -> ScreenAreas {
    ScreenAreas {
        frame: Rect { x: 0, y: 0, width: 80, height: 24 },
        buttonbar: Rect { x: 0, y: 23, width: 80, height: 1 },
        left_body: Rect { x: 1, y: 2, width: 38, height: 18 },
        right_body: Rect { x: 41, y: 2, width: 38, height: 18 },
        buttons: vec![ButtonSegment { x: 0, w: 8, fkey: 1 }, ButtonSegment { x: 8, w: 8, fkey: 2 }],
    }
}

fn redraw(r: (PanelCommand, ClickMemory), mem: ClickMemory) -> bool {
    matches!(r.0, PanelCommand::Redraw) && r.1 == mem
}

fn nothing(r: (PanelCommand, ClickMemory)) -> bool {
    matches!(r.0, PanelCommand::Nothing) && r.1 == ClickMemory::Keep
}

fn ev(kind: MouseKind, column: u16, row: u16) -> MouseEvent {
    MouseEvent { kind, column, row }
}

#[test]
fn wheel_moves_the_panel_under_the_pointer() {
    let mut s = session();
    let a = areas();
    assert!(redraw(s.handle_mouse(ev(MouseKind::ScrollDown, 5, 5), &a, false), ClickMemory::Keep));
    assert_eq!(s.panels.left.cursor, 3);
    s.handle_mouse(ev(MouseKind::ScrollDown, 5, 5), &a, false);
    assert_eq!(s.panels.left.cursor, 4);
    s.handle_mouse(ev(MouseKind::ScrollUp, 5, 5), &a, false);
    assert_eq!(s.panels.left.cursor, 1);
    s.handle_mouse(ev(MouseKind::ScrollDown, 50, 5), &a, false);
    assert_eq!(s.panels.right.cursor, 1);
    assert!(s.panels.active_left);
    // Off both listings, the active panel turns.
    s.handle_mouse(ev(MouseKind::ScrollUp, 40, 0), &a, false);
    assert_eq!(s.panels.left.cursor, 0);
}

#[test]
fn clicks_focus_select_tag_and_open() {
    let mut s = session();
    let a = areas();
    // Left click on the right listing's second row: focus moves, cursor set.
    assert!(redraw(s.handle_mouse(ev(MouseKind::LeftDown, 45, 3), &a, false), ClickMemory::Remember));
    assert!(!s.panels.active_left);
    assert!(s.panels.right.active && !s.panels.left.active);
    assert_eq!(s.panels.right.cursor, 1);
    // Past the last entry: only the focus changes.
    assert!(redraw(s.handle_mouse(ev(MouseKind::LeftDown, 5, 15), &a, false), ClickMemory::Keep));
    assert!(s.panels.active_left);
    // Right click tags the entry and moves on.
    assert!(redraw(s.handle_mouse(ev(MouseKind::RightDown, 5, 4), &a, false), ClickMemory::Keep));
    assert_eq!(s.panels.left.marks, vec!["a.txt".to_string()]);
    assert_eq!(s.panels.left.cursor, 3);
    // A double click on the cursor's entry opens it.
    s.handle_mouse(ev(MouseKind::LeftDown, 5, 3), &a, false);
    let (c, m) = s.handle_mouse(ev(MouseKind::LeftDown, 5, 3), &a, true);
    assert_eq!(m, ClickMemory::Forget);
    assert!(matches!(c, PanelCommand::ReloadActive));
    assert_eq!(s.panels.left.cwd.to_text(), "local:/home/u/docs");
}

#[test]
fn button_bar_presses_function_keys() {
    let mut s = session();
    let a = areas();
    let (c, m) = s.handle_mouse(ev(MouseKind::LeftDown, 3, 23), &a, false);
    assert!(matches!(c, PanelCommand::OpenModal(_)));
    assert_eq!(m, ClickMemory::Keep);
    assert!(nothing(s.handle_mouse(ev(MouseKind::LeftDown, 60, 23), &a, false)));
}

#[test]
fn dialogs_take_clicks() {
    let mut s = session();
    let a = areas();
    s.modal = Modal::Mkdir(InputDialog::new(" Mkdir ".into(), "Name:".into(), "new".into()));
    // Outside the dialog: cancelled.
    assert!(redraw(s.handle_mouse(ev(MouseKind::LeftDown, 0, 0), &a, false), ClickMemory::Keep));
    assert!(matches!(s.modal, Modal::Idle));
    s.modal = Modal::QuickSearch("a".into());
    assert!(matches!(s.handle_modal_mouse(ev(MouseKind::LeftDown, 0, 0), a.frame), PanelCommand::Nothing));
    assert!(matches!(&s.modal, Modal::QuickSearch(f) if f == "a"));
    s.modal = Modal::PrefixCtrlX;
    assert!(matches!(s.handle_modal_mouse(ev(MouseKind::LeftDown, 0, 0), a.frame), PanelCommand::Nothing));
    assert!(matches!(s.modal, Modal::Idle));
}

#[test]
fn overflowing_clicks_are_detected() {
    let mut s = session();
    let a = areas();
    s.panels.left.cursor = usize::MAX - 1;
    assert!(s.click_would_overflow(ev(MouseKind::ScrollDown, 5, 5), &a));
    assert!(!s.click_would_overflow(ev(MouseKind::ScrollUp, 5, 5), &a));
    s.panels.left.view_offset = usize::MAX;
    assert!(s.click_would_overflow(ev(MouseKind::LeftDown, 5, 4), &a));
}
