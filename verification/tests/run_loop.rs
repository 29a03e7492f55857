use mc_rs::commander::{PanelCommand, Panels};
use mc_rs::config::hotlist::Hotlist;
use mc_rs::config::keymap::{Keymap, KeymapFile, RemapEntry};
use mc_rs::dialog::{MouseEvent, MouseKind, Rect};
use mc_rs::entry::{Entry, EntryKind};
use mc_rs::jobs::{JobId, JobLog, JobOutcome, JobUpdate, JobUpdateKind};
use mc_rs::key::{KeyChord, KeyCode, KeyMods};
use mc_rs::modal::{Modal, Session};
use mc_rs::mouse::{ClickMemory, ScreenAreas};
use mc_rs::panel::PanelState;
use mc_rs::path::VPath;
use mc_rs::run_loop::{loop_step, LoopAction, LoopEvent};

fn entry(name: &str) -> Entry {
    Entry {
        name: name.into(),
        kind: EntryKind::File,
        size: 0,
        mtime: None,
        atime: None,
        ctime: None,
        mode: None,
        uid: None,
        gid: None,
        nlink: None,
        target: None,
    }
}

fn session() -> Session {
    let mut left = PanelState::new(VPath::local("/home/u"));
    left.entries = vec![entry("a"), entry("b"), entry("c")];
    left.active = true;
    let right = PanelState::new(VPath::local("/tmp"));
    Session { panels: Panels { left, right, active_left: true }, modal: Modal::Idle, hotlist: Hotlist::default() }
}

fn areas() -> ScreenAreas {
    ScreenAreas {
        frame: Rect { x: 0, y: 0, width: 80, height: 24 },
        buttonbar: Rect { x: 0, y: 23, width: 80, height: 1 },
        left_body: Rect { x: 1, y: 2, width: 38, height: 18 },
        right_body: Rect { x: 41, y: 2, width: 38, height: 18 },
        buttons: vec![],
    }
}

fn step(s: &mut Session, log: &mut JobLog, km: &Keymap, ev: LoopEvent) -> LoopAction {
    loop_step(s, log, km, None, ev, &areas())
}

#[test]
fn quit_key_leaves_the_loop_even_when_remapped() {
    let mut s = session();
    let mut log = JobLog::new();
    let ctrl_q = KeyChord::new(KeyCode::Char('q'), KeyMods::ctrl());
    assert!(matches!(step(&mut s, &mut log, &Keymap::default(), LoopEvent::Key(ctrl_q)), LoopAction::Stop));
    let km = Keymap::from_file(&KeymapFile { remap: vec![RemapEntry { from: "F2".into(), to: "C-q".into() }] });
    let f2 = KeyChord::plain(KeyCode::F(2));
    assert!(matches!(step(&mut s, &mut log, &km, LoopEvent::Key(f2)), LoopAction::Stop));
}

#[test]
fn keys_move_the_cursor_and_hand_on_the_command() {
    let mut s = session();
    let mut log = JobLog::new();
    let down = KeyChord::plain(KeyCode::Down);
    let r = step(&mut s, &mut log, &Keymap::default(), LoopEvent::Key(down));
    assert!(matches!(r, LoopAction::Command(PanelCommand::Redraw, ClickMemory::Keep)));
    assert_eq!(s.panels.left.cursor, 1);
}

#[test]
fn unhandled_mouse_kinds_and_ticks_wait() {
    let mut s = session();
    let mut log = JobLog::new();
    let km = Keymap::default();
    let m = MouseEvent { kind: MouseKind::Other, column: 5, row: 5 };
    assert!(matches!(step(&mut s, &mut log, &km, LoopEvent::Mouse(m, false)), LoopAction::Wait));
    assert!(matches!(step(&mut s, &mut log, &km, LoopEvent::Tick), LoopAction::Wait));
    assert!(matches!(step(&mut s, &mut log, &km, LoopEvent::OtherInput), LoopAction::Wait));
    assert_eq!(s.panels.left.cursor, 0);
}

#[test]
fn input_end_or_error_stops() {
    let mut s = session();
    let mut log = JobLog::new();
    let km = Keymap::default();
    assert!(matches!(step(&mut s, &mut log, &km, LoopEvent::InputEnd), LoopAction::Stop));
    assert!(matches!(step(&mut s, &mut log, &km, LoopEvent::InputError), LoopAction::Stop));
    assert!(matches!(step(&mut s, &mut log, &km, LoopEvent::Resize), LoopAction::Redraw));
}

#[test]
fn watcher_and_search_events() {
    let mut s = session();
    let mut log = JobLog::new();
    let km = Keymap::default();
    assert!(matches!(step(&mut s, &mut log, &km, LoopEvent::DirectoryChanged), LoopAction::ReloadActive));
    assert!(matches!(step(&mut s, &mut log, &km, LoopEvent::FindProgress), LoopAction::Redraw));
    assert!(matches!(
        step(&mut s, &mut log, &km, LoopEvent::FindDone { panelize: true, hits: 2 }),
        LoopAction::PanelizeHits
    ));
    assert!(matches!(step(&mut s, &mut log, &km, LoopEvent::FindDone { panelize: true, hits: 0 }), LoopAction::Redraw));
    assert!(matches!(step(&mut s, &mut log, &km, LoopEvent::FindDone { panelize: false, hits: 5 }), LoopAction::Redraw));
}

#[test]
fn a_finished_job_reloads_both_panels() {
    let mut s = session();
    let mut log = JobLog::new();
    let km = Keymap::default();
    let start = JobUpdate { id: JobId(7), kind: JobUpdateKind::Started { description: "Copy".into() } };
    assert!(matches!(step(&mut s, &mut log, &km, LoopEvent::Job(start)), LoopAction::Redraw));
    let done = JobUpdate { id: JobId(7), kind: JobUpdateKind::Finished(JobOutcome::Success) };
    assert!(matches!(step(&mut s, &mut log, &km, LoopEvent::Job(done)), LoopAction::ReloadBoth));
    assert_eq!(log.len(), 1);
    assert_eq!(log.row(0).status, "done");
}

#[test]
fn paste_goes_to_the_dialog() {
    let mut s = session();
    s.modal = Modal::QuickSearch(String::new());
    let mut log = JobLog::new();
    let r = step(&mut s, &mut log, &Keymap::default(), LoopEvent::Paste("ab".into()));
    assert!(matches!(r, LoopAction::Redraw));
}
