use mc_rs::action::SortKey;
use mc_rs::dialog::confirm::ConfirmDialog;
use mc_rs::dialog::copy_move::{CopyMoveSettingsDialog, CopyOptions};
use mc_rs::dialog::hotlist::{HotlistAction, HotlistDialog};
use mc_rs::dialog::input::InputDialog;
use mc_rs::dialog::layout::{LayoutConfig, LayoutDialog};
use mc_rs::dialog::learn_keys::LearnKeysDialog;
use mc_rs::dialog::menubar::{MenuBar, MenuChoice};
use mc_rs::dialog::options::OptionsDialog;
use mc_rs::dialog::password::PasswordDialog;
use mc_rs::dialog::theme::ThemeDialog;
use mc_rs::dialog::help::HelpDialog;
use mc_rs::dialog::jobs_view::{truncate, JobRow, JobsViewDialog};
use mc_rs::dialog::{DialogOutcome, MouseEvent, MouseKind, Rect};
use mc_rs::config::app::AppConfig;
use mc_rs::config::hotlist::Hotlist;
use mc_rs::entry::{Entry, EntryKind};
use mc_rs::glob::glob_match;
use mc_rs::key::{KeyChord, KeyCode, KeyMods};
use mc_rs::ops::{display_dst, next_sort, parse_chown, parse_chown_resolved, parse_octal_mode, vpath_to_local};
use mc_rs::panel::ListingMode;
use mc_rs::path::VPath;
use mc_rs::sort::sort_entries;
use mc_rs::subshell::{recorded_dir, shell_quote, ShellKind};

fn entry(name: &str, kind: EntryKind, size: u64) -> Entry {
    Entry {
        name: name.into(),
        kind,
        size,
        mtime: None,
        atime: None,
        ctime: None,
        mode: None,
        uid: None,
        gid: None,
        nlink: None,
        target: None,
    }
}

fn key(code: KeyCode) -> KeyChord {
    KeyChord::plain(code)
}

#[test]
fn glob_basic() {
    assert!(glob_match("*", "anything"));
    assert!(glob_match("*.txt", "foo.txt"));
    assert!(glob_match("*.txt", "FOO.TXT"));
    assert!(glob_match("?oo.txt", "foo.txt"));
    assert!(glob_match("foo*bar", "fooXYZbar"));
    assert!(!glob_match("*.txt", "foo.md"));
    assert!(!glob_match("foo", "bar"));
    assert!(glob_match("", ""));
    assert!(!glob_match("", "x"));
}

#[test]
fn basic() {
    assert!(glob_match("*", "anything"));
    assert!(glob_match("*.txt", "foo.txt"));
    assert!(glob_match("*.txt", "FOO.TXT"));
    assert!(glob_match("?oo.txt", "foo.txt"));
    assert!(glob_match("foo*bar", "fooXYZbar"));
    assert!(!glob_match("*.txt", "foo.md"));
    assert!(!glob_match("foo", "bar"));
    assert!(glob_match("", ""));
    assert!(!glob_match("", "x"));
}

#[test]
fn dirs_first_by_default() {
    let mut v = vec![entry("apple.txt", EntryKind::File, 1), entry("zoo", EntryKind::Dir, 0), entry("banana.txt", EntryKind::File, 2)];
    sort_entries(&mut v, SortKey::Name, false, false);
    assert_eq!(v[0].name, "zoo");
    assert_eq!(v[1].name, "apple.txt");
}

#[test]
fn parent_pinned_at_top() {
    let mut v = vec![entry("apple.txt", EntryKind::File, 1), entry("..", EntryKind::Dir, 0), entry("zoo", EntryKind::Dir, 0)];
    sort_entries(&mut v, SortKey::Name, true, false);
    assert_eq!(v[0].name, "..");
}

#[test]
fn reverse_swaps_order() {
    let mut v = vec![entry("a", EntryKind::File, 1), entry("b", EntryKind::File, 2)];
    sort_entries(&mut v, SortKey::Name, true, true);
    assert_eq!(v[0].name, "b");
}

#[test]
fn extension_sort() {
    let mut v = vec![entry("a.zzz", EntryKind::File, 0), entry("b.aaa", EntryKind::File, 0)];
    sort_entries(&mut v, SortKey::Extension, false, true);
    assert_eq!(v[0].name, "b.aaa");
}

#[test]
fn size_sort_is_stable() {
    let mut v = vec![entry("b", EntryKind::File, 2), entry("a", EntryKind::File, 1), entry("c", EntryKind::File, 1)];
    sort_entries(&mut v, SortKey::Size, false, true);
    let names: Vec<&str> = v.iter().map(|e| e.name.as_str()).collect();
    assert_eq!(names, ["a", "c", "b"]);
}

#[test]
fn shell_detect() {
    assert_eq!(ShellKind::from_path("/usr/bin/bash"), ShellKind::Bash);
    assert_eq!(ShellKind::from_path("/usr/local/bin/zsh"), ShellKind::Zsh);
    assert_eq!(ShellKind::from_path("/usr/bin/fish"), ShellKind::Fish);
    assert_eq!(ShellKind::from_path("/bin/sh"), ShellKind::Sh);
    assert_eq!(ShellKind::from_path("/opt/anything"), ShellKind::Sh);
}

#[test]
fn quoting() {
    assert_eq!(shell_quote("/tmp/foo"), "/tmp/foo");
    assert_eq!(shell_quote("a b"), "'a b'");
    assert_eq!(shell_quote("O'Brien"), r#"'O'\''Brien'"#);
}

#[test]
fn hooks_record_the_directory() {
    let (name, body) = ShellKind::Zsh.hook("/tmp/pwd file");
    assert_eq!(name, "zshrc");
    assert_eq!(body, "[ -f \"$HOME/.zshrc\" ] && . \"$HOME/.zshrc\"\nTRAPEXIT() { pwd > '/tmp/pwd file'; }\n");
    let (name, body) = ShellKind::Sh.hook("/tmp/p");
    assert_eq!(name, "bashrc");
    assert_eq!(body, "[ -f \"$HOME/.bashrc\" ] && . \"$HOME/.bashrc\"\ntrap 'pwd > /tmp/p' EXIT\n");
    let (name, body) = ShellKind::Fish.hook("/tmp/p");
    assert_eq!(name, "fish_init");
    assert_eq!(body, "function __mc_rs_on_exit --on-event fish_exit\n  pwd > /tmp/p\nend\n");
    assert_eq!(recorded_dir("/home/me\r\n"), "/home/me");
}

#[test]
fn sort_and_listing_cycles() {
    assert_eq!(next_sort(SortKey::Name), SortKey::Extension);
    assert_eq!(next_sort(SortKey::Ctime), SortKey::Unsorted);
    assert_eq!(next_sort(SortKey::Inode), SortKey::Name);
    assert_eq!(ListingMode::Full.next(), ListingMode::Brief);
    assert_eq!(ListingMode::Long.next().next(), ListingMode::Brief);
}

#[test]
fn octal_and_chown_input() {
    assert_eq!(parse_octal_mode(" 755 "), Some(0o755));
    assert_eq!(parse_octal_mode("7777"), Some(0o7777));
    assert_eq!(parse_octal_mode("10000"), None);
    assert_eq!(parse_octal_mode("9"), None);
    assert_eq!(parse_chown("1000:100"), Some((Some(1000), Some(100))));
    assert_eq!(parse_chown(" 1000 "), Some((Some(1000), None)));
    assert_eq!(parse_chown(":7"), Some((None, Some(7))));
    assert_eq!(parse_chown("   "), None);
    assert_eq!(parse_chown_resolved("alice:staff", Some(501), Some(20)), Some((Some(501), Some(20))));
    assert_eq!(parse_chown_resolved("alice:staff", None, Some(20)), None);
}

#[test]
fn local_paths_for_prompts() {
    let p = VPath::local("/srv/data");
    assert_eq!(vpath_to_local(&p), Some("/srv/data".to_string()));
    assert_eq!(display_dst(&p), "/srv/data");
    let r: VPath = "sftp://h/x".parse().unwrap();
    assert_eq!(vpath_to_local(&r), None);
    assert_eq!(display_dst(&r), "sftp://h/x");
}

#[test]
fn confirm_dialog_keys() {
    let mut d = ConfirmDialog::new("Delete".into(), "Really?".into());
    assert!(matches!(d.handle_key(key(KeyCode::Enter)), DialogOutcome::Submitted(false)));
    assert!(matches!(d.handle_key(key(KeyCode::Tab)), DialogOutcome::Open));
    assert!(matches!(d.handle_key(key(KeyCode::Enter)), DialogOutcome::Submitted(true)));
    assert!(matches!(d.handle_key(key(KeyCode::Char('n'))), DialogOutcome::Submitted(false)));
    assert!(matches!(d.handle_key(key(KeyCode::Escape)), DialogOutcome::Cancelled));
}

#[test]
fn password_dialog_keys() {
    let mut d = PasswordDialog::new("Login".into(), "Password:".into());
    d.handle_key(key(KeyCode::Char('a')));
    d.handle_key(KeyChord::new(KeyCode::Char('B'), KeyMods::shift()));
    d.handle_key(KeyChord::new(KeyCode::Char('c'), KeyMods::ctrl()));
    d.handle_key(key(KeyCode::Char('c')));
    d.handle_key(key(KeyCode::Backspace));
    match d.handle_key(key(KeyCode::Enter)) {
        DialogOutcome::Submitted(s) => assert_eq!(s, "aB"),
        _ => panic!("expected a submission"),
    }
    match d.handle_key(key(KeyCode::Enter)) {
        DialogOutcome::Submitted(s) => assert_eq!(s, ""),
        _ => panic!("expected a submission"),
    }
}

#[test]
fn input_dialog_edits_and_history() {
    let mut d = InputDialog::new("Mkdir".into(), "Name:".into(), "ac".into()).with_history(vec!["one".into(), "two".into()]);
    d.handle_key(key(KeyCode::Left));
    d.handle_key(key(KeyCode::Char('b')));
    d.handle_key(key(KeyCode::Home));
    d.handle_key(key(KeyCode::Delete));
    match d.handle_key(key(KeyCode::Enter)) {
        DialogOutcome::Submitted(s) => assert_eq!(s, "bc"),
        _ => panic!("expected a submission"),
    }
    d.handle_key(key(KeyCode::Up));
    match d.handle_key(key(KeyCode::Enter)) {
        DialogOutcome::Submitted(s) => assert_eq!(s, "two"),
        _ => panic!("expected a submission"),
    }
    d.handle_key(key(KeyCode::Up));
    d.handle_key(key(KeyCode::Up));
    match d.handle_key(key(KeyCode::Enter)) {
        DialogOutcome::Submitted(s) => assert_eq!(s, "one"),
        _ => panic!("expected a submission"),
    }
    d.handle_key(key(KeyCode::Down));
    d.handle_key(key(KeyCode::Down));
    match d.handle_key(key(KeyCode::Enter)) {
        DialogOutcome::Submitted(s) => assert_eq!(s, "bc"),
        _ => panic!("expected a submission"),
    }
    let mut e = InputDialog::new("t".into(), "p".into(), String::new());
    assert!(matches!(e.handle_key(key(KeyCode::Enter)), DialogOutcome::Cancelled));
}

#[test]
fn hotlist_dialog_keys() {
    let mut h = Hotlist::default();
    h.add("home".into(), "local:/home".into());
    h.add("tmp".into(), "local:/tmp".into());
    let mut d = HotlistDialog::new(h);
    d.handle_key(key(KeyCode::Down));
    d.handle_key(key(KeyCode::Down));
    match d.handle_key(key(KeyCode::Enter)) {
        DialogOutcome::Submitted(HotlistAction::Navigate(p)) => assert_eq!(p, "local:/tmp"),
        _ => panic!("expected navigation"),
    }
    assert!(matches!(d.handle_key(key(KeyCode::Char('d'))), DialogOutcome::Submitted(HotlistAction::Remove(1))));
    assert!(matches!(d.handle_key(key(KeyCode::Char('a'))), DialogOutcome::Submitted(HotlistAction::AddCurrent)));
    let mut empty = HotlistDialog::new(Hotlist::default());
    assert!(matches!(empty.handle_key(key(KeyCode::Delete)), DialogOutcome::Open));
    assert!(matches!(empty.handle_key(key(KeyCode::Enter)), DialogOutcome::Open));
}

#[test]
fn theme_dialog_keys() {
    let mut d = ThemeDialog::new("Tokyo-Night");
    match d.handle_key(key(KeyCode::Enter)) {
        DialogOutcome::Submitted(s) => assert_eq!(s, "tokyo-night"),
        _ => panic!("expected a theme"),
    }
    d.handle_key(key(KeyCode::End));
    d.handle_key(key(KeyCode::Down));
    match d.handle_key(key(KeyCode::Enter)) {
        DialogOutcome::Submitted(s) => assert_eq!(s, "solarized-light"),
        _ => panic!("expected a theme"),
    }
    let mut u = ThemeDialog::new("unknown");
    match u.handle_key(key(KeyCode::Enter)) {
        DialogOutcome::Submitted(s) => assert_eq!(s, "modern-dark"),
        _ => panic!("expected a theme"),
    }
}

#[test]
fn learn_keys_closes_on_double_escape() {
    let mut d = LearnKeysDialog::new();
    assert!(matches!(d.handle_key(key(KeyCode::Escape)), DialogOutcome::Open));
    assert!(matches!(d.handle_key(key(KeyCode::Escape)), DialogOutcome::Cancelled));
    let mut e = LearnKeysDialog::default();
    for _ in 0..40 {
        assert!(matches!(e.handle_key(key(KeyCode::Tab)), DialogOutcome::Open));
    }
}

#[test]
fn menubar_keys() {
    let mut m = MenuBar::new();
    assert!(matches!(m.handle_key(key(KeyCode::Enter)), DialogOutcome::Submitted(MenuChoice::View)));
    m.handle_key(key(KeyCode::Right));
    m.handle_key(key(KeyCode::Down));
    assert!(matches!(m.handle_key(key(KeyCode::Enter)), DialogOutcome::Submitted(MenuChoice::Hotlist)));
    m.handle_key(key(KeyCode::Right));
    m.handle_key(key(KeyCode::Right));
    for _ in 0..5 {
        m.handle_key(key(KeyCode::Down));
    }
    assert!(matches!(m.handle_key(key(KeyCode::Enter)), DialogOutcome::Submitted(MenuChoice::ToggleListingMode)));
    assert!(matches!(m.handle_key(key(KeyCode::F(9))), DialogOutcome::Cancelled));
}

#[test]
fn copy_move_dialog_keys() {
    let opts = CopyOptions { overwrite: false, preserve_attrs: true, follow_symlinks: false };
    let mut d = CopyMoveSettingsDialog::new("Copy".into(), "to:".into(), "/dst".into(), opts);
    d.handle_key(key(KeyCode::Char('2')));
    d.handle_key(key(KeyCode::Tab));
    d.handle_key(key(KeyCode::Char(' ')));
    d.handle_key(key(KeyCode::Char('x')));
    match d.handle_key(key(KeyCode::Enter)) {
        DialogOutcome::Submitted(s) => {
            assert_eq!(s.dst, "/dst2");
            assert_eq!(s.opts, CopyOptions { overwrite: true, preserve_attrs: true, follow_symlinks: false });
        },
        _ => panic!("expected settings"),
    }
    d.handle_key(key(KeyCode::BackTab));
    for _ in 0..5 {
        d.handle_key(key(KeyCode::Backspace));
    }
    assert!(matches!(d.handle_key(key(KeyCode::Enter)), DialogOutcome::Cancelled));
}

#[test]
fn layout_dialog_keys() {
    let mut d = LayoutDialog::new(LayoutConfig { vertical: false, left_pct: 98 });
    d.handle_key(key(KeyCode::Char(' ')));
    d.handle_key(key(KeyCode::Down));
    d.handle_key(key(KeyCode::Right));
    d.handle_key(key(KeyCode::Char('+')));
    match d.handle_key(key(KeyCode::Enter)) {
        DialogOutcome::Submitted(c) => assert_eq!(c, LayoutConfig { vertical: true, left_pct: 99 }),
        _ => panic!("expected a layout"),
    }
    let mut z = LayoutDialog::new(LayoutConfig { vertical: false, left_pct: 0 });
    match z.handle_key(key(KeyCode::Enter)) {
        DialogOutcome::Submitted(c) => assert_eq!(c.left_pct, 1),
        _ => panic!("expected a layout"),
    }
}

#[test]
fn options_dialog_applies_toggles() {
    let c = AppConfig::default();
    let mut d = OptionsDialog::configuration(&c);
    d.handle_key(key(KeyCode::Char(' ')));
    d.handle_key(key(KeyCode::Down));
    d.handle_key(key(KeyCode::Down));
    d.handle_key(key(KeyCode::Down));
    d.handle_key(key(KeyCode::Down));
    d.handle_key(key(KeyCode::Char(' ')));
    assert!(matches!(d.handle_key(key(KeyCode::Enter)), DialogOutcome::Submitted(())));
    let mut cfg = AppConfig::default();
    d.apply(&mut cfg);
    assert!(cfg.panels.show_hidden);
    assert!(!cfg.panels.mix_dirs);
    assert!(!cfg.options.use_internal_view);
    assert!(cfg.options.confirm_delete);
}

#[test]
fn osc52_escape_and_outcome() {
    assert_eq!(mc_rs::clipboard::osc52_sequence("hi"), "\x1b]52;c;aGk=\x1b\\");
    assert_eq!(mc_rs::clipboard::osc52_sequence("Man"), "\x1b]52;c;TWFu\x1b\\");
    assert_eq!(mc_rs::clipboard::osc52_sequence("é"), "\x1b]52;c;w6k=\x1b\\");
    assert_eq!(mc_rs::clipboard::copy_outcome(true, true), Some("clipboard"));
    assert_eq!(mc_rs::clipboard::copy_outcome(false, true), Some("OSC52"));
    assert_eq!(mc_rs::clipboard::copy_outcome(false, false), None);
}

fn screen(width: u16, height: u16) -> Rect {
    Rect { x: 0, y: 0, width, height }
}

fn click(kind: MouseKind, column: u16, row: u16) -> MouseEvent {
    MouseEvent { kind, column, row }
}

#[test]
fn help_dialog_scrolls_within_text() {
    let mut h = HelpDialog::new();
    let n = h.lines().len();
    assert_eq!(n, 64);
    assert_eq!(h.offset(), 0);
    assert!(matches!(h.handle_key(key(KeyCode::Up)), DialogOutcome::Open));
    assert_eq!(h.offset(), 0);
    assert!(matches!(h.handle_key(key(KeyCode::Char('j'))), DialogOutcome::Open));
    assert_eq!(h.offset(), 1);
    h.handle_key(key(KeyCode::PageDown));
    assert_eq!(h.offset(), 11);
    h.handle_key(key(KeyCode::End));
    assert_eq!(h.offset(), n - 1);
    h.handle_key(key(KeyCode::Down));
    assert_eq!(h.offset(), n - 1);
    h.handle_key(key(KeyCode::Char(' ')));
    assert_eq!(h.offset(), n - 1);
    h.handle_key(key(KeyCode::Backspace));
    assert_eq!(h.offset(), n - 11);
    h.handle_key(key(KeyCode::Home));
    assert_eq!(h.offset(), 0);
    h.handle_key(key(KeyCode::PageUp));
    assert_eq!(h.offset(), 0);
    assert!(matches!(h.handle_key(key(KeyCode::F(10))), DialogOutcome::Cancelled));
    assert!(matches!(h.handle_key(key(KeyCode::Char('q'))), DialogOutcome::Cancelled));
    assert!(matches!(h.handle_key(key(KeyCode::Escape)), DialogOutcome::Cancelled));
}

#[test]
fn help_rows_pad_keys_like_format() {
    let h = HelpDialog::new();
    let lines = h.lines();
    assert!(lines[0].bold.starts_with("mc-rs-tui"));
    assert_eq!(lines[1].bold, "");
    assert_eq!(lines[5].bold, "Function keys");
    assert_eq!(lines[6].bold, format!("  {:<14} ", "F1"));
    assert_eq!(lines[6].plain, "this help");
    let mut rows = 0;
    for l in lines {
        if !l.bold.is_empty() && !l.plain.is_empty() {
            let key = l.bold[2..].trim_end();
            assert_eq!(l.bold, format!("  {:<14} ", key));
            rows += 1;
        }
    }
    assert_eq!(rows, 48);
    assert_eq!(lines.last().unwrap().plain, "close");
}

#[test]
fn input_dialog_mouse_moves_cursor() {
    let area = screen(80, 24);
    let mut d = InputDialog::new("Mkdir".into(), "Name:".into(), "hello".into());
    // The prompt is 60 by 6 at (10, 9); the text row is 11, starting at column 11.
    assert!(matches!(d.handle_mouse(click(MouseKind::LeftDown, 13, 11), area), DialogOutcome::Open));
    d.handle_key(key(KeyCode::Char('X')));
    match d.handle_key(key(KeyCode::Enter)) {
        DialogOutcome::Submitted(v) => assert_eq!(v, "heXllo"),
        other => panic!("unexpected {other:?}"),
    }
    d.handle_mouse(click(MouseKind::LeftDown, 60, 11), area);
    d.handle_key(key(KeyCode::Char('!')));
    match d.handle_key(key(KeyCode::Enter)) {
        DialogOutcome::Submitted(v) => assert_eq!(v, "heXllo!"),
        other => panic!("unexpected {other:?}"),
    }
    assert!(matches!(d.handle_mouse(click(MouseKind::ScrollUp, 0, 0), area), DialogOutcome::Open));
    assert!(matches!(d.handle_mouse(click(MouseKind::LeftDown, 0, 0), area), DialogOutcome::Cancelled));
}

#[test]
fn theme_dialog_mouse_selects_then_picks() {
    let area = screen(80, 24);
    let mut d = ThemeDialog::new("modern-dark");
    // The picker is 40 by 7 at (20, 8); its first theme row is 9.
    assert!(matches!(d.handle_mouse(click(MouseKind::LeftDown, 30, 10), area), DialogOutcome::Open));
    match d.handle_mouse(click(MouseKind::LeftDown, 30, 10), area) {
        DialogOutcome::Submitted(v) => assert_eq!(v, "tokyo-night"),
        other => panic!("unexpected {other:?}"),
    }
    d.handle_mouse(click(MouseKind::ScrollDown, 30, 10), area);
    d.handle_mouse(click(MouseKind::ScrollDown, 0, 0), area);
    match d.handle_key(key(KeyCode::Enter)) {
        DialogOutcome::Submitted(v) => assert_eq!(v, "solarized-light"),
        other => panic!("unexpected {other:?}"),
    }
    assert!(matches!(d.handle_mouse(click(MouseKind::LeftDown, 30, 14), area), DialogOutcome::Open));
    assert!(matches!(d.handle_mouse(click(MouseKind::LeftDown, 0, 0), area), DialogOutcome::Cancelled));
}

#[test]
fn jobs_view_mouse_moves_cursor() {
    let row = |id: &str| JobRow { id_str: id.into(), description: "copy".into(), status: "running".into(), finished: false };
    let mut d = JobsViewDialog::new(vec![row("1"), row("2"), row("3")]);
    let area = screen(100, 30);
    // The list is 80 by 18 at (10, 6); its body starts at row 7.
    d.handle_mouse(click(MouseKind::LeftDown, 20, 9), area);
    assert_eq!(d.cursor_row(), 2);
    d.handle_mouse(click(MouseKind::LeftDown, 20, 12), area);
    assert_eq!(d.cursor_row(), 2);
    d.handle_mouse(click(MouseKind::ScrollUp, 20, 12), area);
    assert_eq!(d.cursor_row(), 1);
    d.handle_mouse(click(MouseKind::ScrollUp, 0, 0), area);
    assert_eq!(d.cursor_row(), 1);
    d.handle_mouse(click(MouseKind::LeftDown, 20, 6), area);
    assert_eq!(d.cursor_row(), 1);
    assert!(matches!(d.handle_mouse(click(MouseKind::LeftDown, 0, 0), area), DialogOutcome::Cancelled));
    assert!(matches!(d.handle_key(key(KeyCode::Char('q'))), DialogOutcome::Cancelled));
}

fn truncate_like_list(s: &str, n: usize) -> &str {
    let mut end = 0;
    for (i, _) in s.char_indices().take(n) {
        end = i;
    }
    if s.len() > end + 1 {
        let bound = s.char_indices().nth(n).map(|(i, _)| i).unwrap_or(s.len());
        &s[..bound]
    } else {
        s
    }
}

#[test]
fn job_descriptions_are_cut() {
    assert_eq!(truncate("copy /a/b", 4), "copy");
    assert_eq!(truncate("short", 32), "short");
    assert_eq!(truncate("a", 0), "a");
    assert_eq!(truncate("ab", 0), "");
    for s in ["", "a", "é", "ab", "héllo wörld", "日本語テキスト"] {
        for n in 0..8 {
            assert_eq!(truncate(s, n), truncate_like_list(s, n), "{s:?} {n}");
        }
    }
}

#[test]
fn confirmation_and_vfs_dialogs() {
    let mut c = AppConfig::default();
    c.options.confirm_delete = false;
    let mut d = OptionsDialog::confirmation(&c, true, false);
    // Flip "Confirm delete" back on, then apply.
    d.handle_key(key(KeyCode::Char(' ')));
    let mut cfg = AppConfig::default();
    cfg.options.confirm_delete = false;
    d.apply(&mut cfg);
    assert!(cfg.options.confirm_delete);
    assert!(cfg.options.confirm_overwrite);
    let mut v = OptionsDialog::vfs(30, "anon@".into());
    v.handle_key(key(KeyCode::Char('+')));
    v.handle_key(key(KeyCode::Down));
    v.handle_key(key(KeyCode::Char('x')));
    assert!(matches!(v.handle_key(key(KeyCode::Escape)), DialogOutcome::Cancelled));
}
