use std::path::PathBuf;

use mc_rs::entry::{Entry, EntryKind};
use mc_rs::fspath::parent_of;
use mc_rs::ops::{default_link_name, display_basename, panelize_paths, parent_path, parse_dst, rename_target};
use mc_rs::config::filehighlight::FileHighlight;
use mc_rs::panel::{entry_style, line_style, LineStyle, PanelColor, PanelState};
use mc_rs::path::VPath;

fn entry(name: &str, kind: EntryKind) -> Entry {
    Entry {
        name: name.into(),
        kind,
        size: 0,
        mtime: None,
        atime: None,
        ctime: None,
        mode: None,
        uid: None,
        gid: None,
        nlink: None,
        target: None,
    }
}

fn std_pop(s: &str) -> Option<String> {
    let mut p = PathBuf::from(s);
    if p.pop() {
        Some(p.to_str().unwrap().to_string())
    } else {
        None
    }
}

#[test]
fn parent_of_matches_pathbuf_pop() {
    let cases = [
        "", "/", "//", "/a", "/a/", "/a/b", "/a/b/", "/a//b", "/a/./b", "/a/b/.", "/a/b/./",
        "a", "a/", "a/b", "a/b/c", ".", "./", "./a", "./a/b", "..", "../a", "a/..", "/..", "/.",
        "/./a", ".a", ".a/b", "a/.b", "a/./", "./.", "a/b//.//", "/tmp/ü/ñ", "x/y/z/",
    ];
    for c in cases {
        assert_eq!(parent_of(c), std_pop(c), "parent of {c:?}");
    }
}

#[test]
fn parent_of_examples() {
    assert_eq!(parent_of("/foo/bar").as_deref(), Some("/foo"));
    assert_eq!(parent_of("/foo").as_deref(), Some("/"));
    assert_eq!(parent_of("/"), None);
    assert_eq!(parent_of(""), None);
    assert_eq!(parent_of("foo").as_deref(), Some(""));
    assert_eq!(parent_of(".").as_deref(), Some(""));
}

#[test]
fn parent_path_replaces_innermost_sub() {
    let p: VPath = "local:/a.tar!tar:/dir/file".parse().unwrap();
    let q = parent_path(&p).unwrap();
    assert_eq!(q.to_text(), "local:/a.tar!tar:/dir");
    let r = parent_path(&q).unwrap();
    assert_eq!(r.to_text(), "local:/a.tar!tar:/");
    assert!(parent_path(&r).is_none());
    assert!(parent_path(&VPath::new(Vec::new())).is_none());
}

#[test]
fn cursor_path_follows_entry() {
    let mut p = PanelState::new(VPath::local("/home/u"));
    p.entries = vec![entry("..", EntryKind::Dir), entry("docs", EntryKind::Dir)];
    p.cursor = 0;
    assert_eq!(p.cursor_path().unwrap().to_text(), "local:/home");
    p.cursor = 1;
    assert_eq!(p.cursor_path().unwrap().to_text(), "local:/home/u/docs");
    p.cursor = 2;
    assert!(p.cursor_path().is_none());
    let mut root = PanelState::new(VPath::local("/"));
    root.entries = vec![entry("..", EntryKind::Dir)];
    assert!(root.cursor_path().is_none());
}

#[test]
fn back_undoes_navigate() {
    let mut p = PanelState::new(VPath::local("/a"));
    p.navigate(VPath::local("/b"));
    assert_eq!(p.cwd.to_text(), "local:/b");
    assert!(p.history_back());
    assert_eq!(p.cwd.to_text(), "local:/a");
    assert_eq!(p.history_pos, 0);
    assert!(!p.history_back());
    assert!(p.history_fwd());
    assert_eq!(p.cwd.to_text(), "local:/b");
    assert!(!p.history_fwd());
}

#[test]
fn navigate_drops_forward_history() {
    let mut p = PanelState::new(VPath::local("/a"));
    p.navigate(VPath::local("/b"));
    p.navigate(VPath::local("/c"));
    assert!(p.history_back());
    assert!(p.history_back());
    p.navigate(VPath::local("/d"));
    assert_eq!(p.history.len(), 2);
    assert!(!p.history_fwd());
    assert!(p.history_back());
    assert_eq!(p.cwd.to_text(), "local:/a");
}

#[test]
fn filter_sort_hides_dotfiles_and_clamps_cursor() {
    let mut p = PanelState::new(VPath::local("/x"));
    p.entries = vec![
        entry("b.txt", EntryKind::File),
        entry(".hidden", EntryKind::File),
        entry("..", EntryKind::Dir),
        entry("adir", EntryKind::Dir),
    ];
    p.cursor = 3;
    p.apply_filter_sort();
    let names: Vec<&str> = p.entries.iter().map(|e| e.name.as_str()).collect();
    assert_eq!(names, vec!["..", "adir", "b.txt"]);
    assert_eq!(p.cursor, 2);
    p.show_hidden = true;
    p.entries.push(entry(".rc", EntryKind::File));
    p.apply_filter_sort();
    let names: Vec<&str> = p.entries.iter().map(|e| e.name.as_str()).collect();
    assert_eq!(names, vec!["..", "adir", ".rc", "b.txt"]);
}

#[test]
fn toggle_mark_skips_parent_and_moves_down() {
    let mut p = PanelState::new(VPath::local("/x"));
    p.entries = vec![entry("..", EntryKind::Dir), entry("f", EntryKind::File), entry("g", EntryKind::File)];
    p.cursor = 0;
    p.toggle_mark();
    assert!(p.marks.is_empty());
    assert_eq!(p.cursor, 0);
    p.cursor = 1;
    p.toggle_mark();
    assert_eq!(p.marks, vec!["f".to_string()]);
    assert_eq!(p.cursor, 2);
    p.cursor = 1;
    p.toggle_mark();
    assert!(p.marks.is_empty());
}

#[test]
fn parent_path_pops_segment() {
    let p = VPath::local("/a/b/c");
    let parent = parent_path(&p).unwrap();
    assert_eq!(parent.last().unwrap().sub.as_str(), "/a/b");
}

#[test]
fn long_listing_mode_column() {
    let mut e = entry("x", EntryKind::Dir);
    e.mode = Some(0o755);
    assert_eq!(mc_rs::panel::unix_mode_str(&e), "drwxr-xr-x");
    let mut f = entry("y", EntryKind::File);
    f.mode = Some(0o640);
    assert_eq!(mc_rs::panel::unix_mode_str(&f), "-rw-r-----");
    let l = entry("z", EntryKind::Symlink);
    assert_eq!(mc_rs::panel::unix_mode_str(&l), "l---------");
    let mut s = entry("s", EntryKind::Socket);
    s.mode = Some(0o7777);
    assert_eq!(mc_rs::panel::unix_mode_str(&s), "srwxrwxrwx");
}

#[test]
fn copy_destinations() {
    let cwd = VPath::local("/home/u");
    assert_eq!(parse_dst("  sftp://me@h/srv ", &cwd).unwrap().to_text(), "sftp://me@h/srv");
    assert_eq!(parse_dst("local:/x", &cwd).unwrap().to_text(), "local:/x");
    assert_eq!(parse_dst("/tmp/t", &cwd).unwrap().to_text(), "local:/tmp/t");
    assert_eq!(parse_dst("sub/dir", &cwd).unwrap().to_text(), "local:/home/u/sub/dir");
    assert!(parse_dst("   ", &cwd).is_none());
    let inside: VPath = "local:/a.tar!tar:/d".parse().unwrap();
    assert!(parse_dst("rel", &inside).is_none());
}

#[test]
fn names_for_prompts() {
    assert_eq!(display_basename(&VPath::local("/a/b.txt")), "b.txt");
    assert_eq!(display_basename(&VPath::local("/")), "local:/");
    assert_eq!(default_link_name(&VPath::local("/a/b.txt")), "/a/b.txt_link");
    assert_eq!(default_link_name(&VPath::local("file")), "file_link");
    assert_eq!(default_link_name(&VPath::local("/")), "_link");
    assert_eq!(default_link_name(&VPath::new(Vec::new())), "");
}

fn style(fg: PanelColor, bold: bool) -> LineStyle {
    LineStyle { fg, bg: PanelColor::Blue, bold }
}

#[test]
fn entry_styles_by_kind_mode_and_group() {
    let h = FileHighlight::defaults();
    assert_eq!(entry_style(&entry("src", EntryKind::Dir), &h), style(PanelColor::White, true));
    assert_eq!(entry_style(&entry("l", EntryKind::Symlink), &h), style(PanelColor::Cyan, false));
    assert_eq!(entry_style(&entry("p", EntryKind::Fifo), &h), style(PanelColor::Magenta, false));
    assert_eq!(entry_style(&entry("sda", EntryKind::BlockDevice), &h), style(PanelColor::Yellow, false));
    let mut exe = entry("run.tar.gz", EntryKind::File);
    exe.mode = Some(0o755);
    assert_eq!(entry_style(&exe, &h), style(PanelColor::Green, false));
    assert_eq!(entry_style(&entry("a.tar.gz", EntryKind::File), &h), style(PanelColor::Red, false));
    assert_eq!(entry_style(&entry("A.PNG", EntryKind::File), &h), style(PanelColor::Magenta, false));
    assert_eq!(entry_style(&entry("main.rs", EntryKind::File), &h), style(PanelColor::LightCyan, false));
    assert_eq!(entry_style(&entry("notes", EntryKind::File), &h), style(PanelColor::White, false));
    assert_eq!(entry_style(&entry("x", EntryKind::Other), &h), style(PanelColor::White, false));
}

#[test]
fn line_style_marks_then_cursor() {
    let h = FileHighlight::defaults();
    let e = entry("main.rs", EntryKind::File);
    assert_eq!(line_style(&e, &h, false, true), style(PanelColor::Yellow, true));
    assert_eq!(
        line_style(&e, &h, true, true),
        LineStyle { fg: PanelColor::Black, bg: PanelColor::Cyan, bold: true }
    );
    assert_eq!(
        line_style(&e, &h, true, false),
        LineStyle { fg: PanelColor::Black, bg: PanelColor::Cyan, bold: false }
    );
}

#[test]
fn rename_goes_next_to_the_source() {
    assert_eq!(rename_target(&VPath::local("/a/b.txt"), "c.txt").unwrap().to_text(), "local:/a/c.txt");
    assert!(rename_target(&VPath::local("/"), "x").is_none());
}

#[test]
fn external_panelize_paths() {
    assert_eq!(
        panelize_paths("/home/u", "a.txt\n  /etc/passwd \r\n\n   \nsub/b\n"),
        vec!["/home/u/a.txt", "/etc/passwd", "/home/u/sub/b"]
    );
    assert!(panelize_paths("/x", "").is_empty());
}

#[test]
fn directory_sizes_and_panelize() {
    let mut p = PanelState::new(VPath::local("/d"));
    p.entries = vec![entry("..", EntryKind::Dir), entry("a", EntryKind::Dir), entry("f", EntryKind::File), entry("b", EntryKind::Dir)];
    assert_eq!(p.dirs_to_measure(), vec!["a".to_string(), "b".to_string()]);
    p.apply_dir_sizes(&vec![("b".to_string(), 7), ("a".to_string(), 3), ("b".to_string(), 9)]);
    assert_eq!(p.entries[1].size, 3);
    assert_eq!(p.entries[3].size, 7);
    assert_eq!(p.entries[2].size, 0);
    p.cursor = 2;
    p.view_offset = 1;
    p.panelize(vec![entry("/x/y", EntryKind::File)]);
    assert_eq!(p.entries.len(), 1);
    assert_eq!((p.cursor, p.view_offset), (0, 0));
}
