use mc_rs::key::{KeyChord, KeyCode, KeyMods};
use mc_rs::ui::ViewerMode;
use mc_rs::viewer::{decode_lines, encoding_name, hex_chars, hex_line_of, split_lines, ViewerWidget, VIEWER_MAX_BYTES};

fn key(code: KeyCode) -> KeyChord {
    KeyChord { code, mods: KeyMods::empty() }
}

fn viewer(text: &str) -> ViewerWidget {
    let bytes = text.as_bytes().to_vec();
    let n = bytes.len() as u64;
    ViewerWidget::new("f.txt".into(), bytes, n)
}

#[test]
fn splits_lines_like_split_inclusive() {
    assert_eq!(split_lines(""), Vec::<String>::new());
    assert_eq!(split_lines("a"), vec!["a"]);
    assert_eq!(split_lines("a\n"), vec!["a"]);
    assert_eq!(split_lines("a\n\nb"), vec!["a", "", "b"]);
    assert_eq!(split_lines("\n"), vec![""]);
    assert_eq!(split_lines("a\n\n"), vec!["a", ""]);
}

#[test]
fn decodes_in_each_encoding() {
    assert_eq!(decode_lines("héllo\nx".as_bytes(), 0), vec!["héllo", "x"]);
    assert_eq!(decode_lines(&[0x68, 0xe9], 1), vec!["hé"]);
    assert_eq!(decode_lines(&[0x68, 0x00, 0x69, 0x00], 6), vec!["hi"]);
    assert_eq!(encoding_name(5), "Shift_JIS");
}

#[test]
fn new_viewer_and_truncation() {
    let v = ViewerWidget::new("big".into(), vec![b'a'; 4], VIEWER_MAX_BYTES as u64 + 1);
    assert_eq!(v.frame_title(), " View [TEXT UTF-8] big (truncated) ");
    let w = viewer("x");
    assert_eq!(w.frame_title(), " View [TEXT UTF-8] f.txt ");
    assert_eq!(w.mode(), ViewerMode::Text);
    assert_eq!(w.offset(), 0);
}

#[test]
fn scrolls_and_closes() {
    let mut v = viewer("a\nb\nc\n");
    assert!(v.handle_key(key(KeyCode::Down)));
    assert!(v.handle_key(key(KeyCode::Char('j'))));
    assert_eq!(v.offset(), 2);
    assert!(v.handle_key(key(KeyCode::PageUp)));
    assert_eq!(v.offset(), 0);
    assert!(v.handle_key(key(KeyCode::PageDown)));
    assert_eq!(v.offset(), 20);
    assert_eq!(v.text_lines_in_view(5), vec!["c"]);
    assert!(v.handle_key(key(KeyCode::Home)));
    assert_eq!(v.text_lines_in_view(2), vec!["a", "b"]);
    assert!(v.handle_key(key(KeyCode::End)));
    assert_eq!(v.offset(), usize::MAX);
    assert!(v.key_overflows(key(KeyCode::Down)));
    assert!(!v.key_overflows(key(KeyCode::Up)));
    assert!(v.handle_key(key(KeyCode::F(4))));
    assert_eq!(v.mode(), ViewerMode::Hex);
    assert!(!v.handle_key(key(KeyCode::Char('q'))));
    assert!(!v.handle_key(key(KeyCode::Escape)));
}

#[test]
fn searches_case_insensitively() {
    let mut v = viewer("alpha\nBeta\ngamma\nbeta two\n");
    assert!(v.handle_key(key(KeyCode::Char('/'))));
    assert_eq!(v.search_prompt(), Some(("", true)));
    for c in "BEX".chars() {
        assert!(v.handle_key(key(KeyCode::Char(c))));
    }
    assert!(v.handle_key(key(KeyCode::Backspace)));
    assert_eq!(v.search_prompt(), Some(("BE", true)));
    // Typing keys do not scroll or close.
    assert!(v.handle_key(key(KeyCode::Char('q'))));
    assert!(v.handle_key(key(KeyCode::Backspace)));
    assert!(v.handle_key(key(KeyCode::Enter)));
    assert_eq!(v.search_prompt(), Some(("BE", false)));
    assert_eq!(v.offset(), 1);
    assert!(v.handle_key(key(KeyCode::Char('n'))));
    assert_eq!(v.offset(), 3);
    assert!(v.handle_key(key(KeyCode::Char('n'))));
    assert_eq!(v.offset(), 3);
    assert!(v.handle_key(key(KeyCode::Char('N'))));
    assert_eq!(v.offset(), 1);
    assert!(v.handle_key(key(KeyCode::Char('/'))));
    assert!(v.handle_key(key(KeyCode::Escape)));
    assert_eq!(v.search_prompt(), None);
}

#[test]
fn alt_e_cycles_encoding() {
    let mut v = ViewerWidget::new("t".into(), vec![0x63, 0x61, 0x66, 0xe9], 4);
    assert_eq!(v.text_lines_in_view(3), vec!["caf\u{fffd}"]);
    assert!(v.handle_key(KeyChord { code: KeyCode::Char('e'), mods: KeyMods::alt() }));
    assert_eq!(v.text_lines_in_view(3), vec!["café"]);
    assert_eq!(v.frame_title(), " View [TEXT windows-1252] t ");
    // Plain `e` does nothing.
    assert!(v.handle_key(key(KeyCode::Char('e'))));
    assert_eq!(v.frame_title(), " View [TEXT windows-1252] t ");
}

#[test]
fn hex_dump_lines() {
    assert_eq!(hex_chars(0), vec!['0']);
    assert_eq!(hex_chars(0x1f3), vec!['1', 'f', '3']);
    assert_eq!(
        hex_line_of(b"Hi\n", 16),
        format!("00000010  48 69 0a {}Hi.", " ".repeat(40))
    );
    let bytes: Vec<u8> = (0u8..20).collect();
    let mut v = ViewerWidget::new("b".into(), bytes, 20);
    assert!(v.handle_key(key(KeyCode::F(4))));
    let lines = v.hex_lines_in_view(10);
    assert_eq!(lines.len(), 2);
    assert_eq!(
        lines[0],
        "00000000  00 01 02 03 04 05 06 07 08 09 0a 0b 0c 0d 0e 0f  ................"
    );
    assert_eq!(lines[1], format!("00000010  10 11 12 13 {} ....", " ".repeat(36)));
    assert!(v.handle_key(key(KeyCode::End)));
    assert_eq!(v.hex_lines_in_view(10).len(), 1);
}
