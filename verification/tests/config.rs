use mc_rs::config::app::AppConfig;
use mc_rs::config::extbind::{CompiledExtBindings, ExtAction, ExtBindRule, ExtBindings};
use mc_rs::config::filehighlight::FileHighlight;
use mc_rs::config::hotlist::Hotlist;
use mc_rs::config::icons::{by_extension, icon_for_kind, icon_for_name};
use mc_rs::config::keymap::{Keymap, KeymapFile, RemapEntry};
use mc_rs::config::paths::{join, ConfigPaths};
use mc_rs::config::scheme::{apply_override, ColorScheme};
use mc_rs::config::skin::{parse_color, SkinFile, ThemeColor};
use mc_rs::entry::EntryKind;
use mc_rs::key::{KeyChord, KeyCode, KeyMods};

#[test]
fn app_defaults() {
    let c = AppConfig::default();
    assert!(c.options.confirm_delete);
    assert_eq!(c.editor.line_template, "+%lineno");
}

#[test]
fn classify_known_groups() {
    let h = FileHighlight::defaults();
    assert_eq!(h.classify("foo.rs"), Some("source"));
    assert_eq!(h.classify("image.PNG"), Some("image"));
    assert_eq!(h.classify("data.tar.gz"), Some("archive"));
    assert_eq!(h.classify("Cargo.toml"), Some("build"));
    assert_eq!(h.classify("plain"), None);
    assert_eq!(h.classify("unknown.xyz"), None);
}

#[test]
fn add_replaces_duplicate() {
    let mut h = Hotlist::default();
    h.add("a".into(), "local:/x".into());
    h.add("a-2".into(), "local:/x".into());
    assert_eq!(h.entries.len(), 1);
    assert_eq!(h.entries[0].label, "a-2");
}

#[test]
fn hotlist_add_keeps_order_and_moves_duplicate_last() {
    let mut h = Hotlist::default();
    h.add("x".into(), "local:/x".into());
    h.add("y".into(), "local:/y".into());
    h.add("x again".into(), "local:/x".into());
    assert_eq!(h.entries.len(), 2);
    assert_eq!(h.entries[0].path, "local:/y");
    assert_eq!(h.entries[1].label, "x again");
    h.remove_at(5);
    assert_eq!(h.entries.len(), 2);
    h.remove_at(0);
    assert_eq!(h.entries.len(), 1);
    assert_eq!(h.entries[0].path, "local:/x");
}

#[test]
fn directory_uses_kind_glyph() {
    let g = icon_for_name("anything", EntryKind::Dir);
    assert_eq!(g, icon_for_kind(EntryKind::Dir));
}

#[test]
fn extension_lookup() {
    assert_eq!(icon_for_name("lib.rs", EntryKind::File), "\u{e7a8}");
    assert_eq!(icon_for_name("a.PY", EntryKind::File), "\u{e606}");
}

#[test]
fn exact_name_wins_over_extension() {
    let by_name = icon_for_name("Cargo.toml", EntryKind::File);
    let by_ext = by_extension("toml").unwrap();
    assert_ne!(by_name, by_ext);
}

#[test]
fn unknown_falls_back_to_kind() {
    let g = icon_for_name("nope.xyz", EntryKind::File);
    assert_eq!(g, icon_for_kind(EntryKind::File));
}

#[test]
fn empty_table_is_identity() {
    let km = Keymap::default();
    let chord = KeyChord::new(KeyCode::Char('q'), KeyMods::ctrl());
    assert_eq!(km.translate(chord), chord);
}

#[test]
fn remaps_apply() {
    let cfg = KeymapFile {
        remap: vec![
            RemapEntry { from: "C-d".into(), to: "F8".into() },
            RemapEntry { from: "M-x".into(), to: "F9".into() },
        ],
    };
    let km = Keymap::from_file(&cfg);
    let cd = KeyChord::new(KeyCode::Char('d'), KeyMods::ctrl());
    let mx = KeyChord::new(KeyCode::Char('x'), KeyMods::alt());
    let f8 = KeyChord::plain(KeyCode::F(8));
    let f9 = KeyChord::plain(KeyCode::F(9));
    assert_eq!(km.translate(cd), f8);
    assert_eq!(km.translate(mx), f9);
    let other = KeyChord::plain(KeyCode::Tab);
    assert_eq!(km.translate(other), other);
}

#[test]
fn bad_chord_is_skipped() {
    let cfg = KeymapFile {
        remap: vec![
            RemapEntry { from: "not a chord".into(), to: "F1".into() },
            RemapEntry { from: "F2".into(), to: "F1".into() },
        ],
    };
    let km = Keymap::from_file(&cfg);
    let f2 = KeyChord::plain(KeyCode::F(2));
    let f1 = KeyChord::plain(KeyCode::F(1));
    assert_eq!(km.translate(f2), f1);
}

#[test]
fn later_remap_wins() {
    let cfg = KeymapFile {
        remap: vec![
            RemapEntry { from: "F2".into(), to: "F1".into() },
            RemapEntry { from: "F2".into(), to: "F3".into() },
        ],
    };
    let km = Keymap::from_file(&cfg);
    assert_eq!(km.translate(KeyChord::plain(KeyCode::F(2))), KeyChord::plain(KeyCode::F(3)));
}

#[test]
fn lookup_named_themes() {
    assert!(ColorScheme::from_named("modern-dark").is_some());
    assert!(ColorScheme::from_named("Modern_Dark").is_some());
    assert!(ColorScheme::from_named("tokyo-night").is_some());
    assert!(ColorScheme::from_named("solarized-light").is_some());
    assert!(ColorScheme::from_named("nope").is_none());
}

#[test]
fn named_theme_lookup_trims_and_picks_the_palette() {
    assert_eq!(ColorScheme::from_named("  DEFAULT "), Some(ColorScheme::modern_dark()));
    assert_eq!(ColorScheme::from_named("tokyo_night"), Some(ColorScheme::tokyo_night()));
    assert_eq!(ColorScheme::solarized_light().panel_bg, ThemeColor::Rgb(0xfd, 0xf6, 0xe3));
}

#[test]
fn override_changes_field() {
    let mut s = ColorScheme::modern_dark();
    apply_override(&mut s, "panel_bg", "#010203").unwrap();
    assert_eq!(s.panel_bg, ThemeColor::Rgb(1, 2, 3));
}

#[test]
fn override_unknown_field_errs() {
    let mut s = ColorScheme::modern_dark();
    let err = apply_override(&mut s, "nope", "#000000").unwrap_err();
    assert!(err.contains("nope"));
}

#[test]
fn override_bad_color_errs() {
    let mut s = ColorScheme::modern_dark();
    let err = apply_override(&mut s, "panel_bg", "puce").unwrap_err();
    assert!(err.contains("panel_bg"));
}

#[test]
fn override_messages_are_exact() {
    let mut s = ColorScheme::modern_dark();
    let before = s;
    assert_eq!(apply_override(&mut s, "nope", "#000000"), Err("unknown color field 'nope'".to_string()));
    assert_eq!(
        apply_override(&mut s, "panel_bg", "puce"),
        Err("panel_bg: color 'puce' must be #rrggbb, #rgb, or 'reset'".to_string())
    );
    assert_eq!(s, before);
    apply_override(&mut s, "muted_fg", "reset").unwrap();
    assert_eq!(s.muted_fg, ThemeColor::Reset);
}

#[test]
fn skin_defaults() {
    let s = SkinFile::default();
    assert_eq!(s.theme, "modern-dark");
    assert!(s.colors.is_empty());
}

#[test]
fn parse_color_hex() {
    assert_eq!(parse_color("#1e1e2e"), Ok(ThemeColor::Rgb(0x1e, 0x1e, 0x2e)));
    assert_eq!(parse_color("#FFF"), Ok(ThemeColor::Rgb(0xff, 0xff, 0xff)));
    assert_eq!(parse_color("  #abc  "), Ok(ThemeColor::Rgb(0xaa, 0xbb, 0xcc)));
    assert_eq!(parse_color("reset"), Ok(ThemeColor::Reset));
    assert_eq!(parse_color("Default"), Ok(ThemeColor::Reset));
    assert!(parse_color("blue").is_err());
    assert!(parse_color("#zz0000").is_err());
    assert!(parse_color("#1234").is_err());
}

#[test]
fn parse_color_error_messages() {
    assert_eq!(parse_color("#zz0000"), Err("invalid digit found in string".to_string()));
    assert_eq!(parse_color("#1234"), Err("color '#1234' must be #rrggbb or #rgb".to_string()));
    assert_eq!(parse_color("#12g"), Err("invalid hex digit 'g'".to_string()));
    assert_eq!(parse_color("#+1+2+3"), Err("invalid digit found in string".to_string()));
    assert_eq!(ThemeColor::rgb(1, 2, 3), ThemeColor::Rgb(1, 2, 3));
}

#[test]
fn resolve_default_theme() {
    let s = SkinFile::default();
    let (scheme, warnings) = s.resolve();
    assert!(warnings.is_empty());
    assert_eq!(scheme.panel_bg, ColorScheme::modern_dark().panel_bg);
}

#[test]
fn resolve_unknown_theme_warns() {
    let mut s = SkinFile::default();
    s.theme = "no-such-theme".into();
    let (_, warnings) = s.resolve();
    assert!(warnings.iter().any(|w| w.contains("unknown theme")));
}

#[test]
fn resolve_applies_override() {
    let mut s = SkinFile::default();
    s.set_color("panel_bg".into(), "#010203".into());
    let (scheme, warnings) = s.resolve();
    assert!(warnings.is_empty());
    assert_eq!(scheme.panel_bg, ThemeColor::Rgb(1, 2, 3));
}

#[test]
fn resolve_unknown_field_warns() {
    let mut s = SkinFile::default();
    s.set_color("not_a_field".into(), "#000000".into());
    let (_, warnings) = s.resolve();
    assert!(warnings.iter().any(|w| w.contains("not_a_field")));
}

#[test]
fn resolve_bad_color_warns() {
    let mut s = SkinFile::default();
    s.set_color("panel_bg".into(), "puce".into());
    let (_, warnings) = s.resolve();
    assert!(warnings.iter().any(|w| w.contains("panel_bg")));
}

#[test]
fn set_color_replaces_an_earlier_override() {
    let mut s = SkinFile::default();
    s.set_color("panel_bg".into(), "#000000".into());
    s.set_color("panel_bg".into(), "#010203".into());
    assert_eq!(s.colors.len(), 1);
    let (scheme, _) = s.resolve();
    assert_eq!(scheme.panel_bg, ThemeColor::Rgb(1, 2, 3));
}

#[test]
fn available_themes_all_resolve() {
    for (name, _) in ColorScheme::available_themes() {
        assert!(ColorScheme::from_named(name).is_some(), "theme '{name}' missing from from_named()");
    }
}

#[test]
fn match_image_open() {
    let cfg = ExtBindings::defaults();
    let c = CompiledExtBindings::from_config(&cfg);
    assert_eq!(c.lookup("foo.PNG", ExtAction::Open), Some("xdg-open %f"));
    assert_eq!(c.lookup("foo.txt", ExtAction::Open), None);
}

#[test]
fn extbind_parse_toml() {
    let cfg = ExtBindings {
        bind: vec![ExtBindRule { glob: "*.rs".into(), open: None, view: Some("bat %f".into()), edit: None }],
    };
    let c = CompiledExtBindings::from_config(&cfg);
    assert_eq!(c.lookup("lib.rs", ExtAction::View), Some("bat %f"));
    assert_eq!(c.lookup("lib.rs", ExtAction::Open), None);
}

#[test]
fn falls_back_when_action_missing() {
    let cfg = ExtBindings {
        bind: vec![ExtBindRule { glob: "*".into(), open: None, view: Some("less %f".into()), edit: None }],
    };
    let c = CompiledExtBindings::from_config(&cfg);
    assert_eq!(c.lookup("anything", ExtAction::View), Some("less %f"));
    assert_eq!(c.lookup("anything", ExtAction::Open), None);
}

#[test]
fn bad_glob_rule_is_dropped_and_later_rules_still_apply() {
    let cfg = ExtBindings {
        bind: vec![
            ExtBindRule { glob: "[".into(), open: Some("never".into()), view: None, edit: None },
            ExtBindRule { glob: "*.txt".into(), open: None, view: None, edit: Some("vi %f".into()) },
            ExtBindRule { glob: "*".into(), open: None, view: None, edit: Some("nano %f".into()) },
        ],
    };
    let c = CompiledExtBindings::from_config(&cfg);
    assert_eq!(c.lookup("a.TXT", ExtAction::Edit), Some("vi %f"));
    assert_eq!(c.lookup("b.md", ExtAction::Edit), Some("nano %f"));
    assert_eq!(c.lookup("b.md", ExtAction::Open), None);
}

#[test]
fn lookup_given_match_results() {
    let cfg = ExtBindings::defaults();
    assert_eq!(mc_rs::config::extbind::lookup_matched(&cfg.bind, &[false, true, true], ExtAction::Open), Some("xdg-open %f"));
    assert_eq!(mc_rs::config::extbind::lookup_matched(&cfg.bind, &[true, false, false], ExtAction::View), None);
    assert_eq!(mc_rs::config::extbind::lookup_matched(&cfg.bind, &[false, false, false], ExtAction::Open), None);
}

#[test]
fn paths_join_config_files() {
    let p = ConfigPaths::from_env(Some("/home/me".into()), None, None, None, None);
    assert_eq!(p.config_dir, "/home/me/.config/mc-rs");
    assert_eq!(p.cache_dir, "/home/me/.cache/mc-rs");
    assert_eq!(p.state_dir, "/home/me/.local/state/mc-rs");
    assert_eq!(p.main_config(), "/home/me/.config/mc-rs/config.toml");
    assert_eq!(p.keymap(), "/home/me/.config/mc-rs/keymap.toml");
    assert_eq!(p.skin(), "/home/me/.config/mc-rs/skin.toml");
    assert_eq!(p.log_dir(), "/home/me/.cache/mc-rs/log");
    assert_eq!(p.user_menu(), "/home/me/.config/mc-rs/menu.toml");
    assert_eq!(p.extbind(), "/home/me/.config/mc-rs/extbind.toml");
    assert_eq!(p.filehighlight(), "/home/me/.config/mc-rs/filehighlight.toml");
}

#[test]
fn paths_follow_the_environment() {
    let p = ConfigPaths::from_env(None, Some("/cfg".into()), Some("/x".into()), Some("/c/".into()), Some("/s".into()));
    assert_eq!(p.config_dir, "/cfg");
    assert_eq!(p.cache_dir, "/c/mc-rs");
    assert_eq!(p.state_dir, "/s/mc-rs");
    let q = ConfigPaths::from_env(None, None, Some("/x".into()), None, None);
    assert_eq!(q.config_dir, "/x/mc-rs");
    assert_eq!(q.cache_dir, "./.cache/mc-rs");
    assert_eq!(join("", "a"), "a");
    assert_eq!(join("/base", "/abs"), "/abs");
}

#[test]
fn extension_glyphs_are_private_use() {
    for ext in ["vue", "rs", "toml", "md", "png", "zip", "svelte"] {
        if let Some(g) = by_extension(ext) {
            let cs: Vec<char> = g.chars().collect();
            assert_eq!(cs.len(), 1);
            assert!(('\u{e000}'..='\u{f8ff}').contains(&cs[0]), "{ext}");
        }
    }
    assert_eq!(by_extension("vue"), Some("\u{e6a0}"));
}

#[test]
fn parse_color_takes_only_hex_digits() {
    assert!(parse_color("#+f+f+f").is_err());
    assert!(parse_color("#\u{20ac}123").is_err());
    assert!(parse_color("#\u{e9}1").is_err());
    assert_eq!(parse_color("#0aFf10"), Ok(ThemeColor::Rgb(0x0a, 0xff, 0x10)));
    let mut skin = SkinFile::default();
    skin.set_color("panel_bg".into(), "#\u{20ac}123".into());
    let (_, warnings) = skin.resolve();
    assert_eq!(warnings.len(), 1);
    assert!(warnings[0].contains("panel_bg"));
}
