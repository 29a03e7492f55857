use mc_rs::find::{build_content_regex, build_name_glob, content_chunk, EntryStep, FindError, Query, CONTENT_MAX};
use mc_rs::path::VPath;

fn query(glob: Option<&str>) -> Query {
    Query {
        start: VPath::local("/src"),
        name_glob: glob.map(|g| build_name_glob(g).ok().unwrap()),
        content: None,
        ignore_dirs: vec![".git".into(), "Target".into()],
        max_matches: 2,
    }
}

#[test]
fn content_regex_flags_and_errors() {
    let q = build_content_regex("println", false, false).ok().unwrap();
    assert_eq!(q.match_line(b"fn main() {\n    println!();\n}\n"), Some(2));
    assert_eq!(q.match_line(b"no match here"), None);
    let ci = build_content_regex("HELLO", true, true).ok().unwrap();
    assert_eq!(ci.match_line(b"a\nb\nsay hello\n"), Some(3));
    assert_eq!(ci.match_line(b"hellos"), None);
    assert!(matches!(build_content_regex("foo(bar", false, false), Err(FindError::BadRegex(p)) if p == "foo(bar"));
    assert!(build_content_regex("x", true, true).is_ok());
}

#[test]
fn name_globs_ignore_case() {
    let g = build_name_glob("*.RS").ok().unwrap();
    assert!(g.is_match("lib.rs"));
    assert!(!g.is_match("lib.rsx"));
    assert!(matches!(build_name_glob("a[b"), Err(FindError::BadGlob(p)) if p == "a[b"));
}

#[test]
fn entry_steps() {
    let q = query(Some("*.rs"));
    assert!(matches!(q.entry_step(".", true), EntryStep::Skip));
    assert!(matches!(q.entry_step("..", true), EntryStep::Skip));
    assert!(matches!(q.entry_step(".GIT", true), EntryStep::ScanOnly(p) if p.to_text() == "local:/src/.GIT"));
    assert!(matches!(q.entry_step("target", true), EntryStep::ScanOnly(_)));
    assert!(matches!(q.entry_step("util", true), EntryStep::Descend(p) if p.to_text() == "local:/src/util"));
    assert!(matches!(q.entry_step("lib.rs", false), EntryStep::Check(p) if p.to_text() == "local:/src/lib.rs"));
    assert!(matches!(q.entry_step("README.md", false), EntryStep::ScanOnly(_)));
    let all = query(None);
    assert!(matches!(all.entry_step("README.md", false), EntryStep::Check(_)));
    assert!(!q.enough(1));
    assert!(q.enough(2));
}

#[test]
fn content_reads_stop_at_the_cap() {
    assert_eq!(content_chunk(0, 100), (100, false));
    assert_eq!(content_chunk(CONTENT_MAX - 10, 64), (10, true));
    assert_eq!(content_chunk(CONTENT_MAX - 10, 10), (10, false));
}

fn params(name: &str, content: &str, ignore: &str) -> mc_rs::find::FindParams {
    mc_rs::find::FindParams {
        name_pattern: name.into(),
        content_pattern: content.into(),
        whole_word: false,
        case_sensitive: false,
        ignore_dirs: ignore.into(),
        panelize: false,
    }
}

#[test]
fn query_from_form() {
    let q = mc_rs::find::build_query(VPath::local("/p"), &params("*", "", ":.git::target:"));
    assert!(q.name_glob.is_none());
    assert!(q.content.is_none());
    assert_eq!(q.ignore_dirs, vec![".git".to_string(), "target".to_string()]);
    assert_eq!(q.max_matches, mc_rs::find::FIND_MAX_MATCHES);
    let q2 = mc_rs::find::build_query(VPath::local("/p"), &params("*.rs", "fn main", ""));
    assert!(q2.name_glob.as_ref().unwrap().is_match("A.RS"));
    assert_eq!(q2.content.as_ref().unwrap().match_line(b"x\nFN MAIN\n"), Some(2));
    assert!(q2.ignore_dirs.is_empty());
    let bad = mc_rs::find::build_query(VPath::local("/p"), &params("a[", "(", ""));
    assert!(bad.name_glob.is_none() && bad.content.is_none());
}

#[test]
fn find_summaries() {
    assert_eq!(mc_rs::find::find_summary(&params("", "", ""), &VPath::local("/p")), "name=* content=\u{2014} in=local:/p");
    assert_eq!(mc_rs::find::find_summary(&params("*.c", "main", ""), &VPath::local("/")), "name=*.c content=main in=local:/");
}
