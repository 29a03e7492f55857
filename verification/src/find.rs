//! Find File: the query, what the walk does with each directory entry, and
//! the line a content match falls on. Reading directories and files is
//! the caller's part.

use vstd::prelude::*;

use crate::config::extbind::{ext_glob_match, glob_builds, glob_compiles, glob_is_match};
use crate::path::{child_path, child_spec, vpath_text, LayerText, VPath};
use crate::text::{append_str, ascii_lower, ascii_lowercase, chars_of, split_chars, split_seg, str_eq, string_of};

verus! {

#[verifier::external_type_specification]
#[verifier::external_body]
pub struct ExBytesRegex(regex::bytes::Regex);

/// Whether `regex` accepts `p` as a pattern (its syntax and size limits).
pub uninterp spec fn regex_compiles(p: Seq<char>) -> bool;

/// The byte offset of the first match of the regex `p` in `hay`.
pub uninterp spec fn regex_first_match(p: Seq<char>, hay: Seq<u8>) -> Option<nat>;

/// Compiles `p` with `regex::bytes::Regex::new`, dropping the error's
/// details. The claim: it succeeds exactly when [`regex_compiles`] holds of
/// `p`; the regex syntax is not stated.
#[verifier::external_body]
fn compile_bytes_regex(p: &str) -> (r: Option<regex::bytes::Regex>)
    ensures
        r is Some <==> regex_compiles(p@),
{
    regex::bytes::Regex::new(p).ok()
}

/// The content of a search: a compiled regex and the pattern it was
/// compiled from.
pub struct ContentQuery {
    pattern: String,
    regex: regex::bytes::Regex,
}

impl View for ContentQuery {
    type V = Seq<char>;

    closed spec fn view(&self) -> Seq<char> {
        self.pattern@
    }
}

/// Runs `regex::bytes::Regex::find` of the query's regex on `hay` and
/// gives the match's start. The claim: the result is named by
/// [`regex_first_match`] of the pattern the regex was compiled from (the
/// only way a [`ContentQuery`] is made) and, as `Match::start` documents,
/// lies within the haystack; how the regex matches is not stated.
#[verifier::external_body]
fn regex_find_start(q: &ContentQuery, hay: &[u8]) -> (r: Option<usize>)
    ensures
        match r {
            Some(s) => regex_first_match(q@, hay@) == Some(s as nat) && s <= hay@.len(),
            None => regex_first_match(q@, hay@) is None,
        },
{
    match q.regex.find(hay) {
        Some(m) => Some(m.start()),
        None => None,
    }
}

/// A file-name glob of a search, matched without case.
pub struct NameGlob {
    pattern: String,
}

impl View for NameGlob {
    type V = Seq<char>;

    closed spec fn view(&self) -> Seq<char> {
        self.pattern@
    }
}

impl NameGlob {
    #[verifier::type_invariant]
    closed spec fn builds(self) -> bool {
        glob_compiles(self.pattern@)
    }

    /// Whether `name` matches the glob.
    pub fn is_match(&self, name: &str) -> (r: bool)
        ensures
            r == ext_glob_match(self@, name@),
    {
        proof {
            use_type_invariant(self);
        }
        glob_is_match(self.pattern.as_str(), name)
    }
}

/// Why a search could not be set up.
#[derive(Debug)]
pub enum FindError {
    /// The name glob does not parse.
    BadGlob(String),
    /// The content regex does not compile.
    BadRegex(String),
}

/// A case-insensitive glob for file names, or the error when it does not
/// build.
pub fn build_name_glob(pattern: &str) -> (r: Result<NameGlob, FindError>)
    ensures
        match r {
            Ok(g) => glob_compiles(pattern@) && g@ == pattern@,
            Err(FindError::BadGlob(p)) => !glob_compiles(pattern@) && p@ == pattern@,
            Err(_) => false,
        },
{
    if glob_builds(pattern) {
        Ok(NameGlob { pattern: String::from_str(pattern) })
    } else {
        Err(FindError::BadGlob(String::from_str(pattern)))
    }
}

/// The regex a content search compiles: `(?i)` in front for a
/// case-insensitive one, and the pattern between `\b` word boundaries for a
/// whole-word one.
pub open spec fn content_pattern(pattern: Seq<char>, whole_word: bool, case_insensitive: bool) -> Seq<char> {
    (if case_insensitive { "(?i)"@ } else { Seq::empty() }) + (if whole_word { "\\b"@ } else { Seq::empty() })
        + pattern + (if whole_word { "\\b"@ } else { Seq::empty() })
}

/// The content query for a pattern, as [`content_pattern`] builds it, or
/// the error with that regex when it does not compile.
pub fn build_content_regex(pattern: &str, whole_word: bool, case_insensitive: bool) -> (r: Result<
    ContentQuery,
    FindError,
>)
    ensures
        match r {
            Ok(q) => regex_compiles(content_pattern(pattern@, whole_word, case_insensitive)) && q@ == content_pattern(
                pattern@,
                whole_word,
                case_insensitive,
            ),
            Err(FindError::BadRegex(p)) => !regex_compiles(content_pattern(pattern@, whole_word, case_insensitive))
                && p@ == content_pattern(pattern@, whole_word, case_insensitive),
            Err(_) => false,
        },
{
    proof {
        reveal_strlit("(?i)");
        reveal_strlit("\\b");
    }
    let mut p = String::new();
    if case_insensitive {
        append_str(&mut p, "(?i)");
    }
    if whole_word {
        append_str(&mut p, "\\b");
    }
    append_str(&mut p, pattern);
    if whole_word {
        append_str(&mut p, "\\b");
    }
    assert(p@ =~= content_pattern(pattern@, whole_word, case_insensitive));
    match compile_bytes_regex(p.as_str()) {
        Some(regex) => Ok(ContentQuery { pattern: p, regex }),
        None => Err(FindError::BadRegex(p)),
    }
}

/// The number of newlines in `s`.
pub open spec fn newlines(s: Seq<u8>) -> nat
    decreases s.len(),
{
    if s.len() == 0 {
        0
    } else {
        newlines(s.drop_last()) + if s.last() == 10u8 { 1nat } else { 0nat }
    }
}

proof fn lemma_newlines_bound(s: Seq<u8>)
    ensures
        newlines(s) <= s.len(),
    decreases s.len(),
{
    if s.len() > 0 {
        lemma_newlines_bound(s.drop_last());
    }
}

/// The most bytes of a file a content search reads.
pub const CONTENT_MAX: usize = 16777216;

impl ContentQuery {
    /// The 1-based line on which the first match in `buf` starts: one more
    /// than the newlines before the match; `None` without a match.
    pub fn match_line(&self, buf: &[u8]) -> (r: Option<u32>)
        requires
            buf@.len() <= CONTENT_MAX,
        ensures
            match regex_first_match(self@, buf@) {
                Some(s) => r == Some((1 + newlines(buf@.take(s as int))) as u32),
                None => r is None,
            },
    {
        let start = match regex_find_start(self, buf) {
            Some(s) => s,
            None => return None,
        };
        let mut count: u32 = 0;
        let mut i: usize = 0;
        while i < start
            invariant
                start <= buf@.len() <= CONTENT_MAX,
                i <= start,
                count == newlines(buf@.take(i as int)),
            decreases start - i,
        {
            proof {
                lemma_newlines_bound(buf@.take(i as int));
            }
            assert(buf@.take(i + 1).drop_last() =~= buf@.take(i as int));
            if buf[i] == 10u8 {
                count = count + 1;
            }
            i = i + 1;
        }
        proof {
            lemma_newlines_bound(buf@.take(start as int));
        }
        Some(1 + count)
    }
}

/// How much of a freshly read chunk of `n` bytes a content search keeps
/// when it already holds `have` bytes, and whether it stops reading: all of
/// it while the total stays within [`CONTENT_MAX`], else the part up to the
/// cap, and then it stops.
pub open spec fn chunk_take(have: nat, n: nat) -> (nat, bool) {
    if have + n > CONTENT_MAX {
        ((CONTENT_MAX - have) as nat, true)
    } else {
        (n, false)
    }
}

/// How much of a chunk to keep, as [`chunk_take`] says.
pub fn content_chunk(have: usize, n: usize) -> (r: (usize, bool))
    requires
        have <= CONTENT_MAX,
    ensures
        (r.0 as nat, r.1) == chunk_take(have as nat, n as nat),
{
    if n > CONTENT_MAX - have {
        (CONTENT_MAX - have, true)
    } else {
        (n, false)
    }
}

/// A search: where it starts, the file-name glob, the content query, the
/// directory names it does not enter (compared without ASCII case) and how
/// many matches it reports at most.
pub struct Query {
    pub start: VPath,
    pub name_glob: Option<NameGlob>,
    pub content: Option<ContentQuery>,
    pub ignore_dirs: Vec<String>,
    pub max_matches: usize,
}

/// A file found, and the line of its first content match.
pub struct Match {
    pub path: VPath,
    pub line: Option<u32>,
}

/// What a search reports.
pub enum FindEvent {
    /// An entry was looked at.
    Scanned(VPath),
    Matched(Match),
    /// The search is over.
    Done,
}

/// What the walk does with one directory entry.
pub enum EntryStep {
    /// Passes over it without reporting it (`.`, `..`, or no place to put
    /// it).
    Skip,
    /// Reports it as scanned and goes no further: an ignored directory, or
    /// a file whose name the glob rejects.
    ScanOnly(VPath),
    /// Reports it as scanned and searches the directory.
    Descend(VPath),
    /// Reports it as scanned and checks the file's content (or reports it
    /// as matched when there is no content query).
    Check(VPath),
}

/// `name` equals one of `dirs` without ASCII case.
pub open spec fn ignored(name: Seq<char>, dirs: Seq<Seq<char>>) -> bool {
    exists|i: int| 0 <= i < dirs.len() && ascii_lower(#[trigger] dirs[i]) == ascii_lower(name)
}

/// The step for an entry `name` under `start`: `.` and `..` are skipped, as
/// is any entry when `start` has no layer; a directory is entered unless it
/// is ignored; a file is checked when there is no glob or the glob matches
/// its name.
pub open spec fn entry_step_spec(
    start: Seq<LayerText>,
    glob: Option<Seq<char>>,
    dirs: Seq<Seq<char>>,
    name: Seq<char>,
    is_dir: bool,
) -> Option<(Seq<LayerText>, nat)> {
    if name == "."@ || name == ".."@ {
        None
    } else {
        match child_spec(start, name) {
            None => None,
            Some(c) => if is_dir {
                if ignored(name, dirs) { Some((c, 0nat)) } else { Some((c, 1nat)) }
            } else {
                match glob {
                    Some(g) => if ext_glob_match(g, name) { Some((c, 2nat)) } else { Some((c, 0nat)) },
                    None => Some((c, 2nat)),
                }
            },
        }
    }
}

/// The path and kind of a step (0 scan only, 1 descend, 2 check).
pub open spec fn step_view(s: EntryStep) -> Option<(Seq<LayerText>, nat)> {
    match s {
        EntryStep::Skip => None,
        EntryStep::ScanOnly(p) => Some((p@, 0nat)),
        EntryStep::Descend(p) => Some((p@, 1nat)),
        EntryStep::Check(p) => Some((p@, 2nat)),
    }
}

/// The texts of a list of strings.
pub open spec fn texts_of(v: Seq<String>) -> Seq<Seq<char>> {
    Seq::new(v.len(), |i: int| v[i]@)
}

impl Query {
    fn is_ignored(&self, name: &str) -> (r: bool)
        ensures
            r == ignored(name@, texts_of(self.ignore_dirs@)),
    {
        let lower = ascii_lowercase(name);
        let mut i: usize = 0;
        while i < self.ignore_dirs.len()
            invariant
                i <= self.ignore_dirs@.len(),
                lower@ == ascii_lower(name@),
                forall|k: int| 0 <= k < i ==> ascii_lower(#[trigger] texts_of(self.ignore_dirs@)[k]) != ascii_lower(name@),
            decreases self.ignore_dirs@.len() - i,
        {
            let d = ascii_lowercase(self.ignore_dirs[i].as_str());
            if str_eq(d.as_str(), lower.as_str()) {
                assert(ascii_lower(texts_of(self.ignore_dirs@)[i as int]) == ascii_lower(name@));
                return true;
            }
            i = i + 1;
        }
        false
    }

    /// What the walk does with the entry `name` of the starting directory,
    /// as [`entry_step_spec`] says.
    pub fn entry_step(&self, name: &str, is_dir: bool) -> (r: EntryStep)
        ensures
            step_view(r) == entry_step_spec(
                self.start@,
                match self.name_glob {
                    Some(g) => Some(g@),
                    None => None,
                },
                texts_of(self.ignore_dirs@),
                name@,
                is_dir,
            ),
    {
        proof {
            reveal_strlit(".");
            reveal_strlit("..");
        }
        if str_eq(name, ".") || str_eq(name, "..") {
            return EntryStep::Skip;
        }
        let child = match child_path(&self.start, name) {
            Some(c) => c,
            None => return EntryStep::Skip,
        };
        if is_dir {
            if self.is_ignored(name) {
                EntryStep::ScanOnly(child)
            } else {
                EntryStep::Descend(child)
            }
        } else {
            match &self.name_glob {
                Some(g) => if g.is_match(name) {
                    EntryStep::Check(child)
                } else {
                    EntryStep::ScanOnly(child)
                },
                None => EntryStep::Check(child),
            }
        }
    }

    /// Whether the walk stops after `count` matches.
    pub fn enough(&self, count: usize) -> (r: bool)
        ensures
            r == (count >= self.max_matches),
    {
        count >= self.max_matches
    }
}

/// What the Find File form asks for.
#[derive(Debug, Clone)]
pub struct FindParams {
    /// Glob on file names; empty or `*` for any name.
    pub name_pattern: String,
    /// Regex searched in file contents; empty for none.
    pub content_pattern: String,
    pub whole_word: bool,
    pub case_sensitive: bool,
    /// Directory names not to enter, separated by `:`.
    pub ignore_dirs: String,
    /// Whether the results go into the panel.
    pub panelize: bool,
}

/// How many matches a search from the form reports at most.
pub const FIND_MAX_MATCHES: usize = 5000;

/// The non-empty pieces of `ps`, in order.
pub open spec fn non_empty(ps: Seq<Seq<char>>) -> Seq<Seq<char>>
    decreases ps.len(),
{
    if ps.len() == 0 {
        Seq::empty()
    } else if ps.last().len() == 0 {
        non_empty(ps.drop_last())
    } else {
        non_empty(ps.drop_last()).push(ps.last())
    }
}

/// The search the form's parameters ask for from `start`: a name glob
/// unless the pattern is empty, `*` or does not build; a content regex
/// (case-insensitive unless asked otherwise) unless the pattern is empty or
/// does not compile; the non-empty `:`-separated ignored names; at most
/// [`FIND_MAX_MATCHES`] matches.
pub open spec fn query_spec(q: Query, start: Seq<LayerText>, p: FindParams) -> bool {
    let np = p.name_pattern@;
    let cp = content_pattern(p.content_pattern@, p.whole_word, !p.case_sensitive);
    &&& q.start@ == start
    &&& match q.name_glob {
        Some(g) => !(np.len() == 0 || np == "*"@) && glob_compiles(np) && g@ == np,
        None => np.len() == 0 || np == "*"@ || !glob_compiles(np),
    }
    &&& match q.content {
        Some(c) => p.content_pattern@.len() > 0 && regex_compiles(cp) && c@ == cp,
        None => p.content_pattern@.len() == 0 || !regex_compiles(cp),
    }
    &&& texts_of(q.ignore_dirs@) == non_empty(split_seg(p.ignore_dirs@, ':'))
    &&& q.max_matches == FIND_MAX_MATCHES
}

/// The search for the form's parameters, as [`query_spec`] says.
pub fn build_query(start: VPath, p: &FindParams) -> (q: Query)
    ensures
        query_spec(q, start@, *p),
{
    proof {
        reveal_strlit("*");
    }
    let name_glob = if p.name_pattern.unicode_len() == 0 || str_eq(p.name_pattern.as_str(), "*") {
        None
    } else {
        match build_name_glob(p.name_pattern.as_str()) {
            Ok(g) => Some(g),
            Err(_) => None,
        }
    };
    let content = if p.content_pattern.unicode_len() == 0 {
        None
    } else {
        match build_content_regex(p.content_pattern.as_str(), p.whole_word, !p.case_sensitive) {
            Ok(c) => Some(c),
            Err(_) => None,
        }
    };
    let v = chars_of(p.ignore_dirs.as_str());
    let pieces = split_chars(v.as_slice(), ':');
    let ghost ps = split_seg(v@, ':');
    let mut ignore_dirs: Vec<String> = Vec::new();
    let mut i: usize = 0;
    assert(ps.take(0) =~= Seq::<Seq<char>>::empty());
    assert(texts_of(ignore_dirs@) =~= Seq::<Seq<char>>::empty());
    while i < pieces.len()
        invariant
            i <= pieces@.len(),
            pieces@.map_values(|x: Vec<char>| x@) == ps,
            texts_of(ignore_dirs@) == non_empty(ps.take(i as int)),
        decreases pieces@.len() - i,
    {
        assert(ps.take(i + 1).drop_last() =~= ps.take(i as int));
        assert(ps[i as int] == pieces@[i as int]@);
        if pieces[i].len() > 0 {
            let d = string_of(pieces[i].as_slice());
            let ghost before = ignore_dirs@;
            ignore_dirs.push(d);
            assert(texts_of(ignore_dirs@) =~= texts_of(before).push(d@));
        }
        i = i + 1;
    }
    assert(ps.take(pieces@.len() as int) =~= ps);
    Query { start, name_glob, content, ignore_dirs, max_matches: FIND_MAX_MATCHES }
}

/// The summary a search shows: `name=` the name pattern (`*` when empty),
/// ` content=` the content pattern (a dash when empty) and ` in=` the
/// starting path.
pub open spec fn summary_text(p: FindParams, start: Seq<char>) -> Seq<char> {
    "name="@ + (if p.name_pattern@.len() == 0 { "*"@ } else { p.name_pattern@ }) + " content="@ + (if p.content_pattern@.len()
        == 0 {
        "\u{2014}"@
    } else {
        p.content_pattern@
    }) + " in="@ + start
}

/// The summary of a search from `start`, as [`summary_text`] says of its
/// written form.
pub fn find_summary(p: &FindParams, start: &VPath) -> (r: String)
    ensures
        r@ == summary_text(*p, vpath_text(start@)),
{
    proof {
        reveal_strlit("name=");
        reveal_strlit("*");
        reveal_strlit(" content=");
        reveal_strlit("\u{2014}");
        reveal_strlit(" in=");
    }
    let mut s = String::from_str("name=");
    if p.name_pattern.unicode_len() == 0 {
        append_str(&mut s, "*");
    } else {
        append_str(&mut s, p.name_pattern.as_str());
    }
    append_str(&mut s, " content=");
    if p.content_pattern.unicode_len() == 0 {
        append_str(&mut s, "\u{2014}");
    } else {
        append_str(&mut s, p.content_pattern.as_str());
    }
    append_str(&mut s, " in=");
    let t = start.to_text();
    append_str(&mut s, t.as_str());
    s
}

} // verus!
