//! File-operation helpers of the panels: sort cycling, permission and
//! ownership input, destinations.

use vstd::prelude::*;

use crate::action::SortKey;
use crate::num::{parse_unsigned, parse_unsigned_chars};
use crate::fspath::{parent_of, path_parent};
use crate::archive::{file_name, file_name_spec};
use crate::config::paths::{join, path_join};
use crate::path::{child_path, child_spec, parse_vpath, vpath_spec, vpath_text, Layer, LayerText, VPath};
use crate::viewer::{split_lines, string_views, text_lines_of};
use crate::text::{chars_of, find_char, find_first, str_eq, string_of, sub_chars, trim_chars, trim_ws};

verus! {

/// The sort key after `s` in the cycle Name, Extension, Size, Mtime, Atime,
/// Ctime, Unsorted; Inode goes back to Name.
pub open spec fn next_sort_key(s: SortKey) -> SortKey {
    match s {
        SortKey::Name => SortKey::Extension,
        SortKey::Extension => SortKey::Size,
        SortKey::Size => SortKey::Mtime,
        SortKey::Mtime => SortKey::Atime,
        SortKey::Atime => SortKey::Ctime,
        SortKey::Ctime => SortKey::Unsorted,
        SortKey::Unsorted | SortKey::Inode => SortKey::Name,
    }
}

/// The sort key that follows `s` when the user cycles it.
pub fn next_sort(s: SortKey) -> (r: SortKey)
    ensures
        r == next_sort_key(s),
{
    match s {
        SortKey::Name => SortKey::Extension,
        SortKey::Extension => SortKey::Size,
        SortKey::Size => SortKey::Mtime,
        SortKey::Mtime => SortKey::Atime,
        SortKey::Atime => SortKey::Ctime,
        SortKey::Ctime => SortKey::Unsorted,
        SortKey::Unsorted | SortKey::Inode => SortKey::Name,
    }
}

/// The sort key after `n` steps from `s`.
pub open spec fn sort_steps(s: SortKey, n: nat) -> SortKey
    decreases n,
{
    if n == 0 {
        s
    } else {
        next_sort_key(sort_steps(s, (n - 1) as nat))
    }
}

/// Every key but Inode comes back to itself after seven steps: the cycle
/// visits the seven other keys.
pub proof fn lemma_sort_cycle(s: SortKey)
    requires
        s != SortKey::Inode,
    ensures
        sort_steps(s, 7) == s,
{
    reveal_with_fuel(sort_steps, 8);
}

/// What `parse_octal_mode` gives: the trimmed text read as an octal `u32`,
/// kept when at most `0o7777`.
pub open spec fn octal_mode_spec(s: Seq<char>) -> Option<u32> {
    match parse_unsigned(trim_ws(s), 8, 0xffff_ffff) {
        Some(m) => if m <= 0o7777 { Some(m as u32) } else { None },
        None => None,
    }
}

/// Reads a permission mode such as `755` or ` 0644 `.
pub fn parse_octal_mode(s: &str) -> (r: Option<u32>)
    ensures
        r == octal_mode_spec(s@),
{
    let v = chars_of(s);
    let t = trim_chars(v.as_slice());
    match parse_unsigned_chars(t.as_slice(), 8, 0xffff_ffff) {
        Some(m) => if m <= 0o7777 {
            Some(m as u32)
        } else {
            None
        },
        None => None,
    }
}

/// The trimmed user and group parts of a `user:group` text (the group is
/// empty without a `:`); `None` for a blank text.
pub open spec fn chown_parts(s: Seq<char>) -> Option<(Seq<char>, Seq<char>)> {
    let t = trim_ws(s);
    if t.len() == 0 {
        None
    } else {
        let c = find_first(t, ':');
        if c >= 0 {
            Some((trim_ws(t.take(c)), trim_ws(t.skip(c + 1))))
        } else {
            Some((trim_ws(t), Seq::empty()))
        }
    }
}

/// Whether a part names an id by number.
pub open spec fn is_numeric_id(x: Seq<char>) -> bool {
    parse_unsigned(x, 10, 0xffff_ffff) is Some
}

/// One side of a chown: empty means "keep" (`Some(None)`), a number is that
/// id, a name is what looking it up gave (`None` when it is unknown).
pub open spec fn resolve_spec(x: Seq<char>, looked_up: Option<u32>) -> Option<Option<u32>> {
    if x.len() == 0 {
        Some(None)
    } else if is_numeric_id(x) {
        Some(Some(parse_unsigned(x, 10, 0xffff_ffff).unwrap() as u32))
    } else {
        match looked_up {
            Some(id) => Some(Some(id)),
            None => None,
        }
    }
}

/// The owner change a `user:group` text asks for, given what looking up the
/// user and group names gave.
pub open spec fn chown_spec(s: Seq<char>, uid: Option<u32>, gid: Option<u32>) -> Option<(Option<u32>, Option<u32>)> {
    match chown_parts(s) {
        None => None,
        Some((u, g)) => match (resolve_spec(u, uid), resolve_spec(g, gid)) {
            (Some(a), Some(b)) => Some((a, b)),
            _ => None,
        },
    }
}

fn split_chown(s: &str) -> (r: Option<(Vec<char>, Vec<char>)>)
    ensures
        match r {
            Some((u, g)) => chown_parts(s@) == Some((u@, g@)),
            None => chown_parts(s@) is None,
        },
{
    let v = chars_of(s);
    let t = trim_chars(v.as_slice());
    if t.len() == 0 {
        return None;
    }
    match find_char(t.as_slice(), ':') {
        Some(c) => {
            let u = sub_chars(t.as_slice(), 0, c);
            let g = sub_chars(t.as_slice(), c + 1, t.len());
            assert(u@ == t@.take(c as int));
            assert(g@ == t@.skip(c + 1));
            Some((trim_chars(u.as_slice()), trim_chars(g.as_slice())))
        },
        None => Some((trim_chars(t.as_slice()), Vec::new())),
    }
}

fn resolve_id(x: &Vec<char>, looked_up: Option<u32>) -> (r: Option<Option<u32>>)
    ensures
        r == resolve_spec(x@, looked_up),
{
    if x.len() == 0 {
        return Some(None);
    }
    match parse_unsigned_chars(x.as_slice(), 10, 0xffff_ffff) {
        Some(n) => Some(Some(n as u32)),
        None => match looked_up {
            Some(id) => Some(Some(id)),
            None => None,
        },
    }
}

/// The owner change for a `user:group` text when looking up the user name
/// gave `uid` and the group name gave `gid`.
pub fn parse_chown_resolved(s: &str, uid: Option<u32>, gid: Option<u32>) -> (r: Option<(Option<u32>, Option<u32>)>)
    ensures
        r == chown_spec(s@, uid, gid),
{
    match split_chown(s) {
        None => None,
        Some((u, g)) => match resolve_id(&u, uid) {
            None => None,
            Some(a) => match resolve_id(&g, gid) {
                None => None,
                Some(b) => Some((a, b)),
            },
        },
    }
}

/// Looks a user name up with `nix::unistd::User::from_name` and gives its
/// uid. What the system's user database holds is not stated.
#[verifier::external_body]
fn lookup_user(name: &str) -> (r: Option<u32>) {
    match nix::unistd::User::from_name(name) {
        Ok(Some(u)) => Some(u.uid.as_raw()),
        _ => None,
    }
}

/// Looks a group name up with `nix::unistd::Group::from_name` and gives its
/// gid. What the system's group database holds is not stated.
#[verifier::external_body]
fn lookup_group(name: &str) -> (r: Option<u32>) {
    match nix::unistd::Group::from_name(name) {
        Ok(Some(g)) => Some(g.gid.as_raw()),
        _ => None,
    }
}

/// Parse a `user:group` chown spec. Either side may be empty (`None` for
/// that field, meaning "don't change"); numbers are ids, names are looked
/// up in the system's databases. `None` when a name is unknown or the text
/// is blank.
pub fn parse_chown(s: &str) -> (r: Option<(Option<u32>, Option<u32>)>)
    ensures
        exists|uid: Option<u32>, gid: Option<u32>| r == chown_spec(s@, uid, gid),
        chown_parts(s@) is None ==> r is None,
{
    let (uid, gid) = match split_chown(s) {
        None => (None, None),
        Some((u, g)) => {
            let uid = if u.len() > 0 && parse_unsigned_chars(u.as_slice(), 10, 0xffff_ffff).is_none() {
                let us = string_of(u.as_slice());
                lookup_user(us.as_str())
            } else {
                None
            };
            let gid = if g.len() > 0 && parse_unsigned_chars(g.as_slice(), 10, 0xffff_ffff).is_none() {
                let gs = string_of(g.as_slice());
                lookup_group(gs.as_str())
            } else {
                None
            };
            (uid, gid)
        },
    };
    parse_chown_resolved(s, uid, gid)
}

/// The local sub-path of a path whose innermost layer is `local`.
pub open spec fn local_sub(p: Seq<LayerText>) -> Option<Seq<char>> {
    if p.len() > 0 && p.last().0 == "local"@ {
        Some(p.last().2)
    } else {
        None
    }
}

/// The local file-system path of a virtual path, if its innermost layer is
/// local.
pub fn vpath_to_local(p: &VPath) -> (r: Option<String>)
    ensures
        match r {
            Some(s) => local_sub(p@) == Some(s@),
            None => local_sub(p@) is None,
        },
{
    match p.last() {
        None => None,
        Some(l) => if crate::text::str_eq(l.scheme.as_str(), "local") {
            Some(l.sub.clone())
        } else {
            None
        },
    }
}

/// The directory one level up: the innermost layer's sub-path replaced by
/// its parent; `None` for a path without layers or whose innermost sub-path
/// has no parent.
pub open spec fn parent_spec(p: Seq<LayerText>) -> Option<Seq<LayerText>> {
    if p.len() == 0 {
        None
    } else {
        let l = p.last();
        match path_parent(l.2) {
            Some(s) => Some(p.drop_last().push((l.0, l.1, s))),
            None => None,
        }
    }
}

/// The directory one level up, as [`parent_spec`] says.
pub fn parent_path(p: &VPath) -> (r: Option<VPath>)
    ensures
        match r {
            Some(q) => parent_spec(p@) == Some(q@),
            None => parent_spec(p@) is None,
        },
{
    let last = match p.last() {
        Some(l) => l.clone_layer(),
        None => return None,
    };
    let sub = match parent_of(last.sub.as_str()) {
        Some(s) => s,
        None => return None,
    };
    let _n = p.layers().len();
    let new_layer = Layer { scheme: last.scheme, location: last.location, sub };
    let mut new_path = p.clone_path();
    let _ = new_path.pop_layer();
    new_path.push_layer(new_layer);
    Some(new_path)
}

/// How a source is named in the Copy/Move prompt: the last named piece of
/// its innermost sub-path, or the whole written path when there is none.
pub open spec fn basename_spec(p: Seq<LayerText>) -> Seq<char> {
    if p.len() > 0 {
        match file_name_spec(p.last().2) {
            Some(n) => n,
            None => vpath_text(p),
        }
    } else {
        vpath_text(p)
    }
}

/// The name a source is shown by, as [`basename_spec`] says.
pub fn display_basename(p: &VPath) -> (r: String)
    ensures
        r@ == basename_spec(p@),
{
    match p.last() {
        Some(l) => match file_name(l.sub.as_str()) {
            Some(n) => n,
            None => p.to_text(),
        },
        None => p.to_text(),
    }
}

/// Where a Copy/Move destination typed as `input` leads from `cwd`: the
/// trimmed text as a written path when it parses as one; else an absolute
/// local path; else, from a plain local directory, the text joined onto it.
/// `None` for an empty text and for a relative text elsewhere.
pub open spec fn parse_dst_spec(input: Seq<char>, cwd: Seq<LayerText>) -> Option<Seq<LayerText>> {
    let s = trim_ws(input);
    if s.len() == 0 {
        None
    } else {
        match vpath_spec(s) {
            Ok(p) => Some(p),
            Err(_) => if s[0] == '/' {
                Some(seq![("local"@, Seq::<char>::empty(), s)])
            } else if cwd.len() == 1 && cwd[0].0 == "local"@ {
                Some(seq![("local"@, Seq::<char>::empty(), path_join(cwd[0].2, s))])
            } else {
                None
            },
        }
    }
}

/// Reads a Copy/Move destination, as [`parse_dst_spec`] says.
pub fn parse_dst(input: &str, src_cwd: &VPath) -> (r: Option<VPath>)
    ensures
        match r {
            Some(p) => parse_dst_spec(input@, src_cwd@) == Some(p@),
            None => parse_dst_spec(input@, src_cwd@) is None,
        },
{
    let v = chars_of(input);
    let t = trim_chars(v.as_slice());
    if t.len() == 0 {
        return None;
    }
    let s = string_of(t.as_slice());
    match parse_vpath(s.as_str()) {
        Ok(p) => return Some(p),
        Err(_) => {},
    }
    if t[0] == '/' {
        return Some(VPath::local(s.as_str()));
    }
    let n = src_cwd.layers().len();
    let layer = match src_cwd.last() {
        Some(l) => l,
        None => return None,
    };
    if n == 1 && str_eq(layer.scheme.as_str(), "local") {
        proof {
            assert(src_cwd@[0] == src_cwd@.last());
        }
        let joined = join(layer.sub.as_str(), s.as_str());
        return Some(VPath::local(joined.as_str()));
    }
    None
}

/// The path offered for a new link to `src`: its innermost sub-path with
/// `_link` appended to the last named piece, in the same directory; empty
/// for a path without layers.
pub open spec fn link_name_spec(src: Seq<LayerText>) -> Seq<char> {
    if src.len() == 0 {
        Seq::empty()
    } else {
        let sub = src.last().2;
        let stem = match file_name_spec(sub) {
            Some(n) => n,
            None => Seq::empty(),
        };
        let parent = match path_parent(sub) {
            Some(q) => q,
            None => Seq::empty(),
        };
        path_join(parent, stem + "_link"@)
    }
}

/// The path offered for a new link, as [`link_name_spec`] says.
pub fn default_link_name(src: &VPath) -> (r: String)
    ensures
        r@ == link_name_spec(src@),
{
    let layer = match src.last() {
        Some(l) => l,
        None => return String::new(),
    };
    let mut stem = match file_name(layer.sub.as_str()) {
        Some(n) => n,
        None => String::new(),
    };
    let parent = match parent_of(layer.sub.as_str()) {
        Some(q) => q,
        None => String::new(),
    };
    crate::text::append_str(&mut stem, "_link");
    join(parent.as_str(), stem.as_str())
}

/// How a destination directory is shown in the Copy/Move prompt: the bare
/// local path for a single local layer without location, the written path
/// otherwise.
pub open spec fn display_dst_spec(p: Seq<LayerText>) -> Seq<char> {
    if p.len() == 1 && p[0].0 == "local"@ && p[0].1.len() == 0 {
        p[0].2
    } else {
        vpath_text(p)
    }
}

/// Shows a destination directory for the Copy/Move prompt.
pub fn display_dst(p: &VPath) -> (r: String)
    ensures
        r@ == display_dst_spec(p@),
{
    let ls = p.layers();
    proof {
        assert(ls@.len() == p@.len());
    }
    if ls.len() == 1 {
        let l = &ls[0];
        assert(p@[0] == l@);
        if crate::text::str_eq(l.scheme.as_str(), "local") && l.location.as_str().unicode_len() == 0 {
            return l.sub.clone();
        }
    }
    p.to_text()
}

/// Where renaming `src` to `new_name` leads: `new_name` in the directory
/// one level above `src`; nowhere when `src` has no parent or no layer.
pub open spec fn rename_spec(src: Seq<LayerText>, new_name: Seq<char>) -> Option<Seq<LayerText>> {
    match parent_spec(src) {
        Some(p) => child_spec(p, new_name),
        None => None,
    }
}

/// The path a rename goes to, as [`rename_spec`] says.
pub fn rename_target(src: &VPath, new_name: &str) -> (r: Option<VPath>)
    ensures
        match r {
            Some(q) => rename_spec(src@, new_name@) == Some(q@),
            None => rename_spec(src@, new_name@) is None,
        },
{
    match parent_path(src) {
        Some(p) => child_path(&p, new_name),
        None => None,
    }
}

/// The paths an external panelize command printed on the lines `lines`:
/// each line trimmed, blank ones dropped, relative ones taken from `cwd`.
pub open spec fn panelize_spec(cwd: Seq<char>, lines: Seq<Seq<char>>) -> Seq<Seq<char>>
    decreases lines.len(),
{
    if lines.len() == 0 {
        Seq::empty()
    } else {
        let rest = panelize_spec(cwd, lines.drop_last());
        let t = trim_ws(lines.last());
        if t.len() == 0 {
            rest
        } else {
            rest.push(path_join(cwd, t))
        }
    }
}

/// The paths an external panelize command printed, as [`panelize_spec`]
/// says of the lines of its output.
pub fn panelize_paths(cwd: &str, output: &str) -> (r: Vec<String>)
    ensures
        string_views(r@) == panelize_spec(cwd@, text_lines_of(output@)),
{
    let lines = split_lines(output);
    let ghost ls = text_lines_of(output@);
    let mut out: Vec<String> = Vec::new();
    let mut i: usize = 0;
    assert(ls.take(0) =~= Seq::<Seq<char>>::empty());
    assert(string_views(out@) =~= Seq::<Seq<char>>::empty());
    while i < lines.len()
        invariant
            i <= lines@.len(),
            string_views(lines@) == ls,
            string_views(out@) == panelize_spec(cwd@, ls.take(i as int)),
        decreases lines@.len() - i,
    {
        assert(ls.take(i + 1).drop_last() =~= ls.take(i as int));
        assert(ls[i as int] == lines@[i as int]@);
        let v = chars_of(lines[i].as_str());
        let t = trim_chars(v.as_slice());
        if t.len() > 0 {
            let ts = string_of(t.as_slice());
            let joined = join(cwd, ts.as_str());
            let ghost before = out@;
            out.push(joined);
            assert(string_views(out@) =~= string_views(before).push(joined@));
        }
        i = i + 1;
    }
    assert(ls.take(lines@.len() as int) =~= ls);
    out
}

} // verus!

verus! {

/// A text with no whitespace at either end is its own trim.
proof fn lemma_trim_unchanged(s: Seq<char>)
    requires
        s.len() > 0,
        !crate::text::is_whitespace(s[0]),
        !crate::text::is_whitespace(s.last()),
    ensures
        trim_ws(s) == s,
{
    assert(s.skip(0) == s);
    assert(s.take(s.len() as int) == s);
}

/// The first `c` of `a`, `c` and `b` is the one between them when `a` has none.
proof fn lemma_find_first_split(a: Seq<char>, c: char, b: Seq<char>)
    requires
        forall|i: int| 0 <= i < a.len() ==> a[i] != c,
    ensures
        find_first(a + seq![c] + b, c) == a.len(),
    decreases a.len(),
{
    let s = a + seq![c] + b;
    if a.len() > 0 {
        let a1 = a.skip(1);
        assert forall|i: int| 0 <= i < a1.len() implies a1[i] != c by {
            assert(a1[i] == a[i + 1]);
        }
        lemma_find_first_split(a1, c, b);
        assert(s.skip(1) =~= a1 + seq![c] + b);
        assert(s[0] == a[0]);
    } else {
        assert(s[0] == c);
    }
}

/// A decimal number: its digits are neither whitespace nor `:`, and it
/// reads back as an id.
proof fn lemma_decimal_id(n: u32)
    ensures
        ({
            let d = crate::num::decimal(n as nat);
            &&& d.len() > 0
            &&& forall|i: int| 0 <= i < d.len() ==> d[i] != ':' && !crate::text::is_whitespace(#[trigger] d[i])
            &&& trim_ws(d) == d
            &&& is_numeric_id(d)
            &&& parse_unsigned(d, 10, 0xffff_ffff) == Some(n as nat)
        }),
{
    let d = crate::num::decimal(n as nat);
    crate::num::lemma_decimal_parses(n as nat);
    assert forall|i: int| 0 <= i < d.len() implies d[i] != ':' && !crate::text::is_whitespace(#[trigger] d[i]) by {
        assert(crate::num::radix_digit(d[i], 10) is Some);
    }
    assert(d[d.len() - 1] == d.last());
    lemma_trim_unchanged(d);
}

/// Numeric owners: `uid:gid`, `uid`, `:gid` and `:` ask for those ids (an
/// empty side keeps the owner or group), whatever the name lookups gave; a
/// blank text asks for nothing.
pub proof fn lemma_chown_numeric(u: u32, g: u32, uid: Option<u32>, gid: Option<u32>, s: Seq<char>)
    ensures
        chown_spec(crate::num::decimal(u as nat) + ":"@ + crate::num::decimal(g as nat), uid, gid) == Some(
            (Some(u), Some(g)),
        ),
        chown_spec(crate::num::decimal(u as nat), uid, gid) == Some((Some(u), None::<u32>)),
        chown_spec(":"@ + crate::num::decimal(g as nat), uid, gid) == Some((None::<u32>, Some(g))),
        chown_spec(":"@, uid, gid) == Some((None::<u32>, None::<u32>)),
        trim_ws(s).len() == 0 ==> chown_spec(s, uid, gid) is None,
{
    reveal_strlit(":");
    let du = crate::num::decimal(u as nat);
    let dg = crate::num::decimal(g as nat);
    lemma_decimal_id(u);
    lemma_decimal_id(g);
    let e = Seq::<char>::empty();
    assert(e.skip(0) =~= e);
    assert(trim_ws(e) =~= e);
    // uid:gid
    let s1 = du + ":"@ + dg;
    assert(s1 =~= du + seq![':'] + dg);
    assert(s1[s1.len() - 1] == dg.last());
    assert(s1.last() == dg[dg.len() - 1]);
    lemma_trim_unchanged(s1);
    lemma_find_first_split(du, ':', dg);
    assert(s1.take(du.len() as int) =~= du);
    assert(s1.skip(du.len() as int + 1) =~= dg);
    // uid
    lemma_find_first_none(du);
    // :gid
    let s3 = ":"@ + dg;
    assert(s3 =~= e + seq![':'] + dg);
    assert(s3.last() == dg[dg.len() - 1]);
    lemma_trim_unchanged(s3);
    lemma_find_first_split(e, ':', dg);
    assert(s3.take(0) =~= e);
    assert(s3.skip(1) =~= dg);
    // :
    let s4 = ":"@;
    assert(s4 =~= e + seq![':'] + e);
    lemma_trim_unchanged(s4);
    lemma_find_first_split(e, ':', e);
    assert(s4.take(0) =~= e);
    assert(s4.skip(1) =~= e);
}

proof fn lemma_find_first_none(a: Seq<char>)
    requires
        forall|i: int| 0 <= i < a.len() ==> a[i] != ':',
    ensures
        find_first(a, ':') == -1,
    decreases a.len(),
{
    if a.len() > 0 {
        let a1 = a.skip(1);
        assert forall|i: int| 0 <= i < a1.len() implies a1[i] != ':' by {
            assert(a1[i] == a[i + 1]);
        }
        lemma_find_first_none(a1);
    }
}

} // verus!
