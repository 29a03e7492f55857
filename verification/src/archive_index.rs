//! The member index of a read-only archive (tar, zip, 7z).
//!
//! Each member is kept under a key rooted at `/` (`/dir/file.txt`). The
//! directories are those named by member keys and every ancestor of a key;
//! each lists the names of the keys directly below it, sorted, each once.
//! Directory listings and lookups answer from this index.

use vstd::prelude::*;

use crate::archive::{has_dotdot, lemma_safe_key_normal_form, safe_archive_key, safe_key_spec};
use crate::entry::{Entry, EntryKind, EntryView, Timestamp};
use crate::error::Error;
use crate::ord::{lex_order, lex_order_of, Ord3};
use crate::path::{innermost_layer, last_layer_with, vpath_text, LayerText, VPath};
use crate::text::{append_str, chars_of, rfind, rfind_char, str_eq, string_of, sub_chars};

verus! {

/// The texts of a list of strings.
pub open spec fn texts(v: Seq<String>) -> Seq<Seq<char>> {
    v.map_values(|s: String| s@)
}

/// Whether no text occurs twice.
pub open spec fn distinct(ks: Seq<Seq<char>>) -> bool {
    forall|i: int, j: int| 0 <= i < j < ks.len() ==> ks[i] != ks[j]
}

/// The map from `ks[i]` to `vs[i]`, later pairs winning.
pub open spec fn map_of<V>(ks: Seq<Seq<char>>, vs: Seq<V>) -> Map<Seq<char>, V>
    decreases ks.len(),
{
    if ks.len() == 0 || vs.len() == 0 {
        Map::empty()
    } else {
        map_of(ks.drop_last(), vs.drop_last()).insert(ks.last(), vs.last())
    }
}

/// With distinct keys, the map holds exactly the keys, each with its own
/// value.
pub proof fn lemma_map_of<V>(ks: Seq<Seq<char>>, vs: Seq<V>)
    requires
        ks.len() == vs.len(),
        distinct(ks),
    ensures
        forall|k: Seq<char>| #[trigger] map_of(ks, vs).contains_key(k) <==> ks.contains(k),
        forall|i: int| 0 <= i < ks.len() ==> map_of(ks, vs)[#[trigger] ks[i]] == vs[i],
    decreases ks.len(),
{
    if ks.len() > 0 {
        let ks0 = ks.drop_last();
        let vs0 = vs.drop_last();
        lemma_map_of(ks0, vs0);
        let m0 = map_of(ks0, vs0);
        assert(map_of(ks, vs) == m0.insert(ks.last(), vs.last()));
        assert forall|k: Seq<char>| #[trigger] map_of(ks, vs).contains_key(k) <==> ks.contains(k) by {
            assert(m0.contains_key(k) == ks0.contains(k));
            if ks.contains(k) && k != ks.last() {
                let i = choose|i: int| 0 <= i < ks.len() && ks[i] == k;
                assert(i != ks.len() - 1);
                assert(ks0[i] == k);
            }
            if ks0.contains(k) {
                let i = choose|i: int| 0 <= i < ks0.len() && ks0[i] == k;
                assert(ks[i] == k);
            }
            if k == ks.last() {
                assert(ks[ks.len() - 1] == k);
            }
        }
        assert forall|i: int| 0 <= i < ks.len() implies map_of(ks, vs)[#[trigger] ks[i]] == vs[i] by {
            if i < ks.len() - 1 {
                assert(ks0[i] == ks[i]);
                assert(ks[i] != ks[ks.len() - 1]);
            }
        }
    }
}

/// Changing the value at a distinct key changes that key's value only.
proof fn lemma_map_of_update<V>(ks: Seq<Seq<char>>, vs: Seq<V>, j: int, v: V)
    requires
        ks.len() == vs.len(),
        distinct(ks),
        0 <= j < ks.len(),
    ensures
        map_of(ks, vs.update(j, v)) == map_of(ks, vs).insert(ks[j], v),
{
    lemma_map_of(ks, vs);
    lemma_map_of(ks, vs.update(j, v));
    let a = map_of(ks, vs.update(j, v));
    let b = map_of(ks, vs).insert(ks[j], v);
    assert(ks.contains(ks[j]));
    assert forall|k: Seq<char>| #[trigger] a.contains_key(k) <==> b.contains_key(k) by {
        assert(a.contains_key(k) == ks.contains(k));
        assert(map_of(ks, vs).contains_key(k) == ks.contains(k));
        if k == ks[j] {
            assert(ks.contains(k));
        }
    }
    assert forall|k: Seq<char>| a.contains_key(k) implies #[trigger] a[k] == b[k] by {
        assert(ks.contains(k));
        let i = choose|i: int| 0 <= i < ks.len() && ks[i] == k;
        assert(a[ks[i]] == vs.update(j, v)[i]);
        if i != j {
            if i < j {
                assert(ks[i] != ks[j]);
            } else {
                assert(ks[j] != ks[i]);
            }
            assert(map_of(ks, vs)[ks[i]] == vs[i]);
        }
    }
    assert(a =~= b);
}

/// Finds a string among strings.
pub fn find_text(v: &Vec<String>, k: &str) -> (r: Option<usize>)
    ensures
        match r {
            Some(i) => i < v@.len() && v@[i as int]@ == k@,
            None => !texts(v@).contains(k@),
        },
{
    let mut i: usize = 0;
    while i < v.len()
        invariant
            i <= v@.len(),
            forall|j: int| 0 <= j < i ==> v@[j]@ != k@,
        decreases v@.len() - i,
    {
        if str_eq(v[i].as_str(), k) {
            return Some(i);
        }
        i = i + 1;
    }
    proof {
        if texts(v@).contains(k@) {
            let j = choose|j: int| 0 <= j < texts(v@).len() && texts(v@)[j] == k@;
            assert(v@[j]@ == k@);
        }
    }
    None
}

/// `s` without the `/` characters at its end.
pub open spec fn trim_end_slashes(s: Seq<char>) -> Seq<char>
    decreases s.len(),
{
    if s.len() > 0 && s.last() == '/' {
        trim_end_slashes(s.drop_last())
    } else {
        s
    }
}

/// The key of a path: rooted at `/`, without trailing slashes; `/` for a
/// path of slashes only or the empty path.
pub open spec fn normalize_key_spec(s: Seq<char>) -> Seq<char> {
    let t = trim_end_slashes(s);
    if t.len() == 0 {
        "/"@
    } else if t[0] == '/' {
        t
    } else {
        "/"@ + t
    }
}

/// The characters of `v` without the `/` characters at its end.
pub fn trim_end_slashes_of(v: &Vec<char>) -> (r: Vec<char>)
    ensures
        r@ == trim_end_slashes(v@),
{
    let mut n = v.len();
    assert(v@.take(n as int) =~= v@);
    while n > 0 && v[n - 1] == '/'
        invariant
            n <= v@.len(),
            trim_end_slashes(v@.take(n as int)) == trim_end_slashes(v@),
        decreases n,
    {
        assert(v@.take(n as int).drop_last() =~= v@.take(n - 1));
        n = n - 1;
    }
    proof {
        if n > 0 {
            assert(v@.take(n as int).last() == v@[n - 1]);
        }
    }
    let r = sub_chars(v.as_slice(), 0, n);
    assert(r@ =~= v@.take(n as int));
    r
}

/// The key of a path, as [`normalize_key_spec`] says.
pub fn normalize_key(s: &str) -> (r: String)
    ensures
        r@ == normalize_key_spec(s@),
{
    let v = chars_of(s);
    let t = trim_end_slashes_of(&v);
    if t.len() == 0 {
        String::from_str("/")
    } else if t[0] == '/' {
        string_of(t.as_slice())
    } else {
        let mut r = String::from_str("/");
        let tail = string_of(t.as_slice());
        append_str(&mut r, tail.as_str());
        r
    }
}

/// The directory a key lies in: the text before its last `/`, or `/` when
/// that text is empty or there is no `/`.
pub open spec fn parent_key(k: Seq<char>) -> Seq<char> {
    let i = rfind(k, '/');
    if i <= 0 {
        "/"@
    } else {
        k.take(i)
    }
}

/// The name of a key within its directory: the text after its last `/`,
/// or the whole key without one.
pub open spec fn leaf_name(k: Seq<char>) -> Seq<char> {
    let i = rfind(k, '/');
    if i < 0 {
        k
    } else {
        k.skip(i + 1)
    }
}

/// The directories above a key: its parent, the parent's parent and so on,
/// up to but not including `/`.
pub open spec fn ancestors(k: Seq<char>) -> Set<Seq<char>>
    decreases k.len(),
{
    if rfind(k, '/') < 0 {
        Set::empty()
    } else {
        let p = parent_key(k);
        if p == "/"@ {
            Set::empty()
        } else {
            proof {
                crate::text::lemma_rfind(k, '/');
            }
            ancestors(p).insert(p)
        }
    }
}

/// The keys of an archive together with every directory above them.
pub open spec fn key_closure(keys: Set<Seq<char>>) -> Set<Seq<char>> {
    Set::new(|p: Seq<char>| keys.contains(p) || exists|k: Seq<char>| keys.contains(k) && #[trigger] ancestors(k).contains(p))
}

/// Whether `n` is the name of a key (other than `/`) directly in `d`.
pub open spec fn listed_under(all: Set<Seq<char>>, d: Seq<char>, n: Seq<char>) -> bool {
    exists|k: Seq<char>| #[trigger] all.contains(k) && k != "/"@ && parent_key(k) == d && leaf_name(k) == n
}

/// The names of the keys directly in `d`.
pub open spec fn names_under(all: Set<Seq<char>>, d: Seq<char>) -> Set<Seq<char>> {
    Set::new(|n: Seq<char>| listed_under(all, d, n))
}

/// Whether `d` is a directory of the keys: `/`, or the directory of some
/// key other than `/`.
pub open spec fn is_dir_in(all: Set<Seq<char>>, d: Seq<char>) -> bool {
    d == "/"@ || exists|k: Seq<char>| #[trigger] all.contains(k) && k != "/"@ && parent_key(k) == d
}

/// Whether each text comes strictly before the next.
pub open spec fn strictly_sorted(s: Seq<Seq<char>>) -> bool {
    forall|i: int, j: int| 0 <= i < j < s.len() ==> lex_order(#[trigger] s[i], #[trigger] s[j]) == Ord3::Less
}

/// The ancestors of the keys, in order.
pub open spec fn ancestors_of_all(ks: Seq<Seq<char>>) -> Set<Seq<char>>
    decreases ks.len(),
{
    if ks.len() == 0 {
        Set::empty()
    } else {
        ancestors_of_all(ks.drop_last()).union(ancestors(ks.last()))
    }
}

proof fn lemma_ancestors_of_all(ks: Seq<Seq<char>>, p: Seq<char>)
    ensures
        ancestors_of_all(ks).contains(p) <==> exists|i: int| 0 <= i < ks.len() && #[trigger] ancestors(ks[i]).contains(p),
    decreases ks.len(),
{
    if ks.len() > 0 {
        let k0 = ks.drop_last();
        lemma_ancestors_of_all(k0, p);
        if exists|i: int| 0 <= i < ks.len() && #[trigger] ancestors(ks[i]).contains(p) {
            let i = choose|i: int| 0 <= i < ks.len() && #[trigger] ancestors(ks[i]).contains(p);
            if i < ks.len() - 1 {
                assert(ancestors(k0[i]).contains(p));
            }
        }
        if exists|i: int| 0 <= i < k0.len() && #[trigger] ancestors(k0[i]).contains(p) {
            let i = choose|i: int| 0 <= i < k0.len() && #[trigger] ancestors(k0[i]).contains(p);
            assert(ancestors(ks[i]).contains(p));
        }
    }
}

/// The closure of a list's keys is the keys with their ancestors.
proof fn lemma_key_closure(ks: Seq<Seq<char>>)
    ensures
        key_closure(ks.to_set()) == ks.to_set().union(ancestors_of_all(ks)),
{
    assert forall|p: Seq<char>| #[trigger] key_closure(ks.to_set()).contains(p) <==> ks.to_set().union(ancestors_of_all(ks)).contains(p) by {
        lemma_ancestors_of_all(ks, p);
        if exists|k: Seq<char>| ks.to_set().contains(k) && #[trigger] ancestors(k).contains(p) {
            let k = choose|k: Seq<char>| ks.to_set().contains(k) && #[trigger] ancestors(k).contains(p);
            let i = choose|i: int| 0 <= i < ks.len() && ks[i] == k;
            assert(ancestors(ks[i]).contains(p));
        }
        if exists|i: int| 0 <= i < ks.len() && #[trigger] ancestors(ks[i]).contains(p) {
            let i = choose|i: int| 0 <= i < ks.len() && #[trigger] ancestors(ks[i]).contains(p);
            assert(ks.to_set().contains(ks[i]));
        }
    }
    assert(key_closure(ks.to_set()) =~= ks.to_set().union(ancestors_of_all(ks)));
}

/// A key split at its last `/`.
pub struct KeyParts {
    pub parent: String,
    pub leaf: String,
    pub has_slash: bool,
}

/// The directory and name of a key, and whether it has a `/` at all.
pub fn split_key(k: &str) -> (r: KeyParts)
    ensures
        r.parent@ == parent_key(k@),
        r.leaf@ == leaf_name(k@),
        r.has_slash == (rfind(k@, '/') >= 0),
{
    let v = chars_of(k);
    proof {
        crate::text::lemma_rfind(v@, '/');
    }
    match rfind_char(v.as_slice(), '/') {
        None => KeyParts { parent: String::from_str("/"), leaf: String::from_str(k), has_slash: false },
        Some(i) => {
            assert(i < v.len());
            let leaf_chars = sub_chars(v.as_slice(), i + 1, v.len());
            assert(leaf_chars@ =~= v@.skip(i + 1));
            let parent = if i == 0 {
                String::from_str("/")
            } else {
                let pc = sub_chars(v.as_slice(), 0, i);
                assert(pc@ =~= v@.take(i as int));
                string_of(pc.as_slice())
            };
            KeyParts { parent, leaf: string_of(leaf_chars.as_slice()), has_slash: true }
        },
    }
}

/// The archive formats, which differ in how member paths become keys and
/// in the name of the root.
#[derive(Debug, Clone, Copy, PartialEq, Eq, Structural)]
pub enum ArchiveFormat {
    Tar,
    Zip,
    SevenZ,
}

/// A member as the archive reader reports it.
#[derive(Debug, Clone)]
pub struct ArchiveMember {
    /// The member's path as stored in the archive.
    pub path: String,
    pub kind: EntryKind,
    pub size: u64,
    pub mode: Option<u32>,
    pub mtime: Option<Timestamp>,
    /// The link target of a symbolic link.
    pub target: Option<String>,
}

/// The key a member is kept under, or `None` for a member that is skipped.
/// Tar: the empty path, `/` and `./` are skipped; other paths are
/// normalised. Zip: a path of slashes only is skipped, and so is one the
/// sanitiser refuses or that names the root. 7z: every path is normalised.
pub open spec fn member_key_spec(format: ArchiveFormat, path: Seq<char>) -> Option<Seq<char>> {
    match format {
        ArchiveFormat::Tar => if path == ""@ || path == "/"@ || path == "./"@ {
            None
        } else {
            Some(normalize_key_spec(trim_end_slashes(path)))
        },
        ArchiveFormat::Zip => {
            let t = trim_end_slashes(path);
            if t.len() == 0 {
                None
            } else {
                match safe_key_spec(t) {
                    Some(k) => if k == "/"@ {
                        None
                    } else {
                        Some(k)
                    },
                    None => None,
                }
            }
        },
        ArchiveFormat::SevenZ => Some(normalize_key_spec(path)),
    }
}

/// The key a member is kept under, as [`member_key_spec`] says.
pub fn member_key(format: ArchiveFormat, path: &str) -> (r: Option<String>)
    ensures
        match r {
            Some(k) => member_key_spec(format, path@) == Some(k@),
            None => member_key_spec(format, path@) is None,
        },
{
    match format {
        ArchiveFormat::Tar => {
            if str_eq(path, "") || str_eq(path, "/") || str_eq(path, "./") {
                None
            } else {
                let v = chars_of(path);
                let t = string_of(trim_end_slashes_of(&v).as_slice());
                Some(normalize_key(t.as_str()))
            }
        },
        ArchiveFormat::Zip => {
            let v = chars_of(path);
            let tv = trim_end_slashes_of(&v);
            if tv.len() == 0 {
                return None;
            }
            let t = string_of(tv.as_slice());
            match safe_archive_key(t.as_str()) {
                Some(k) => if str_eq(k.as_str(), "/") {
                    None
                } else {
                    Some(k)
                },
                None => None,
            }
        },
        ArchiveFormat::SevenZ => Some(normalize_key(path)),
    }
}

/// The text of an optional string.
pub open spec fn opt_text(o: Option<String>) -> Option<Seq<char>> {
    match o {
        Some(s) => Some(s@),
        None => None,
    }
}

/// The entry listed for a member kept under `key`: named by the key's last
/// piece, with the member's kind, size, mode, time and link target.
pub open spec fn member_view(m: ArchiveMember, key: Seq<char>) -> EntryView {
    EntryView {
        name: leaf_name(key),
        kind: m.kind,
        size: m.size,
        mtime: m.mtime,
        atime: None,
        ctime: None,
        mode: m.mode,
        uid: None,
        gid: None,
        nlink: None,
        target: opt_text(m.target),
    }
}

/// The members by key, a later member under the same key replacing an
/// earlier one.
pub open spec fn member_map(format: ArchiveFormat, ms: Seq<ArchiveMember>) -> Map<Seq<char>, EntryView>
    decreases ms.len(),
{
    if ms.len() == 0 {
        Map::empty()
    } else {
        let m0 = member_map(format, ms.drop_last());
        match member_key_spec(format, ms.last().path@) {
            Some(k) => m0.insert(k, member_view(ms.last(), k)),
            None => m0,
        }
    }
}

fn member_entry(m: &ArchiveMember, key: &str) -> (r: Entry)
    ensures
        r@ == member_view(*m, key@),
{
    let parts = split_key(key);
    Entry {
        name: parts.leaf,
        kind: m.kind,
        size: m.size,
        mtime: m.mtime,
        atime: None,
        ctime: None,
        mode: m.mode,
        uid: None,
        gid: None,
        nlink: None,
        target: match &m.target {
            Some(t) => Some(t.clone()),
            None => None,
        },
    }
}

/// The views of a list of entries.
pub open spec fn entry_views(v: Seq<Entry>) -> Seq<EntryView> {
    v.map_values(|e: Entry| e@)
}

/// The name lists of a list of directories.
pub open spec fn name_lists(v: Seq<Vec<String>>) -> Seq<Seq<Seq<char>>> {
    v.map_values(|n: Vec<String>| texts(n@))
}

/// An archive's members by key and its directories with their children.
pub struct ArchiveIndex {
    format: ArchiveFormat,
    scheme: String,
    keys: Vec<String>,
    entries: Vec<Entry>,
    dir_keys: Vec<String>,
    dir_names: Vec<Vec<String>>,
}

/// Keys and entries paired up, each key once.
pub open spec fn entries_wf(keys: Seq<String>, entries: Seq<Entry>) -> bool {
    keys.len() == entries.len() && distinct(texts(keys))
}

fn collect_members(format: ArchiveFormat, members: &Vec<ArchiveMember>) -> (r: (Vec<String>, Vec<Entry>))
    ensures
        entries_wf(r.0@, r.1@),
        map_of(texts(r.0@), entry_views(r.1@)) == member_map(format, members@),
{
    let mut keys: Vec<String> = Vec::new();
    let mut entries: Vec<Entry> = Vec::new();
    let mut i: usize = 0;
    assert(texts(keys@) =~= Seq::<Seq<char>>::empty());
    assert(members@.take(0) =~= Seq::<ArchiveMember>::empty());
    while i < members.len()
        invariant
            i <= members@.len(),
            entries_wf(keys@, entries@),
            map_of(texts(keys@), entry_views(entries@)) == member_map(format, members@.take(i as int)),
        decreases members@.len() - i,
    {
        let m = &members[i];
        assert(members@.take(i + 1).drop_last() =~= members@.take(i as int));
        assert(members@.take(i + 1).last() == members@[i as int]);
        match member_key(format, m.path.as_str()) {
            None => {},
            Some(k) => {
                let e = member_entry(m, k.as_str());
                let ghost ks0 = texts(keys@);
                let ghost vs0 = entry_views(entries@);
                match find_text(&keys, k.as_str()) {
                    Some(j) => {
                        entries.set(j, e);
                        proof {
                            lemma_map_of_update(ks0, vs0, j as int, e@);
                            assert(entry_views(entries@) =~= vs0.update(j as int, e@));
                            assert(ks0[j as int] == k@);
                        }
                    },
                    None => {
                        keys.push(k);
                        entries.push(e);
                        proof {
                            assert(texts(keys@) =~= ks0.push(k@));
                            assert(entry_views(entries@) =~= vs0.push(e@));
                            assert(ks0.push(k@).drop_last() =~= ks0);
                            assert(vs0.push(e@).drop_last() =~= vs0);
                            assert forall|a: int, b: int| 0 <= a < b < texts(keys@).len() implies texts(keys@)[a] != texts(keys@)[b] by {
                                if b == ks0.len() {
                                    assert(ks0.contains(ks0[a]));
                                }
                            }
                        }
                    },
                }
            },
        }
        i = i + 1;
    }
    assert(members@.take(members@.len() as int) =~= members@);
    (keys, entries)
}

fn clone_texts(v: &Vec<String>) -> (r: Vec<String>)
    ensures
        texts(r@) == texts(v@),
{
    let mut r: Vec<String> = Vec::new();
    let mut i: usize = 0;
    while i < v.len()
        invariant
            i <= v@.len(),
            texts(r@) == texts(v@).take(i as int),
        decreases v@.len() - i,
    {
        let c = v[i].clone();
        let ghost r0 = texts(r@);
        r.push(c);
        assert(texts(r@) =~= r0.push(c@));
        assert(texts(v@).take(i + 1) =~= texts(v@).take(i as int).push(v@[i as int]@));
        assert(texts(r@) =~= texts(v@).take(i + 1));
        i = i + 1;
    }
    assert(texts(v@).take(v@.len() as int) =~= texts(v@));
    r
}

/// The parent of a key when it is an ancestor; `None` when the key has no
/// ancestors.
fn next_ancestor(cur: &str) -> (r: Option<String>)
    ensures
        match r {
            None => ancestors(cur@) == Set::<Seq<char>>::empty(),
            Some(p) => p@ == parent_key(cur@) && p@.len() < cur@.len() && ancestors(cur@) == ancestors(p@).insert(p@),
        },
{
    let parts = split_key(cur);
    if !parts.has_slash || str_eq(parts.parent.as_str(), "/") {
        None
    } else {
        proof {
            crate::text::lemma_rfind(cur@, '/');
        }
        Some(parts.parent)
    }
}

/// Pushing a text not yet present keeps the texts distinct and adds it to
/// their set.
proof fn lemma_push_text(v: Seq<String>, s: String)
    requires
        distinct(texts(v)),
        !texts(v).contains(s@),
    ensures
        texts(v.push(s)) == texts(v).push(s@),
        distinct(texts(v.push(s))),
        texts(v.push(s)).to_set() == texts(v).to_set().insert(s@),
{
    let t = texts(v);
    assert(texts(v.push(s)) =~= t.push(s@));
    assert forall|a: int, b: int| 0 <= a < b < t.push(s@).len() implies t.push(s@)[a] != t.push(s@)[b] by {
        if b == t.len() {
            assert(t.contains(t[a]));
        }
    }
    t.lemma_push_to_set_commute(s@);
}

/// The keys with every directory above them, each once.
#[verifier::spinoff_prover]
fn close_keys(keys: &Vec<String>) -> (all: Vec<String>)
    requires
        distinct(texts(keys@)),
    ensures
        distinct(texts(all@)),
        texts(all@).to_set() == key_closure(texts(keys@).to_set()),
{
    let ghost ks = texts(keys@);
    let mut all = clone_texts(keys);
    let mut i: usize = 0;
    assert(ks.take(0) =~= Seq::<Seq<char>>::empty());
    assert(ks.to_set().union(ancestors_of_all(ks.take(0))) =~= ks.to_set());
    while i < keys.len()
        invariant
            i <= keys@.len(),
            ks == texts(keys@),
            distinct(texts(all@)),
            texts(all@).to_set() == ks.to_set().union(ancestors_of_all(ks.take(i as int))),
        decreases keys@.len() - i,
    {
        let ghost target = ks.to_set().union(ancestors_of_all(ks.take(i as int))).union(ancestors(ks[i as int]));
        let mut cur = keys[i].clone();
        assert(texts(all@).to_set().union(ancestors(cur@)) =~= target);
        loop
            invariant
                distinct(texts(all@)),
                texts(all@).to_set().union(ancestors(cur@)) == target,
            ensures
                distinct(texts(all@)),
                texts(all@).to_set() == target,
            decreases cur@.len(),
        {
            match next_ancestor(cur.as_str()) {
                None => {
                    assert(texts(all@).to_set() =~= texts(all@).to_set().union(ancestors(cur@)));
                    break;
                },
                Some(p) => {
                    let ghost before = texts(all@).to_set();
                    match find_text(&all, p.as_str()) {
                        Some(j) => {
                            assert(texts(all@)[j as int] == p@);
                            assert(texts(all@).contains(p@));
                            assert(before.contains(p@));
                            assert(before.union(ancestors(p@)) =~= before.union(ancestors(cur@)));
                        },
                        None => {
                            proof {
                                lemma_push_text(all@, p);
                            }
                            all.push(p.clone());
                            assert(texts(all@).to_set().union(ancestors(p@)) =~= before.union(ancestors(cur@)));
                        },
                    }
                    cur = p;
                },
            }
        }
        assert(ks.take(i + 1).drop_last() =~= ks.take(i as int));
        assert(ks.take(i + 1).last() == ks[i as int]);
        i = i + 1;
    }
    assert(ks.take(keys@.len() as int) =~= ks);
    proof {
        lemma_key_closure(ks);
    }
    all
}

/// Adding a key to a set adds a directory and a name only for a key other
/// than `/`, in the key's directory.
proof fn lemma_dir_step(p: Set<Seq<char>>, a: Seq<char>, d: Seq<char>)
    ensures
        is_dir_in(p.insert(a), d) == (is_dir_in(p, d) || (a != "/"@ && parent_key(a) == d)),
        names_under(p.insert(a), d) == if a != "/"@ && parent_key(a) == d {
            names_under(p, d).insert(leaf_name(a))
        } else {
            names_under(p, d)
        },
{
    let q = p.insert(a);
    if is_dir_in(q, d) && d != "/"@ {
        let k = choose|k: Seq<char>| #[trigger] q.contains(k) && k != "/"@ && parent_key(k) == d;
        if k != a {
            assert(p.contains(k));
        }
    }
    if is_dir_in(p, d) && d != "/"@ {
        let k = choose|k: Seq<char>| #[trigger] p.contains(k) && k != "/"@ && parent_key(k) == d;
        assert(q.contains(k));
    }
    if a != "/"@ && parent_key(a) == d {
        assert(q.contains(a));
    }
    let want = if a != "/"@ && parent_key(a) == d {
        names_under(p, d).insert(leaf_name(a))
    } else {
        names_under(p, d)
    };
    assert forall|n: Seq<char>| #[trigger] names_under(q, d).contains(n) <==> want.contains(n) by {
        if listed_under(q, d, n) {
            let k = choose|k: Seq<char>| #[trigger] q.contains(k) && k != "/"@ && parent_key(k) == d && leaf_name(k) == n;
            if k != a {
                assert(p.contains(k));
            }
        }
        if listed_under(p, d, n) {
            let k = choose|k: Seq<char>| #[trigger] p.contains(k) && k != "/"@ && parent_key(k) == d && leaf_name(k) == n;
            assert(q.contains(k));
        }
        if a != "/"@ && parent_key(a) == d && n == leaf_name(a) {
            assert(q.contains(a));
        }
    }
    assert(names_under(q, d) =~= want);
}

proof fn lemma_lex_equal(a: Seq<char>, b: Seq<char>)
    ensures
        (lex_order(a, b) == Ord3::Equal) == (a == b),
    decreases a.len(),
{
    if a.len() == 0 && b.len() == 0 {
        assert(a =~= b);
    } else if a.len() > 0 && b.len() > 0 && a[0] == b[0] {
        lemma_lex_equal(a.skip(1), b.skip(1));
        if a.skip(1) == b.skip(1) {
            assert(a =~= seq![a[0]] + a.skip(1));
            assert(b =~= seq![b[0]] + b.skip(1));
        }
        if a == b {
            assert(a.skip(1) =~= b.skip(1));
        }
    } else if a.len() > 0 && b.len() > 0 {
        if a == b {
            assert(a[0] == b[0]);
        }
    }
}

/// Where `n` goes among sorted names: every name before the position comes
/// before `n`; the one at it, if any, does not; and whether it is `n`.
fn sorted_position(names: &Vec<String>, n: &Vec<char>) -> (r: (usize, bool))
    ensures
        r.0 <= names@.len(),
        forall|j: int| 0 <= j < r.0 ==> lex_order(#[trigger] texts(names@)[j], n@) == Ord3::Less,
        r.0 < names@.len() ==> lex_order(texts(names@)[r.0 as int], n@) != Ord3::Less,
        r.1 == (r.0 < names@.len() && texts(names@)[r.0 as int] == n@),
{
    let mut i: usize = 0;
    while i < names.len()
        invariant
            i <= names@.len(),
            forall|j: int| 0 <= j < i ==> lex_order(#[trigger] texts(names@)[j], n@) == Ord3::Less,
        decreases names@.len() - i,
    {
        let c = chars_of(names[i].as_str());
        let o = lex_order_of(c.as_slice(), n.as_slice());
        assert(texts(names@)[i as int] == c@);
        if o != Ord3::Less {
            proof {
                lemma_lex_equal(c@, n@);
            }
            return (i, o == Ord3::Equal);
        }
        i = i + 1;
    }
    (i, false)
}

/// Puts a name into a sorted list of names unless it is there already.
#[verifier::spinoff_prover]
fn insert_sorted(names: &mut Vec<String>, n: String)
    requires
        strictly_sorted(texts(old(names)@)),
    ensures
        strictly_sorted(texts(final(names)@)),
        texts(final(names)@).to_set() == texts(old(names)@).to_set().insert(n@),
{
    let ghost t = texts(names@);
    let nv = chars_of(n.as_str());
    let (pos, present) = sorted_position(names, &nv);
    if present {
        assert(t.contains(n@));
        assert(t.to_set().insert(n@) =~= t.to_set());
        return;
    }
    let ghost nn = n@;
    names.insert(pos, n);
    let ghost u = texts(names@);
    assert(u =~= t.insert(pos as int, nn));
    proof {
        if (pos as int) < t.len() {
            lemma_lex_equal(t[pos as int], nn);
            crate::ord::lemma_lex_flip(t[pos as int], nn);
            assert(lex_order(nn, t[pos as int]) == Ord3::Less);
        }
        assert forall|a: int, b: int| 0 <= a < b < u.len() implies lex_order(#[trigger] u[a], #[trigger] u[b]) == Ord3::Less by {
            if b < pos {
                assert(u[a] == t[a] && u[b] == t[b]);
            } else if b == pos {
                assert(u[a] == t[a] && u[b] == nn);
            } else if a < pos {
                assert(u[a] == t[a] && u[b] == t[b - 1]);
            } else if a == pos {
                assert(u[a] == nn && u[b] == t[b - 1]);
                if b - 1 > pos {
                    assert(lex_order(t[pos as int], t[b - 1]) == Ord3::Less);
                    crate::ord::lemma_lex_trans(nn, t[pos as int], t[b - 1]);
                }
            } else {
                assert(u[a] == t[a - 1] && u[b] == t[b - 1]);
            }
        }
        assert forall|x: Seq<char>| #[trigger] u.to_set().contains(x) <==> t.to_set().insert(nn).contains(x) by {
            if u.contains(x) {
                let k = choose|k: int| 0 <= k < u.len() && u[k] == x;
                if k < pos {
                    assert(t[k] == x);
                } else if k > pos {
                    assert(t[k - 1] == x);
                }
            }
            if t.contains(x) {
                let k = choose|k: int| 0 <= k < t.len() && t[k] == x;
                if k < pos {
                    assert(u[k] == x);
                } else {
                    assert(u[k + 1] == x);
                }
            }
            if x == nn {
                assert(u[pos as int] == x);
            }
        }
        assert(u.to_set() =~= t.to_set().insert(nn));
    }
}

/// The directories of a set of keys, each with its sorted names.
#[verifier::spinoff_prover]
fn build_dirs(all: &Vec<String>) -> (r: (Vec<String>, Vec<Vec<String>>))
    ensures
        r.0@.len() == r.1@.len(),
        distinct(texts(r.0@)),
        forall|d: Seq<char>| #[trigger] texts(r.0@).contains(d) <==> is_dir_in(texts(all@).to_set(), d),
        forall|j: int|
            0 <= j < r.0@.len() ==> strictly_sorted(texts(#[trigger] r.1@[j]@)) && texts(r.1@[j]@).to_set()
                == names_under(texts(all@).to_set(), r.0@[j]@),
{
    let ghost at = texts(all@);
    let mut dir_keys: Vec<String> = Vec::new();
    let mut dir_names: Vec<Vec<String>> = Vec::new();
    dir_keys.push(String::from_str("/"));
    dir_names.push(Vec::new());
    proof {
        let p0 = at.take(0).to_set();
        assert(at.take(0).to_set() =~= Set::<Seq<char>>::empty());
        assert(texts(dir_keys@) =~= seq!["/"@]);
        assert forall|d: Seq<char>| #[trigger] texts(dir_keys@).contains(d) <==> is_dir_in(p0, d) by {
            if texts(dir_keys@).contains(d) {
                let k = choose|k: int| 0 <= k < texts(dir_keys@).len() && texts(dir_keys@)[k] == d;
                assert(k == 0);
            }
            if d == "/"@ {
                assert(texts(dir_keys@)[0] == d);
            }
        }
        assert(texts(dir_names@[0]@) =~= Seq::<Seq<char>>::empty());
        assert(texts(dir_names@[0]@).to_set() =~= names_under(p0, "/"@));
    }
    let mut i: usize = 0;
    while i < all.len()
        invariant
            i <= all@.len(),
            at == texts(all@),
            dir_keys@.len() == dir_names@.len(),
            distinct(texts(dir_keys@)),
            forall|d: Seq<char>| #[trigger] texts(dir_keys@).contains(d) <==> is_dir_in(at.take(i as int).to_set(), d),
            forall|j: int|
                0 <= j < dir_keys@.len() ==> strictly_sorted(texts(#[trigger] dir_names@[j]@)) && texts(dir_names@[j]@).to_set()
                    == names_under(at.take(i as int).to_set(), dir_keys@[j]@),
        decreases all@.len() - i,
    {
        let ghost p = at.take(i as int).to_set();
        let ghost a = at[i as int];
        proof {
            assert(at.take(i + 1) =~= at.take(i as int).push(a));
            at.take(i as int).lemma_push_to_set_commute(a);
            assert(all@[i as int]@ == a);
        }
        let ghost q = at.take(i + 1).to_set();
        assert(q == p.insert(a));
        if str_eq(all[i].as_str(), "/") {
            proof {
                assert forall|d: Seq<char>| #[trigger] texts(dir_keys@).contains(d) <==> is_dir_in(q, d) by {
                    lemma_dir_step(p, a, d);
                }
                assert forall|j: int| 0 <= j < dir_keys@.len() implies strictly_sorted(texts(#[trigger] dir_names@[j]@))
                    && texts(dir_names@[j]@).to_set() == names_under(q, dir_keys@[j]@) by {
                    lemma_dir_step(p, a, dir_keys@[j]@);
                }
            }
        } else {
            let parts = split_key(all[i].as_str());
            match find_text(&dir_keys, parts.parent.as_str()) {
                Some(j) => {
                    let ghost before_names = dir_names@;
                    let mut names = dir_names.remove(j);
                    assert(names@ == before_names[j as int]@);
                    insert_sorted(&mut names, parts.leaf);
                    dir_names.insert(j, names);
                    proof {
                        assert(dir_names@ =~= before_names.update(j as int, names));
                        assert forall|d: Seq<char>| #[trigger] texts(dir_keys@).contains(d) <==> is_dir_in(q, d) by {
                            lemma_dir_step(p, a, d);
                            if d == parent_key(a) {
                                assert(texts(dir_keys@)[j as int] == d);
                            }
                        }
                        assert forall|k: int| 0 <= k < dir_keys@.len() implies strictly_sorted(texts(#[trigger] dir_names@[k]@))
                            && texts(dir_names@[k]@).to_set() == names_under(q, dir_keys@[k]@) by {
                            lemma_dir_step(p, a, dir_keys@[k]@);
                            if k != j {
                                assert(texts(dir_keys@)[k] != texts(dir_keys@)[j as int]) by {
                                    if k < j {
                                    } else {
                                    }
                                }
                                assert(dir_names@[k] == before_names[k]);
                            }
                        }
                    }
                },
                None => {
                    let ghost dk0 = texts(dir_keys@);
                    let ghost dn0 = dir_names@;
                    let mut names: Vec<String> = Vec::new();
                    names.push(parts.leaf);
                    proof {
                        lemma_push_text(dir_keys@, parts.parent);
                        lemma_dir_step(p, a, parent_key(a));
                        assert(!is_dir_in(p, parent_key(a)));
                        assert forall|x: Seq<char>| !#[trigger] names_under(p, parent_key(a)).contains(x) by {
                            if listed_under(p, parent_key(a), x) {
                                let k = choose|k: Seq<char>| #[trigger] p.contains(k) && k != "/"@ && parent_key(k) == parent_key(a) && leaf_name(k) == x;
                                assert(is_dir_in(p, parent_key(a)));
                            }
                        }
                        assert(names_under(p, parent_key(a)) =~= Set::<Seq<char>>::empty());
                        assert(texts(names@) =~= seq![leaf_name(a)]);
                        assert(texts(names@).to_set() =~= Set::<Seq<char>>::empty().insert(leaf_name(a))) by {
                            assert forall|x: Seq<char>| #[trigger] texts(names@).to_set().contains(x) <==> x == leaf_name(a) by {
                                if x == leaf_name(a) {
                                    assert(texts(names@)[0] == x);
                                }
                            }
                        }
                    }
                    dir_keys.push(parts.parent);
                    dir_names.push(names);
                    proof {
                        assert(texts(dir_keys@) == dk0.push(parent_key(a)));
                        assert forall|d: Seq<char>| #[trigger] texts(dir_keys@).contains(d) <==> is_dir_in(q, d) by {
                            lemma_dir_step(p, a, d);
                            if dk0.contains(d) {
                                let k = choose|k: int| 0 <= k < dk0.len() && dk0[k] == d;
                                assert(texts(dir_keys@)[k] == d);
                            }
                            if texts(dir_keys@).contains(d) {
                                let k = choose|k: int| 0 <= k < texts(dir_keys@).len() && texts(dir_keys@)[k] == d;
                                if k < dk0.len() {
                                    assert(dk0[k] == d);
                                }
                            }
                            if d == parent_key(a) {
                                assert(texts(dir_keys@)[dk0.len() as int] == d);
                            }
                        }
                        assert forall|k: int| 0 <= k < dir_keys@.len() implies strictly_sorted(texts(#[trigger] dir_names@[k]@))
                            && texts(dir_names@[k]@).to_set() == names_under(q, dir_keys@[k]@) by {
                            lemma_dir_step(p, a, dir_keys@[k]@);
                            if k < dk0.len() {
                                assert(dir_names@[k] == dn0[k]);
                                assert(dk0[k] != parent_key(a));
                            }
                        }
                    }
                },
            }
        }
        i = i + 1;
    }
    assert(at.take(all@.len() as int) =~= at);
    (dir_keys, dir_names)
}

/// The directory listing agrees with the keys: exactly the directories of
/// the keys and their ancestors are listed, each with the names of the keys
/// directly in it, sorted, each once.
pub open spec fn dirs_match(keys: Set<Seq<char>>, dirs: Map<Seq<char>, Seq<Seq<char>>>) -> bool {
    let all = key_closure(keys);
    &&& forall|d: Seq<char>| #[trigger] dirs.contains_key(d) <==> is_dir_in(all, d)
    &&& forall|d: Seq<char>| #[trigger] dirs.contains_key(d) ==> strictly_sorted(dirs[d]) && dirs[d].to_set() == names_under(all, d)
}

/// A directory entry with nothing known but its name.
pub open spec fn dir_view(name: Seq<char>) -> EntryView {
    EntryView {
        name,
        kind: EntryKind::Dir,
        size: 0,
        mtime: None,
        atime: None,
        ctime: None,
        mode: None,
        uid: None,
        gid: None,
        nlink: None,
        target: None,
    }
}

/// The root directory's entry: named `/`, or unnamed in a 7z archive.
pub open spec fn root_view(format: ArchiveFormat) -> EntryView {
    dir_view(if format == ArchiveFormat::SevenZ { Seq::empty() } else { "/"@ })
}

/// What a key stands for: the root, a member, or a directory implied by
/// other keys; otherwise the "not found" message.
pub open spec fn stat_spec(
    format: ArchiveFormat,
    entries: Map<Seq<char>, EntryView>,
    dirs: Map<Seq<char>, Seq<Seq<char>>>,
    key: Seq<char>,
) -> Result<EntryView, Seq<char>> {
    if key == "/"@ {
        Ok(root_view(format))
    } else if entries.contains_key(key) {
        Ok(entries[key])
    } else if dirs.contains_key(key) {
        Ok(dir_view(leaf_name(key)))
    } else {
        Err("not found: "@ + key)
    }
}

/// The key of the name `n` in the directory `dir`.
pub open spec fn child_key(dir: Seq<char>, n: Seq<char>) -> Seq<char> {
    if dir == "/"@ {
        "/"@ + n
    } else {
        dir + "/"@ + n
    }
}

/// How the name `n` in `dir` is listed: the member under its key, or a
/// directory of that name.
pub open spec fn listing_view(entries: Map<Seq<char>, EntryView>, dir: Seq<char>, n: Seq<char>) -> EntryView {
    let k = child_key(dir, n);
    if entries.contains_key(k) {
        entries[k]
    } else {
        dir_view(n)
    }
}

/// The listing of a directory, in the order of its names; otherwise the
/// "not a directory" message.
pub open spec fn read_dir_spec(
    entries: Map<Seq<char>, EntryView>,
    dirs: Map<Seq<char>, Seq<Seq<char>>>,
    key: Seq<char>,
) -> Result<Seq<EntryView>, Seq<char>> {
    if dirs.contains_key(key) {
        Ok(dirs[key].map_values(|n: Seq<char>| listing_view(entries, key, n)))
    } else {
        Err("not a directory: "@ + key)
    }
}

/// The member a key names when it is a regular file; otherwise the "not
/// found" or "not a regular file" message.
pub open spec fn file_entry_spec(entries: Map<Seq<char>, EntryView>, key: Seq<char>) -> Result<EntryView, Seq<char>> {
    if !entries.contains_key(key) {
        Err("not found: "@ + key)
    } else if entries[key].kind != EntryKind::File {
        Err("not a regular file: "@ + key)
    } else {
        Ok(entries[key])
    }
}

/// The key a path names in an archive of the given scheme: the sub-path of
/// its innermost layer of that scheme, sanitised for zip and normalised
/// otherwise; or the message of the invalid-path error.
pub open spec fn key_for_spec(format: ArchiveFormat, scheme: Seq<char>, p: Seq<LayerText>) -> Result<Seq<char>, Seq<char>> {
    match last_layer_with(p, scheme) {
        None => Err("vpath has no "@ + scheme + " layer"@),
        Some(l) => if format == ArchiveFormat::Zip {
            match safe_key_spec(l.2) {
                Some(k) => Ok(k),
                None => Err("path traversal in "@ + vpath_text(p)),
            }
        } else {
            Ok(normalize_key_spec(l.2))
        },
    }
}

/// A message followed by a text.
fn message(head: &str, tail: &str) -> (r: String)
    ensures
        r@ == head@ + tail@,
{
    let mut m = String::from_str(head);
    append_str(&mut m, tail);
    m
}

fn dir_entry(name: String) -> (r: Entry)
    ensures
        r@ == dir_view(name@),
{
    Entry {
        name,
        kind: EntryKind::Dir,
        size: 0,
        mtime: None,
        atime: None,
        ctime: None,
        mode: None,
        uid: None,
        gid: None,
        nlink: None,
        target: None,
    }
}

impl ArchiveIndex {
    #[verifier::type_invariant]
    closed spec fn inv(&self) -> bool {
        &&& entries_wf(self.keys@, self.entries@)
        &&& self.dir_keys@.len() == self.dir_names@.len()
        &&& distinct(texts(self.dir_keys@))
    }

    /// The members by key.
    pub closed spec fn entry_map(&self) -> Map<Seq<char>, EntryView> {
        map_of(texts(self.keys@), entry_views(self.entries@))
    }

    /// The directories by key, each with its names.
    pub closed spec fn dir_map(&self) -> Map<Seq<char>, Seq<Seq<char>>> {
        map_of(texts(self.dir_keys@), name_lists(self.dir_names@))
    }

    /// The archive's format.
    pub closed spec fn format_spec(&self) -> ArchiveFormat {
        self.format
    }

    /// The scheme of the paths into the archive.
    pub closed spec fn scheme_spec(&self) -> Seq<char> {
        self.scheme@
    }

    /// The index of an archive's members: members whose path gives no key
    /// are left out, a later member replaces an earlier one under the same
    /// key, and the directories are those of the keys and their ancestors.
    pub fn build(format: ArchiveFormat, scheme: &str, members: Vec<ArchiveMember>) -> (r: Self)
        ensures
            r.format_spec() == format,
            r.scheme_spec() == scheme@,
            r.entry_map() == member_map(format, members@),
            dirs_match(r.entry_map().dom(), r.dir_map()),
    {
        let (keys, entries) = collect_members(format, &members);
        let all = close_keys(&keys);
        let (dir_keys, dir_names) = build_dirs(&all);
        let r = ArchiveIndex { format, scheme: String::from_str(scheme), keys, entries, dir_keys, dir_names };
        proof {
            let ks = texts(r.keys@);
            lemma_map_of(ks, entry_views(r.entries@));
            assert(r.entry_map().dom() =~= ks.to_set());
            let dk = texts(r.dir_keys@);
            let dn = name_lists(r.dir_names@);
            lemma_map_of(dk, dn);
            let closure = key_closure(r.entry_map().dom());
            assert(closure == texts(all@).to_set());
            assert forall|d: Seq<char>| #[trigger] r.dir_map().contains_key(d) implies strictly_sorted(r.dir_map()[d])
                && r.dir_map()[d].to_set() == names_under(closure, d) by {
                let j = choose|j: int| 0 <= j < dk.len() && dk[j] == d;
                assert(r.dir_map()[dk[j]] == dn[j]);
                assert(dn[j] == texts(r.dir_names@[j]@));
            }
        }
        r
    }

    /// What a key stands for, as [`stat_spec`] says.
    pub fn stat(&self, key: &str) -> (r: Result<Entry, Error>)
        ensures
            match r {
                Ok(e) => stat_spec(self.format_spec(), self.entry_map(), self.dir_map(), key@) == Ok::<EntryView, Seq<char>>(e@),
                Err(Error::Vfs(m)) => stat_spec(self.format_spec(), self.entry_map(), self.dir_map(), key@) == Err::<EntryView, Seq<char>>(m@),
                Err(_) => false,
            },
    {
        proof {
            use_type_invariant(self);
            lemma_map_of(texts(self.keys@), entry_views(self.entries@));
            lemma_map_of(texts(self.dir_keys@), name_lists(self.dir_names@));
        }
        if str_eq(key, "/") {
            let name = if self.format == ArchiveFormat::SevenZ { String::new() } else { String::from_str("/") };
            return Ok(dir_entry(name));
        }
        match find_text(&self.keys, key) {
            Some(j) => {
                assert(texts(self.keys@)[j as int] == key@);
                Ok(self.entries[j].clone_entry())
            },
            None => match find_text(&self.dir_keys, key) {
                Some(j) => {
                    assert(texts(self.dir_keys@)[j as int] == key@);
                    let parts = split_key(key);
                    Ok(dir_entry(parts.leaf))
                },
                None => Err(Error::Vfs(message("not found: ", key))),
            },
        }
    }

    fn child_key_of(dir: &str, n: &str) -> (r: String)
        ensures
            r@ == child_key(dir@, n@),
    {
        if str_eq(dir, "/") {
            message("/", n)
        } else {
            let mut r = message(dir, "/");
            append_str(&mut r, n);
            r
        }
    }

    /// The listing of a directory, as [`read_dir_spec`] says.
    pub fn read_dir(&self, key: &str) -> (r: Result<Vec<Entry>, Error>)
        ensures
            match r {
                Ok(v) => read_dir_spec(self.entry_map(), self.dir_map(), key@) == Ok::<Seq<EntryView>, Seq<char>>(entry_views(v@)),
                Err(Error::Vfs(m)) => read_dir_spec(self.entry_map(), self.dir_map(), key@) == Err::<Seq<EntryView>, Seq<char>>(m@),
                Err(_) => false,
            },
    {
        proof {
            use_type_invariant(self);
            lemma_map_of(texts(self.keys@), entry_views(self.entries@));
            lemma_map_of(texts(self.dir_keys@), name_lists(self.dir_names@));
        }
        let j = match find_text(&self.dir_keys, key) {
            Some(j) => j,
            None => return Err(Error::Vfs(message("not a directory: ", key))),
        };
        assert(texts(self.dir_keys@)[j as int] == key@);
        let names = &self.dir_names[j];
        let ghost nt = texts(names@);
        assert(self.dir_map()[key@] == nt);
        let ghost want = nt.map_values(|n: Seq<char>| listing_view(self.entry_map(), key@, n));
        let mut out: Vec<Entry> = Vec::new();
        let mut i: usize = 0;
        while i < names.len()
            invariant
                i <= names@.len(),
                nt == texts(names@),
                want == nt.map_values(|n: Seq<char>| listing_view(self.entry_map(), key@, n)),
                entry_views(out@) == want.take(i as int),
                forall|k: Seq<char>| #[trigger] self.entry_map().contains_key(k) <==> texts(self.keys@).contains(k),
                forall|q: int| 0 <= q < self.keys@.len() ==> self.entry_map()[#[trigger] texts(self.keys@)[q]] == entry_views(self.entries@)[q],
                entries_wf(self.keys@, self.entries@),
            decreases names@.len() - i,
        {
            let ck = Self::child_key_of(key, names[i].as_str());
            assert(nt[i as int] == names@[i as int]@);
            let e = match find_text(&self.keys, ck.as_str()) {
                Some(q) => {
                    assert(texts(self.keys@)[q as int] == ck@);
                    self.entries[q].clone_entry()
                },
                None => dir_entry(names[i].clone()),
            };
            let ghost o0 = entry_views(out@);
            out.push(e);
            assert(entry_views(out@) =~= o0.push(e@));
            assert(want.take(i + 1) =~= want.take(i as int).push(want[i as int]));
            i = i + 1;
        }
        assert(want.take(names@.len() as int) =~= want);
        Ok(out)
    }

    /// The member a key names when it is a regular file, as
    /// [`file_entry_spec`] says.
    pub fn file_entry(&self, key: &str) -> (r: Result<Entry, Error>)
        ensures
            match r {
                Ok(e) => file_entry_spec(self.entry_map(), key@) == Ok::<EntryView, Seq<char>>(e@),
                Err(Error::Vfs(m)) => file_entry_spec(self.entry_map(), key@) == Err::<EntryView, Seq<char>>(m@),
                Err(_) => false,
            },
    {
        proof {
            use_type_invariant(self);
            lemma_map_of(texts(self.keys@), entry_views(self.entries@));
        }
        match find_text(&self.keys, key) {
            None => Err(Error::Vfs(message("not found: ", key))),
            Some(j) => {
                assert(texts(self.keys@)[j as int] == key@);
                let e = self.entries[j].clone_entry();
                if e.kind != EntryKind::File {
                    Err(Error::Vfs(message("not a regular file: ", key)))
                } else {
                    Ok(e)
                }
            },
        }
    }

    /// The key a path names in this archive, as [`key_for_spec`] says; the
    /// error is [`Error::InvalidPath`].
    pub fn key_for(&self, p: &VPath) -> (r: Result<String, Error>)
        ensures
            match r {
                Ok(k) => key_for_spec(self.format_spec(), self.scheme_spec(), p@) == Ok::<Seq<char>, Seq<char>>(k@),
                Err(Error::InvalidPath(m)) => key_for_spec(self.format_spec(), self.scheme_spec(), p@) == Err::<Seq<char>, Seq<char>>(m@),
                Err(_) => false,
            },
    {
        let layer = match innermost_layer(p, self.scheme.as_str()) {
            Some(l) => l,
            None => {
                let mut m = message("vpath has no ", self.scheme.as_str());
                append_str(&mut m, " layer");
                return Err(Error::InvalidPath(m));
            },
        };
        let sub = layer.sub.as_str();
        if self.format == ArchiveFormat::Zip {
            match safe_archive_key(sub) {
                Some(k) => Ok(k),
                None => Err(Error::InvalidPath(message("path traversal in ", p.to_text().as_str()))),
            }
        } else {
            Ok(normalize_key(sub))
        }
    }
}

/// Every key of an archive index is rooted at `/`; a zip index never keeps
/// a member under `/` itself or under a key with a `..` piece, and each of
/// its keys is already in sanitised form.
pub proof fn lemma_member_keys_rooted(format: ArchiveFormat, ms: Seq<ArchiveMember>, k: Seq<char>)
    requires
        member_map(format, ms).contains_key(k),
    ensures
        k.len() >= 1 && k[0] == '/',
        format == ArchiveFormat::Zip ==> k != "/"@ && !has_dotdot(k) && safe_key_spec(k) == Some(k),
    decreases ms.len(),
{
    let m = ms.last();
    match member_key_spec(format, m.path@) {
        Some(k2) => {
            if k2 == k {
                if format == ArchiveFormat::Zip {
                    lemma_safe_key_normal_form(trim_end_slashes(m.path@));
                } else {
                    let x = if format == ArchiveFormat::Tar { trim_end_slashes(m.path@) } else { m.path@ };
                    assert(k == normalize_key_spec(x));
                    reveal_strlit("/");
                    if trim_end_slashes(x).len() > 0 && trim_end_slashes(x)[0] != '/' {
                        assert(("/"@ + trim_end_slashes(x))[0] == '/');
                    }
                }
            } else {
                lemma_member_keys_rooted(format, ms.drop_last(), k);
            }
        },
        None => {
            lemma_member_keys_rooted(format, ms.drop_last(), k);
        },
    }
}

/// Every key other than `/`, and every directory above a key, is listed by
/// name in its own directory.
pub proof fn lemma_listed_in_parent(keys: Set<Seq<char>>, dirs: Map<Seq<char>, Seq<Seq<char>>>, k: Seq<char>)
    requires
        dirs_match(keys, dirs),
        key_closure(keys).contains(k),
        k != "/"@,
    ensures
        dirs.contains_key(parent_key(k)),
        dirs[parent_key(k)].contains(leaf_name(k)),
{
    let all = key_closure(keys);
    assert(is_dir_in(all, parent_key(k)));
    assert(dirs.contains_key(parent_key(k)));
    assert(listed_under(all, parent_key(k), leaf_name(k)));
    assert(names_under(all, parent_key(k)).contains(leaf_name(k)));
    assert(dirs[parent_key(k)].to_set().contains(leaf_name(k)));
}

} // verus!
