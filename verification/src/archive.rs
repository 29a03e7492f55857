//! Archive support: entry-path sanitising, archive type detection and the
//! decompressed-size cap.

use vstd::prelude::*;

use crate::error::Error;
use crate::text::{append_chars, lemma_split_seg_extend, lemma_split_seg_no_sep, lemma_split_seg_nonempty, split_seg, ascii_lower, ascii_lowercase, chars_eq, chars_of, has_suffix, push_char, string_of};

verus! {

/// Maximum decompressed-archive size buffered in memory. Anything larger is
/// rejected with [`Error::Vfs`] so a "compression bomb" cannot exhaust memory.
pub const MAX_DECOMPRESSED: u64 = 2 * 1024 * 1024 * 1024;

/// A path piece that names something: neither empty nor `.`.
pub open spec fn is_named(c: Seq<char>) -> bool {
    c.len() > 0 && c != "."@
}

/// The pieces of a `/`-separated path that name something.
pub open spec fn named_parts(s: Seq<char>) -> Seq<Seq<char>> {
    split_seg(s, '/').filter(|c: Seq<char>| is_named(c))
}

/// Whether a path has a `..` piece.
pub open spec fn has_dotdot(s: Seq<char>) -> bool {
    exists|i: int| 0 <= i < split_seg(s, '/').len() && #[trigger] split_seg(s, '/')[i] == ".."@
}

/// The pieces each preceded by `/`: `/a/b` for `[a, b]`.
pub open spec fn slash_join(parts: Seq<Seq<char>>) -> Seq<char>
    decreases parts.len(),
{
    if parts.len() == 0 {
        Seq::empty()
    } else {
        slash_join(parts.drop_last()) + "/"@ + parts.last()
    }
}

/// The rooted key of an archive entry path: `None` if any piece is `..`;
/// otherwise the named pieces joined under `/`, or `/` when there are none.
pub open spec fn safe_key_spec(s: Seq<char>) -> Option<Seq<char>> {
    if has_dotdot(s) {
        None
    } else if named_parts(s).len() == 0 {
        Some("/"@)
    } else {
        Some(slash_join(named_parts(s)))
    }
}

fn is_dot(c: &Vec<char>) -> (r: bool)
    ensures
        r == (c@ == "."@),
{
    let d = chars_of(".");
    chars_eq(c.as_slice(), d.as_slice())
}

fn is_dotdot(c: &Vec<char>) -> (r: bool)
    ensures
        r == (c@ == ".."@),
{
    let d = chars_of("..");
    chars_eq(c.as_slice(), d.as_slice())
}

/// The state after reading `s`: the named pieces before the last separator,
/// whether one of those pieces is `..`, and the piece being read.
spec fn scan_ok(s: Seq<char>, parts: Seq<Seq<char>>, bad: bool, cur: Seq<char>) -> bool {
    let segs = split_seg(s, '/');
    &&& segs.len() >= 1
    &&& cur == segs.last()
    &&& parts == segs.drop_last().filter(|c: Seq<char>| is_named(c))
    &&& bad == exists|i: int| 0 <= i < segs.len() - 1 && #[trigger] segs[i] == ".."@
}

/// Scans `s` piece by piece: the named pieces, whether a `..` was seen.
fn scan_parts(v: &Vec<char>) -> (r: (Vec<Vec<char>>, bool))
    ensures
        r.0@.map_values(|p: Vec<char>| p@) == named_parts(v@),
        r.1 == has_dotdot(v@),
{
    let ghost pred = |c: Seq<char>| is_named(c);
    let mut parts: Vec<Vec<char>> = Vec::new();
    let mut bad = false;
    let mut cur: Vec<char> = Vec::new();
    let mut i: usize = 0;
    proof {
        assert(v@.take(0) =~= Seq::<char>::empty());
        assert(split_seg(v@.take(0), '/').drop_last() =~= Seq::<Seq<char>>::empty());
        assert(Seq::<Seq<char>>::empty().filter(pred) =~= Seq::<Seq<char>>::empty()) by {
            reveal(Seq::filter);
        }
        assert(split_seg(v@.take(0), '/') == seq![Seq::<char>::empty()]);
        assert(parts@.map_values(|p: Vec<char>| p@) =~= Seq::<Seq<char>>::empty());
        assert(cur@ =~= Seq::<char>::empty());
    }
    while i < v.len()
        invariant
            i <= v@.len(),
            pred == (|c: Seq<char>| is_named(c)),
            scan_ok(v@.take(i as int), parts@.map_values(|p: Vec<char>| p@), bad, cur@),
        decreases v@.len() - i,
    {
        let ghost s0 = v@.take(i as int);
        let ghost s1 = v@.take(i + 1);
        let ghost segs0 = split_seg(s0, '/');
        let ghost pv = parts@.map_values(|p: Vec<char>| p@);
        assert(s1.drop_last() =~= s0);
        assert(s1.last() == v@[i as int]);
        if v[i] == '/' {
            let dd = is_dotdot(&cur);
            let named = cur.len() > 0 && !is_dot(&cur);
            let ghost segs1 = split_seg(s1, '/');
            proof {
                assert(segs1 == segs0.push(Seq::<char>::empty()));
                assert(segs1.drop_last() =~= segs0);
                assert(segs0 =~= segs0.drop_last().push(cur@));
                segs0.drop_last().lemma_filter_push(cur@, pred);
            }
            if dd {
                bad = true;
            }
            if named {
                parts.push(cur);
                assert(parts@.map_values(|p: Vec<char>| p@) =~= pv.push(segs0.last()));
            }
            cur = Vec::new();
            proof {
                assert(parts@.map_values(|p: Vec<char>| p@) == segs1.drop_last().filter(pred));
                if bad {
                    if dd {
                        assert(segs1[segs0.len() - 1] == ".."@);
                    } else {
                        let j = choose|j: int| 0 <= j < segs0.len() - 1 && #[trigger] segs0[j] == ".."@;
                        assert(segs1[j] == ".."@);
                    }
                } else {
                    assert forall|j: int| 0 <= j < segs1.len() - 1 implies #[trigger] segs1[j] != ".."@ by {
                        if j < segs0.len() - 1 {
                            assert(segs1[j] == segs0[j]);
                        }
                    }
                }
            }
        } else {
            let ghost segs1 = split_seg(s1, '/');
            cur.push(v[i]);
            proof {
                assert(segs1 == segs0.update(segs0.len() - 1, segs0.last().push(v@[i as int])));
                assert(segs1.drop_last() =~= segs0.drop_last());
                if bad {
                    let j = choose|j: int| 0 <= j < segs0.len() - 1 && #[trigger] segs0[j] == ".."@;
                    assert(segs1[j] == ".."@);
                } else {
                    assert forall|j: int| 0 <= j < segs1.len() - 1 implies #[trigger] segs1[j] != ".."@ by {
                        assert(segs1[j] == segs0[j]);
                    }
                }
            }
        }
        i = i + 1;
    }
    assert(v@.take(v@.len() as int) =~= v@);
    let ghost segs = split_seg(v@, '/');
    let ghost pv = parts@.map_values(|p: Vec<char>| p@);
    proof {
        assert(segs =~= segs.drop_last().push(cur@));
        segs.drop_last().lemma_filter_push(cur@, pred);
    }
    let dd = is_dotdot(&cur);
    if dd {
        bad = true;
    }
    if cur.len() > 0 && !is_dot(&cur) {
        parts.push(cur);
        assert(parts@.map_values(|p: Vec<char>| p@) =~= pv.push(segs.last()));
    }
    proof {
        if bad {
            if dd {
                assert(segs[segs.len() - 1] == ".."@);
            } else {
                let j = choose|j: int| 0 <= j < segs.len() - 1 && #[trigger] segs[j] == ".."@;
                assert(segs[j] == ".."@);
            }
        } else {
            assert forall|j: int| 0 <= j < segs.len() implies #[trigger] segs[j] != ".."@ by {
                if j == segs.len() - 1 {
                    assert(segs[j] == cur@);
                }
            }
        }
    }
    (parts, bad)
}

/// Sanitise an archive entry path so traversal pieces (`..`, absolute
/// references, leading slashes) cannot escape the archive root.
///
/// Returns `None` for an entry that contains a `..` piece: the caller skips
/// the whole entry. Empty and `.`-only paths normalise to `/`. The result is
/// rooted at `/`, has no trailing slash, and uses `/` as its only separator.
pub fn safe_archive_key(s: &str) -> (r: Option<String>)
    ensures
        match r {
            Some(k) => safe_key_spec(s@) == Some(k@),
            None => safe_key_spec(s@) is None,
        },
{
    let v = chars_of(s);
    let (parts, bad) = scan_parts(&v);
    if bad {
        return None;
    }
    let ghost pv = parts@.map_values(|p: Vec<char>| p@);
    if parts.len() == 0 {
        return Some(String::from_str("/"));
    }
    let mut out = String::new();
    let mut i: usize = 0;
    assert(pv.take(0) =~= Seq::<Seq<char>>::empty());
    while i < parts.len()
        invariant
            i <= parts@.len(),
            pv == parts@.map_values(|p: Vec<char>| p@),
            out@ == slash_join(pv.take(i as int)),
        decreases parts@.len() - i,
    {
        push_char(&mut out, '/');
        append_chars(&mut out, parts[i].as_slice());
        proof {
            assert(pv.take(i + 1).drop_last() =~= pv.take(i as int));
            assert(pv.take(i + 1).last() == parts@[i as int]@);
            assert(seq!['/'] =~= "/"@) by {
                reveal_strlit("/");
            }
        }
        i = i + 1;
    }
    assert(pv.take(parts@.len() as int) =~= pv);
    Some(out)
}

/// The name of the last piece of a path that names something, as
/// `Path::file_name` gives it: `None` when there is none or it is `..`.
pub open spec fn file_name_spec(s: Seq<char>) -> Option<Seq<char>> {
    let parts = named_parts(s);
    if parts.len() == 0 || parts.last() == ".."@ {
        None
    } else {
        Some(parts.last())
    }
}

/// The last piece of a path that names something, as [`file_name_spec`]
/// says.
pub fn file_name(path: &str) -> (r: Option<String>)
    ensures
        match r {
            Some(n) => file_name_spec(path@) == Some(n@),
            None => file_name_spec(path@) is None,
        },
{
    let v = chars_of(path);
    let (parts, _) = scan_parts(&v);
    if parts.len() == 0 {
        return None;
    }
    let last = &parts[parts.len() - 1];
    if is_dotdot(last) {
        return None;
    }
    Some(string_of(last.as_slice()))
}

/// The kinds of archive that can be mounted.
#[derive(Debug, Clone, Copy, PartialEq, Eq, Structural)]
pub enum ArchiveKind {
    Tar,
    TarGz,
    TarBz2,
    TarXz,
    TarZst,
    Zip,
    Cpio,
    SevenZ,
}

/// The archive kind a lower-cased file name's suffix names.
pub open spec fn kind_of_name(n: Seq<char>) -> Option<ArchiveKind> {
    if has_suffix(n, ".tar.gz"@) || has_suffix(n, ".tgz"@) {
        Some(ArchiveKind::TarGz)
    } else if has_suffix(n, ".tar.bz2"@) || has_suffix(n, ".tbz2"@) || has_suffix(n, ".tbz"@) {
        Some(ArchiveKind::TarBz2)
    } else if has_suffix(n, ".tar.xz"@) || has_suffix(n, ".txz"@) {
        Some(ArchiveKind::TarXz)
    } else if has_suffix(n, ".tar.zst"@) || has_suffix(n, ".tzst"@) {
        Some(ArchiveKind::TarZst)
    } else if has_suffix(n, ".tar"@) {
        Some(ArchiveKind::Tar)
    } else if has_suffix(n, ".zip"@) {
        Some(ArchiveKind::Zip)
    } else if has_suffix(n, ".cpio"@) {
        Some(ArchiveKind::Cpio)
    } else if has_suffix(n, ".7z"@) {
        Some(ArchiveKind::SevenZ)
    } else {
        None
    }
}

/// The scheme an archive of kind `k` is mounted under: `tar` for every
/// tarball, else `zip`, `cpio` or `7z`.
pub open spec fn mount_scheme_spec(k: ArchiveKind) -> Seq<char> {
    match k {
        ArchiveKind::Tar | ArchiveKind::TarGz | ArchiveKind::TarBz2 | ArchiveKind::TarXz | ArchiveKind::TarZst => "tar"@,
        ArchiveKind::Zip => "zip"@,
        ArchiveKind::Cpio => "cpio"@,
        ArchiveKind::SevenZ => "7z"@,
    }
}

/// The root of the archive at `target` mounted as number `id`: `target`
/// with a layer of the kind's scheme, location `mount-<id>` and sub-path
/// `/` on top.
pub open spec fn mounted_root_spec(target: Seq<crate::path::LayerText>, k: ArchiveKind, id: u64) -> Seq<crate::path::LayerText> {
    target.push((mount_scheme_spec(k), "mount-"@ + crate::num::decimal(id as nat), "/"@))
}

impl ArchiveKind {
    /// The scheme this kind is mounted under, as [`mount_scheme_spec`] says.
    pub fn mount_scheme(self) -> (r: &'static str)
        ensures
            r@ == mount_scheme_spec(self),
    {
        proof {
            reveal_strlit("tar");
            reveal_strlit("zip");
            reveal_strlit("cpio");
            reveal_strlit("7z");
        }
        match self {
            ArchiveKind::Tar | ArchiveKind::TarGz | ArchiveKind::TarBz2 | ArchiveKind::TarXz | ArchiveKind::TarZst => "tar",
            ArchiveKind::Zip => "zip",
            ArchiveKind::Cpio => "cpio",
            ArchiveKind::SevenZ => "7z",
        }
    }
}

/// The root of a mounted archive, as [`mounted_root_spec`] says.
pub fn mounted_root(target: &crate::path::VPath, k: ArchiveKind, id: u64) -> (r: crate::path::VPath)
    requires
        target@.len() < usize::MAX,
    ensures
        r@ == mounted_root_spec(target@, k, id),
{
    proof {
        reveal_strlit("mount-");
        reveal_strlit("/");
    }
    let mut location = String::from_str("mount-");
    let digits = crate::num::decimal_chars(id);
    append_chars(&mut location, digits.as_slice());
    let layer = crate::path::Layer {
        scheme: String::from_str(k.mount_scheme()),
        location,
        sub: String::from_str("/"),
    };
    let mut p = target.clone_path();
    p.push_layer(layer);
    p
}

/// What `detect` gives for a path.
pub open spec fn detect_spec(path: Seq<char>) -> Option<ArchiveKind> {
    match file_name_spec(path) {
        None => None,
        Some(n) => kind_of_name(ascii_lower(n)),
    }
}

fn ends_with(n: &Vec<char>, suffix: &str) -> (r: bool)
    ensures
        r == has_suffix(n@, suffix@),
{
    let sv = chars_of(suffix);
    crate::text::ends_with_chars(n.as_slice(), sv.as_slice())
}

impl ArchiveKind {
    /// Best-effort detection by the lower-cased file name's suffix.
    pub fn detect(path: &str) -> (r: Option<Self>)
        ensures
            r == detect_spec(path@),
    {
        let ls = match file_name(path) {
            Some(n) => n,
            None => return None,
        };
        let lower = ascii_lowercase(ls.as_str());
        let n = chars_of(lower.as_str());
        if ends_with(&n, ".tar.gz") || ends_with(&n, ".tgz") {
            Some(ArchiveKind::TarGz)
        } else if ends_with(&n, ".tar.bz2") || ends_with(&n, ".tbz2") || ends_with(&n, ".tbz") {
            Some(ArchiveKind::TarBz2)
        } else if ends_with(&n, ".tar.xz") || ends_with(&n, ".txz") {
            Some(ArchiveKind::TarXz)
        } else if ends_with(&n, ".tar.zst") || ends_with(&n, ".tzst") {
            Some(ArchiveKind::TarZst)
        } else if ends_with(&n, ".tar") {
            Some(ArchiveKind::Tar)
        } else if ends_with(&n, ".zip") {
            Some(ArchiveKind::Zip)
        } else if ends_with(&n, ".cpio") {
            Some(ArchiveKind::Cpio)
        } else if ends_with(&n, ".7z") {
            Some(ArchiveKind::SevenZ)
        } else {
            None
        }
    }
}

/// The compression a tarball is wrapped in.
#[derive(Debug, Clone, Copy, PartialEq, Eq, Structural)]
pub enum Compression {
    Gz,
    Bz2,
    Xz,
    Zst,
}

/// `archive exceeds <limit>-byte decompressed cap`
pub open spec fn cap_msg(limit: nat) -> Seq<char> {
    "archive exceeds "@ + crate::num::decimal(limit) + "-byte decompressed cap"@
}

#[verifier::external_type_specification]
#[verifier::external_body]
#[verifier::reject_recursive_types(R)]
pub struct ExTake<R>(std::io::Take<R>);

/// Wraps `r` with `Read::take`, so that at most `max` bytes can be read
/// through it. Nothing is stated of the wrapped reader.
#[verifier::external_body]
fn take_window<R: std::io::Read>(r: R, max: u64) -> std::io::Take<R> {
    std::io::Read::take(r, max)
}

/// Reads `t` to its end with `Read::read_to_end` into a fresh buffer. What
/// it reads depends on the reader, so nothing is stated of the bytes.
#[verifier::external_body]
fn read_to_end_of<R: std::io::Read>(t: &mut std::io::Take<R>) -> Result<Vec<u8>, std::io::Error> {
    let mut buf = Vec::new();
    match std::io::Read::read_to_end(t, &mut buf) {
        Ok(_) => Ok(buf),
        Err(e) => Err(e),
    }
}

/// Checks a buffer read through a `limit + 1` window against the cap.
pub fn check_cap(buf: Vec<u8>, limit: u64) -> (r: Result<Vec<u8>, Error>)
    ensures
        buf@.len() <= limit ==> (r matches Ok(b) && b@ == buf@),
        buf@.len() > limit ==> (r matches Err(Error::Vfs(m)) && m@ == cap_msg(limit as nat)),
{
    if buf.len() as u64 > limit {
        let mut m = String::from_str("archive exceeds ");
        let d = crate::num::decimal_chars(limit);
        append_chars(&mut m, d.as_slice());
        crate::text::append_str(&mut m, "-byte decompressed cap");
        return Err(Error::Vfs(m));
    }
    Ok(buf)
}

/// The window a capped read goes through: one byte more than the cap, so
/// that a stream of exactly `limit` bytes and a longer one are told apart.
pub fn cap_window(limit: u64) -> (w: u64)
    requires
        limit < u64::MAX,
    ensures
        w == limit + 1,
{
    limit + 1
}

/// Decompress `r` fully into memory, refusing more than `limit` bytes. The
/// reader is wrapped in a window of `limit + 1` bytes, so "exactly at the
/// cap" and "over the cap" are told apart.
pub fn decompress_capped_with<R: std::io::Read>(r: R, limit: u64) -> (res: Result<Vec<u8>, Error>)
    requires
        limit < u64::MAX,
    ensures
        res matches Ok(b) ==> b@.len() <= limit,
        res matches Err(Error::Vfs(m)) ==> m@ == cap_msg(limit as nat),
        res is Ok || res matches Err(Error::Vfs(_)) || res matches Err(Error::Io(_)),
{
    let window = cap_window(limit);
    let mut t = take_window(r, window);
    match read_to_end_of(&mut t) {
        Ok(buf) => check_cap(buf, limit),
        Err(e) => Err(Error::Io(e)),
    }
}

/// [`decompress_capped_with`] at [`MAX_DECOMPRESSED`].
pub fn decompress_capped<R: std::io::Read>(r: R) -> (res: Result<Vec<u8>, Error>)
    ensures
        res matches Ok(b) ==> b@.len() <= MAX_DECOMPRESSED,
        res matches Err(Error::Vfs(m)) ==> m@ == cap_msg(MAX_DECOMPRESSED as nat),
        res is Ok || res matches Err(Error::Vfs(_)) || res matches Err(Error::Io(_)),
{
    decompress_capped_with(r, MAX_DECOMPRESSED)
}

} // verus!

verus! {

/// Splitting `/`-joined plain pieces gives an empty first piece and the pieces.
proof fn lemma_split_slash_join(parts: Seq<Seq<char>>)
    requires
        forall|i: int, j: int| 0 <= i < parts.len() && 0 <= j < parts[i].len() ==> #[trigger] parts[i][j] != '/',
    ensures
        split_seg(slash_join(parts), '/') == seq![Seq::<char>::empty()] + parts,
    decreases parts.len(),
{
    if parts.len() == 0 {
        assert(seq![Seq::<char>::empty()] + parts =~= seq![Seq::<char>::empty()]);
    } else {
        let d = parts.drop_last();
        assert forall|i: int, j: int| 0 <= i < d.len() && 0 <= j < d[i].len() implies #[trigger] d[i][j] != '/' by {
            assert(d[i] == parts[i]);
        }
        lemma_split_slash_join(d);
        let a = slash_join(d);
        let b = a + "/"@;
        reveal_strlit("/");
        assert(b.drop_last() =~= a);
        assert(b.last() == '/');
        let sb = split_seg(b, '/');
        assert(sb == split_seg(a, '/').push(Seq::<char>::empty()));
        let last = parts.last();
        assert forall|j: int| 0 <= j < last.len() implies last[j] != '/' by {
            assert(last[j] == parts[parts.len() - 1][j]);
        }
        lemma_split_seg_extend(b, last, '/');
        assert(Seq::<char>::empty() + last =~= last);
        assert(split_seg(b + last, '/') =~= seq![Seq::<char>::empty()] + parts);
    }
}

proof fn lemma_filter_all_named(parts: Seq<Seq<char>>)
    requires
        forall|i: int| 0 <= i < parts.len() ==> is_named(#[trigger] parts[i]),
    ensures
        parts.filter(|c: Seq<char>| is_named(c)) == parts,
    decreases parts.len(),
{
    reveal(Seq::filter);
    if parts.len() > 0 {
        let d = parts.drop_last();
        assert forall|i: int| 0 <= i < d.len() implies is_named(#[trigger] d[i]) by {
            assert(d[i] == parts[i]);
        }
        lemma_filter_all_named(d);
        assert(parts =~= d.push(parts.last()));
    }
}

/// Sanitising is idempotent: a sanitised key sanitises to itself.
pub proof fn lemma_safe_key_idempotent(s: Seq<char>)
    ensures
        safe_key_spec(s) matches Some(k) ==> safe_key_spec(k) == Some(k),
{
    if safe_key_spec(s) is Some {
        lemma_safe_key_normal_form(s);
    }
}

/// A sanitised key is rooted at `/`; unless it is `/` itself it has no
/// trailing `/` and no `..`, `.` or empty piece after the leading `/`; and
/// sanitising it again gives it back unchanged.
pub proof fn lemma_safe_key_normal_form(s: Seq<char>)
    requires
        safe_key_spec(s) is Some,
    ensures
        ({
            let k = safe_key_spec(s).unwrap();
            &&& k.len() >= 1 && k[0] == '/'
            &&& k.len() > 1 ==> k.last() != '/'
            &&& !has_dotdot(k)
            &&& k.len() > 1 ==> forall|i: int| 1 <= i < split_seg(k, '/').len() ==> is_named(#[trigger] split_seg(k, '/')[i])
            &&& safe_key_spec(k) == Some(k)
        }),
{
    let pred = |c: Seq<char>| is_named(c);
    let segs = split_seg(s, '/');
    let parts = named_parts(s);
    lemma_split_seg_no_sep(s, '/');
    assert forall|i: int| 0 <= i < parts.len() implies is_named(#[trigger] parts[i]) && parts[i] != ".."@
        && forall|j: int| 0 <= j < parts[i].len() ==> parts[i][j] != '/' by {
        segs.lemma_filter_pred(pred, i);
        assert(segs.filter(pred).contains(parts[i]));
        segs.lemma_filter_contains_rev(pred, parts[i]);
        let k = choose|k: int| 0 <= k < segs.len() && segs[k] == parts[i];
        assert forall|j: int| 0 <= j < parts[i].len() implies parts[i][j] != '/' by {
            assert(segs[k][j] != '/');
        }
    }
    if parts.len() == 0 {
        reveal_strlit("/");
        let k = "/"@;
        assert(k.len() == 1 && k.last() == '/');
        assert(k.drop_last() =~= Seq::<char>::empty());
        assert(split_seg(k.drop_last(), '/') == seq![Seq::<char>::empty()]);
        assert(split_seg(k, '/') =~= seq![Seq::<char>::empty(), Seq::<char>::empty()]);
        assert(split_seg(k, '/').filter(pred) =~= Seq::<Seq<char>>::empty()) by {
            let e = Seq::<char>::empty();
            lemma_filter_empty_pieces(pred);
            seq![e].lemma_filter_push(e, pred);
            assert(seq![e].push(e) =~= seq![e, e]);
        }
        reveal_strlit("..");
        assert(!has_dotdot(k)) by {
            if has_dotdot(k) {
                let i = choose|i: int| 0 <= i < split_seg(k, '/').len() && #[trigger] split_seg(k, '/')[i] == ".."@;
                assert(split_seg(k, '/')[i].len() == 0);
            }
        }
        assert(named_parts(k) =~= Seq::<Seq<char>>::empty());
    } else {
        assert forall|i: int, j: int| 0 <= i < parts.len() && 0 <= j < parts[i].len() implies #[trigger] parts[i][j] != '/' by {}
        lemma_split_slash_join(parts);
        let k = slash_join(parts);
        let ks = split_seg(k, '/');
        assert(ks == seq![Seq::<char>::empty()] + parts);
        assert(k == slash_join(parts.drop_last()) + "/"@ + parts.last());
        reveal_strlit("/");
        lemma_slash_join_head(parts);
        assert(k.last() == parts.last().last()) by {
            assert(parts.last().len() > 0);
        }
        assert(parts.last() == parts[parts.len() - 1]);
        assert(forall|i: int| 1 <= i < ks.len() ==> #[trigger] ks[i] == parts[i - 1]);
        assert(!has_dotdot(k)) by {
            if has_dotdot(k) {
                let i = choose|i: int| 0 <= i < ks.len() && #[trigger] ks[i] == ".."@;
                if i == 0 {
                    reveal_strlit("..");
                    assert(ks[0].len() == 0);
                } else {
                    assert(ks[i] == parts[i - 1]);
                }
            }
        }
        Seq::filter_distributes_over_add(seq![Seq::<char>::empty()], parts, pred);
        lemma_filter_empty_pieces(pred);
        lemma_filter_all_named(parts);
        assert(named_parts(k) =~= parts);
    }
}

proof fn lemma_filter_empty_pieces(pred: spec_fn(Seq<char>) -> bool)
    requires
        pred == (|c: Seq<char>| is_named(c)),
    ensures
        seq![Seq::<char>::empty()].filter(pred) == Seq::<Seq<char>>::empty(),
{
    let e = Seq::<char>::empty();
    Seq::<Seq<char>>::empty().lemma_filter_push(e, pred);
    assert(Seq::<Seq<char>>::empty().push(e) =~= seq![e]);
    assert(Seq::<Seq<char>>::empty().filter(pred) =~= Seq::<Seq<char>>::empty()) by {
        reveal(Seq::filter);
    }
}

/// The first character of a non-empty `/`-join is `/`.
proof fn lemma_slash_join_head(parts: Seq<Seq<char>>)
    requires
        parts.len() > 0,
    ensures
        slash_join(parts).len() > 0,
        slash_join(parts)[0] == '/',
    decreases parts.len(),
{
    reveal_strlit("/");
    let d = parts.drop_last();
    let a = slash_join(d);
    if d.len() > 0 {
        lemma_slash_join_head(d);
        assert((a + "/"@ + parts.last())[0] == a[0]);
    } else {
        assert(a.len() == 0);
        assert((a + "/"@ + parts.last())[0] == '/');
    }
}

} // verus!

verus! {

/// The characters a suffix puts at the end of a name.
proof fn lemma_suffix_char(n: Seq<char>, p: Seq<char>, j: int)
    requires
        has_suffix(n, p),
        1 <= j <= p.len(),
    ensures
        n[n.len() - j] == p[p.len() - j],
{
    assert(n.skip(n.len() - p.len())[p.len() - j] == n[n.len() - j]);
}

/// No two of the archive suffixes can end the same name, so the order of
/// the tests does not matter: each suffix gives its own kind, and a name
/// with none of them is no archive.
pub proof fn lemma_kind_of_name(n: Seq<char>)
    ensures
        (has_suffix(n, ".tar.gz"@) || has_suffix(n, ".tgz"@)) ==> kind_of_name(n) == Some(ArchiveKind::TarGz),
        (has_suffix(n, ".tar.bz2"@) || has_suffix(n, ".tbz2"@) || has_suffix(n, ".tbz"@)) ==> kind_of_name(n) == Some(ArchiveKind::TarBz2),
        (has_suffix(n, ".tar.xz"@) || has_suffix(n, ".txz"@)) ==> kind_of_name(n) == Some(ArchiveKind::TarXz),
        (has_suffix(n, ".tar.zst"@) || has_suffix(n, ".tzst"@)) ==> kind_of_name(n) == Some(ArchiveKind::TarZst),
        (has_suffix(n, ".tar"@)) ==> kind_of_name(n) == Some(ArchiveKind::Tar),
        (has_suffix(n, ".zip"@)) ==> kind_of_name(n) == Some(ArchiveKind::Zip),
        (has_suffix(n, ".cpio"@)) ==> kind_of_name(n) == Some(ArchiveKind::Cpio),
        (has_suffix(n, ".7z"@)) ==> kind_of_name(n) == Some(ArchiveKind::SevenZ),
        (!has_suffix(n, ".tar.gz"@) && !has_suffix(n, ".tgz"@) && !has_suffix(n, ".tar.bz2"@) && !has_suffix(n, ".tbz2"@) && !has_suffix(n, ".tbz"@) && !has_suffix(n, ".tar.xz"@) && !has_suffix(n, ".txz"@) && !has_suffix(n, ".tar.zst"@) && !has_suffix(n, ".tzst"@) && !has_suffix(n, ".tar"@) && !has_suffix(n, ".zip"@) && !has_suffix(n, ".cpio"@) && !has_suffix(n, ".7z"@)) ==> kind_of_name(n) is None,
{
    reveal_strlit(".tar.gz");
    reveal_strlit(".tgz");
    reveal_strlit(".tar.bz2");
    reveal_strlit(".tbz2");
    reveal_strlit(".tbz");
    reveal_strlit(".tar.xz");
    reveal_strlit(".txz");
    reveal_strlit(".tar.zst");
    reveal_strlit(".tzst");
    reveal_strlit(".tar");
    reveal_strlit(".zip");
    reveal_strlit(".cpio");
    reveal_strlit(".7z");
    if has_suffix(n, ".tar.bz2"@) {
        lemma_suffix_char(n, ".tar.bz2"@, 1);
        if has_suffix(n, ".tar.gz"@) { lemma_suffix_char(n, ".tar.gz"@, 1); }
        lemma_suffix_char(n, ".tar.bz2"@, 1);
        if has_suffix(n, ".tgz"@) { lemma_suffix_char(n, ".tgz"@, 1); }
    }
    if has_suffix(n, ".tbz2"@) {
        lemma_suffix_char(n, ".tbz2"@, 1);
        if has_suffix(n, ".tar.gz"@) { lemma_suffix_char(n, ".tar.gz"@, 1); }
        lemma_suffix_char(n, ".tbz2"@, 1);
        if has_suffix(n, ".tgz"@) { lemma_suffix_char(n, ".tgz"@, 1); }
    }
    if has_suffix(n, ".tbz"@) {
        lemma_suffix_char(n, ".tbz"@, 2);
        if has_suffix(n, ".tar.gz"@) { lemma_suffix_char(n, ".tar.gz"@, 2); }
        lemma_suffix_char(n, ".tbz"@, 2);
        if has_suffix(n, ".tgz"@) { lemma_suffix_char(n, ".tgz"@, 2); }
    }
    if has_suffix(n, ".tar.xz"@) {
        lemma_suffix_char(n, ".tar.xz"@, 2);
        if has_suffix(n, ".tar.gz"@) { lemma_suffix_char(n, ".tar.gz"@, 2); }
        lemma_suffix_char(n, ".tar.xz"@, 2);
        if has_suffix(n, ".tgz"@) { lemma_suffix_char(n, ".tgz"@, 2); }
        lemma_suffix_char(n, ".tar.xz"@, 1);
        if has_suffix(n, ".tar.bz2"@) { lemma_suffix_char(n, ".tar.bz2"@, 1); }
        lemma_suffix_char(n, ".tar.xz"@, 1);
        if has_suffix(n, ".tbz2"@) { lemma_suffix_char(n, ".tbz2"@, 1); }
        lemma_suffix_char(n, ".tar.xz"@, 2);
        if has_suffix(n, ".tbz"@) { lemma_suffix_char(n, ".tbz"@, 2); }
    }
    if has_suffix(n, ".txz"@) {
        lemma_suffix_char(n, ".txz"@, 2);
        if has_suffix(n, ".tar.gz"@) { lemma_suffix_char(n, ".tar.gz"@, 2); }
        lemma_suffix_char(n, ".txz"@, 2);
        if has_suffix(n, ".tgz"@) { lemma_suffix_char(n, ".tgz"@, 2); }
        lemma_suffix_char(n, ".txz"@, 1);
        if has_suffix(n, ".tar.bz2"@) { lemma_suffix_char(n, ".tar.bz2"@, 1); }
        lemma_suffix_char(n, ".txz"@, 1);
        if has_suffix(n, ".tbz2"@) { lemma_suffix_char(n, ".tbz2"@, 1); }
        lemma_suffix_char(n, ".txz"@, 2);
        if has_suffix(n, ".tbz"@) { lemma_suffix_char(n, ".tbz"@, 2); }
    }
    if has_suffix(n, ".tar.zst"@) {
        lemma_suffix_char(n, ".tar.zst"@, 1);
        if has_suffix(n, ".tar.gz"@) { lemma_suffix_char(n, ".tar.gz"@, 1); }
        lemma_suffix_char(n, ".tar.zst"@, 1);
        if has_suffix(n, ".tgz"@) { lemma_suffix_char(n, ".tgz"@, 1); }
        lemma_suffix_char(n, ".tar.zst"@, 1);
        if has_suffix(n, ".tar.bz2"@) { lemma_suffix_char(n, ".tar.bz2"@, 1); }
        lemma_suffix_char(n, ".tar.zst"@, 1);
        if has_suffix(n, ".tbz2"@) { lemma_suffix_char(n, ".tbz2"@, 1); }
        lemma_suffix_char(n, ".tar.zst"@, 1);
        if has_suffix(n, ".tbz"@) { lemma_suffix_char(n, ".tbz"@, 1); }
        lemma_suffix_char(n, ".tar.zst"@, 1);
        if has_suffix(n, ".tar.xz"@) { lemma_suffix_char(n, ".tar.xz"@, 1); }
        lemma_suffix_char(n, ".tar.zst"@, 1);
        if has_suffix(n, ".txz"@) { lemma_suffix_char(n, ".txz"@, 1); }
    }
    if has_suffix(n, ".tzst"@) {
        lemma_suffix_char(n, ".tzst"@, 1);
        if has_suffix(n, ".tar.gz"@) { lemma_suffix_char(n, ".tar.gz"@, 1); }
        lemma_suffix_char(n, ".tzst"@, 1);
        if has_suffix(n, ".tgz"@) { lemma_suffix_char(n, ".tgz"@, 1); }
        lemma_suffix_char(n, ".tzst"@, 1);
        if has_suffix(n, ".tar.bz2"@) { lemma_suffix_char(n, ".tar.bz2"@, 1); }
        lemma_suffix_char(n, ".tzst"@, 1);
        if has_suffix(n, ".tbz2"@) { lemma_suffix_char(n, ".tbz2"@, 1); }
        lemma_suffix_char(n, ".tzst"@, 1);
        if has_suffix(n, ".tbz"@) { lemma_suffix_char(n, ".tbz"@, 1); }
        lemma_suffix_char(n, ".tzst"@, 1);
        if has_suffix(n, ".tar.xz"@) { lemma_suffix_char(n, ".tar.xz"@, 1); }
        lemma_suffix_char(n, ".tzst"@, 1);
        if has_suffix(n, ".txz"@) { lemma_suffix_char(n, ".txz"@, 1); }
    }
    if has_suffix(n, ".tar"@) {
        lemma_suffix_char(n, ".tar"@, 1);
        if has_suffix(n, ".tar.gz"@) { lemma_suffix_char(n, ".tar.gz"@, 1); }
        lemma_suffix_char(n, ".tar"@, 1);
        if has_suffix(n, ".tgz"@) { lemma_suffix_char(n, ".tgz"@, 1); }
        lemma_suffix_char(n, ".tar"@, 1);
        if has_suffix(n, ".tar.bz2"@) { lemma_suffix_char(n, ".tar.bz2"@, 1); }
        lemma_suffix_char(n, ".tar"@, 1);
        if has_suffix(n, ".tbz2"@) { lemma_suffix_char(n, ".tbz2"@, 1); }
        lemma_suffix_char(n, ".tar"@, 1);
        if has_suffix(n, ".tbz"@) { lemma_suffix_char(n, ".tbz"@, 1); }
        lemma_suffix_char(n, ".tar"@, 1);
        if has_suffix(n, ".tar.xz"@) { lemma_suffix_char(n, ".tar.xz"@, 1); }
        lemma_suffix_char(n, ".tar"@, 1);
        if has_suffix(n, ".txz"@) { lemma_suffix_char(n, ".txz"@, 1); }
        lemma_suffix_char(n, ".tar"@, 1);
        if has_suffix(n, ".tar.zst"@) { lemma_suffix_char(n, ".tar.zst"@, 1); }
        lemma_suffix_char(n, ".tar"@, 1);
        if has_suffix(n, ".tzst"@) { lemma_suffix_char(n, ".tzst"@, 1); }
    }
    if has_suffix(n, ".zip"@) {
        lemma_suffix_char(n, ".zip"@, 1);
        if has_suffix(n, ".tar.gz"@) { lemma_suffix_char(n, ".tar.gz"@, 1); }
        lemma_suffix_char(n, ".zip"@, 1);
        if has_suffix(n, ".tgz"@) { lemma_suffix_char(n, ".tgz"@, 1); }
        lemma_suffix_char(n, ".zip"@, 1);
        if has_suffix(n, ".tar.bz2"@) { lemma_suffix_char(n, ".tar.bz2"@, 1); }
        lemma_suffix_char(n, ".zip"@, 1);
        if has_suffix(n, ".tbz2"@) { lemma_suffix_char(n, ".tbz2"@, 1); }
        lemma_suffix_char(n, ".zip"@, 1);
        if has_suffix(n, ".tbz"@) { lemma_suffix_char(n, ".tbz"@, 1); }
        lemma_suffix_char(n, ".zip"@, 1);
        if has_suffix(n, ".tar.xz"@) { lemma_suffix_char(n, ".tar.xz"@, 1); }
        lemma_suffix_char(n, ".zip"@, 1);
        if has_suffix(n, ".txz"@) { lemma_suffix_char(n, ".txz"@, 1); }
        lemma_suffix_char(n, ".zip"@, 1);
        if has_suffix(n, ".tar.zst"@) { lemma_suffix_char(n, ".tar.zst"@, 1); }
        lemma_suffix_char(n, ".zip"@, 1);
        if has_suffix(n, ".tzst"@) { lemma_suffix_char(n, ".tzst"@, 1); }
        lemma_suffix_char(n, ".zip"@, 1);
        if has_suffix(n, ".tar"@) { lemma_suffix_char(n, ".tar"@, 1); }
    }
    if has_suffix(n, ".cpio"@) {
        lemma_suffix_char(n, ".cpio"@, 1);
        if has_suffix(n, ".tar.gz"@) { lemma_suffix_char(n, ".tar.gz"@, 1); }
        lemma_suffix_char(n, ".cpio"@, 1);
        if has_suffix(n, ".tgz"@) { lemma_suffix_char(n, ".tgz"@, 1); }
        lemma_suffix_char(n, ".cpio"@, 1);
        if has_suffix(n, ".tar.bz2"@) { lemma_suffix_char(n, ".tar.bz2"@, 1); }
        lemma_suffix_char(n, ".cpio"@, 1);
        if has_suffix(n, ".tbz2"@) { lemma_suffix_char(n, ".tbz2"@, 1); }
        lemma_suffix_char(n, ".cpio"@, 1);
        if has_suffix(n, ".tbz"@) { lemma_suffix_char(n, ".tbz"@, 1); }
        lemma_suffix_char(n, ".cpio"@, 1);
        if has_suffix(n, ".tar.xz"@) { lemma_suffix_char(n, ".tar.xz"@, 1); }
        lemma_suffix_char(n, ".cpio"@, 1);
        if has_suffix(n, ".txz"@) { lemma_suffix_char(n, ".txz"@, 1); }
        lemma_suffix_char(n, ".cpio"@, 1);
        if has_suffix(n, ".tar.zst"@) { lemma_suffix_char(n, ".tar.zst"@, 1); }
        lemma_suffix_char(n, ".cpio"@, 1);
        if has_suffix(n, ".tzst"@) { lemma_suffix_char(n, ".tzst"@, 1); }
        lemma_suffix_char(n, ".cpio"@, 1);
        if has_suffix(n, ".tar"@) { lemma_suffix_char(n, ".tar"@, 1); }
        lemma_suffix_char(n, ".cpio"@, 1);
        if has_suffix(n, ".zip"@) { lemma_suffix_char(n, ".zip"@, 1); }
    }
    if has_suffix(n, ".7z"@) {
        lemma_suffix_char(n, ".7z"@, 2);
        if has_suffix(n, ".tar.gz"@) { lemma_suffix_char(n, ".tar.gz"@, 2); }
        lemma_suffix_char(n, ".7z"@, 2);
        if has_suffix(n, ".tgz"@) { lemma_suffix_char(n, ".tgz"@, 2); }
        lemma_suffix_char(n, ".7z"@, 1);
        if has_suffix(n, ".tar.bz2"@) { lemma_suffix_char(n, ".tar.bz2"@, 1); }
        lemma_suffix_char(n, ".7z"@, 1);
        if has_suffix(n, ".tbz2"@) { lemma_suffix_char(n, ".tbz2"@, 1); }
        lemma_suffix_char(n, ".7z"@, 2);
        if has_suffix(n, ".tbz"@) { lemma_suffix_char(n, ".tbz"@, 2); }
        lemma_suffix_char(n, ".7z"@, 2);
        if has_suffix(n, ".tar.xz"@) { lemma_suffix_char(n, ".tar.xz"@, 2); }
        lemma_suffix_char(n, ".7z"@, 2);
        if has_suffix(n, ".txz"@) { lemma_suffix_char(n, ".txz"@, 2); }
        lemma_suffix_char(n, ".7z"@, 1);
        if has_suffix(n, ".tar.zst"@) { lemma_suffix_char(n, ".tar.zst"@, 1); }
        lemma_suffix_char(n, ".7z"@, 1);
        if has_suffix(n, ".tzst"@) { lemma_suffix_char(n, ".tzst"@, 1); }
        lemma_suffix_char(n, ".7z"@, 1);
        if has_suffix(n, ".tar"@) { lemma_suffix_char(n, ".tar"@, 1); }
        lemma_suffix_char(n, ".7z"@, 1);
        if has_suffix(n, ".zip"@) { lemma_suffix_char(n, ".zip"@, 1); }
        lemma_suffix_char(n, ".7z"@, 1);
        if has_suffix(n, ".cpio"@) { lemma_suffix_char(n, ".cpio"@, 1); }
    }
}

/// What is detected is the kind the lower-cased file name's suffix names:
/// `.tar.gz`/`.tgz`, `.tar.bz2`/`.tbz2`/`.tbz`, `.tar.xz`/`.txz`,
/// `.tar.zst`/`.tzst`, `.tar`, `.zip`, `.cpio` and `.7z`; nothing without
/// a file name.
pub proof fn lemma_detect_by_suffix(path: Seq<char>)
    ensures
        file_name_spec(path) is None ==> detect_spec(path) is None,
        file_name_spec(path) matches Some(f) ==> detect_spec(path) == kind_of_name(ascii_lower(f)),
{
}

/// The file name of `dir/name` is `name`, for a name that is not empty,
/// `.` or `..` and has no `/`; so that is the name an archive kind is
/// detected from.
pub proof fn lemma_file_name_last(dir: Seq<char>, name: Seq<char>)
    requires
        is_named(name),
        name != ".."@,
        forall|j: int| 0 <= j < name.len() ==> name[j] != '/',
    ensures
        file_name_spec(dir + seq!['/'] + name) == Some(name),
        detect_spec(dir + seq!['/'] + name) == kind_of_name(ascii_lower(name)),
{
    let a = dir + seq!['/'];
    assert(a.drop_last() =~= dir);
    assert(a.last() == '/');
    crate::text::lemma_split_seg_nonempty(dir, '/');
    let sd = split_seg(dir, '/');
    assert(split_seg(a, '/') == sd.push(Seq::<char>::empty()));
    crate::text::lemma_split_seg_extend(a, name, '/');
    let sa = split_seg(a, '/');
    assert(Seq::<char>::empty() + name =~= name);
    assert(split_seg(a + name, '/') =~= sd.push(name));
    let pred = |c: Seq<char>| is_named(c);
    sd.lemma_filter_push(name, pred);
    assert(named_parts(a + name) == sd.filter(pred).push(name));
}

} // verus!
