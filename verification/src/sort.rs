//! Panel sorting: `..` first, directories before files unless mixed, then
//! the chosen key, optionally reversed; a stable sort.

use vstd::prelude::*;

use crate::action::SortKey;
use crate::entry::{Entry, EntryKind, Timestamp};
use crate::ord::{flip, int_order, le, lemma_flip_preorder3, lemma_int_preorder3, lemma_lex_flip, lemma_lex_preorder3, lemma_then_preorder3, lex_order, lex_order_of, preorder3, then, Ord3};
use crate::text::{chars_of, rfind, rfind_char, str_eq, to_lowercase, unicode_lowercase};

verus! {

/// The text after the last `.` of a name, or nothing when it has none.
pub open spec fn extension_of(name: Seq<char>) -> Seq<char> {
    if rfind(name, '.') >= 0 {
        name.skip(rfind(name, '.') + 1)
    } else {
        Seq::empty()
    }
}

/// Missing times come first, then times in chronological order.
pub open spec fn time_order(a: Option<Timestamp>, b: Option<Timestamp>) -> Ord3 {
    let ra: int = if a is Some { 1 } else { 0 };
    let rb: int = if b is Some { 1 } else { 0 };
    let sa: int = match a { Some(t) => t.secs as int, None => 0 };
    let sb: int = match b { Some(t) => t.secs as int, None => 0 };
    let na: int = match a { Some(t) => t.nanos as int, None => 0 };
    let nb: int = match b { Some(t) => t.nanos as int, None => 0 };
    then(int_order(ra, rb), then(int_order(sa, sb), int_order(na, nb)))
}

/// The comparison a sort key makes, before reversal.
pub open spec fn key_order(a: Entry, b: Entry, key: SortKey) -> Ord3 {
    let la = unicode_lowercase(a.name@);
    let lb = unicode_lowercase(b.name@);
    match key {
        SortKey::Unsorted => Ord3::Equal,
        SortKey::Inode => Ord3::Equal,
        SortKey::Name => lex_order(la, lb),
        SortKey::Extension => then(
            lex_order(extension_of(a.name@), extension_of(b.name@)),
            lex_order(la, lb),
        ),
        SortKey::Size => int_order(a.size as int, b.size as int),
        SortKey::Mtime => time_order(a.mtime, b.mtime),
        SortKey::Atime => time_order(a.atime, b.atime),
        SortKey::Ctime => time_order(a.ctime, b.ctime),
    }
}

pub open spec fn dots_rank(e: Entry) -> int {
    if e.name@ == ".."@ {
        0
    } else {
        1
    }
}

pub open spec fn dir_rank(e: Entry) -> int {
    if e.kind == EntryKind::Dir {
        0
    } else {
        1
    }
}

/// The order panels are sorted in: `..` pinned first, then (unless
/// `mix_dirs`) directories before everything else, then the key, reversed
/// when `reverse` is set.
#[verifier::opaque]
pub open spec fn entry_order(a: Entry, b: Entry, key: SortKey, reverse: bool, mix_dirs: bool) -> Ord3 {
    let k = key_order(a, b, key);
    then(
        int_order(dots_rank(a), dots_rank(b)),
        then(
            if mix_dirs {
                Ord3::Equal
            } else {
                int_order(dir_rank(a), dir_rank(b))
            },
            if reverse {
                flip(k)
            } else {
                k
            },
        ),
    )
}

proof fn lemma_time_order(a: Option<Timestamp>, b: Option<Timestamp>, c: Option<Timestamp>)
    ensures
        preorder3(time_order(a, b), time_order(b, c), time_order(a, c)),
        time_order(a, b) == flip(time_order(b, a)),
{
    let ra: int = if a is Some { 1 } else { 0 };
    let rb: int = if b is Some { 1 } else { 0 };
    let rc: int = if c is Some { 1 } else { 0 };
    let sa: int = match a { Some(t) => t.secs as int, None => 0 };
    let sb: int = match b { Some(t) => t.secs as int, None => 0 };
    let sc: int = match c { Some(t) => t.secs as int, None => 0 };
    let na: int = match a { Some(t) => t.nanos as int, None => 0 };
    let nb: int = match b { Some(t) => t.nanos as int, None => 0 };
    let nc: int = match c { Some(t) => t.nanos as int, None => 0 };
    lemma_int_preorder3(ra, rb, rc);
    lemma_int_preorder3(sa, sb, sc);
    lemma_int_preorder3(na, nb, nc);
    lemma_int_preorder3(rb, ra, rc);
    lemma_int_preorder3(sb, sa, sc);
    lemma_int_preorder3(nb, na, nc);
    lemma_then_preorder3(
        int_order(sa, sb),
        int_order(sb, sc),
        int_order(sa, sc),
        int_order(na, nb),
        int_order(nb, nc),
        int_order(na, nc),
    );
    lemma_then_preorder3(
        int_order(ra, rb),
        int_order(rb, rc),
        int_order(ra, rc),
        then(int_order(sa, sb), int_order(na, nb)),
        then(int_order(sb, sc), int_order(nb, nc)),
        then(int_order(sa, sc), int_order(na, nc)),
    );
}

proof fn lemma_key_order(a: Entry, b: Entry, c: Entry, key: SortKey)
    ensures
        preorder3(key_order(a, b, key), key_order(b, c, key), key_order(a, c, key)),
        key_order(a, b, key) == flip(key_order(b, a, key)),
{
    let la = unicode_lowercase(a.name@);
    let lb = unicode_lowercase(b.name@);
    let lc = unicode_lowercase(c.name@);
    let ea = extension_of(a.name@);
    let eb = extension_of(b.name@);
    let ec = extension_of(c.name@);
    lemma_lex_preorder3(la, lb, lc);
    lemma_lex_flip(la, lb);
    lemma_lex_preorder3(ea, eb, ec);
    lemma_lex_flip(ea, eb);
    lemma_then_preorder3(
        lex_order(ea, eb),
        lex_order(eb, ec),
        lex_order(ea, ec),
        lex_order(la, lb),
        lex_order(lb, lc),
        lex_order(la, lc),
    );
    lemma_int_preorder3(a.size as int, b.size as int, c.size as int);
    lemma_int_preorder3(b.size as int, a.size as int, c.size as int);
    lemma_time_order(a.mtime, b.mtime, c.mtime);
    lemma_time_order(a.atime, b.atime, c.atime);
    lemma_time_order(a.ctime, b.ctime, c.ctime);
}

/// Swapping two entries flips their order.
pub proof fn lemma_entry_order_flip(a: Entry, b: Entry, key: SortKey, reverse: bool, mix_dirs: bool)
    ensures
        entry_order(a, b, key, reverse, mix_dirs) == flip(entry_order(b, a, key, reverse, mix_dirs)),
{
    reveal(entry_order);
    lemma_key_order(a, b, b, key);
    lemma_int_preorder3(dots_rank(a), dots_rank(b), dots_rank(b));
    lemma_int_preorder3(dir_rank(a), dir_rank(b), dir_rank(b));
}

/// The panel order is a total preorder on every three entries.
pub proof fn lemma_entry_order_preorder(
    a: Entry,
    b: Entry,
    c: Entry,
    key: SortKey,
    reverse: bool,
    mix_dirs: bool,
)
    ensures
        preorder3(
            entry_order(a, b, key, reverse, mix_dirs),
            entry_order(b, c, key, reverse, mix_dirs),
            entry_order(a, c, key, reverse, mix_dirs),
        ),
{
    reveal(entry_order);
    let kab = key_order(a, b, key);
    let kbc = key_order(b, c, key);
    let kac = key_order(a, c, key);
    lemma_key_order(a, b, c, key);
    if reverse {
        lemma_flip_preorder3(kab, kbc, kac);
    }
    let rab = if reverse { flip(kab) } else { kab };
    let rbc = if reverse { flip(kbc) } else { kbc };
    let rac = if reverse { flip(kac) } else { kac };
    lemma_int_preorder3(dir_rank(a), dir_rank(b), dir_rank(c));
    let dab = if mix_dirs { Ord3::Equal } else { int_order(dir_rank(a), dir_rank(b)) };
    let dbc = if mix_dirs { Ord3::Equal } else { int_order(dir_rank(b), dir_rank(c)) };
    let dac = if mix_dirs { Ord3::Equal } else { int_order(dir_rank(a), dir_rank(c)) };
    assert(preorder3(dab, dbc, dac));
    lemma_then_preorder3(dab, dbc, dac, rab, rbc, rac);
    lemma_int_preorder3(dots_rank(a), dots_rank(b), dots_rank(c));
    lemma_then_preorder3(
        int_order(dots_rank(a), dots_rank(b)),
        int_order(dots_rank(b), dots_rank(c)),
        int_order(dots_rank(a), dots_rank(c)),
        then(dab, rab),
        then(dbc, rbc),
        then(dac, rac),
    );
}

fn u_order(a: u64, b: u64) -> (r: Ord3)
    ensures
        r == int_order(a as int, b as int),
{
    if a < b {
        Ord3::Less
    } else if a > b {
        Ord3::Greater
    } else {
        Ord3::Equal
    }
}

fn i_order(a: i64, b: i64) -> (r: Ord3)
    ensures
        r == int_order(a as int, b as int),
{
    if a < b {
        Ord3::Less
    } else if a > b {
        Ord3::Greater
    } else {
        Ord3::Equal
    }
}

fn then_exec(o1: Ord3, o2: Ord3) -> (r: Ord3)
    ensures
        r == then(o1, o2),
{
    match o1 {
        Ord3::Equal => o2,
        _ => o1,
    }
}

fn flip_exec(o: Ord3) -> (r: Ord3)
    ensures
        r == flip(o),
{
    match o {
        Ord3::Less => Ord3::Greater,
        Ord3::Equal => Ord3::Equal,
        Ord3::Greater => Ord3::Less,
    }
}

fn time_order_exec(a: Option<Timestamp>, b: Option<Timestamp>) -> (r: Ord3)
    ensures
        r == time_order(a, b),
{
    match (a, b) {
        (None, None) => Ord3::Equal,
        (None, Some(_)) => Ord3::Less,
        (Some(_), None) => Ord3::Greater,
        (Some(x), Some(y)) => then_exec(
            i_order(x.secs, y.secs),
            u_order(x.nanos as u64, y.nanos as u64),
        ),
    }
}

/// The extension of a name (text after the last `.`).
pub fn extension_chars(name: &[char]) -> (r: Vec<char>)
    ensures
        r@ == extension_of(name@),
{
    proof {
        crate::text::lemma_rfind(name@, '.');
    }
    let len = name.len();
    match rfind_char(name, '.') {
        Some(i) => crate::key::slice_from(name, i + 1),
        None => Vec::new(),
    }
}

fn key_order_exec(a: &Entry, b: &Entry, key: SortKey) -> (r: Ord3)
    ensures
        r == key_order(*a, *b, key),
{
    match key {
        SortKey::Unsorted => Ord3::Equal,
        SortKey::Inode => Ord3::Equal,
        SortKey::Name => {
            let la = chars_of(to_lowercase(a.name.as_str()).as_str());
            let lb = chars_of(to_lowercase(b.name.as_str()).as_str());
            lex_order_of(la.as_slice(), lb.as_slice())
        },
        SortKey::Extension => {
            let na = chars_of(a.name.as_str());
            let nb = chars_of(b.name.as_str());
            let ea = extension_chars(na.as_slice());
            let eb = extension_chars(nb.as_slice());
            let la = chars_of(to_lowercase(a.name.as_str()).as_str());
            let lb = chars_of(to_lowercase(b.name.as_str()).as_str());
            then_exec(lex_order_of(ea.as_slice(), eb.as_slice()), lex_order_of(la.as_slice(), lb.as_slice()))
        },
        SortKey::Size => u_order(a.size, b.size),
        SortKey::Mtime => time_order_exec(a.mtime, b.mtime),
        SortKey::Atime => time_order_exec(a.atime, b.atime),
        SortKey::Ctime => time_order_exec(a.ctime, b.ctime),
    }
}

/// Compares two entries in panel order.
pub fn entry_order_exec(a: &Entry, b: &Entry, key: SortKey, reverse: bool, mix_dirs: bool) -> (r: Ord3)
    ensures
        r == entry_order(*a, *b, key, reverse, mix_dirs),
{
    let ra: u64 = if str_eq(a.name.as_str(), "..") { 0 } else { 1 };
    let rb: u64 = if str_eq(b.name.as_str(), "..") { 0 } else { 1 };
    let d = if mix_dirs {
        Ord3::Equal
    } else {
        let da: u64 = if a.is_dir() { 0 } else { 1 };
        let db: u64 = if b.is_dir() { 0 } else { 1 };
        u_order(da, db)
    };
    let k = key_order_exec(a, b, key);
    let kk = if reverse { flip_exec(k) } else { k };
    proof {
        reveal(entry_order);
    }
    then_exec(u_order(ra, rb), then_exec(d, kk))
}

/// `out` is `orig` rearranged by the index permutation `p` (entry `k` of
/// `out` is entry `p[k]` of `orig`), in panel order, with entries that
/// compare equal kept in their original relative order.
pub open spec fn stable_sorted_by(
    p: Seq<int>,
    out: Seq<Entry>,
    orig: Seq<Entry>,
    key: SortKey,
    reverse: bool,
    mix_dirs: bool,
) -> bool {
    &&& p.len() == orig.len()
    &&& out.len() == orig.len()
    &&& forall|k: int| 0 <= k < out.len() ==> 0 <= #[trigger] p[k] < orig.len() && out[k] == orig[p[k]]
    &&& forall|k: int, l: int| 0 <= k < l < out.len() ==> #[trigger] p[k] != #[trigger] p[l]
    &&& forall|k: int, l: int|
        0 <= k < l < out.len() ==> le(entry_order(#[trigger] out[k], #[trigger] out[l], key, reverse, mix_dirs))
    &&& forall|k: int, l: int|
        0 <= k < l < out.len() && entry_order(#[trigger] out[k], #[trigger] out[l], key, reverse, mix_dirs)
            == Ord3::Equal ==> p[k] < p[l]
}

/// The state of insertion sort after `i` steps: `es` is `orig` rearranged
/// by `p`, the first `i` positions are in stable panel order and hold the
/// first `i` original entries, and the rest is untouched.
pub open spec fn sort_inv(
    es: Seq<Entry>,
    p: Seq<int>,
    orig: Seq<Entry>,
    i: int,
    key: SortKey,
    reverse: bool,
    mix_dirs: bool,
) -> bool {
    let n = orig.len();
    &&& es.len() == n
    &&& 0 <= i <= n
    &&& p.len() == n
    &&& forall|k: int| 0 <= k < n ==> 0 <= #[trigger] p[k] < n && es[k] == orig[p[k]]
    &&& forall|k: int, l: int| 0 <= k < l < n ==> #[trigger] p[k] != #[trigger] p[l]
    &&& forall|k: int| i <= k < n ==> #[trigger] p[k] == k
    &&& forall|k: int| 0 <= k < i ==> #[trigger] p[k] < i
    &&& forall|k: int, l: int|
        0 <= k < l < i ==> le(entry_order(#[trigger] es[k], #[trigger] es[l], key, reverse, mix_dirs))
    &&& forall|k: int, l: int|
        0 <= k < l < i && entry_order(#[trigger] es[k], #[trigger] es[l], key, reverse, mix_dirs)
            == Ord3::Equal ==> p[k] < p[l]
}

/// The index bookkeeping of one insertion step.
proof fn lemma_insert_perm(e0: Seq<Entry>, p0: Seq<int>, orig: Seq<Entry>, i: int, j: int)
    requires
        e0.len() == orig.len(),
        p0.len() == orig.len(),
        0 <= j <= i < orig.len(),
        forall|k: int| 0 <= k < orig.len() ==> 0 <= #[trigger] p0[k] < orig.len() && e0[k] == orig[p0[k]],
        forall|k: int, l: int| 0 <= k < l < orig.len() ==> #[trigger] p0[k] != #[trigger] p0[l],
        forall|k: int| i <= k < orig.len() ==> #[trigger] p0[k] == k,
        forall|k: int| 0 <= k < i ==> #[trigger] p0[k] < i,
    ensures
        ({
            let n = orig.len();
            let e1 = e0.remove(i).insert(j, e0[i]);
            let p = p0.take(j) + seq![i] + p0.subrange(j, i) + p0.skip(i + 1);
            &&& forall|k: int| 0 <= k < n ==> 0 <= #[trigger] p[k] < n && e1[k] == orig[p[k]]
            &&& forall|k: int, l: int| 0 <= k < l < n ==> #[trigger] p[k] != #[trigger] p[l]
            &&& forall|k: int| i + 1 <= k < n ==> #[trigger] p[k] == k
            &&& forall|k: int| 0 <= k < i + 1 ==> #[trigger] p[k] < i + 1
        }),
{
    let n = orig.len();
    let x = e0[i];
    let e1 = e0.remove(i).insert(j, x);
    let p = p0.take(j) + seq![i] + p0.subrange(j, i) + p0.skip(i + 1);
    assert forall|k: int| 0 <= k < n implies (k < j ==> e1[k] == e0[k] && p[k] == p0[k])
        && (k == j ==> e1[k] == x && p[k] == i)
        && (j < k <= i ==> e1[k] == e0[k - 1] && p[k] == p0[k - 1])
        && (i < k ==> e1[k] == e0[k] && p[k] == p0[k]) by {}
    assert(p0[i] == i);
    assert forall|k: int| 0 <= k < n implies 0 <= #[trigger] p[k] < n && e1[k] == orig[p[k]] by {
        if k == j {
            assert(e0[i] == orig[p0[i]]);
        }
    }
    assert forall|k: int, l: int| 0 <= k < l < n implies #[trigger] p[k] != #[trigger] p[l] by {
        let pk = if k < j { k } else if k == j { i } else if k <= i { k - 1 } else { k };
        let pl = if l < j { l } else if l == j { i } else if l <= i { l - 1 } else { l };
        assert(p[k] == p0[pk]);
        assert(p[l] == p0[pl]);
        assert(pk != pl);
        if pk < pl {
            assert(p0[pk] != p0[pl]);
        } else {
            assert(p0[pl] != p0[pk]);
        }
    }
    assert forall|k: int| i + 1 <= k < n implies #[trigger] p[k] == k by {}
    assert forall|k: int| 0 <= k < i + 1 implies #[trigger] p[k] < i + 1 by {}
}

/// Moving entry `i` in front of the run of entries after it in panel order
/// extends the sorted prefix by one.
proof fn lemma_insert_step(
    e0: Seq<Entry>,
    p0: Seq<int>,
    orig: Seq<Entry>,
    i: int,
    j: int,
    key: SortKey,
    reverse: bool,
    mix_dirs: bool,
)
    requires
        sort_inv(e0, p0, orig, i, key, reverse, mix_dirs),
        0 <= j <= i < orig.len(),
        forall|k: int| j <= k < i ==> entry_order(#[trigger] e0[k], e0[i], key, reverse, mix_dirs) == Ord3::Greater,
        j == 0 || entry_order(e0[j - 1], e0[i], key, reverse, mix_dirs) != Ord3::Greater,
    ensures
        sort_inv(
            e0.remove(i).insert(j, e0[i]),
            p0.take(j) + seq![i] + p0.subrange(j, i) + p0.skip(i + 1),
            orig,
            i + 1,
            key,
            reverse,
            mix_dirs,
        ),
{
    let n = orig.len();
    let x = e0[i];
    let e1 = e0.remove(i).insert(j, x);
    let p = p0.take(j) + seq![i] + p0.subrange(j, i) + p0.skip(i + 1);
    assert(e1.len() == n);
    assert(p.len() == n);
    assert forall|k: int| 0 <= k < n implies (k < j ==> e1[k] == e0[k] && p[k] == p0[k])
        && (k == j ==> e1[k] == x && p[k] == i)
        && (j < k <= i ==> e1[k] == e0[k - 1] && p[k] == p0[k - 1])
        && (i < k ==> e1[k] == e0[k] && p[k] == p0[k]) by {}
    lemma_insert_perm(e0, p0, orig, i, j);
    assert forall|k: int, l: int| 0 <= k < l < i + 1 implies le(
        entry_order(#[trigger] e1[k], #[trigger] e1[l], key, reverse, mix_dirs),
    ) && (entry_order(e1[k], e1[l], key, reverse, mix_dirs) == Ord3::Equal ==> p[k] < p[l]) by {
        if l < j {
        } else if l == j {
            assert(p[k] == p0[k] && p0[k] < i);
            if k < j - 1 {
                lemma_entry_order_preorder(e0[k], e0[j - 1], x, key, reverse, mix_dirs);
                assert(le(entry_order(e0[k], e0[j - 1], key, reverse, mix_dirs)));
            }
        } else if k < j {
            assert(k < l - 1);
        } else if k == j {
            assert(entry_order(e0[l - 1], x, key, reverse, mix_dirs) == Ord3::Greater);
            lemma_entry_order_flip(x, e0[l - 1], key, reverse, mix_dirs);
        } else {
            assert(k - 1 < l - 1);
        }
    }
}

/// Sorts a panel listing in place (stable).
pub fn sort_entries(entries: &mut Vec<Entry>, key: SortKey, reverse: bool, mix_dirs: bool)
    ensures
        exists|p: Seq<int>| stable_sorted_by(p, final(entries)@, old(entries)@, key, reverse, mix_dirs),
{
    let n = entries.len();
    let ghost orig = entries@;
    let ghost mut p: Seq<int> = Seq::new(n as nat, |k: int| k);
    let mut i: usize = 0;
    while i < n
        invariant
            n == orig.len(),
            sort_inv(entries@, p, orig, i as int, key, reverse, mix_dirs),
        decreases n - i,
    {
        let mut j = i;
        while j > 0 && entry_order_exec(&entries[j - 1], &entries[i], key, reverse, mix_dirs) == Ord3::Greater
            invariant
                n == entries@.len(),
                i < n,
                j <= i,
                forall|k: int| j <= k < i ==> entry_order(#[trigger] entries@[k], entries@[i as int], key, reverse, mix_dirs) == Ord3::Greater,
            decreases j,
        {
            j = j - 1;
        }
        let ghost e0 = entries@;
        proof {
            lemma_insert_step(e0, p, orig, i as int, j as int, key, reverse, mix_dirs);
            p = p.take(j as int) + seq![i as int] + p.subrange(j as int, i as int) + p.skip(i + 1);
        }
        let item = entries.remove(i);
        entries.insert(j, item);
        i = i + 1;
    }
    proof {
        assert(stable_sorted_by(p, entries@, orig, key, reverse, mix_dirs));
    }
}

} // verus!

verus! {

/// After sorting, a `..` entry comes first, and unless directories are
/// mixed in, every directory other than `..` comes before every other
/// entry.
pub proof fn lemma_sorted_panel_layout(
    p: Seq<int>,
    out: Seq<Entry>,
    orig: Seq<Entry>,
    key: SortKey,
    reverse: bool,
    mix_dirs: bool,
)
    requires
        stable_sorted_by(p, out, orig, key, reverse, mix_dirs),
    ensures
        (exists|k: int| 0 <= k < out.len() && out[k].name@ == ".."@) ==> out[0].name@ == ".."@,
        !mix_dirs ==> forall|k: int, l: int|
            0 <= k < l < out.len() && (#[trigger] out[k]).name@ != ".."@ && (#[trigger] out[l]).name@ != ".."@
                && out[l].kind == EntryKind::Dir ==> out[k].kind == EntryKind::Dir,
{
    reveal(entry_order);
    if exists|k: int| 0 <= k < out.len() && out[k].name@ == ".."@ {
        let k = choose|k: int| 0 <= k < out.len() && out[k].name@ == ".."@;
        if k > 0 {
            assert(le(entry_order(out[0], out[k], key, reverse, mix_dirs)));
        }
    }
    if !mix_dirs {
        assert forall|k: int, l: int|
            0 <= k < l < out.len() && (#[trigger] out[k]).name@ != ".."@ && (#[trigger] out[l]).name@ != ".."@
                && out[l].kind == EntryKind::Dir implies out[k].kind == EntryKind::Dir by {
            assert(le(entry_order(out[k], out[l], key, reverse, mix_dirs)));
        }
    }
}

} // verus!

verus! {

/// `a` is no later than `b`: an earlier second, or the same second and no
/// later nanosecond.
pub open spec fn no_later(a: Timestamp, b: Timestamp) -> bool {
    a.secs < b.secs || (a.secs == b.secs && a.nanos <= b.nanos)
}

/// Two sorted entries that neither `..` nor the directory grouping tells
/// apart.
pub open spec fn same_group(a: Entry, b: Entry, mix_dirs: bool) -> bool {
    &&& a.name@ != ".."@
    &&& b.name@ != ".."@
    &&& (mix_dirs || (a.kind == EntryKind::Dir) == (b.kind == EntryKind::Dir))
}

/// Sorting by a time or by size orders the entries by that field of each
/// entry: by modification time for `Mtime`, access time for `Atime`, change
/// time for `Ctime` (entries without the time first, then chronologically),
/// and by size for `Size`; backwards when `reverse` is set. Only the
/// entries that `..` and the directory grouping leave together are compared.
pub proof fn lemma_sorted_by_field(
    p: Seq<int>,
    out: Seq<Entry>,
    orig: Seq<Entry>,
    key: SortKey,
    reverse: bool,
    mix_dirs: bool,
    k: int,
    l: int,
)
    requires
        stable_sorted_by(p, out, orig, key, reverse, mix_dirs),
        0 <= k < l < out.len(),
        same_group(out[k], out[l], mix_dirs),
    ensures
        ({
            let (a, b) = if reverse { (out[l], out[k]) } else { (out[k], out[l]) };
            &&& key == SortKey::Mtime ==> (b.mtime is None ==> a.mtime is None) && (a.mtime is Some && b.mtime is Some
                ==> no_later(a.mtime->0, b.mtime->0))
            &&& key == SortKey::Atime ==> (b.atime is None ==> a.atime is None) && (a.atime is Some && b.atime is Some
                ==> no_later(a.atime->0, b.atime->0))
            &&& key == SortKey::Ctime ==> (b.ctime is None ==> a.ctime is None) && (a.ctime is Some && b.ctime is Some
                ==> no_later(a.ctime->0, b.ctime->0))
            &&& key == SortKey::Size ==> a.size <= b.size
        }),
{
    reveal(entry_order);
    assert(le(entry_order(out[k], out[l], key, reverse, mix_dirs)));
    assert(dots_rank(out[k]) == 1 && dots_rank(out[l]) == 1);
    assert(mix_dirs || dir_rank(out[k]) == dir_rank(out[l]));
    let ko = key_order(out[k], out[l], key);
    if reverse {
        assert(le(flip(ko)));
    } else {
        assert(le(ko));
    }
}

/// `a` comes no later than `b` in dictionary order of code points: it is
/// a prefix of `b`, or at the first place they differ its character is
/// the smaller.
pub open spec fn dict_le(a: Seq<char>, b: Seq<char>) -> bool {
    ||| (a.len() <= b.len() && b.take(a.len() as int) == a)
    ||| exists|i: int| 0 <= i < a.len() && i < b.len() && a.take(i) == b.take(i) && a[i] < b[i]
}

proof fn lemma_lex_le(a: Seq<char>, b: Seq<char>)
    requires
        le(lex_order(a, b)),
    ensures
        dict_le(a, b),
    decreases a.len(),
{
    if a.len() == 0 {
        assert(b.take(0) =~= a);
    } else if b.len() == 0 {
    } else if a[0] < b[0] {
        assert(a.take(0) =~= b.take(0));
        assert(0 < a.len() && 0 < b.len() && a.take(0) == b.take(0) && a[0] < b[0]);
    } else if a[0] > b[0] {
    } else {
        let a1 = a.skip(1);
        let b1 = b.skip(1);
        lemma_lex_le(a1, b1);
        if a1.len() <= b1.len() && b1.take(a1.len() as int) == a1 {
            assert(b.take(a.len() as int) =~= a) by {
                assert forall|j: int| 0 <= j < a.len() implies b.take(a.len() as int)[j] == a[j] by {
                    if j > 0 {
                        assert(b1.take(a1.len() as int)[j - 1] == a1[j - 1]);
                    }
                }
            }
        } else {
            let i = choose|i: int| 0 <= i < a1.len() && i < b1.len() && a1.take(i) == b1.take(i) && a1[i] < b1[i];
            assert(a.take(i + 1) =~= b.take(i + 1)) by {
                assert forall|j: int| 0 <= j < i + 1 implies #[trigger] a.take(i + 1)[j] == b.take(i + 1)[j] by {
                    if j > 0 {
                        assert(a1.take(i)[j - 1] == b1.take(i)[j - 1]);
                    }
                }
            }
            assert(a[i + 1] == a1[i] && b[i + 1] == b1[i]);
            assert(0 <= i + 1 < a.len() && i + 1 < b.len() && a.take(i + 1) == b.take(i + 1) && a[i + 1] < b[i + 1]);
        }
    }
}

/// An extension is the text after the last `.` of the name, so it has no
/// `.` itself; a name without `.` has none.
pub proof fn lemma_extension_of(name: Seq<char>)
    ensures
        forall|j: int| 0 <= j < extension_of(name).len() ==> extension_of(name)[j] != '.',
        (forall|j: int| 0 <= j < name.len() ==> name[j] != '.') ==> extension_of(name).len() == 0,
        (exists|j: int| 0 <= j < name.len() && name[j] == '.') ==> name == name.take(
            name.len() - extension_of(name).len() - 1,
        ) + seq!['.'] + extension_of(name),
{
    crate::text::lemma_rfind(name, '.');
    let r = rfind(name, '.');
    if r >= 0 {
        assert forall|j: int| 0 <= j < extension_of(name).len() implies extension_of(name)[j] != '.' by {
            assert(extension_of(name)[j] == name[r + 1 + j]);
        }
        assert(name =~= name.take(r) + seq!['.'] + name.skip(r + 1));
    } else {
        if exists|j: int| 0 <= j < name.len() && name[j] == '.' {
            let j = choose|j: int| 0 <= j < name.len() && name[j] == '.';
            assert(false);
        }
    }
}

/// Sorting by name orders the entries by their lower-cased names in
/// dictionary order; sorting by extension orders them by extension, and
/// entries with the same extension by lower-cased name; backwards when
/// `reverse` is set. Only the entries that `..` and the directory grouping
/// leave together are compared.
pub proof fn lemma_sorted_by_name(
    p: Seq<int>,
    out: Seq<Entry>,
    orig: Seq<Entry>,
    key: SortKey,
    reverse: bool,
    mix_dirs: bool,
    k: int,
    l: int,
)
    requires
        stable_sorted_by(p, out, orig, key, reverse, mix_dirs),
        0 <= k < l < out.len(),
        same_group(out[k], out[l], mix_dirs),
    ensures
        ({
            let (a, b) = if reverse { (out[l], out[k]) } else { (out[k], out[l]) };
            &&& key == SortKey::Name ==> dict_le(unicode_lowercase(a.name@), unicode_lowercase(b.name@))
            &&& key == SortKey::Extension ==> dict_le(extension_of(a.name@), extension_of(b.name@))
            &&& key == SortKey::Extension && extension_of(a.name@) == extension_of(b.name@) ==> dict_le(
                unicode_lowercase(a.name@),
                unicode_lowercase(b.name@),
            )
        }),
{
    reveal(entry_order);
    assert(le(entry_order(out[k], out[l], key, reverse, mix_dirs)));
    assert(dots_rank(out[k]) == 1 && dots_rank(out[l]) == 1);
    assert(mix_dirs || dir_rank(out[k]) == dir_rank(out[l]));
    let (a, b) = if reverse { (out[l], out[k]) } else { (out[k], out[l]) };
    let ko = key_order(out[k], out[l], key);
    if reverse {
        assert(le(flip(ko)));
    } else {
        assert(le(ko));
    }
    let la = unicode_lowercase(a.name@);
    let lb = unicode_lowercase(b.name@);
    let ea = extension_of(a.name@);
    let eb = extension_of(b.name@);
    crate::ord::lemma_lex_flip(la, lb);
    crate::ord::lemma_lex_flip(ea, eb);
    if key == SortKey::Name {
        lemma_lex_le(la, lb);
    }
    if key == SortKey::Extension {
        lemma_lex_le_then(ea, eb, la, lb);
    }
}

proof fn lemma_lex_le_then(ea: Seq<char>, eb: Seq<char>, la: Seq<char>, lb: Seq<char>)
    requires
        le(then(lex_order(ea, eb), lex_order(la, lb))),
    ensures
        dict_le(ea, eb),
        ea == eb ==> dict_le(la, lb),
{
    lemma_lex_equal_self(ea);
    if lex_order(ea, eb) == Ord3::Equal {
        lemma_lex_le(ea, eb);
        lemma_lex_le(la, lb);
    } else {
        lemma_lex_le(ea, eb);
    }
}

proof fn lemma_lex_equal_self(a: Seq<char>)
    ensures
        lex_order(a, a) == Ord3::Equal,
    decreases a.len(),
{
    if a.len() > 0 {
        lemma_lex_equal_self(a.skip(1));
    }
}

/// Without a sort key (`Unsorted`, or `Inode`, whose numbers are not
/// read), the entries that `..` and the directory grouping leave together
/// keep their order.
pub proof fn lemma_unsorted_keeps_order(
    p: Seq<int>,
    out: Seq<Entry>,
    orig: Seq<Entry>,
    key: SortKey,
    reverse: bool,
    mix_dirs: bool,
    k: int,
    l: int,
)
    requires
        stable_sorted_by(p, out, orig, key, reverse, mix_dirs),
        key == SortKey::Unsorted || key == SortKey::Inode,
        0 <= k < l < out.len(),
        same_group(out[k], out[l], mix_dirs),
    ensures
        p[k] < p[l],
{
    reveal(entry_order);
    assert(dots_rank(out[k]) == 1 && dots_rank(out[l]) == 1);
    assert(mix_dirs || dir_rank(out[k]) == dir_rank(out[l]));
    assert(entry_order(out[k], out[l], key, reverse, mix_dirs) == Ord3::Equal);
}

} // verus!
