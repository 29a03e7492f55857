//! Unix path strings: the parent of a path, as `Path::parent` and
//! `PathBuf::pop` compute it.
//!
//! A path splits into components at `/`. A leading `/` is the root; a
//! leading `.` component of a relative path is the current directory. Empty
//! components and inner `.` components are skipped. The parent is the path
//! with its last component removed, without the separators and `.`
//! components left at its end.

use vstd::prelude::*;

use crate::text::{chars_of, string_of, sub_chars};

verus! {

/// Where the body of a path starts: after a leading `/`, or after a leading
/// `.` component (`.` or `./…`) of a relative path; at 0 otherwise.
pub open spec fn body_start(s: Seq<char>) -> int {
    if s.len() > 0 && s[0] == '/' {
        1
    } else if s.len() > 0 && s[0] == '.' && (s.len() == 1 || s[1] == '/') {
        1
    } else {
        0
    }
}

/// Whether the last character of `s` ends a `.` component: a `.` that
/// starts the body or follows a `/`.
pub open spec fn ends_in_dot_component(s: Seq<char>, b: int) -> bool {
    s.len() > b && s.last() == '.' && (s.len() - 1 == b || s[s.len() - 2] == '/')
}

/// `s` without the separators and `.` components at its end, never cutting
/// into the first `b` characters.
pub open spec fn trim_back(s: Seq<char>, b: int) -> Seq<char>
    decreases s.len(),
{
    if s.len() <= b || b < 0 {
        s
    } else if s.last() == '/' || ends_in_dot_component(s, b) {
        trim_back(s.drop_last(), b)
    } else {
        s
    }
}

/// `s` without its last component and the separator before it, never
/// cutting into the first `b` characters.
pub open spec fn drop_component(s: Seq<char>, b: int) -> Seq<char>
    decreases s.len(),
{
    if s.len() <= b || b < 0 {
        s
    } else if s.last() == '/' {
        s.drop_last()
    } else {
        drop_component(s.drop_last(), b)
    }
}

/// The parent of a path: `None` for the empty path and for a path that is
/// only the root; the empty path for `.` and for a one-component relative
/// path; otherwise the path without its last component.
pub open spec fn path_parent(s: Seq<char>) -> Option<Seq<char>> {
    let b = body_start(s);
    let t = trim_back(s, b);
    if t.len() > b {
        Some(trim_back(drop_component(t, b), b))
    } else if s.len() > 0 && s[0] == '/' {
        None
    } else if b == 1 {
        Some(Seq::<char>::empty())
    } else {
        None
    }
}

/// The length of `trim_back` of the first `n` characters of `v`.
fn trim_back_len(v: &Vec<char>, b: usize, n: usize) -> (m: usize)
    requires
        b <= n <= v@.len(),
    ensures
        b <= m <= n,
        v@.take(m as int) == trim_back(v@.take(n as int), b as int),
{
    let mut m = n;
    while m > b && (v[m - 1] == '/' || (v[m - 1] == '.' && (m - 1 == b || v[m - 2] == '/')))
        invariant
            b <= m <= n <= v@.len(),
            trim_back(v@.take(m as int), b as int) == trim_back(v@.take(n as int), b as int),
        decreases m,
    {
        let ghost s = v@.take(m as int);
        assert(s.drop_last() =~= v@.take(m - 1));
        assert(s.last() == v@[m - 1]);
        assert(m >= 2 ==> s[s.len() - 2] == v@[m - 2]);
        m = m - 1;
    }
    proof {
        let s = v@.take(m as int);
        if m > b {
            assert(s.last() == v@[m - 1]);
            assert(m >= 2 ==> s[s.len() - 2] == v@[m - 2]);
        }
    }
    m
}

/// The length of `drop_component` of the first `n` characters of `v`.
fn drop_component_len(v: &Vec<char>, b: usize, n: usize) -> (m: usize)
    requires
        b <= n <= v@.len(),
    ensures
        b <= m <= n,
        v@.take(m as int) == drop_component(v@.take(n as int), b as int),
{
    let mut m = n;
    while m > b && v[m - 1] != '/'
        invariant
            b <= m <= n <= v@.len(),
            drop_component(v@.take(m as int), b as int) == drop_component(v@.take(n as int), b as int),
        decreases m,
    {
        let ghost s = v@.take(m as int);
        assert(s.drop_last() =~= v@.take(m - 1));
        assert(s.last() == v@[m - 1]);
        m = m - 1;
    }
    if m > b {
        let ghost s = v@.take(m as int);
        assert(s.drop_last() =~= v@.take(m - 1));
        assert(s.last() == v@[m - 1]);
        m = m - 1;
    }
    m
}

/// The parent of a path, as [`path_parent`] says.
pub fn parent_of(path: &str) -> (r: Option<String>)
    ensures
        match r {
            Some(p) => path_parent(path@) == Some(p@),
            None => path_parent(path@) is None,
        },
{
    let v = chars_of(path);
    let n = v.len();
    let b: usize = if n > 0 && v[0] == '/' {
        1
    } else if n > 0 && v[0] == '.' && (n == 1 || v[1] == '/') {
        1
    } else {
        0
    };
    assert(b as int == body_start(path@));
    assert(v@.take(n as int) =~= v@);
    let t = trim_back_len(&v, b, n);
    if t > b {
        let d = drop_component_len(&v, b, t);
        assert(v@.take(t as int).take(d as int) =~= v@.take(d as int));
        let m = trim_back_len(&v, b, d);
        assert(v@.take(m as int) =~= v@.subrange(0, m as int));
        let w = sub_chars(&v, 0, m);
        proof {
            let tt = v@.take(t as int);
            assert(drop_component(tt, b as int) == v@.take(d as int));
        }
        Some(string_of(&w))
    } else if n > 0 && v[0] == '/' {
        None
    } else if b == 1 {
        Some(String::new())
    } else {
        None
    }
}

} // verus!
