//! Tiny glob matcher: `*` matches any run of characters, `?` matches one
//! character, everything else matches itself; case-insensitive. Used by
//! panel filters and the select/unselect group dialogs.

use vstd::prelude::*;

use crate::text::chars_of;

verus! {

/// Whether `p` matches all of `t`.
pub open spec fn gmatch(p: Seq<char>, t: Seq<char>) -> bool
    decreases p.len() + t.len(),
{
    if p.len() == 0 {
        t.len() == 0
    } else if p[0] == '*' {
        gmatch(p.skip(1), t) || (t.len() > 0 && gmatch(p, t.skip(1)))
    } else {
        t.len() > 0 && (p[0] == '?' || p[0] == t[0]) && gmatch(p.skip(1), t.skip(1))
    }
}

/// A star-free pattern piece matches a text piece of the same length character by character.
pub open spec fn lit_match(l: Seq<char>, s: Seq<char>) -> bool {
    l.len() == s.len() && forall|i: int| 0 <= i < l.len() ==> (#[trigger] l[i] == '?' || l[i] == s[i])
}

pub open spec fn star_free(l: Seq<char>) -> bool {
    forall|i: int| 0 <= i < l.len() ==> #[trigger] l[i] != '*'
}

pub open spec fn all_stars(l: Seq<char>) -> bool {
    forall|i: int| 0 <= i < l.len() ==> #[trigger] l[i] == '*'
}

/// Unicode lower-casing of one character (`char::to_lowercase`), which may
/// give several characters; a function of the character alone.
pub uninterp spec fn char_lowercase(c: char) -> Seq<char>;

/// Lower-cases one character with `char::to_lowercase`. The result is named
/// by `char_lowercase`; the Unicode tables behind it are not stated.
#[verifier::external_body]
pub(crate) fn char_to_lowercase(c: char) -> (r: Vec<char>)
    ensures
        r@ == char_lowercase(c),
{
    c.to_lowercase().collect()
}

/// Each character lower-cased, the results joined in order.
pub open spec fn lower_flat(s: Seq<char>) -> Seq<char>
    decreases s.len(),
{
    if s.len() == 0 {
        Seq::empty()
    } else {
        lower_flat(s.drop_last()) + char_lowercase(s.last())
    }
}

fn lower_flat_exec(s: &str) -> (r: Vec<char>)
    ensures
        r@ == lower_flat(s@),
{
    let v = chars_of(s);
    let mut out: Vec<char> = Vec::new();
    let mut i: usize = 0;
    while i < v.len()
        invariant
            v@ == s@,
            i <= v@.len(),
            out@ == lower_flat(s@.take(i as int)),
        decreases v@.len() - i,
    {
        let mut l = char_to_lowercase(v[i]);
        proof {
            assert(s@.take(i + 1).drop_last() == s@.take(i as int));
            assert(s@.take(i + 1).last() == v@[i as int]);
        }
        out.append(&mut l);
        i = i + 1;
    }
    assert(s@.take(v@.len() as int) == s@);
    out
}

/// A star-free piece in front decides the match character by character.
pub proof fn lemma_lit_prefix(l: Seq<char>, x: Seq<char>, s: Seq<char>)
    requires
        star_free(l),
    ensures
        gmatch(l + x, s) == (s.len() >= l.len() && lit_match(l, s.take(l.len() as int)) && gmatch(
            x,
            s.skip(l.len() as int),
        )),
    decreases l.len(),
{
    if l.len() == 0 {
        assert(l + x == x);
        assert(s.skip(0) == s);
        assert(lit_match(l, s.take(0)));
    } else {
        let l1 = l.skip(1);
        assert((l + x)[0] == l[0]);
        assert((l + x).skip(1) == l1 + x);
        assert forall|i: int| 0 <= i < l1.len() implies #[trigger] l1[i] != '*' by {
            assert(l1[i] == l[i + 1]);
        }
        if s.len() > 0 {
            lemma_lit_prefix(l1, x, s.skip(1));
            if s.len() >= l.len() {
                assert(s.skip(1).skip(l1.len() as int) == s.skip(l.len() as int));
                let a = s.take(l.len() as int);
                let b = s.skip(1).take(l1.len() as int);
                assert(b == a.skip(1));
                if lit_match(l, a) {
                    assert forall|i: int| 0 <= i < l1.len() implies (#[trigger] l1[i] == '?' || l1[i] == b[i]) by {
                        assert(l[i + 1] == '?' || l[i + 1] == a[i + 1]);
                    }
                }
                if (l[0] == '?' || l[0] == s[0]) && lit_match(l1, b) {
                    assert forall|i: int| 0 <= i < l.len() implies (#[trigger] l[i] == '?' || l[i] == a[i]) by {
                        if i > 0 {
                            assert(l1[i - 1] == '?' || l1[i - 1] == b[i - 1]);
                        }
                    }
                }
            }
        }
    }
}

/// A leading star matches any prefix of the text.
pub proof fn lemma_star_prefix(r: Seq<char>, s: Seq<char>)
    ensures
        gmatch(seq!['*'] + r, s) == (exists|k: int| 0 <= k <= s.len() && #[trigger] gmatch(r, s.skip(k))),
    decreases s.len(),
{
    let p = seq!['*'] + r;
    assert(p[0] == '*');
    assert(p.skip(1) == r);
    assert(s.skip(0) == s);
    if s.len() > 0 {
        lemma_star_prefix(r, s.skip(1));
        assert(gmatch(p, s) == (gmatch(r, s) || gmatch(p, s.skip(1))));
        if gmatch(p, s) {
            if gmatch(r, s) {
                assert(gmatch(r, s.skip(0)));
            } else {
                let k = choose|k: int| 0 <= k <= s.skip(1).len() && #[trigger] gmatch(r, s.skip(1).skip(k));
                assert(s.skip(1).skip(k) == s.skip(k + 1));
                assert(gmatch(r, s.skip(k + 1)));
            }
        }
        if exists|k: int| 0 <= k <= s.len() && #[trigger] gmatch(r, s.skip(k)) {
            let k = choose|k: int| 0 <= k <= s.len() && #[trigger] gmatch(r, s.skip(k));
            if k > 0 {
                assert(s.skip(1).skip(k - 1) == s.skip(k));
                assert(gmatch(r, s.skip(1).skip(k - 1)));
                assert(gmatch(p, s.skip(1)));
            }
        }
    } else {
        assert(gmatch(p, s) == gmatch(r, s));
        if gmatch(r, s) {
            assert(gmatch(r, s.skip(0)));
        }
        if exists|k: int| 0 <= k <= s.len() && #[trigger] gmatch(r, s.skip(k)) {
            let k = choose|k: int| 0 <= k <= s.len() && #[trigger] gmatch(r, s.skip(k));
            assert(k == 0);
        }
    }
}

/// The empty text is matched exactly by patterns of stars only.
pub proof fn lemma_empty_text(p: Seq<char>)
    ensures
        gmatch(p, Seq::empty()) == all_stars(p),
    decreases p.len(),
{
    if p.len() > 0 {
        lemma_empty_text(p.skip(1));
        if all_stars(p.skip(1)) && p[0] == '*' {
            assert forall|i: int| 0 <= i < p.len() implies #[trigger] p[i] == '*' by {
                if i > 0 {
                    assert(p.skip(1)[i - 1] == p[i]);
                }
            }
        }
        if all_stars(p) {
            assert forall|i: int| 0 <= i < p.skip(1).len() implies #[trigger] p.skip(1)[i] == '*' by {
                assert(p.skip(1)[i] == p[i + 1]);
            }
        }
    }
}

} // verus!

verus! {

/// Some suffix of `t` from `st` on is matched by the pattern after the star at `sp`.
pub open spec fn star_tail(p: Seq<char>, sp: int, t: Seq<char>, st: int) -> bool {
    exists|k: int| st <= k <= t.len() && #[trigger] gmatch(p.skip(sp + 1), t.skip(k))
}

/// The matcher's state: without a star seen, the rest of the pattern must
/// match the rest of the text; with the last star at `sp` tried against
/// text position `st`, the star-free piece after it matched `t[st..ti]`.
pub open spec fn glob_inv(p: Seq<char>, t: Seq<char>, pi: int, ti: int, star: Option<usize>, st: int) -> bool {
    &&& 0 <= pi <= p.len()
    &&& 0 <= st <= ti <= t.len()
    &&& match star {
        None => gmatch(p, t) == gmatch(p.skip(pi), t.skip(ti)),
        Some(sp) => {
            &&& sp < pi
            &&& p[sp as int] == '*'
            &&& star_free(p.subrange(sp + 1, pi))
            &&& lit_match(p.subrange(sp + 1, pi), t.subrange(st, ti))
            &&& gmatch(p, t) == star_tail(p, sp as int, t, st)
        },
    }
}

proof fn lemma_skip_skip(s: Seq<char>, a: int, b: int)
    requires
        0 <= a,
        0 <= b,
        a + b <= s.len(),
    ensures
        s.skip(a).skip(b) == s.skip(a + b),
{
    assert(s.skip(a).skip(b) =~= s.skip(a + b));
}

/// Meeting a star with no earlier star.
proof fn lemma_first_star(p: Seq<char>, t: Seq<char>, pi: int, ti: int)
    requires
        0 <= pi < p.len(),
        p[pi] == '*',
        0 <= ti <= t.len(),
    ensures
        gmatch(p.skip(pi), t.skip(ti)) == star_tail(p, pi, t, ti),
{
    let r = p.skip(pi + 1);
    assert(p.skip(pi) == seq!['*'] + r);
    let s = t.skip(ti);
    lemma_star_prefix(r, s);
    if gmatch(p.skip(pi), s) {
        let k = choose|k: int| 0 <= k <= s.len() && #[trigger] gmatch(r, s.skip(k));
        lemma_skip_skip(t, ti, k);
        assert(gmatch(p.skip(pi + 1), t.skip(ti + k)));
    }
    if star_tail(p, pi, t, ti) {
        let k = choose|k: int| ti <= k <= t.len() && #[trigger] gmatch(p.skip(pi + 1), t.skip(k));
        lemma_skip_skip(t, ti, k - ti);
        assert(gmatch(r, s.skip(k - ti)));
    }
}

/// Meeting a later star: the earlier star's choices no longer matter,
/// because the piece between the stars matched at the leftmost place.
proof fn lemma_next_star(p: Seq<char>, t: Seq<char>, sp: int, pi: int, st: int, ti: int)
    requires
        0 <= sp < pi < p.len(),
        p[pi] == '*',
        0 <= st <= ti <= t.len(),
        star_free(p.subrange(sp + 1, pi)),
        lit_match(p.subrange(sp + 1, pi), t.subrange(st, ti)),
    ensures
        star_tail(p, sp, t, st) == star_tail(p, pi, t, ti),
{
    let l = p.subrange(sp + 1, pi);
    let r = p.skip(pi + 1);
    let x = seq!['*'] + r;
    assert(p.skip(sp + 1) == l + x);
    if star_tail(p, sp, t, st) {
        let k = choose|k: int| st <= k <= t.len() && #[trigger] gmatch(p.skip(sp + 1), t.skip(k));
        let s = t.skip(k);
        lemma_lit_prefix(l, x, s);
        let s2 = s.skip(l.len() as int);
        lemma_star_prefix(r, s2);
        let j = choose|j: int| 0 <= j <= s2.len() && #[trigger] gmatch(r, s2.skip(j));
        lemma_skip_skip(t, k, l.len() as int);
        lemma_skip_skip(t, k + l.len(), j);
        assert(gmatch(p.skip(pi + 1), t.skip(k + l.len() + j)));
    }
    if star_tail(p, pi, t, ti) {
        let j = choose|j: int| ti <= j <= t.len() && #[trigger] gmatch(p.skip(pi + 1), t.skip(j));
        let s = t.skip(st);
        lemma_lit_prefix(l, x, s);
        assert(s.take(l.len() as int) == t.subrange(st, ti));
        let s2 = s.skip(l.len() as int);
        lemma_skip_skip(t, st, l.len() as int);
        assert(s2 == t.skip(ti));
        lemma_star_prefix(r, s2);
        lemma_skip_skip(t, ti, j - ti);
        assert(gmatch(r, s2.skip(j - ti)));
        assert(gmatch(p.skip(sp + 1), t.skip(st)));
    }
}

/// When the rest of the pattern cannot match the rest of the text, the
/// try at `st` fails and the star must take one more character.
proof fn lemma_backtrack(p: Seq<char>, t: Seq<char>, sp: int, pi: int, st: int, ti: int)
    requires
        0 <= sp < pi <= p.len(),
        0 <= st <= ti < t.len(),
        star_free(p.subrange(sp + 1, pi)),
        lit_match(p.subrange(sp + 1, pi), t.subrange(st, ti)),
        !gmatch(p.skip(pi), t.skip(ti)),
    ensures
        star_tail(p, sp, t, st) == star_tail(p, sp, t, st + 1),
{
    let l = p.subrange(sp + 1, pi);
    let x = p.skip(pi);
    assert(p.skip(sp + 1) == l + x);
    let s = t.skip(st);
    lemma_lit_prefix(l, x, s);
    lemma_skip_skip(t, st, l.len() as int);
    assert(s.skip(l.len() as int) == t.skip(ti));
    assert(!gmatch(p.skip(sp + 1), t.skip(st)));
    if star_tail(p, sp, t, st) {
        let k = choose|k: int| st <= k <= t.len() && #[trigger] gmatch(p.skip(sp + 1), t.skip(k));
        assert(k != st);
    }
}

/// Text used up: what is left must be stars.
proof fn lemma_glob_end(p: Seq<char>, t: Seq<char>, sp: int, pi: int, st: int)
    requires
        0 <= sp < pi <= p.len(),
        0 <= st <= t.len(),
        star_free(p.subrange(sp + 1, pi)),
        lit_match(p.subrange(sp + 1, pi), t.subrange(st, t.len() as int)),
    ensures
        star_tail(p, sp, t, st) == all_stars(p.skip(pi)),
{
    let l = p.subrange(sp + 1, pi);
    let x = p.skip(pi);
    assert(p.skip(sp + 1) == l + x);
    lemma_empty_text(x);
    let s = t.skip(st);
    lemma_lit_prefix(l, x, s);
    assert(s.take(l.len() as int) == t.subrange(st, t.len() as int));
    assert(s.skip(l.len() as int) =~= Seq::<char>::empty());
    if all_stars(x) {
        assert(gmatch(p.skip(sp + 1), t.skip(st)));
    }
    if star_tail(p, sp, t, st) {
        let k = choose|k: int| st <= k <= t.len() && #[trigger] gmatch(p.skip(sp + 1), t.skip(k));
        lemma_lit_prefix(l, x, t.skip(k));
    }
}

/// Matches with one remembered star, backtracking by one character at a time.
fn glob_inner(p: &[char], t: &[char]) -> (r: bool)
    ensures
        r == gmatch(p@, t@),
{
    let pl = p.len();
    let tl = t.len();
    let mut pi: usize = 0;
    let mut ti: usize = 0;
    let mut star: Option<usize> = None;
    let mut st: usize = 0;
    assert(p@.skip(0) == p@ && t@.skip(0) == t@);
    while ti < tl
        invariant
            pl == p@.len(),
            tl == t@.len(),
            glob_inv(p@, t@, pi as int, ti as int, star, st as int),
        decreases tl - st, tl - ti, pl - pi,
    {
        if pi < pl && p[pi] == '*' {
            proof {
                match star {
                    None => {
                        lemma_first_star(p@, t@, pi as int, ti as int);
                    },
                    Some(sp) => {
                        lemma_next_star(p@, t@, sp as int, pi as int, st as int, ti as int);
                    },
                }
                assert(p@.subrange(pi + 1, pi + 1) =~= Seq::<char>::empty());
                assert(t@.subrange(ti as int, ti as int) =~= Seq::<char>::empty());
            }
            star = Some(pi);
            st = ti;
            pi = pi + 1;
        } else if pi < pl && (p[pi] == '?' || p[pi] == t[ti]) {
            proof {
                match star {
                    None => {
                        let ps = p@.skip(pi as int);
                        let ts = t@.skip(ti as int);
                        assert(ps.skip(1) == p@.skip(pi + 1));
                        assert(ts.skip(1) == t@.skip(ti + 1));
                    },
                    Some(sp) => {
                        let l0 = p@.subrange(sp + 1, pi as int);
                        let l1 = p@.subrange(sp + 1, pi + 1);
                        let s1 = t@.subrange(st as int, ti + 1);
                        assert(l1 == l0.push(p@[pi as int]));
                        assert(s1 == t@.subrange(st as int, ti as int).push(t@[ti as int]));
                        assert forall|i: int| 0 <= i < l1.len() implies #[trigger] l1[i] != '*' by {
                            if i < l0.len() {
                                assert(l1[i] == l0[i]);
                            }
                        }
                        assert forall|i: int| 0 <= i < l1.len() implies (#[trigger] l1[i] == '?' || l1[i] == s1[i]) by {
                            if i < l0.len() {
                                assert(l1[i] == l0[i]);
                                assert(s1[i] == t@.subrange(st as int, ti as int)[i]);
                            }
                        }
                    },
                }
            }
            pi = pi + 1;
            ti = ti + 1;
        } else {
            proof {
                let ps = p@.skip(pi as int);
                let ts = t@.skip(ti as int);
                if pi < pl {
                    assert(ps[0] == p@[pi as int]);
                    assert(ts[0] == t@[ti as int]);
                }
                assert(!gmatch(ps, ts));
            }
            match star {
                None => {
                    return false;
                },
                Some(sp) => {
                    proof {
                        lemma_backtrack(p@, t@, sp as int, pi as int, st as int, ti as int);
                        assert(p@.subrange(sp + 1, sp + 1) =~= Seq::<char>::empty());
                        assert(t@.subrange(st + 1, st + 1) =~= Seq::<char>::empty());
                    }
                    pi = sp + 1;
                    st = st + 1;
                    ti = st;
                },
            }
        }
    }
    let ghost pi0 = pi;
    while pi < pl && p[pi] == '*'
        invariant
            pl == p@.len(),
            pi0 <= pi <= pl,
            forall|i: int| pi0 <= i < pi ==> #[trigger] p@[i] == '*',
        decreases pl - pi,
    {
        pi = pi + 1;
    }
    proof {
        let x = p@.skip(pi0 as int);
        if pi == pl {
            assert forall|i: int| 0 <= i < x.len() implies #[trigger] x[i] == '*' by {
                assert(x[i] == p@[pi0 + i]);
            }
        } else {
            assert(x[pi - pi0] == p@[pi as int]);
        }
        assert(all_stars(x) == (pi == pl));
        assert(t@.skip(tl as int) =~= Seq::<char>::empty());
        match star {
            None => {
                lemma_empty_text(x);
            },
            Some(sp) => {
                lemma_glob_end(p@, t@, sp as int, pi0 as int, st as int);
            },
        }
    }
    pi == pl
}

/// Whether `pattern` matches all of `text`, comparing lower-cased text
/// (each character through `char::to_lowercase`).
pub fn glob_match(pattern: &str, text: &str) -> (r: bool)
    ensures
        r == gmatch(lower_flat(pattern@), lower_flat(text@)),
{
    let p = lower_flat_exec(pattern);
    let t = lower_flat_exec(text);
    glob_inner(p.as_slice(), t.as_slice())
}

} // verus!
