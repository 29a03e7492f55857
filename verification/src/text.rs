//! Small verified helpers over character sequences and strings.

use vstd::prelude::*;

verus! {

/// ASCII lower-casing of one character; every other character is kept.
pub open spec fn ascii_lower_char(c: char) -> char {
    if 'A' <= c && c <= 'Z' {
        ((c as u32) + 32) as char
    } else {
        c
    }
}

/// ASCII lower-casing of a character sequence.
pub open spec fn ascii_lower(s: Seq<char>) -> Seq<char> {
    s.map_values(|c: char| ascii_lower_char(c))
}

/// Whether `p` is a prefix of `s`.
pub open spec fn has_prefix(s: Seq<char>, p: Seq<char>) -> bool {
    p.len() <= s.len() && s.take(p.len() as int) == p
}

/// Whether `p` is a suffix of `s`.
pub open spec fn has_suffix(s: Seq<char>, p: Seq<char>) -> bool {
    p.len() <= s.len() && s.skip(s.len() - p.len()) == p
}

/// Whether `c` occurs in `s`.
pub open spec fn has_char(s: Seq<char>, c: char) -> bool {
    exists|i: int| 0 <= i < s.len() && s[i] == c
}

/// Number of bytes of the UTF-8 encoding of one character.
pub open spec fn utf8_char_len(c: char) -> nat {
    if (c as u32) < 0x80 {
        1
    } else if (c as u32) < 0x800 {
        2
    } else if (c as u32) < 0x10000 {
        3
    } else {
        4
    }
}

/// Number of bytes of the UTF-8 encoding of a character sequence.
pub open spec fn utf8_len(s: Seq<char>) -> nat
    decreases s.len(),
{
    if s.len() == 0 {
        0
    } else {
        utf8_len(s.drop_last()) + utf8_char_len(s.last())
    }
}

/// Lower-cases one character in the ASCII range.
pub fn to_ascii_lower_char(c: char) -> (r: char)
    ensures
        r == ascii_lower_char(c),
{
    if 'A' <= c && c <= 'Z' {
        let b: u8 = c as u8;
        let l: u8 = b + 32;
        assert(l as char == ((c as u32) + 32) as char);
        l as char
    } else {
        c
    }
}

/// Appends one character to a string.
#[verifier::external_body]
pub(crate) fn push_char(s: &mut String, c: char)
    ensures
        final(s)@ == old(s)@.push(c),
{
    s.push(c);
}

/// The characters of a string, in order.
pub fn chars_of(s: &str) -> (v: Vec<char>)
    ensures
        v@ == s@,
{
    let n = s.unicode_len();
    let mut v: Vec<char> = Vec::new();
    let mut i: usize = 0;
    while i < n
        invariant
            n == s@.len(),
            i <= n,
            v@ == s@.take(i as int),
        decreases n - i,
    {
        let c = s.get_char(i);
        v.push(c);
        i = i + 1;
        assert(v@ == s@.take(i as int));
    }
    assert(s@.take(n as int) == s@);
    v
}

/// A string holding the given characters.
pub fn string_of(v: &[char]) -> (s: String)
    ensures
        s@ == v@,
{
    let mut s = String::new();
    let mut i: usize = 0;
    while i < v.len()
        invariant
            i <= v@.len(),
            s@ == v@.take(i as int),
        decreases v@.len() - i,
    {
        push_char(&mut s, v[i]);
        i = i + 1;
        assert(s@ == v@.take(i as int));
    }
    assert(v@.take(v@.len() as int) == v@);
    s
}

/// Character-wise equality of two slices.
pub fn chars_eq(a: &[char], b: &[char]) -> (r: bool)
    ensures
        r == (a@ == b@),
{
    if a.len() != b.len() {
        return false;
    }
    let mut i: usize = 0;
    while i < a.len()
        invariant
            a@.len() == b@.len(),
            i <= a@.len(),
            forall|k: int| 0 <= k < i ==> a@[k] == b@[k],
        decreases a@.len() - i,
    {
        if a[i] != b[i] {
            return false;
        }
        i = i + 1;
    }
    assert(a@ =~= b@);
    true
}

/// Equality of two strings as character sequences.
pub fn str_eq(a: &str, b: &str) -> (r: bool)
    ensures
        r == (a@ == b@),
{
    let va = chars_of(a);
    let vb = chars_of(b);
    chars_eq(va.as_slice(), vb.as_slice())
}

/// ASCII lower-casing of a string.
pub fn ascii_lowercase(s: &str) -> (r: String)
    ensures
        r@ == ascii_lower(s@),
{
    let v = chars_of(s);
    let mut out = String::new();
    let mut i: usize = 0;
    while i < v.len()
        invariant
            v@ == s@,
            i <= v@.len(),
            out@ == ascii_lower(s@).take(i as int),
        decreases v@.len() - i,
    {
        let c = to_ascii_lower_char(v[i]);
        push_char(&mut out, c);
        i = i + 1;
        assert(out@ == ascii_lower(s@).take(i as int));
    }
    assert(ascii_lower(s@).take(v@.len() as int) == ascii_lower(s@));
    out
}

/// Whether `s` begins with `p`.
pub fn starts_with_chars(s: &[char], p: &[char]) -> (r: bool)
    ensures
        r == has_prefix(s@, p@),
{
    if p.len() > s.len() {
        return false;
    }
    let mut i: usize = 0;
    while i < p.len()
        invariant
            p@.len() <= s@.len(),
            i <= p@.len(),
            forall|k: int| 0 <= k < i ==> s@[k] == p@[k],
        decreases p@.len() - i,
    {
        if s[i] != p[i] {
            assert(s@.take(p@.len() as int)[i as int] != p@[i as int]);
            return false;
        }
        i = i + 1;
    }
    assert(s@.take(p@.len() as int) =~= p@);
    true
}

/// Whether `s` ends with `p`.
pub fn ends_with_chars(s: &[char], p: &[char]) -> (r: bool)
    ensures
        r == has_suffix(s@, p@),
{
    if p.len() > s.len() {
        return false;
    }
    let sl = s.len();
    let off = sl - p.len();
    let mut i: usize = 0;
    while i < p.len()
        invariant
            p@.len() <= s@.len(),
            off == s@.len() - p@.len(),
            off + p@.len() == s@.len(),
            sl == s@.len(),
            i <= p@.len(),
            forall|k: int| 0 <= k < i ==> s@[off + k] == p@[k],
        decreases p@.len() - i,
    {
        if s[off + i] != p[i] {
            assert(s@.skip(off as int)[i as int] != p@[i as int]);
            return false;
        }
        i = i + 1;
    }
    assert(s@.skip(off as int) =~= p@);
    true
}

/// Number of UTF-8 bytes of one character.
pub fn char_utf8_len(c: char) -> (n: usize)
    ensures
        n == utf8_char_len(c),
{
    let u: u32 = c as u32;
    if u < 0x80 {
        1
    } else if u < 0x800 {
        2
    } else if u < 0x10000 {
        3
    } else {
        4
    }
}

/// Number of UTF-8 bytes of a character sequence, saturated at `cap + 1`.
pub fn utf8_len_capped(s: &[char], cap: usize) -> (n: usize)
    requires
        cap < usize::MAX,
    ensures
        n <= cap ==> n == utf8_len(s@),
        n > cap ==> utf8_len(s@) > cap,
{
    let mut total: usize = 0;
    let mut i: usize = 0;
    while i < s.len()
        invariant
            cap < usize::MAX,
            i <= s@.len(),
            total <= cap ==> total == utf8_len(s@.take(i as int)),
            total > cap ==> utf8_len(s@.take(i as int)) > cap,
            total <= cap + 1,
        decreases s@.len() - i,
    {
        let k = char_utf8_len(s[i]);
        proof {
            assert(s@.take(i + 1).drop_last() == s@.take(i as int));
            lemma_utf8_len_prefix_mono(s@, i as int);
        }
        if total <= cap {
            if k > cap + 1 - total {
                total = cap + 1;
            } else {
                total = total + k;
            }
        }
        i = i + 1;
    }
    assert(s@.take(s@.len() as int) == s@);
    total
}

/// The byte length never shrinks when a sequence grows by one character.
pub proof fn lemma_utf8_len_prefix_mono(s: Seq<char>, i: int)
    requires
        0 <= i < s.len(),
    ensures
        utf8_len(s.take(i + 1)) == utf8_len(s.take(i)) + utf8_char_len(s[i]),
{
    assert(s.take(i + 1).drop_last() == s.take(i));
}

} // verus!

verus! {

/// ASCII text takes one byte per character.
pub proof fn lemma_utf8_len_ascii(s: Seq<char>)
    requires
        forall|i: int| 0 <= i < s.len() ==> (#[trigger] s[i] as u32) < 0x80,
    ensures
        utf8_len(s) == s.len(),
    decreases s.len(),
{
    if s.len() > 0 {
        let p = s.drop_last();
        assert forall|i: int| 0 <= i < p.len() implies (#[trigger] p[i] as u32) < 0x80 by {
            assert(p[i] == s[i]);
        }
        lemma_utf8_len_ascii(p);
        assert(s.last() == s[s.len() - 1]);
    }
}

} // verus!

verus! {

/// Unicode `White_Space`, as `char::is_whitespace` tests it.
pub open spec fn is_whitespace(c: char) -> bool {
    ('\u{9}' <= c && c <= '\u{d}') || c == ' ' || c == '\u{85}' || c == '\u{a0}' || c
        == '\u{1680}' || ('\u{2000}' <= c && c <= '\u{200a}') || c == '\u{2028}' || c == '\u{2029}'
        || c == '\u{202f}' || c == '\u{205f}' || c == '\u{3000}'
}

/// Tests `is_whitespace`.
pub fn char_is_whitespace(c: char) -> (r: bool)
    ensures
        r == is_whitespace(c),
{
    ('\u{9}' <= c && c <= '\u{d}') || c == ' ' || c == '\u{85}' || c == '\u{a0}' || c == '\u{1680}'
        || ('\u{2000}' <= c && c <= '\u{200a}') || c == '\u{2028}' || c == '\u{2029}' || c
        == '\u{202f}' || c == '\u{205f}' || c == '\u{3000}'
}

/// The non-empty runs of non-whitespace characters, in order (`split_whitespace`).
pub open spec fn split_ws(s: Seq<char>) -> Seq<Seq<char>>
    decreases s.len(),
{
    if s.len() == 0 {
        Seq::empty()
    } else if is_whitespace(s.last()) {
        split_ws(s.drop_last())
    } else if s.len() >= 2 && !is_whitespace(s[s.len() - 2]) {
        let t = split_ws(s.drop_last());
        t.update(t.len() - 1, t.last().push(s.last()))
    } else {
        split_ws(s.drop_last()).push(seq![s.last()])
    }
}

/// Views of a vector of character vectors.
pub open spec fn views(v: Seq<Vec<char>>) -> Seq<Seq<char>> {
    v.map_values(|x: Vec<char>| x@)
}

/// Splits on Unicode whitespace, dropping empty pieces.
pub fn split_whitespace(s: &[char]) -> (r: Vec<Vec<char>>)
    ensures
        views(r@) == split_ws(s@),
{
    let mut toks: Vec<Vec<char>> = Vec::new();
    let mut cur: Vec<char> = Vec::new();
    let mut in_tok = false;
    let mut i: usize = 0;
    assert(s@.take(0) =~= Seq::<char>::empty());
    while i < s.len()
        invariant
            i <= s@.len(),
            in_tok == (i > 0 && !is_whitespace(s@[i - 1])),
            in_tok ==> split_ws(s@.take(i as int)) == views(toks@).push(cur@),
            !in_tok ==> split_ws(s@.take(i as int)) == views(toks@),
            !in_tok ==> cur@.len() == 0,
        decreases s@.len() - i,
    {
        let c = s[i];
        let ghost pre = s@.take(i as int);
        let ghost post = s@.take(i + 1);
        assert(post.drop_last() == pre);
        assert(post.last() == c);
        if char_is_whitespace(c) {
            if in_tok {
                let done = cur;
                toks.push(done);
                cur = Vec::new();
                in_tok = false;
                assert(views(toks@) =~= views(toks@.drop_last()).push(done@));
            }
        } else {
            if in_tok {
                proof {
                    assert(post[post.len() - 2] == s@[i - 1]);
                    let t = split_ws(pre);
                    assert(t == views(toks@).push(cur@));
                }
                cur.push(c);
                proof {
                    let t = split_ws(pre);
                    assert(split_ws(post) == t.update(t.len() - 1, t.last().push(c)));
                    assert(split_ws(post) =~= views(toks@).push(cur@));
                }
            } else {
                cur.push(c);
                in_tok = true;
                proof {
                    if i > 0 {
                        assert(post[post.len() - 2] == s@[i - 1]);
                    }
                    assert(cur@ =~= seq![c]);
                    assert(split_ws(post) =~= views(toks@).push(cur@));
                }
            }
        }
        i = i + 1;
    }
    assert(s@.take(s@.len() as int) == s@);
    if in_tok {
        let last = cur;
        toks.push(last);
        assert(views(toks@) =~= views(toks@.drop_last()).push(last@));
    }
    toks
}

} // verus!

verus! {

/// Unicode lower-casing of a whole string (`str::to_lowercase`), a function
/// of the text alone.
pub uninterp spec fn unicode_lowercase(s: Seq<char>) -> Seq<char>;

/// Lower-cases a string with `str::to_lowercase`. The result is named by
/// `unicode_lowercase` of the input; the Unicode tables behind it are not stated.
#[verifier::external_body]
pub(crate) fn to_lowercase(s: &str) -> (r: String)
    ensures
        r@ == unicode_lowercase(s@),
{
    s.to_lowercase()
}

/// Index of the last occurrence of `c`, or -1.
pub open spec fn rfind(s: Seq<char>, c: char) -> int
    decreases s.len(),
{
    if s.len() == 0 {
        -1
    } else if s.last() == c {
        s.len() - 1
    } else {
        rfind(s.drop_last(), c)
    }
}

/// `rfind` lies in range, finds `c`, and nothing after it is `c`.
pub proof fn lemma_rfind(s: Seq<char>, c: char)
    ensures
        -1 <= rfind(s, c) < s.len(),
        rfind(s, c) >= 0 ==> s[rfind(s, c)] == c,
        forall|k: int| rfind(s, c) < k < s.len() ==> s[k] != c,
    decreases s.len(),
{
    if s.len() > 0 && s.last() != c {
        lemma_rfind(s.drop_last(), c);
        assert forall|k: int| rfind(s, c) < k < s.len() implies s[k] != c by {
            if k < s.len() - 1 {
                assert(s[k] == s.drop_last()[k]);
            }
        }
    }
}

/// Finds the last occurrence of `c`.
pub fn rfind_char(s: &[char], c: char) -> (r: Option<usize>)
    ensures
        match r {
            Some(i) => rfind(s@, c) == i,
            None => rfind(s@, c) == -1,
        },
{
    let mut i = s.len();
    assert(s@.take(s@.len() as int) == s@);
    while i > 0
        invariant
            i <= s@.len(),
            rfind(s@, c) == rfind(s@.take(i as int), c),
        decreases i,
    {
        let ghost t = s@.take(i as int);
        assert(t.drop_last() == s@.take(i - 1));
        assert(t.last() == s@[i - 1]);
        if s[i - 1] == c {
            return Some(i - 1);
        }
        i = i - 1;
    }
    None
}

} // verus!

verus! {

/// Number of leading whitespace characters.
pub open spec fn lead_ws(s: Seq<char>) -> nat
    decreases s.len(),
{
    if s.len() > 0 && is_whitespace(s[0]) {
        1 + lead_ws(s.skip(1))
    } else {
        0
    }
}

/// Number of trailing whitespace characters.
pub open spec fn trail_ws(s: Seq<char>) -> nat
    decreases s.len(),
{
    if s.len() > 0 && is_whitespace(s.last()) {
        1 + trail_ws(s.drop_last())
    } else {
        0
    }
}

/// `s` without leading and trailing whitespace (`str::trim`).
pub open spec fn trim_ws(s: Seq<char>) -> Seq<char> {
    let t = s.skip(lead_ws(s) as int);
    t.take(t.len() - trail_ws(t))
}

proof fn lemma_lead_ws_bound(s: Seq<char>)
    ensures
        lead_ws(s) <= s.len(),
    decreases s.len(),
{
    if s.len() > 0 && is_whitespace(s[0]) {
        lemma_lead_ws_bound(s.skip(1));
    }
}

proof fn lemma_trail_ws_bound(s: Seq<char>)
    ensures
        trail_ws(s) <= s.len(),
    decreases s.len(),
{
    if s.len() > 0 && is_whitespace(s.last()) {
        lemma_trail_ws_bound(s.drop_last());
    }
}

/// The characters of `s` without leading and trailing whitespace.
pub fn trim_chars(s: &[char]) -> (r: Vec<char>)
    ensures
        r@ == trim_ws(s@),
{
    let n = s.len();
    let mut a: usize = 0;
    assert(s@.skip(0) == s@);
    while a < n && char_is_whitespace(s[a])
        invariant
            n == s@.len(),
            a <= n,
            lead_ws(s@) == a + lead_ws(s@.skip(a as int)),
        decreases n - a,
    {
        assert(s@.skip(a as int).skip(1) == s@.skip(a + 1));
        a = a + 1;
    }
    let ghost t = s@.skip(a as int);
    assert(lead_ws(t) == 0);
    let mut b: usize = n;
    while b > a && char_is_whitespace(s[b - 1])
        invariant
            n == s@.len(),
            a <= b <= n,
            t == s@.skip(a as int),
            trail_ws(t) == (n - b) + trail_ws(s@.subrange(a as int, b as int)),
        decreases b,
    {
        assert(s@.subrange(a as int, b as int).drop_last() == s@.subrange(a as int, b - 1));
        assert(s@.subrange(a as int, b as int).last() == s@[b - 1]);
        b = b - 1;
    }
    assert(trail_ws(s@.subrange(a as int, b as int)) == 0);
    let mut r: Vec<char> = Vec::new();
    let mut i: usize = a;
    while i < b
        invariant
            a <= i <= b <= n,
            n == s@.len(),
            r@ == s@.subrange(a as int, i as int),
        decreases b - i,
    {
        r.push(s[i]);
        i = i + 1;
        assert(r@ == s@.subrange(a as int, i as int));
    }
    assert(t.take(t.len() - trail_ws(t)) == s@.subrange(a as int, b as int));
    r
}

/// Removes the last character of a string, if there is one.
pub fn pop_char(s: &mut String)
    ensures
        final(s)@ == if old(s)@.len() > 0 { old(s)@.drop_last() } else { old(s)@ },
{
    let v = chars_of(s.as_str());
    if v.len() > 0 {
        let t = sub_chars(v.as_slice(), 0, v.len() - 1);
        assert(t@ =~= v@.drop_last());
        *s = string_of(t.as_slice());
    }
}

/// Appends a string to a string.
pub fn append_str(s: &mut String, t: &str)
    ensures
        final(s)@ == old(s)@ + t@,
{
    let v = chars_of(t);
    let mut i: usize = 0;
    while i < v.len()
        invariant
            i <= v@.len(),
            v@ == t@,
            s@ == old(s)@ + t@.take(i as int),
        decreases v@.len() - i,
    {
        push_char(s, v[i]);
        i = i + 1;
        assert(s@ == old(s)@ + t@.take(i as int));
    }
    assert(t@.take(v@.len() as int) == t@);
}

/// Appends characters to a string.
pub fn append_chars(s: &mut String, t: &[char])
    ensures
        final(s)@ == old(s)@ + t@,
{
    let mut i: usize = 0;
    while i < t.len()
        invariant
            i <= t@.len(),
            s@ == old(s)@ + t@.take(i as int),
        decreases t@.len() - i,
    {
        push_char(s, t[i]);
        i = i + 1;
        assert(s@ == old(s)@ + t@.take(i as int));
    }
    assert(t@.take(t@.len() as int) == t@);
}

/// The byte length of a sequence is that of its first character plus that of the rest.
pub proof fn lemma_utf8_len_front(s: Seq<char>)
    requires
        s.len() > 0,
    ensures
        utf8_len(s) == utf8_char_len(s[0]) + utf8_len(s.skip(1)),
    decreases s.len(),
{
    if s.len() == 1 {
        assert(s.drop_last().len() == 0);
        assert(s.skip(1).len() == 0);
        assert(utf8_len(s.drop_last()) == 0);
        assert(utf8_len(s.skip(1)) == 0);
        assert(s.last() == s[0]);
    } else {
        let d = s.drop_last();
        lemma_utf8_len_front(d);
        let t = s.skip(1);
        assert(d.skip(1) == t.drop_last());
        assert(t.last() == s.last());
        assert(d[0] == s[0]);
        assert(utf8_len(t) == utf8_len(t.drop_last()) + utf8_char_len(t.last()));
    }
}

/// Index of the character that starts at byte offset `b`, if `b` falls on a
/// character boundary.
pub open spec fn byte_split(h: Seq<char>, b: nat) -> Option<int>
    decreases h.len(),
{
    if b == 0 {
        Some(0)
    } else if h.len() == 0 || utf8_char_len(h[0]) > b {
        None
    } else {
        match byte_split(h.skip(1), (b - utf8_char_len(h[0])) as nat) {
            Some(k) => Some(k + 1),
            None => None,
        }
    }
}

/// Finds the character index at byte offset `b`.
pub fn byte_split_at(h: &[char], b: usize) -> (r: Option<usize>)
    ensures
        match r {
            Some(k) => byte_split(h@, b as nat) == Some(k as int) && k <= h@.len(),
            None => byte_split(h@, b as nat) is None,
        },
{
    let mut i: usize = 0;
    let mut rem: usize = b;
    assert(h@.skip(0) == h@);
    while rem > 0
        invariant
            i <= h@.len(),
            byte_split(h@, b as nat) == match byte_split(h@.skip(i as int), rem as nat) {
                Some(k) => Some(k + i),
                None => None,
            },
        decreases rem,
    {
        if i == h.len() {
            return None;
        }
        let l = char_utf8_len(h[i]);
        if l > rem {
            return None;
        }
        assert(h@.skip(i as int).skip(1) == h@.skip(i + 1));
        rem = rem - l;
        i = i + 1;
    }
    Some(i)
}

} // verus!

verus! {

/// The characters of `v` from `a` up to `b`.
pub fn sub_chars(v: &[char], a: usize, b: usize) -> (r: Vec<char>)
    requires
        a <= b <= v@.len(),
    ensures
        r@ == v@.subrange(a as int, b as int),
{
    let mut r: Vec<char> = Vec::new();
    let mut i = a;
    while i < b
        invariant
            a <= i <= b <= v@.len(),
            r@ == v@.subrange(a as int, i as int),
        decreases b - i,
    {
        r.push(v[i]);
        i = i + 1;
        assert(r@ == v@.subrange(a as int, i as int));
    }
    r
}

/// Index of the first occurrence of `c`, or -1.
pub open spec fn find_first(s: Seq<char>, c: char) -> int
    decreases s.len(),
{
    if s.len() == 0 {
        -1
    } else if s[0] == c {
        0
    } else {
        let i = find_first(s.skip(1), c);
        if i < 0 {
            -1
        } else {
            i + 1
        }
    }
}

/// Finds the first occurrence of `c`.
pub fn find_char(s: &[char], c: char) -> (r: Option<usize>)
    ensures
        match r {
            Some(i) => find_first(s@, c) == i && i < s@.len(),
            None => find_first(s@, c) == -1,
        },
{
    let mut i: usize = 0;
    assert(s@.skip(0) == s@);
    while i < s.len()
        invariant
            i <= s@.len(),
            find_first(s@, c) == if find_first(s@.skip(i as int), c) < 0 {
                -1
            } else {
                find_first(s@.skip(i as int), c) + i
            },
        decreases s@.len() - i,
    {
        assert(s@.skip(i as int)[0] == s@[i as int]);
        if s[i] == c {
            return Some(i);
        }
        assert(s@.skip(i as int).skip(1) == s@.skip(i + 1));
        i = i + 1;
    }
    None
}

} // verus!

verus! {

/// The pieces of `s` between occurrences of `sep`, as `str::split` gives
/// them (an empty string is one empty piece).
pub open spec fn split_seg(s: Seq<char>, sep: char) -> Seq<Seq<char>>
    decreases s.len(),
{
    if s.len() == 0 {
        seq![Seq::<char>::empty()]
    } else {
        let p = split_seg(s.drop_last(), sep);
        if s.last() == sep {
            p.push(Seq::<char>::empty())
        } else {
            p.update(p.len() - 1, p.last().push(s.last()))
        }
    }
}

pub proof fn lemma_split_seg_nonempty(s: Seq<char>, sep: char)
    ensures
        split_seg(s, sep).len() >= 1,
    decreases s.len(),
{
    if s.len() > 0 {
        lemma_split_seg_nonempty(s.drop_last(), sep);
    }
}

/// No piece of a split contains the separator.
pub proof fn lemma_split_seg_no_sep(s: Seq<char>, sep: char)
    ensures
        split_seg(s, sep).len() >= 1,
        forall|i: int, j: int|
            0 <= i < split_seg(s, sep).len() && 0 <= j < split_seg(s, sep)[i].len() ==> #[trigger] split_seg(s, sep)[i][j] != sep,
    decreases s.len(),
{
    if s.len() > 0 {
        lemma_split_seg_no_sep(s.drop_last(), sep);
        let p = split_seg(s.drop_last(), sep);
        let q = split_seg(s, sep);
        assert forall|i: int, j: int| 0 <= i < q.len() && 0 <= j < q[i].len() implies #[trigger] q[i][j] != sep by {
            if i < p.len() - 1 {
                assert(q[i] == p[i]);
            } else if s.last() != sep && i == p.len() - 1 {
                if j < p.last().len() {
                    assert(q[i][j] == p[i][j]);
                }
            }
        }
    }
}

/// Appending text without separators extends the last piece.
pub proof fn lemma_split_seg_extend(a: Seq<char>, p: Seq<char>, sep: char)
    requires
        forall|j: int| 0 <= j < p.len() ==> p[j] != sep,
    ensures
        split_seg(a + p, sep) == split_seg(a, sep).update(split_seg(a, sep).len() - 1, split_seg(a, sep).last() + p),
    decreases p.len(),
{
    lemma_split_seg_nonempty(a, sep);
    let sa = split_seg(a, sep);
    if p.len() == 0 {
        assert(a + p =~= a);
        assert(sa.last() + p =~= sa.last());
        assert(sa.update(sa.len() - 1, sa.last()) =~= sa);
    } else {
        let q = p.drop_last();
        lemma_split_seg_extend(a, q, sep);
        assert((a + p).drop_last() =~= a + q);
        assert((a + p).last() == p.last());
        let sq = split_seg(a + q, sep);
        assert(sq.last() == sa.last() + q);
        assert(sq.last().push(p.last()) =~= sa.last() + p);
        assert(sq.update(sq.len() - 1, sq.last().push(p.last())) =~= sa.update(sa.len() - 1, sa.last() + p));
    }
}

/// The pieces of `v` between occurrences of `sep`, as [`split_seg`] says.
pub fn split_chars(v: &[char], sep: char) -> (r: Vec<Vec<char>>)
    ensures
        r@.map_values(|p: Vec<char>| p@) == split_seg(v@, sep),
{
    let mut parts: Vec<Vec<char>> = Vec::new();
    let mut cur: Vec<char> = Vec::new();
    let mut i: usize = 0;
    assert(v@.take(0) =~= Seq::<char>::empty());
    assert(split_seg(v@.take(0), sep) == seq![Seq::<char>::empty()]);
    assert(parts@.map_values(|p: Vec<char>| p@).push(cur@) =~= seq![Seq::<char>::empty()]);
    while i < v.len()
        invariant
            i <= v@.len(),
            parts@.map_values(|p: Vec<char>| p@).push(cur@) == split_seg(v@.take(i as int), sep),
        decreases v@.len() - i,
    {
        let ghost t = v@.take(i + 1);
        let ghost pv = parts@.map_values(|p: Vec<char>| p@);
        let ghost cv = cur@;
        assert(t.drop_last() =~= v@.take(i as int));
        assert(t.last() == v@[i as int]);
        if v[i] == sep {
            parts.push(cur);
            cur = Vec::new();
            assert(parts@.map_values(|p: Vec<char>| p@).push(cur@) =~= pv.push(cv).push(Seq::<char>::empty()));
        } else {
            cur.push(v[i]);
            assert(parts@.map_values(|p: Vec<char>| p@).push(cur@) =~= pv.push(cv).update(pv.len() as int, cv.push(v@[i as int])));
        }
        i = i + 1;
    }
    assert(v@.take(v@.len() as int) =~= v@);
    parts.push(cur);
    parts
}

} // verus!

verus! {

/// The text `format!("{:?}", s)` gives for a string: quoted, with
/// `char::escape_debug` escapes.
pub uninterp spec fn debug_text(s: Seq<char>) -> Seq<char>;

/// Quotes a string as its `Debug` form does. The result is named by
/// `debug_text`; the escape table is not stated.
#[verifier::external_body]
pub(crate) fn debug_quote(s: &str) -> (r: String)
    ensures
        r@ == debug_text(s@),
{
    format!("{s:?}")
}

} // verus!

verus! {

/// The UTF-8 bytes of a character.
pub open spec fn utf8_bytes(c: char) -> Seq<u8> {
    let v = c as u32;
    if v < 0x80 {
        seq![v as u8]
    } else if v < 0x800 {
        seq![(0xC0 + v / 64) as u8, (0x80 + v % 64) as u8]
    } else if v < 0x10000 {
        seq![(0xE0 + v / 4096) as u8, (0x80 + (v / 64) % 64) as u8, (0x80 + v % 64) as u8]
    } else {
        seq![(0xF0 + v / 262144) as u8, (0x80 + (v / 4096) % 64) as u8, (0x80 + (v / 64) % 64) as u8, (0x80 + v % 64) as u8]
    }
}

/// The UTF-8 bytes of a text.
pub open spec fn str_bytes(s: Seq<char>) -> Seq<u8>
    decreases s.len(),
{
    if s.len() == 0 {
        Seq::empty()
    } else {
        str_bytes(s.drop_last()) + utf8_bytes(s.last())
    }
}

} // verus!
