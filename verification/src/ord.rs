//! Three-way comparison results and the total preorders built from them.

use vstd::prelude::*;

verus! {

/// The outcome of comparing two values.
#[derive(Debug, Clone, Copy, PartialEq, Eq, Structural)]
pub enum Ord3 {
    Less,
    Equal,
    Greater,
}

/// The comparison seen from the other side.
pub open spec fn flip(o: Ord3) -> Ord3 {
    match o {
        Ord3::Less => Ord3::Greater,
        Ord3::Equal => Ord3::Equal,
        Ord3::Greater => Ord3::Less,
    }
}

/// "Not after".
pub open spec fn le(o: Ord3) -> bool {
    o != Ord3::Greater
}

/// The first comparison, or the second where the first ties.
pub open spec fn then(o1: Ord3, o2: Ord3) -> Ord3 {
    if o1 == Ord3::Equal {
        o2
    } else {
        o1
    }
}

/// Compares two integers.
pub open spec fn int_order(a: int, b: int) -> Ord3 {
    if a < b {
        Ord3::Less
    } else if a > b {
        Ord3::Greater
    } else {
        Ord3::Equal
    }
}

pub open spec fn tri_ok(ab: Ord3, bc: Ord3, ac: Ord3) -> bool {
    le(ab) && le(bc) ==> le(ac)
}

/// The comparisons among three values `a`, `b`, `c` (given as `ab`, `bc`,
/// `ac`; the reverse directions are their flips) are consistent with a
/// total preorder: "not after" is transitive along every ordering of the three.
pub open spec fn preorder3(ab: Ord3, bc: Ord3, ac: Ord3) -> bool {
    &&& tri_ok(ab, bc, ac)
    &&& tri_ok(ac, flip(bc), ab)
    &&& tri_ok(flip(ab), ac, bc)
    &&& tri_ok(bc, flip(ac), flip(ab))
    &&& tri_ok(flip(ac), ab, flip(bc))
    &&& tri_ok(flip(bc), flip(ab), flip(ac))
}

/// Chaining two preorders lexicographically gives a preorder.
pub proof fn lemma_then_preorder3(
    xab: Ord3,
    xbc: Ord3,
    xac: Ord3,
    yab: Ord3,
    ybc: Ord3,
    yac: Ord3,
)
    requires
        preorder3(xab, xbc, xac),
        preorder3(yab, ybc, yac),
    ensures
        preorder3(then(xab, yab), then(xbc, ybc), then(xac, yac)),
{
}

/// Reversing a preorder gives a preorder.
pub proof fn lemma_flip_preorder3(ab: Ord3, bc: Ord3, ac: Ord3)
    requires
        preorder3(ab, bc, ac),
    ensures
        preorder3(flip(ab), flip(bc), flip(ac)),
{
}

/// Integer comparison is a preorder.
pub proof fn lemma_int_preorder3(a: int, b: int, c: int)
    ensures
        preorder3(int_order(a, b), int_order(b, c), int_order(a, c)),
        int_order(a, b) == flip(int_order(b, a)),
{
}

/// Lexicographic comparison of character sequences by code point.
pub open spec fn lex_order(a: Seq<char>, b: Seq<char>) -> Ord3
    decreases a.len(),
{
    if a.len() == 0 {
        if b.len() == 0 {
            Ord3::Equal
        } else {
            Ord3::Less
        }
    } else if b.len() == 0 {
        Ord3::Greater
    } else if a[0] < b[0] {
        Ord3::Less
    } else if a[0] > b[0] {
        Ord3::Greater
    } else {
        lex_order(a.skip(1), b.skip(1))
    }
}

/// Swapping the operands flips the lexicographic comparison.
pub proof fn lemma_lex_flip(a: Seq<char>, b: Seq<char>)
    ensures
        lex_order(a, b) == flip(lex_order(b, a)),
    decreases a.len(),
{
    if a.len() > 0 && b.len() > 0 && a[0] == b[0] {
        lemma_lex_flip(a.skip(1), b.skip(1));
    }
}

/// "Not after" is transitive for the lexicographic comparison.
pub proof fn lemma_lex_trans(a: Seq<char>, b: Seq<char>, c: Seq<char>)
    ensures
        tri_ok(lex_order(a, b), lex_order(b, c), lex_order(a, c)),
        lex_order(a, b) == Ord3::Less && le(lex_order(b, c)) ==> lex_order(a, c) == Ord3::Less,
        le(lex_order(a, b)) && lex_order(b, c) == Ord3::Less ==> lex_order(a, c) == Ord3::Less,
    decreases a.len(),
{
    if a.len() > 0 && b.len() > 0 && c.len() > 0 {
        lemma_lex_trans(a.skip(1), b.skip(1), c.skip(1));
    }
}

/// Lexicographic comparison is a preorder.
pub proof fn lemma_lex_preorder3(a: Seq<char>, b: Seq<char>, c: Seq<char>)
    ensures
        preorder3(lex_order(a, b), lex_order(b, c), lex_order(a, c)),
{
    lemma_lex_flip(a, b);
    lemma_lex_flip(b, c);
    lemma_lex_flip(a, c);
    lemma_lex_trans(a, b, c);
    lemma_lex_trans(a, c, b);
    lemma_lex_trans(b, a, c);
    lemma_lex_trans(b, c, a);
    lemma_lex_trans(c, a, b);
    lemma_lex_trans(c, b, a);
}

/// Compares two character slices lexicographically.
pub fn lex_order_of(a: &[char], b: &[char]) -> (r: Ord3)
    ensures
        r == lex_order(a@, b@),
{
    let mut i: usize = 0;
    assert(a@.skip(0) == a@ && b@.skip(0) == b@);
    while i < a.len() && i < b.len() && a[i] == b[i]
        invariant
            i <= a@.len(),
            i <= b@.len(),
            lex_order(a@, b@) == lex_order(a@.skip(i as int), b@.skip(i as int)),
        decreases a@.len() - i,
    {
        proof {
            let sa = a@.skip(i as int);
            let sb = b@.skip(i as int);
            assert(sa.skip(1) == a@.skip(i + 1));
            assert(sb.skip(1) == b@.skip(i + 1));
        }
        i = i + 1;
    }
    let ghost sa = a@.skip(i as int);
    let ghost sb = b@.skip(i as int);
    if i == a.len() {
        if i == b.len() {
            Ord3::Equal
        } else {
            Ord3::Less
        }
    } else if i == b.len() {
        Ord3::Greater
    } else if a[i] < b[i] {
        assert(sa[0] == a@[i as int]);
        Ord3::Less
    } else {
        assert(sa[0] == a@[i as int] && sb[0] == b@[i as int]);
        Ord3::Greater
    }
}

} // verus!
