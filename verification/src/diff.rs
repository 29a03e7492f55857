//! Line-level diff between two texts, laid out for side-by-side display:
//! an ordered list of rows (`Same`, `Removed`, `Added`, `Changed`) and the
//! row ranges of the changed hunks.

use vstd::prelude::*;

use crate::text::{chars_of, push_char, string_of};

verus! {

/// One display row.
#[derive(Debug, Clone, PartialEq, Eq)]
pub enum Row {
    /// Identical line on both sides.
    Same(String),
    /// Line only on the left (removed in right).
    Removed(String),
    /// Line only on the right (added).
    Added(String),
    /// A line that appears on both sides but with different content
    /// (paired from a removal and an addition within one hunk).
    Changed(String, String),
}

/// A row as text.
pub enum RowText {
    Same(Seq<char>),
    Removed(Seq<char>),
    Added(Seq<char>),
    Changed(Seq<char>, Seq<char>),
}

impl View for Row {
    type V = RowText;

    open spec fn view(&self) -> RowText {
        match self {
            Row::Same(s) => RowText::Same(s@),
            Row::Removed(s) => RowText::Removed(s@),
            Row::Added(s) => RowText::Added(s@),
            Row::Changed(l, r) => RowText::Changed(l@, r@),
        }
    }
}

/// The rows `start..end` of one hunk.
#[derive(Debug, Clone, PartialEq, Eq, Structural)]
pub struct Hunk {
    /// Index in `rows` of the first row in this hunk.
    pub start: usize,
    /// One past the last row.
    pub end: usize,
}

/// Rows and hunks of a diff.
#[derive(Debug, Clone)]
pub struct DiffModel {
    pub rows: Vec<Row>,
    pub hunks: Vec<Hunk>,
}

/// The lines of a text, each with its `\n` (the last may lack one), as
/// imara-diff tokenizes a string; an empty text has no lines.
pub open spec fn lines_of(s: Seq<char>) -> Seq<Seq<char>>
    decreases s.len(),
{
    if s.len() == 0 {
        Seq::empty()
    } else {
        let p = lines_of(s.drop_last());
        if p.len() == 0 || p.last().last() == '\n' {
            p.push(seq![s.last()])
        } else {
            p.update(p.len() - 1, p.last().push(s.last()))
        }
    }
}

/// Every line is non-empty.
proof fn lemma_lines_non_empty(s: Seq<char>)
    ensures
        forall|i: int| 0 <= i < lines_of(s).len() ==> (#[trigger] lines_of(s)[i]).len() > 0,
        lines_of(s).len() <= s.len(),
    decreases s.len(),
{
    if s.len() > 0 {
        lemma_lines_non_empty(s.drop_last());
    }
}

/// Splits a text into its lines as [`lines_of`] says.
pub fn split_lines(text: &str) -> (r: Vec<String>)
    ensures
        r@.map_values(|l: String| l@) == lines_of(text@),
{
    let v = chars_of(text);
    let mut lines: Vec<String> = Vec::new();
    let mut cur = String::new();
    let mut i: usize = 0;
    assert(v@.take(0) =~= Seq::<char>::empty());
    while i < v.len()
        invariant
            i <= v@.len(),
            v@ == text@,
            cur@.len() == 0 ==> lines@.map_values(|l: String| l@) == lines_of(v@.take(i as int)),
            cur@.len() == 0 ==> (lines@.len() == 0 || lines@.last()@.last() == '\n'),
            cur@.len() > 0 ==> lines@.map_values(|l: String| l@).push(cur@) == lines_of(v@.take(i as int)),
            cur@.len() > 0 ==> cur@.last() != '\n',
            forall|q: int| 0 <= q < lines@.len() ==> (#[trigger] lines@[q])@.len() > 0,
        decreases v@.len() - i,
    {
        let ghost t = v@.take(i + 1);
        assert(t.drop_last() =~= v@.take(i as int));
        assert(t.last() == v@[i as int]);
        let ghost lv = lines@.map_values(|l: String| l@);
        let ghost cv = cur@;
        push_char(&mut cur, v[i]);
        assert(cur@ == cv.push(v@[i as int]));
        if v[i] == '\n' {
            assert(cv.len() == 0 ==> cur@ =~= seq!['\n']);
            lines.push(cur);
            cur = String::new();
            proof {
                if cv.len() == 0 {
                    assert(lines@.map_values(|l: String| l@) =~= lv.push(seq!['\n']));
                } else {
                    assert(lines@.map_values(|l: String| l@) =~= lv.push(cv.push('\n')));
                    assert(lv.push(cv).update(lv.len() as int, cv.push('\n')) =~= lv.push(cv.push('\n')));
                }
            }
        } else {
            proof {
                if cv.len() > 0 {
                    assert(lv.push(cv).update(lv.len() as int, cv.push(v@[i as int])) =~= lv.push(cv.push(v@[i as int])));
                } else {
                    assert(cv.push(v@[i as int]) =~= seq![v@[i as int]]);
                }
            }
        }
        i = i + 1;
    }
    assert(v@.take(v@.len() as int) =~= v@);
    if cur.as_str().unicode_len() > 0 {
        lines.push(cur);
    }
    lines
}

/// The changed token ranges imara-diff's histogram line diff finds after
/// its line post-processing, as `(before.start, before.end, after.start,
/// after.end)`.
pub uninterp spec fn line_diff_hunks(left: Seq<char>, right: Seq<char>) -> Seq<(u32, u32, u32, u32)>;

/// Whether hunk ranges lie within `nl` left and `nr` right lines and come
/// in strictly increasing order on both sides.
pub open spec fn hunks_ordered(h: Seq<(u32, u32, u32, u32)>, nl: nat, nr: nat) -> bool {
    &&& forall|k: int| 0 <= k < h.len() ==> {
        &&& (#[trigger] h[k]).0 <= h[k].1 <= nl
        &&& h[k].2 <= h[k].3 <= nr
    }
    &&& forall|k: int| 0 <= k < h.len() - 1 ==> {
        &&& (#[trigger] h[k]).1 < h[k + 1].0
        &&& h[k].3 < h[k + 1].2
    }
}

/// Runs `imara_diff::Diff::compute` with the histogram algorithm on the
/// interned lines of both texts, then `postprocess_lines`, and collects
/// `hunks()`. The ranges are named by `line_diff_hunks`; that they lie within
/// the line counts and increase strictly is what imara-diff's `HunkIter`
/// documents, and that the lines outside them pair up one to one and are
/// equal is what `Diff::compute` documents (an edit script that turns the
/// left lines into the right ones, each hunk replacing one range by
/// another; equal tokens are equal lines). Two equal texts give no hunk:
/// `Diff::compute_with` strips their common prefix, which is all of them,
/// before the algorithm runs. Which lines the hunks pick otherwise is not
/// stated.
#[verifier::external_body]
fn diff_line_hunks(left: &str, right: &str) -> (r: Vec<(u32, u32, u32, u32)>)
    requires
        lines_of(left@).len() < 0x7fff_ffff,
        lines_of(right@).len() < 0x7fff_ffff,
    ensures
        r@ == line_diff_hunks(left@, right@),
        hunks_ordered(r@, lines_of(left@).len(), lines_of(right@).len()),
        hunks_align(r@, lines_of(left@), lines_of(right@)),
        left@ == right@ ==> r@.len() == 0,
{
    let input = imara_diff::InternedInput::new(left, right);
    let mut diff = imara_diff::Diff::compute(imara_diff::Algorithm::Histogram, &input);
    diff.postprocess_lines(&input);
    diff.hunks().map(|h| (h.before.start, h.before.end, h.after.start, h.after.end)).collect()
}

/// The display state after some hunks: rows, hunk row ranges, and the next
/// left and right line.
pub type DiffState = (Seq<RowText>, Seq<(int, int)>, int, int);

/// The smaller of two numbers, and 0 below 0.
pub open spec fn clamp_min(a: int, b: int) -> int {
    let m = if a < b { a } else { b };
    if m < 0 { 0 } else { m }
}

/// `Same` rows for the left lines from `li`, `m` of them.
pub open spec fn same_rows(l: Seq<Seq<char>>, li: int, m: int) -> Seq<RowText> {
    Seq::new(m as nat, |t: int| RowText::Same(l[li + t]))
}

/// One hunk's rows: removals and additions paired into `Changed` rows,
/// then the unpaired removals, then the unpaired additions.
pub open spec fn hunk_rows(l: Seq<Seq<char>>, r: Seq<Seq<char>>, h: (u32, u32, u32, u32)) -> Seq<RowText> {
    let nb = h.1 - h.0;
    let na = h.3 - h.2;
    let p = clamp_min(nb, na);
    Seq::new(p as nat, |t: int| RowText::Changed(l[h.0 + t], r[h.2 + t]))
        + Seq::new((nb - p) as nat, |t: int| RowText::Removed(l[h.0 + p + t]))
        + Seq::new((na - p) as nat, |t: int| RowText::Added(r[h.2 + p + t]))
}

/// The state after one more hunk: the matching lines before it, then its
/// rows, recorded as a hunk when there are any.
pub open spec fn diff_step(l: Seq<Seq<char>>, r: Seq<Seq<char>>, st: DiffState, h: (u32, u32, u32, u32)) -> DiffState {
    let rows = st.0 + same_rows(l, st.2, clamp_min(h.0 - st.2, h.2 - st.3));
    let start = rows.len() as int;
    let rows2 = rows + hunk_rows(l, r, h);
    let hs = if rows2.len() > start { st.1.push((start, rows2.len() as int)) } else { st.1 };
    (rows2, hs, h.1 as int, h.3 as int)
}

/// The state after the first `k` hunks.
pub open spec fn diff_state(l: Seq<Seq<char>>, r: Seq<Seq<char>>, h: Seq<(u32, u32, u32, u32)>, k: nat) -> DiffState
    decreases k,
{
    if k == 0 {
        (Seq::empty(), Seq::empty(), 0, 0)
    } else {
        diff_step(l, r, diff_state(l, r, h, (k - 1) as nat), h[k - 1])
    }
}

/// The rows and hunks for the given lines and hunk ranges: every hunk in
/// turn, then the trailing matching lines.
pub open spec fn diff_model_spec(l: Seq<Seq<char>>, r: Seq<Seq<char>>, h: Seq<(u32, u32, u32, u32)>) -> (Seq<RowText>, Seq<(int, int)>) {
    let st = diff_state(l, r, h, h.len());
    (st.0 + same_rows(l, st.2, clamp_min(l.len() - st.2, r.len() - st.3)), st.1)
}

impl View for DiffModel {
    type V = (Seq<RowText>, Seq<(int, int)>);

    open spec fn view(&self) -> (Seq<RowText>, Seq<(int, int)>) {
        (self.rows@.map_values(|x: Row| x@), self.hunks@.map_values(|h: Hunk| (h.start as int, h.end as int)))
    }
}

fn push_same(rows: &mut Vec<Row>, l: &Vec<String>, li: usize, m: usize)
    requires
        li + m <= l@.len(),
    ensures
        final(rows)@.map_values(|x: Row| x@) == old(rows)@.map_values(|x: Row| x@) + same_rows(l@.map_values(|s: String| s@), li as int, m as int),
{
    let ghost lv = l@.map_values(|s: String| s@);
    let ghost before = rows@.map_values(|x: Row| x@);
    let n = l.len();
    let mut t: usize = 0;
    while t < m
        invariant
            t <= m,
            n == l@.len(),
            li + m <= l@.len(),
            lv == l@.map_values(|s: String| s@),
            rows@.map_values(|x: Row| x@) == before + same_rows(lv, li as int, t as int),
        decreases m - t,
    {
        let ghost prev = rows@.map_values(|x: Row| x@);
        let line = l[li + t].clone();
        assert(lv[li + t] == line@);
        rows.push(Row::Same(line));
        assert(rows@.map_values(|x: Row| x@) =~= prev.push(RowText::Same(lv[li + t])));
        t = t + 1;
        assert(rows@.map_values(|x: Row| x@) =~= before + same_rows(lv, li as int, t as int));
    }
}

fn push_hunk(rows: &mut Vec<Row>, l: &Vec<String>, r: &Vec<String>, bs: usize, be: usize, as_: usize, ae: usize)
    requires
        bs <= be <= l@.len(),
        as_ <= ae <= r@.len(),
        l@.len() < 0x7fff_ffff,
        r@.len() < 0x7fff_ffff,
    ensures
        final(rows)@.map_values(|x: Row| x@) == old(rows)@.map_values(|x: Row| x@) + hunk_rows(
            l@.map_values(|s: String| s@),
            r@.map_values(|s: String| s@),
            (bs as u32, be as u32, as_ as u32, ae as u32),
        ),
{
    let ghost lv = l@.map_values(|s: String| s@);
    let ghost rv = r@.map_values(|s: String| s@);
    let ghost base = rows@.map_values(|x: Row| x@);
    let ln = l.len();
    let rn = r.len();
    let nb = be - bs;
    let na = ae - as_;
    let p = if nb < na { nb } else { na };
    let mut t: usize = 0;
    while t < p
        invariant
            t <= p,
            p <= nb && p <= na,
            ln == l@.len(),
            rn == r@.len(),
            bs + nb <= l@.len(),
            as_ + na <= r@.len(),
            lv == l@.map_values(|s: String| s@),
            rv == r@.map_values(|s: String| s@),
            rows@.map_values(|x: Row| x@) == base + Seq::new(t as nat, |q: int| RowText::Changed(lv[bs + q], rv[as_ + q])),
        decreases p - t,
    {
        let ghost prev = rows@.map_values(|x: Row| x@);
        let a = l[bs + t].clone();
        let b = r[as_ + t].clone();
        assert(lv[bs + t] == a@ && rv[as_ + t] == b@);
        rows.push(Row::Changed(a, b));
        assert(rows@.map_values(|x: Row| x@) =~= prev.push(RowText::Changed(lv[bs + t], rv[as_ + t])));
        t = t + 1;
        assert(rows@.map_values(|x: Row| x@) =~= base + Seq::new(t as nat, |q: int| RowText::Changed(lv[bs + q], rv[as_ + q])));
    }
    let ghost base2 = rows@.map_values(|x: Row| x@);
    let mut t: usize = 0;
    while t < nb - p
        invariant
            t <= nb - p,
            p <= nb,
            ln == l@.len(),
            bs + nb <= l@.len(),
            lv == l@.map_values(|s: String| s@),
            rows@.map_values(|x: Row| x@) == base2 + Seq::new(t as nat, |q: int| RowText::Removed(lv[bs + p + q])),
        decreases nb - p - t,
    {
        let ghost prev = rows@.map_values(|x: Row| x@);
        let a = l[bs + p + t].clone();
        assert(lv[bs + p + t] == a@);
        rows.push(Row::Removed(a));
        assert(rows@.map_values(|x: Row| x@) =~= prev.push(RowText::Removed(lv[bs + p + t])));
        t = t + 1;
        assert(rows@.map_values(|x: Row| x@) =~= base2 + Seq::new(t as nat, |q: int| RowText::Removed(lv[bs + p + q])));
    }
    let ghost base3 = rows@.map_values(|x: Row| x@);
    let mut t: usize = 0;
    while t < na - p
        invariant
            t <= na - p,
            p <= na,
            rn == r@.len(),
            as_ + na <= r@.len(),
            rv == r@.map_values(|s: String| s@),
            rows@.map_values(|x: Row| x@) == base3 + Seq::new(t as nat, |q: int| RowText::Added(rv[as_ + p + q])),
        decreases na - p - t,
    {
        let ghost prev = rows@.map_values(|x: Row| x@);
        let a = r[as_ + p + t].clone();
        assert(rv[as_ + p + t] == a@);
        rows.push(Row::Added(a));
        assert(rows@.map_values(|x: Row| x@) =~= prev.push(RowText::Added(rv[as_ + p + t])));
        t = t + 1;
        assert(rows@.map_values(|x: Row| x@) =~= base3 + Seq::new(t as nat, |q: int| RowText::Added(rv[as_ + p + q])));
    }
    assert(base + Seq::new(p as nat, |q: int| RowText::Changed(lv[bs + q], rv[as_ + q]))
        + Seq::new((nb - p) as nat, |q: int| RowText::Removed(lv[bs + p + q]))
        + Seq::new((na - p) as nat, |q: int| RowText::Added(rv[as_ + p + q]))
        =~= base + hunk_rows(lv, rv, (bs as u32, be as u32, as_ as u32, ae as u32)));
}

impl DiffModel {
    /// Lays out rows and hunks from the lines of both texts and the changed
    /// ranges between them.
    pub fn from_hunks(l: &Vec<String>, r: &Vec<String>, h: &Vec<(u32, u32, u32, u32)>) -> (m: Self)
        requires
            hunks_ordered(h@, l@.len(), r@.len()),
            l@.len() < 0x7fff_ffff,
            r@.len() < 0x7fff_ffff,
        ensures
            m@ == diff_model_spec(l@.map_values(|s: String| s@), r@.map_values(|s: String| s@), h@),
    {
        let ghost lv = l@.map_values(|s: String| s@);
        let ghost rv = r@.map_values(|s: String| s@);
        let mut rows: Vec<Row> = Vec::new();
        let mut hunks: Vec<Hunk> = Vec::new();
        let mut li: usize = 0;
        let mut ri: usize = 0;
        let mut k: usize = 0;
        while k < h.len()
            invariant
                k <= h@.len(),
                hunks_ordered(h@, l@.len(), r@.len()),
                lv == l@.map_values(|s: String| s@),
                rv == r@.map_values(|s: String| s@),
                l@.len() < 0x7fff_ffff,
                r@.len() < 0x7fff_ffff,
                li <= l@.len(),
                ri <= r@.len(),
                k > 0 ==> li == h@[k - 1].1 && ri == h@[k - 1].3,
                k == 0 ==> li == 0 && ri == 0,
                (rows@.map_values(|x: Row| x@), hunks@.map_values(|x: Hunk| (x.start as int, x.end as int)), li as int, ri as int)
                    == diff_state(lv, rv, h@, k as nat),
            decreases h@.len() - k,
        {
            let (bs, be, as_, ae) = h[k];
            assert(k > 0 ==> h@[k - 1].1 < h@[k as int].0 && h@[k - 1].3 < h@[k as int].2);
            let bs = bs as usize;
            let be = be as usize;
            let as_ = as_ as usize;
            let ae = ae as usize;
            let m = if bs >= li && as_ >= ri {
                if bs - li < as_ - ri { bs - li } else { as_ - ri }
            } else {
                0
            };
            push_same(&mut rows, l, li, m);
            let start = rows.len();
            let ghost base = rows@.map_values(|x: Row| x@);
            push_hunk(&mut rows, l, r, bs, be, as_, ae);
            assert(rows@.map_values(|x: Row| x@) == base + hunk_rows(lv, rv, h@[k as int]));
            let end = rows.len();
            let ghost hv = hunks@.map_values(|x: Hunk| (x.start as int, x.end as int));
            if end > start {
                hunks.push(Hunk { start, end });
                assert(hunks@.map_values(|x: Hunk| (x.start as int, x.end as int)) =~= hv.push((start as int, end as int)));
            }
            li = be;
            ri = ae;
            k = k + 1;
        }
        let m = if l.len() >= li && r.len() >= ri {
            if l.len() - li < r.len() - ri { l.len() - li } else { r.len() - ri }
        } else {
            0
        };
        push_same(&mut rows, l, li, m);
        DiffModel { rows, hunks }
    }

    /// Line diff of two texts, laid out as rows and hunks.
    pub fn build(left: &str, right: &str) -> (m: Self)
        requires
            lines_of(left@).len() < 0x7fff_ffff,
            lines_of(right@).len() < 0x7fff_ffff,
        ensures
            m@ == diff_model_spec(lines_of(left@), lines_of(right@), line_diff_hunks(left@, right@)),
            side_lines(m@.0, true) == lines_of(left@),
            side_lines(m@.0, false) == lines_of(right@),
            m@.1.len() == 0 ==> lines_of(left@) == lines_of(right@),
            m@.1.len() == 0 <==> left@ == right@,
            hunks_within(m@.1, m@.0.len() as int),
            rows_marked(m@.0, m@.1),
    {
        let l = split_lines(left);
        let r = split_lines(right);
        let h = diff_line_hunks(left, right);
        proof {
            lemma_model_sides(lines_of(left@), lines_of(right@), h@);
            lemma_diff_hunks_ordered(lines_of(left@), lines_of(right@), h@);
            lemma_diff_rows_marked(lines_of(left@), lines_of(right@), h@);
            lemma_lines_rejoin(left@);
            lemma_lines_rejoin(right@);
        }
        Self::from_hunks(&l, &r, &h)
    }

    /// Whether the two inputs are identical.
    pub fn is_equal(&self) -> (r: bool)
        ensures
            r == (self.hunks@.len() == 0),
    {
        self.hunks.len() == 0
    }

    /// The start of the first hunk that starts after `row`, wrapping to the
    /// first hunk; `None` without hunks.
    pub fn next_hunk(&self, row: usize) -> (r: Option<usize>)
        ensures
            self.hunks@.len() == 0 <==> r is None,
            r matches Some(s) ==> (exists|k: int|
                0 <= k < self.hunks@.len() && s == self.hunks@[k].start && ((self.hunks@[k].start > row && forall|q: int|
                    0 <= q < k ==> self.hunks@[q].start <= row) || (k == 0 && forall|q: int|
                    0 <= q < self.hunks@.len() ==> self.hunks@[q].start <= row))),
    {
        let mut k: usize = 0;
        while k < self.hunks.len()
            invariant
                k <= self.hunks@.len(),
                forall|q: int| 0 <= q < k ==> self.hunks@[q].start <= row,
            decreases self.hunks@.len() - k,
        {
            if self.hunks[k].start > row {
                return Some(self.hunks[k].start);
            }
            k = k + 1;
        }
        if self.hunks.len() > 0 {
            Some(self.hunks[0].start)
        } else {
            None
        }
    }

    /// The start of the last hunk that ends at or before `row`, wrapping to
    /// the last hunk; `None` without hunks.
    pub fn prev_hunk(&self, row: usize) -> (r: Option<usize>)
        ensures
            self.hunks@.len() == 0 <==> r is None,
            r matches Some(s) ==> (exists|k: int|
                0 <= k < self.hunks@.len() && s == self.hunks@[k].start && ((self.hunks@[k].end <= row && forall|q: int|
                    k < q < self.hunks@.len() ==> self.hunks@[q].end > row) || (k == self.hunks@.len() - 1 && forall|q: int|
                    0 <= q < self.hunks@.len() ==> self.hunks@[q].end > row))),
    {
        let mut k: usize = self.hunks.len();
        while k > 0
            invariant
                k <= self.hunks@.len(),
                forall|q: int| k <= q < self.hunks@.len() ==> self.hunks@[q].end > row,
            decreases k,
        {
            if self.hunks[k - 1].end <= row {
                return Some(self.hunks[k - 1].start);
            }
            k = k - 1;
        }
        if self.hunks.len() > 0 {
            Some(self.hunks[self.hunks.len() - 1].start)
        } else {
            None
        }
    }
}

} // verus!

verus! {

/// Whether hunk row ranges are non-empty, lie within `n` rows, and come in
/// order without overlapping.
pub open spec fn hunks_within(hs: Seq<(int, int)>, n: int) -> bool {
    &&& forall|i: int| 0 <= i < hs.len() ==> 0 <= (#[trigger] hs[i]).0 < hs[i].1 <= n
    &&& forall|i: int| 0 <= i < hs.len() - 1 ==> (#[trigger] hs[i]).1 <= hs[i + 1].0
}

proof fn lemma_diff_state_hunks(l: Seq<Seq<char>>, r: Seq<Seq<char>>, h: Seq<(u32, u32, u32, u32)>, k: nat)
    ensures
        hunks_within(diff_state(l, r, h, k).1, diff_state(l, r, h, k).0.len() as int),
    decreases k,
{
    if k > 0 {
        lemma_diff_state_hunks(l, r, h, (k - 1) as nat);
        let st = diff_state(l, r, h, (k - 1) as nat);
        let nx = diff_state(l, r, h, k);
        assert(nx == diff_step(l, r, st, h[k - 1]));
        let rows = st.0 + same_rows(l, st.2, clamp_min(h[k - 1].0 - st.2, h[k - 1].2 - st.3));
        assert(rows.len() >= st.0.len());
        assert(nx.0.len() >= rows.len());
        if nx.1.len() > st.1.len() {
            assert(nx.1 == st.1.push((rows.len() as int, nx.0.len() as int)));
            assert forall|i: int| 0 <= i < nx.1.len() - 1 implies (#[trigger] nx.1[i]).1 <= nx.1[i + 1].0 by {
                if i < st.1.len() - 1 {
                    assert(nx.1[i] == st.1[i] && nx.1[i + 1] == st.1[i + 1]);
                } else {
                    assert(nx.1[i] == st.1[i]);
                }
            }
            assert forall|i: int| 0 <= i < nx.1.len() implies 0 <= (#[trigger] nx.1[i]).0 < nx.1[i].1 <= nx.0.len() by {
                if i < st.1.len() {
                    assert(nx.1[i] == st.1[i]);
                }
            }
        }
    }
}

/// Whether row `i` lies in one of the row ranges `hs`.
pub open spec fn in_hunk(hs: Seq<(int, int)>, i: int) -> bool {
    exists|k: int| 0 <= k < hs.len() && (#[trigger] hs[k]).0 <= i < hs[k].1
}

/// Each row is `Same` exactly when it lies in no hunk.
pub open spec fn rows_marked(rows: Seq<RowText>, hs: Seq<(int, int)>) -> bool {
    forall|i: int| 0 <= i < rows.len() ==> ((#[trigger] rows[i] is Same) <==> !in_hunk(hs, i))
}

proof fn lemma_hunk_rows_changed(l: Seq<Seq<char>>, r: Seq<Seq<char>>, h: (u32, u32, u32, u32))
    ensures
        forall|t: int| 0 <= t < hunk_rows(l, r, h).len() ==> !(#[trigger] hunk_rows(l, r, h)[t] is Same),
{
    let nb = h.1 - h.0;
    let na = h.3 - h.2;
    let p = clamp_min(nb, na);
    let a = Seq::new(p as nat, |t: int| RowText::Changed(l[h.0 + t], r[h.2 + t]));
    let b = Seq::new((nb - p) as nat, |t: int| RowText::Removed(l[h.0 + p + t]));
    let c = Seq::new((na - p) as nat, |t: int| RowText::Added(r[h.2 + p + t]));
    assert(hunk_rows(l, r, h) == a + b + c);
    assert forall|t: int| 0 <= t < hunk_rows(l, r, h).len() implies !(#[trigger] hunk_rows(l, r, h)[t] is Same) by {
        if t < a.len() {
            assert((a + b + c)[t] == a[t]);
        } else if t < a.len() + b.len() {
            assert((a + b + c)[t] == b[t - a.len()]);
        } else {
            assert((a + b + c)[t] == c[t - a.len() - b.len()]);
        }
    }
}

proof fn lemma_diff_state_marked(l: Seq<Seq<char>>, r: Seq<Seq<char>>, h: Seq<(u32, u32, u32, u32)>, k: nat)
    ensures
        rows_marked(diff_state(l, r, h, k).0, diff_state(l, r, h, k).1),
    decreases k,
{
    if k > 0 {
        lemma_diff_state_marked(l, r, h, (k - 1) as nat);
        lemma_diff_state_hunks(l, r, h, (k - 1) as nat);
        lemma_hunk_rows_changed(l, r, h[k - 1]);
        let st = diff_state(l, r, h, (k - 1) as nat);
        let nx = diff_state(l, r, h, k);
        let g = h[k - 1];
        let sr = same_rows(l, st.2, clamp_min(g.0 - st.2, g.2 - st.3));
        let rows = st.0 + sr;
        let hr = hunk_rows(l, r, g);
        assert(nx.0 == rows + hr);
        let ns = rows.len() as int;
        assert forall|i: int| 0 <= i < nx.0.len() implies ((#[trigger] nx.0[i] is Same) <==> !in_hunk(nx.1, i)) by {
            if i < st.0.len() {
                assert(nx.0[i] == st.0[i]);
                if in_hunk(nx.1, i) {
                    let q = choose|q: int| 0 <= q < nx.1.len() && (#[trigger] nx.1[q]).0 <= i < nx.1[q].1;
                    if q < st.1.len() {
                        assert(nx.1[q] == st.1[q]);
                    } else {
                        assert(nx.1[q].0 == ns);
                    }
                    assert(in_hunk(st.1, i));
                }
                if in_hunk(st.1, i) {
                    let q = choose|q: int| 0 <= q < st.1.len() && (#[trigger] st.1[q]).0 <= i < st.1[q].1;
                    assert(nx.1[q] == st.1[q]);
                    assert(in_hunk(nx.1, i));
                }
            } else if i < ns {
                assert(nx.0[i] == sr[i - st.0.len()]);
                if in_hunk(nx.1, i) {
                    let q = choose|q: int| 0 <= q < nx.1.len() && (#[trigger] nx.1[q]).0 <= i < nx.1[q].1;
                    if q < st.1.len() {
                        assert(nx.1[q] == st.1[q]);
                        assert(st.1[q].1 <= st.0.len());
                    } else {
                        assert(nx.1[q].0 == ns);
                    }
                }
            } else {
                assert(nx.0[i] == hr[i - ns]);
                assert(nx.1.len() > st.1.len());
                assert(nx.1[nx.1.len() - 1] == (ns, nx.0.len() as int));
                assert(in_hunk(nx.1, i));
            }
        }
    }
}

/// Each row of a laid-out diff is `Same` exactly when it lies in no hunk.
pub proof fn lemma_diff_rows_marked(l: Seq<Seq<char>>, r: Seq<Seq<char>>, h: Seq<(u32, u32, u32, u32)>)
    ensures
        rows_marked(diff_model_spec(l, r, h).0, diff_model_spec(l, r, h).1),
{
    lemma_diff_state_marked(l, r, h, h.len());
    lemma_diff_state_hunks(l, r, h, h.len());
    let st = diff_state(l, r, h, h.len());
    let tail = same_rows(l, st.2, clamp_min(l.len() - st.2, r.len() - st.3));
    let m = diff_model_spec(l, r, h);
    assert(m.0 == st.0 + tail);
    assert forall|i: int| 0 <= i < m.0.len() implies ((#[trigger] m.0[i] is Same) <==> !in_hunk(m.1, i)) by {
        if i < st.0.len() {
            assert(m.0[i] == st.0[i]);
        } else {
            assert(m.0[i] == tail[i - st.0.len()]);
            if in_hunk(m.1, i) {
                let q = choose|q: int| 0 <= q < m.1.len() && (#[trigger] m.1[q]).0 <= i < m.1[q].1;
                assert(st.1[q].1 <= st.0.len());
            }
        }
    }
}

/// The hunks of a laid-out diff are non-empty row ranges within the rows,
/// in order and without overlap, whatever the changed ranges were.
pub proof fn lemma_diff_hunks_ordered(l: Seq<Seq<char>>, r: Seq<Seq<char>>, h: Seq<(u32, u32, u32, u32)>)
    ensures
        hunks_within(diff_model_spec(l, r, h).1, diff_model_spec(l, r, h).0.len() as int),
{
    lemma_diff_state_hunks(l, r, h, h.len());
}

} // verus!

verus! {

/// The left (`left`) or right line a row shows, if any: `Same` shows its
/// line on both sides, `Removed` only on the left, `Added` only on the
/// right, `Changed` its two lines.
pub open spec fn side_of(x: RowText, left: bool) -> Option<Seq<char>> {
    match x {
        RowText::Same(s) => Some(s),
        RowText::Removed(s) => if left { Some(s) } else { None },
        RowText::Added(s) => if left { None } else { Some(s) },
        RowText::Changed(a, b) => if left { Some(a) } else { Some(b) },
    }
}

/// The lines one side of the rows shows, in order.
pub open spec fn side_lines(rows: Seq<RowText>, left: bool) -> Seq<Seq<char>>
    decreases rows.len(),
{
    if rows.len() == 0 {
        Seq::empty()
    } else {
        let p = side_lines(rows.drop_last(), left);
        match side_of(rows.last(), left) {
            Some(s) => p.push(s),
            None => p,
        }
    }
}

/// Where the `k`-th stretch of unchanged lines starts on each side: at the
/// start, or where hunk `k - 1` ends.
pub open spec fn gap_start(h: Seq<(u32, u32, u32, u32)>, k: int) -> (int, int) {
    if k <= 0 { (0, 0) } else { (h[k - 1].1 as int, h[k - 1].3 as int) }
}

/// Where the `k`-th stretch of unchanged lines ends on each side: where
/// hunk `k` starts, or at the ends of the texts.
pub open spec fn gap_end(h: Seq<(u32, u32, u32, u32)>, k: int, nl: int, nr: int) -> (int, int) {
    if k < h.len() { (h[k].0 as int, h[k].2 as int) } else { (nl, nr) }
}

/// The `k`-th stretch between hunks has as many lines on both sides, and
/// they are equal.
pub open spec fn gap_matches(h: Seq<(u32, u32, u32, u32)>, l: Seq<Seq<char>>, r: Seq<Seq<char>>, k: int) -> bool {
    let s = gap_start(h, k);
    let e = gap_end(h, k, l.len() as int, r.len() as int);
    &&& e.0 - s.0 == e.1 - s.1
    &&& l.subrange(s.0, e.0) == r.subrange(s.1, e.1)
}

/// The hunks form an edit script from `l` to `r`: outside the hunks the
/// lines on both sides pair up one to one and are equal.
pub open spec fn hunks_align(h: Seq<(u32, u32, u32, u32)>, l: Seq<Seq<char>>, r: Seq<Seq<char>>) -> bool {
    forall|k: int| 0 <= k <= h.len() ==> #[trigger] gap_matches(h, l, r, k)
}

proof fn lemma_side_add(a: Seq<RowText>, b: Seq<RowText>, left: bool)
    ensures
        side_lines(a + b, left) == side_lines(a, left) + side_lines(b, left),
    decreases b.len(),
{
    if b.len() == 0 {
        assert(a + b =~= a);
        assert(side_lines(a, left) + side_lines(b, left) =~= side_lines(a, left));
    } else {
        lemma_side_add(a, b.drop_last(), left);
        assert((a + b).drop_last() =~= a + b.drop_last());
        assert((a + b).last() == b.last());
        match side_of(b.last(), left) {
            Some(s) => assert(side_lines(a, left) + side_lines(b, left) =~= (side_lines(a, left) + side_lines(b.drop_last(), left)).push(s)),
            None => {},
        }
    }
}

/// Rows that each show line `g[t]` on this side show exactly `g`.
proof fn lemma_side_all(s: Seq<RowText>, g: Seq<Seq<char>>, left: bool)
    requires
        s.len() == g.len(),
        forall|t: int| 0 <= t < s.len() ==> side_of(#[trigger] s[t], left) == Some(g[t]),
    ensures
        side_lines(s, left) == g,
    decreases s.len(),
{
    if s.len() > 0 {
        lemma_side_all(s.drop_last(), g.drop_last(), left);
        assert(side_of(s[s.len() - 1], left) == Some(g[g.len() - 1]));
        assert(g.drop_last().push(g.last()) =~= g);
    }
}

/// Rows that show nothing on this side show no lines.
proof fn lemma_side_none(s: Seq<RowText>, left: bool)
    requires
        forall|t: int| 0 <= t < s.len() ==> side_of(#[trigger] s[t], left) is None,
    ensures
        side_lines(s, left) == Seq::<Seq<char>>::empty(),
    decreases s.len(),
{
    if s.len() > 0 {
        lemma_side_none(s.drop_last(), left);
        assert(side_of(s[s.len() - 1], left) is None);
    }
}

/// A hunk's rows show its left lines on the left and its right lines on
/// the right.
proof fn lemma_hunk_sides(l: Seq<Seq<char>>, r: Seq<Seq<char>>, h: (u32, u32, u32, u32))
    requires
        h.0 <= h.1 <= l.len(),
        h.2 <= h.3 <= r.len(),
    ensures
        side_lines(hunk_rows(l, r, h), true) == l.subrange(h.0 as int, h.1 as int),
        side_lines(hunk_rows(l, r, h), false) == r.subrange(h.2 as int, h.3 as int),
{
    let nb = h.1 - h.0;
    let na = h.3 - h.2;
    let p = clamp_min(nb, na);
    let c = Seq::new(p as nat, |t: int| RowText::Changed(l[h.0 + t], r[h.2 + t]));
    let d = Seq::new((nb - p) as nat, |t: int| RowText::Removed(l[h.0 + p + t]));
    let a = Seq::new((na - p) as nat, |t: int| RowText::Added(r[h.2 + p + t]));
    assert(hunk_rows(l, r, h) == c + d + a);
    lemma_side_add(c + d, a, true);
    lemma_side_add(c, d, true);
    lemma_side_add(c + d, a, false);
    lemma_side_add(c, d, false);
    lemma_side_all(c, l.subrange(h.0 as int, h.0 + p), true);
    lemma_side_all(c, r.subrange(h.2 as int, h.2 + p), false);
    lemma_side_all(d, l.subrange(h.0 + p, h.1 as int), true);
    lemma_side_none(d, false);
    lemma_side_none(a, true);
    lemma_side_all(a, r.subrange(h.2 + p, h.3 as int), false);
    assert(l.subrange(h.0 as int, h.0 + p) + l.subrange(h.0 + p, h.1 as int) + Seq::<Seq<char>>::empty() =~= l.subrange(
        h.0 as int,
        h.1 as int,
    ));
    assert(r.subrange(h.2 as int, h.2 + p) + Seq::<Seq<char>>::empty() + r.subrange(h.2 + p, h.3 as int) =~= r.subrange(
        h.2 as int,
        h.3 as int,
    ));
}

/// `Same` rows of `l[a..a+m]` show those lines on both sides.
proof fn lemma_same_sides(l: Seq<Seq<char>>, a: int, m: int)
    requires
        0 <= a,
        0 <= m,
        a + m <= l.len(),
    ensures
        side_lines(same_rows(l, a, m), true) == l.subrange(a, a + m),
        side_lines(same_rows(l, a, m), false) == l.subrange(a, a + m),
{
    lemma_side_all(same_rows(l, a, m), l.subrange(a, a + m), true);
    lemma_side_all(same_rows(l, a, m), l.subrange(a, a + m), false);
}

/// After `k` hunks of an edit script, the rows show the lines before the
/// next stretch on each side, and every row so far is `Same` while no
/// hunk has been recorded.
proof fn lemma_state_sides(l: Seq<Seq<char>>, r: Seq<Seq<char>>, h: Seq<(u32, u32, u32, u32)>, k: nat)
    requires
        k <= h.len(),
        hunks_ordered(h, l.len(), r.len()),
        hunks_align(h, l, r),
    ensures
        diff_state(l, r, h, k).2 == gap_start(h, k as int).0,
        diff_state(l, r, h, k).3 == gap_start(h, k as int).1,
        side_lines(diff_state(l, r, h, k).0, true) == l.take(diff_state(l, r, h, k).2),
        side_lines(diff_state(l, r, h, k).0, false) == r.take(diff_state(l, r, h, k).3),
        diff_state(l, r, h, k).1.len() == 0 ==> side_lines(diff_state(l, r, h, k).0, true) == side_lines(
            diff_state(l, r, h, k).0,
            false,
        ),
    decreases k,
{
    if k == 0 {
        assert(l.take(0) =~= Seq::<Seq<char>>::empty());
        assert(r.take(0) =~= Seq::<Seq<char>>::empty());
    } else {
        let j = (k - 1) as int;
        lemma_state_sides(l, r, h, (k - 1) as nat);
        let st = diff_state(l, r, h, (k - 1) as nat);
        let hk = h[j];
        assert(gap_matches(h, l, r, j));
        let s = gap_start(h, j);
        if j > 0 {
            assert(h[j - 1].1 < h[j].0);
        }
        let m = hk.0 - st.2;
        assert(clamp_min(hk.0 - st.2, hk.2 - st.3) == m);
        let same = same_rows(l, st.2, m);
        lemma_same_sides(l, st.2, m);
        assert(l.subrange(st.2, st.2 + m) == r.subrange(st.3, st.3 + m));
        lemma_hunk_sides(l, r, hk);
        let rows = st.0 + same;
        let rows2 = rows + hunk_rows(l, r, hk);
        lemma_side_add(st.0, same, true);
        lemma_side_add(st.0, same, false);
        lemma_side_add(rows, hunk_rows(l, r, hk), true);
        lemma_side_add(rows, hunk_rows(l, r, hk), false);
        assert(l.take(st.2) + l.subrange(st.2, st.2 + m) + l.subrange(hk.0 as int, hk.1 as int) =~= l.take(hk.1 as int));
        assert(r.take(st.3) + r.subrange(st.3, st.3 + m) + r.subrange(hk.2 as int, hk.3 as int) =~= r.take(hk.3 as int));
        if diff_state(l, r, h, k).1.len() == 0 {
            assert(st.1.len() == 0);
            assert(hunk_rows(l, r, hk).len() == 0);
            assert(hunk_rows(l, r, hk) =~= Seq::<RowText>::empty());
            lemma_side_none(hunk_rows(l, r, hk), true);
            lemma_side_none(hunk_rows(l, r, hk), false);
        }
    }
}

/// The rows of an edit script show the left lines on the left and the
/// right lines on the right; with no hunk recorded the two sides are the
/// same lines.
pub proof fn lemma_model_sides(l: Seq<Seq<char>>, r: Seq<Seq<char>>, h: Seq<(u32, u32, u32, u32)>)
    requires
        hunks_ordered(h, l.len(), r.len()),
        hunks_align(h, l, r),
    ensures
        side_lines(diff_model_spec(l, r, h).0, true) == l,
        side_lines(diff_model_spec(l, r, h).0, false) == r,
        diff_model_spec(l, r, h).1.len() == 0 ==> l == r,
{
    let k = h.len();
    lemma_state_sides(l, r, h, k);
    let st = diff_state(l, r, h, k);
    assert(gap_matches(h, l, r, k as int));
    if k > 0 {
        assert(h[k - 1].1 <= l.len() && h[k - 1].3 <= r.len());
    }
    let m = l.len() - st.2;
    assert(clamp_min(l.len() - st.2, r.len() - st.3) == m);
    lemma_same_sides(l, st.2, m);
    lemma_side_add(st.0, same_rows(l, st.2, m), true);
    lemma_side_add(st.0, same_rows(l, st.2, m), false);
    assert(l.take(st.2) + l.subrange(st.2, st.2 + m) =~= l);
    assert(r.take(st.3) + r.subrange(st.3, st.3 + m) =~= r);
}

/// A text is its lines put back together.
pub proof fn lemma_lines_rejoin(s: Seq<char>)
    ensures
        lines_of(s).flatten() == s,
    decreases s.len(),
{
    lines_of(s).lemma_flatten_and_flatten_alt_are_equivalent();
    if s.len() > 0 {
        lemma_lines_rejoin(s.drop_last());
        let p = lines_of(s.drop_last());
        p.lemma_flatten_and_flatten_alt_are_equivalent();
        let c = s.last();
        if p.len() == 0 || p.last().last() == '\n' {
            assert(lines_of(s).drop_last() =~= p);
            assert(s =~= s.drop_last() + seq![c]);
        } else {
            let q = lines_of(s);
            assert(q.drop_last() =~= p.drop_last());
            assert(p.drop_last().flatten_alt() + p.last() == p.flatten_alt());
            assert(q.last() == p.last().push(c));
            assert(q.flatten_alt() =~= p.flatten_alt().push(c));
            assert(s =~= s.drop_last().push(c));
        }
    }
}

} // verus!
