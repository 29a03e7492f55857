//! Layered virtual paths.
//!
//! Each layer is `scheme:sub` or `scheme://location sub`; layers are joined
//! by `!` to express archive nesting, e.g.
//! `local:/tmp/a.tar.gz!targz:/dir/file.txt` or
//! `sftp://me@host:22/srv/a.tar!tar:/dir/x`.

use vstd::prelude::*;

use crate::error::Error;
use crate::text::{
    append_chars, append_str, chars_of, debug_quote, debug_text, find_char, find_first, has_prefix,
    lemma_split_seg_extend, lemma_split_seg_nonempty, split_chars, split_seg, starts_with_chars,
    string_of, sub_chars,
};

verus! {

/// One layer of a virtual path.
#[derive(Debug, Clone, PartialEq, Eq, Hash)]
pub struct Layer {
    pub scheme: String,
    /// The host part for network schemes, empty otherwise.
    pub location: String,
    pub sub: String,
}

/// A layer as text: scheme, location, sub-path.
pub type LayerText = (Seq<char>, Seq<char>, Seq<char>);

impl View for Layer {
    type V = (Seq<char>, Seq<char>, Seq<char>);

    open spec fn view(&self) -> (Seq<char>, Seq<char>, Seq<char>) {
        (self.scheme@, self.location@, self.sub@)
    }
}

impl Layer {
    /// A copy of the layer.
    pub fn clone_layer(&self) -> (r: Self)
        ensures
            r@ == self@,
    {
        Layer { scheme: self.scheme.clone(), location: self.location.clone(), sub: self.sub.clone() }
    }

    /// A `local` layer for a sub-path.
    pub fn local(sub: &str) -> (r: Self)
        ensures
            r@ == ("local"@, Seq::<char>::empty(), sub@),
    {
        Layer { scheme: String::from_str("local"), location: String::new(), sub: String::from_str(sub) }
    }
}

/// The layers of a path, kept in a `smallvec::SmallVec` with room for two
/// layers inline. Its contents are known through `small_layers` and the
/// wrappers below.
#[verifier::external_body]
#[derive(Debug)]
pub struct LayerStack {
    inner: smallvec::SmallVec<[Layer; 2]>,
}

/// The layers a small vector holds, in order, as text.
pub uninterp spec fn small_layers(v: LayerStack) -> Seq<LayerText>;

/// `SmallVec::new`: no layers.
#[verifier::external_body]
fn small_new() -> (r: LayerStack)
    ensures
        small_layers(r) == Seq::<LayerText>::empty(),
{
    LayerStack { inner: smallvec::SmallVec::new() }
}

/// `SmallVec::push`: the layer is appended.
#[verifier::external_body]
fn small_push(v: &mut LayerStack, l: Layer)
    requires
        small_layers(*old(v)).len() < usize::MAX,
    ensures
        small_layers(*final(v)) == small_layers(*old(v)).push(l@),
{
    v.inner.push(l)
}

/// `SmallVec::pop`: the last layer is removed and returned, `None` when
/// there is none.
#[verifier::external_body]
fn small_pop(v: &mut LayerStack) -> (r: Option<Layer>)
    ensures
        match r {
            Some(l) => small_layers(*old(v)).len() > 0 && l@ == small_layers(*old(v)).last()
                && small_layers(*final(v)) == small_layers(*old(v)).drop_last(),
            None => small_layers(*old(v)).len() == 0 && small_layers(*final(v)) == small_layers(*old(v)),
        },
{
    v.inner.pop()
}

/// `SmallVec::as_slice`: the layers in order.
#[verifier::external_body]
fn small_slice(v: &LayerStack) -> (r: &[Layer])
    ensures
        r@.map_values(|l: Layer| l@) == small_layers(*v),
{
    v.inner.as_slice()
}

/// A layered virtual path.
#[derive(Debug)]
pub struct VPath {
    layers: LayerStack,
}

impl View for VPath {
    type V = Seq<LayerText>;

    closed spec fn view(&self) -> Seq<LayerText> {
        small_layers(self.layers)
    }
}

impl VPath {
    /// A path of the given layers, in order.
    pub fn new(layers: Vec<Layer>) -> (r: Self)
        requires
            layers@.len() < usize::MAX,
        ensures
            r@ == layers@.map_values(|l: Layer| l@),
    {
        let ghost lv = layers@.map_values(|l: Layer| l@);
        let mut v = small_new();
        let mut layers = layers;
        assert(small_layers(v) + layers@.map_values(|l: Layer| l@) =~= lv);
        while layers.len() > 0
            invariant
                small_layers(v) + layers@.map_values(|l: Layer| l@) == lv,
                lv.len() < usize::MAX,
            decreases layers@.len(),
        {
            let ghost before = layers@.map_values(|l: Layer| l@);
            let ghost sv = small_layers(v);
            let l = layers.remove(0);
            assert(l@ == before[0]);
            assert(layers@.map_values(|l: Layer| l@) =~= before.skip(1));
            small_push(&mut v, l);
            assert(sv.push(before[0]) + before.skip(1) =~= sv + before);
        }
        assert(small_layers(v) =~= lv);
        VPath { layers: v }
    }

    /// A copy of the path.
    pub fn clone_path(&self) -> (r: Self)
        ensures
            r@ == self@,
    {
        let s = small_slice(&self.layers);
        let ghost lv = s@.map_values(|l: Layer| l@);
        let mut v = small_new();
        let mut i: usize = 0;
        while i < s.len()
            invariant
                i <= s@.len(),
                lv == s@.map_values(|l: Layer| l@),
                small_layers(v) == lv.take(i as int),
            decreases s@.len() - i,
        {
            let l = s[i].clone_layer();
            assert(lv.take(i as int).len() == i);
            small_push(&mut v, l);
            assert(lv.take(i + 1) =~= lv.take(i as int).push(lv[i as int]));
            i = i + 1;
        }
        assert(lv.take(s@.len() as int) =~= lv);
        VPath { layers: v }
    }

    /// A one-layer `local` path.
    pub fn local(p: &str) -> (r: Self)
        ensures
            r@ == seq![("local"@, Seq::<char>::empty(), p@)],
    {
        let mut v = small_new();
        small_push(&mut v, Layer::local(p));
        VPath { layers: v }
    }

    /// The layers, outermost first.
    pub fn layers(&self) -> (r: &[Layer])
        ensures
            r@.map_values(|l: Layer| l@) == self@,
    {
        small_slice(&self.layers)
    }

    /// The innermost layer.
    pub fn last(&self) -> (r: Option<&Layer>)
        ensures
            match r {
                Some(l) => self@.len() > 0 && l@ == self@.last(),
                None => self@.len() == 0,
            },
    {
        let s = small_slice(&self.layers);
        if s.len() == 0 {
            None
        } else {
            assert(s@.map_values(|l: Layer| l@)[s@.len() - 1] == s@[s@.len() - 1]@);
            Some(&s[s.len() - 1])
        }
    }

    /// Adds an innermost layer.
    pub fn push_layer(&mut self, layer: Layer)
        requires
            old(self)@.len() < usize::MAX,
        ensures
            final(self)@ == old(self)@.push(layer@),
    {
        small_push(&mut self.layers, layer);
    }

    /// Removes and returns the innermost layer.
    pub fn pop_layer(&mut self) -> (r: Option<Layer>)
        ensures
            match r {
                Some(l) => old(self)@.len() > 0 && l@ == old(self)@.last() && final(self)@ == old(self)@.drop_last(),
                None => old(self)@.len() == 0 && final(self)@ == old(self)@,
            },
    {
        small_pop(&mut self.layers)
    }
}

/// How a layer is written: `scheme:sub` without a location,
/// `scheme://location sub` with one.
pub open spec fn layer_text(l: LayerText) -> Seq<char> {
    if l.1.len() == 0 {
        l.0 + ":"@ + l.2
    } else {
        l.0 + "://"@ + l.1 + l.2
    }
}

/// How a path is written: its layers joined by `!`.
pub open spec fn vpath_text(ls: Seq<LayerText>) -> Seq<char>
    decreases ls.len(),
{
    if ls.len() == 0 {
        Seq::empty()
    } else if ls.len() == 1 {
        layer_text(ls[0])
    } else {
        vpath_text(ls.drop_last()) + "!"@ + layer_text(ls.last())
    }
}

/// `missing scheme in <s quoted>`
pub open spec fn missing_scheme_msg(s: Seq<char>) -> Seq<char> {
    "missing scheme in "@ + debug_text(s)
}

/// `empty scheme in <s quoted>`
pub open spec fn empty_scheme_msg(s: Seq<char>) -> Seq<char> {
    "empty scheme in "@ + debug_text(s)
}

/// How one layer reads: the scheme ends at the first `:`; after `//` the
/// location runs to the next `/`, which starts the sub-path (`/` when there
/// is none); otherwise the rest is the sub-path.
pub open spec fn layer_spec(s: Seq<char>) -> Result<LayerText, Seq<char>> {
    let c = find_first(s, ':');
    if c < 0 {
        Err(missing_scheme_msg(s))
    } else if c == 0 {
        Err(empty_scheme_msg(s))
    } else {
        let scheme = s.take(c);
        let rest = s.skip(c + 1);
        if has_prefix(rest, "//"@) {
            let aa = rest.skip(2);
            let i = find_first(aa, '/');
            if i >= 0 {
                Ok((scheme, aa.take(i), aa.skip(i)))
            } else {
                Ok((scheme, aa, "/"@))
            }
        } else {
            Ok((scheme, Seq::empty(), rest))
        }
    }
}

/// Reads the layers in order; the first error wins.
pub open spec fn layers_spec(segs: Seq<Seq<char>>) -> Result<Seq<LayerText>, Seq<char>>
    decreases segs.len(),
{
    if segs.len() == 0 {
        Ok(Seq::empty())
    } else {
        match layer_spec(segs[0]) {
            Err(m) => Err(m),
            Ok(l) => match layers_spec(segs.skip(1)) {
                Err(m) => Err(m),
                Ok(ls) => Ok(seq![l] + ls),
            },
        }
    }
}

/// How a path reads: an empty text is refused, otherwise every `!`-separated
/// piece is a layer.
pub open spec fn vpath_spec(s: Seq<char>) -> Result<Seq<LayerText>, Seq<char>> {
    if s.len() == 0 {
        Err("empty"@)
    } else {
        layers_spec(split_seg(s, '!'))
    }
}

fn parse_layer(s: &[char]) -> (r: Result<Layer, Error>)
    ensures
        match r {
            Ok(l) => layer_spec(s@) == Ok::<LayerText, Seq<char>>(l@),
            Err(Error::InvalidPath(m)) => layer_spec(s@) == Err::<LayerText, Seq<char>>(m@),
            Err(_) => false,
        },
{
    let n = s.len();
    let c = match find_char(s, ':') {
        Some(c) => c,
        None => {
            let mut m = String::from_str("missing scheme in ");
            let st = string_of(s);
            let q = debug_quote(st.as_str());
            append_str(&mut m, q.as_str());
            return Err(Error::InvalidPath(m));
        },
    };
    if c == 0 {
        let mut m = String::from_str("empty scheme in ");
        let st = string_of(s);
        let q = debug_quote(st.as_str());
        append_str(&mut m, q.as_str());
        return Err(Error::InvalidPath(m));
    }
    let scheme = sub_chars(s, 0, c);
    let rest = sub_chars(s, c + 1, s.len());
    assert(scheme@ == s@.take(c as int));
    assert(rest@ == s@.skip(c + 1));
    let slashes = chars_of("//");
    proof {
        reveal_strlit("//");
    }
    if starts_with_chars(rest.as_slice(), slashes.as_slice()) {
        let aa = sub_chars(rest.as_slice(), 2, rest.len());
        assert(aa@ == rest@.skip(2));
        match find_char(aa.as_slice(), '/') {
            Some(i) => {
                let loc = sub_chars(aa.as_slice(), 0, i);
                let sub = sub_chars(aa.as_slice(), i, aa.len());
                assert(loc@ == aa@.take(i as int));
                assert(sub@ == aa@.skip(i as int));
                Ok(Layer { scheme: string_of(scheme.as_slice()), location: string_of(loc.as_slice()), sub: string_of(sub.as_slice()) })
            },
            None => Ok(Layer { scheme: string_of(scheme.as_slice()), location: string_of(aa.as_slice()), sub: String::from_str("/") }),
        }
    } else {
        Ok(Layer { scheme: string_of(scheme.as_slice()), location: String::new(), sub: string_of(rest.as_slice()) })
    }
}

/// Parses a written path as [`vpath_spec`] says.
pub fn parse_vpath(s: &str) -> (r: Result<VPath, Error>)
    ensures
        match r {
            Ok(p) => vpath_spec(s@) == Ok::<Seq<LayerText>, Seq<char>>(p@),
            Err(Error::InvalidPath(m)) => vpath_spec(s@) == Err::<Seq<LayerText>, Seq<char>>(m@),
            Err(_) => false,
        },
{
    let v = chars_of(s);
    if v.len() == 0 {
        return Err(Error::InvalidPath(String::from_str("empty")));
    }
    let segs = split_chars(v.as_slice(), '!');
    let ghost sv = segs@.map_values(|p: Vec<char>| p@);
    let mut layers = small_new();
    let mut i: usize = 0;
    assert(sv.skip(0) == sv);
    assert(seq![] + Seq::<LayerText>::empty() =~= Seq::<LayerText>::empty());
    while i < segs.len()
        invariant
            i <= segs@.len(),
            sv == segs@.map_values(|p: Vec<char>| p@),
            sv == split_seg(s@, '!'),
            s@.len() > 0,
            small_layers(layers).len() == i,
            layers_spec(sv) == match layers_spec(sv.skip(i as int)) {
                Ok(ls) => Ok(small_layers(layers) + ls),
                Err(m) => Err::<Seq<LayerText>, Seq<char>>(m),
            },
        decreases segs@.len() - i,
    {
        assert(sv.skip(i as int)[0] == segs@[i as int]@);
        assert(sv.skip(i as int).skip(1) == sv.skip(i + 1));
        match parse_layer(segs[i].as_slice()) {
            Ok(l) => {
                let ghost before = small_layers(layers);
                let ghost lv = l@;
                small_push(&mut layers, l);
                proof {
                    match layers_spec(sv.skip(i + 1)) {
                        Ok(ls) => {
                            assert(before + (seq![lv] + ls) =~= before.push(lv) + ls);
                        },
                        Err(_) => {},
                    }
                }
            },
            Err(e) => {
                proof {
                    assert(sv == split_seg(s@, '!'));
                    if let Error::InvalidPath(m) = &e {
                        assert(layers_spec(sv.skip(i as int)) == Err::<Seq<LayerText>, Seq<char>>(m@));
                        assert(layers_spec(sv) == Err::<Seq<LayerText>, Seq<char>>(m@));
                    }
                }
                return Err(e);
            },
        }
        i = i + 1;
    }
    assert(sv.skip(segs@.len() as int) =~= Seq::<Seq<char>>::empty());
    assert(small_layers(layers) + Seq::<LayerText>::empty() =~= small_layers(layers));
    Ok(VPath { layers })
}

impl std::str::FromStr for VPath {
    type Err = Error;

    fn from_str(s: &str) -> (r: Result<VPath, Error>)
        ensures
            match r {
                Ok(p) => vpath_spec(s@) == Ok::<Seq<LayerText>, Seq<char>>(p@),
                Err(Error::InvalidPath(m)) => vpath_spec(s@) == Err::<Seq<LayerText>, Seq<char>>(m@),
                Err(_) => false,
            },
    {
        parse_vpath(s)
    }
}

fn layer_to_text(out: &mut String, l: &Layer)
    ensures
        final(out)@ == old(out)@ + layer_text(l@),
{
    let loc = chars_of(l.location.as_str());
    append_str(out, l.scheme.as_str());
    if loc.len() == 0 {
        append_str(out, ":");
    } else {
        append_str(out, "://");
        append_str(out, l.location.as_str());
    }
    append_str(out, l.sub.as_str());
}

impl VPath {
    /// The path as it is written: layers joined by `!`.
    pub fn to_text(&self) -> (r: String)
        ensures
            r@ == vpath_text(self@),
    {
        let s = small_slice(&self.layers);
        let ghost lv = s@.map_values(|l: Layer| l@);
        let mut out = String::new();
        let mut i: usize = 0;
        while i < s.len()
            invariant
                i <= s@.len(),
                lv == s@.map_values(|l: Layer| l@),
                out@ == vpath_text(lv.take(i as int)),
            decreases s@.len() - i,
        {
            let ghost t = lv.take(i + 1);
            assert(t.drop_last() =~= lv.take(i as int));
            assert(t.last() == s@[i as int]@);
            if i > 0 {
                append_str(&mut out, "!");
            } else {
                assert(t.len() == 1 && t[0] == t.last());
                assert(out@.len() == 0);
            }
            let ghost before = out@;
            layer_to_text(&mut out, &s[i]);
            assert(i == 0 ==> out@ =~= layer_text(t[0]));
            i = i + 1;
        }
        assert(lv.take(s@.len() as int) =~= lv);
        out
    }
}

} // verus!

verus! {

/// Whether a character occurs nowhere in a text.
pub open spec fn lacks(s: Seq<char>, c: char) -> bool {
    forall|j: int| 0 <= j < s.len() ==> s[j] != c
}

/// A layer that reads back as itself once written: a non-empty scheme
/// without `:`, no `!` anywhere, and a sub-path that either follows a
/// location (which has no `/`) with a leading `/`, or without a location
/// does not start with `//`.
pub open spec fn layer_writable(l: LayerText) -> bool {
    &&& l.0.len() > 0
    &&& lacks(l.0, ':') && lacks(l.0, '!')
    &&& lacks(l.1, '!') && lacks(l.2, '!')
    &&& l.1.len() > 0 ==> lacks(l.1, '/') && l.2.len() > 0 && l.2[0] == '/'
    &&& l.1.len() == 0 ==> !has_prefix(l.2, "//"@)
}

proof fn lemma_find_first_concat(a: Seq<char>, b: Seq<char>, c: char)
    requires
        lacks(a, c),
    ensures
        find_first(a + b, c) == if find_first(b, c) < 0 { -1 } else { a.len() + find_first(b, c) },
    decreases a.len(),
{
    if a.len() == 0 {
        assert(a + b =~= b);
    } else {
        let a1 = a.skip(1);
        assert((a + b).skip(1) =~= a1 + b);
        assert((a + b)[0] == a[0]);
        assert(lacks(a1, c)) by {
            assert forall|j: int| 0 <= j < a1.len() implies a1[j] != c by {
                assert(a1[j] == a[j + 1]);
            }
        }
        lemma_find_first_concat(a1, b, c);
    }
}

proof fn lemma_layer_round_trip(l: LayerText)
    requires
        layer_writable(l),
    ensures
        layer_spec(layer_text(l)) == Ok::<LayerText, Seq<char>>(l),
        layer_text(l).len() > 0,
        lacks(layer_text(l), '!'),
{
    reveal_strlit(":");
    reveal_strlit("://");
    reveal_strlit("//");
    let t = layer_text(l);
    if l.1.len() == 0 {
        let b = ":"@ + l.2;
        assert(t =~= l.0 + b);
        assert(find_first(b, ':') == 0);
        lemma_find_first_concat(l.0, b, ':');
        assert(t.take(l.0.len() as int) =~= l.0);
        assert(t.skip(l.0.len() as int + 1) =~= l.2);
        assert(l.1 =~= Seq::<char>::empty());
        assert(find_first(t, ':') == l.0.len());
        assert(layer_spec(t) == Ok::<LayerText, Seq<char>>((l.0, Seq::<char>::empty(), l.2)));
        assert forall|j: int| 0 <= j < t.len() implies t[j] != '!' by {
            if j < l.0.len() {
                assert(t[j] == l.0[j]);
            } else if j > l.0.len() {
                assert(t[j] == l.2[j - l.0.len() - 1]);
            }
        }
    } else {
        let b = "://"@ + l.1 + l.2;
        assert(t =~= l.0 + b);
        assert(find_first(b, ':') == 0);
        lemma_find_first_concat(l.0, b, ':');
        let rest = t.skip(l.0.len() as int + 1);
        assert(rest =~= "//"@ + l.1 + l.2);
        assert(has_prefix(rest, "//"@)) by {
            assert(rest.take(2) =~= "//"@);
        }
        let aa = rest.skip(2);
        assert(aa =~= l.1 + l.2);
        assert(find_first(l.2, '/') == 0);
        lemma_find_first_concat(l.1, l.2, '/');
        assert(aa.take(l.1.len() as int) =~= l.1);
        assert(aa.skip(l.1.len() as int) =~= l.2);
        assert(t.take(l.0.len() as int) =~= l.0);
        assert(find_first(t, ':') == l.0.len());
        assert(find_first(aa, '/') == l.1.len());
        assert(layer_spec(t) == Ok::<LayerText, Seq<char>>((l.0, l.1, l.2)));
        assert forall|j: int| 0 <= j < t.len() implies t[j] != '!' by {
            if j < l.0.len() {
                assert(t[j] == l.0[j]);
            } else if l.0.len() + 3 <= j < l.0.len() + 3 + l.1.len() {
                assert(t[j] == l.1[j - l.0.len() - 3]);
            } else if j >= l.0.len() + 3 + l.1.len() {
                assert(t[j] == l.2[j - l.0.len() - 3 - l.1.len()]);
            }
        }
    }
}

proof fn lemma_split_vpath_text(ls: Seq<LayerText>)
    requires
        ls.len() > 0,
        forall|i: int| 0 <= i < ls.len() ==> layer_writable(#[trigger] ls[i]),
    ensures
        split_seg(vpath_text(ls), '!') == ls.map_values(|l: LayerText| layer_text(l)),
        vpath_text(ls).len() > 0,
    decreases ls.len(),
{
    let last = ls.last();
    assert(layer_writable(ls[ls.len() - 1]));
    lemma_layer_round_trip(last);
    let t = layer_text(last);
    if ls.len() == 1 {
        lemma_split_seg_extend(Seq::<char>::empty(), t, '!');
        assert(Seq::<char>::empty() + t =~= t);
        assert(Seq::<char>::empty() + t =~= t);
        assert(split_seg(Seq::<char>::empty(), '!') == seq![Seq::<char>::empty()]);
        assert(ls.map_values(|l: LayerText| layer_text(l)) =~= seq![t]);
    } else {
        let d = ls.drop_last();
        assert forall|i: int| 0 <= i < d.len() implies layer_writable(#[trigger] d[i]) by {
            assert(d[i] == ls[i]);
        }
        lemma_split_vpath_text(d);
        let a = vpath_text(d);
        let b = a + "!"@;
        reveal_strlit("!");
        assert(b.drop_last() =~= a);
        assert(b.last() == '!');
        lemma_split_seg_nonempty(a, '!');
        assert(split_seg(b, '!') == split_seg(a, '!').push(Seq::<char>::empty()));
        lemma_split_seg_extend(b, t, '!');
        assert(Seq::<char>::empty() + t =~= t);
        assert(ls.map_values(|l: LayerText| layer_text(l)) =~= d.map_values(|l: LayerText| layer_text(l)).push(t));
        assert(split_seg(b + t, '!') =~= split_seg(a, '!').push(t));
    }
}

proof fn lemma_layers_read_back(ls: Seq<LayerText>)
    requires
        forall|i: int| 0 <= i < ls.len() ==> layer_writable(#[trigger] ls[i]),
    ensures
        layers_spec(ls.map_values(|l: LayerText| layer_text(l))) == Ok::<Seq<LayerText>, Seq<char>>(ls),
    decreases ls.len(),
{
    let segs = ls.map_values(|l: LayerText| layer_text(l));
    if ls.len() == 0 {
        assert(segs.len() == 0);
        assert(ls =~= Seq::<LayerText>::empty());
    } else {
        assert(layer_writable(ls[0]));
        lemma_layer_round_trip(ls[0]);
        let r = ls.skip(1);
        assert forall|i: int| 0 <= i < r.len() implies layer_writable(#[trigger] r[i]) by {
            assert(r[i] == ls[i + 1]);
        }
        lemma_layers_read_back(r);
        assert(segs.skip(1) =~= r.map_values(|l: LayerText| layer_text(l)));
        assert(seq![ls[0]] + r =~= ls);
        assert(segs[0] == layer_text(ls[0]));
        assert(layer_spec(segs[0]) == Ok::<LayerText, Seq<char>>(ls[0]));
        assert(layers_spec(segs) == Ok::<Seq<LayerText>, Seq<char>>(seq![ls[0]] + r));
    }
}

/// Writing a path and reading it back gives the same layers, for every
/// non-empty list of layers that can be written unambiguously.
pub proof fn lemma_vpath_round_trip(ls: Seq<LayerText>)
    requires
        ls.len() > 0,
        forall|i: int| 0 <= i < ls.len() ==> layer_writable(#[trigger] ls[i]),
    ensures
        vpath_spec(vpath_text(ls)) == Ok::<Seq<LayerText>, Seq<char>>(ls),
{
    lemma_split_vpath_text(ls);
    lemma_layers_read_back(ls);
}

} // verus!

verus! {

/// The path one level down: `name` joined onto the innermost layer's
/// sub-path; `None` for a path without layers.
pub open spec fn child_spec(p: Seq<LayerText>, name: Seq<char>) -> Option<Seq<LayerText>> {
    if p.len() == 0 {
        None
    } else {
        let l = p.last();
        Some(p.drop_last().push((l.0, l.1, crate::config::paths::path_join(l.2, name))))
    }
}

/// The path one level down, as [`child_spec`] says.
pub fn child_path(parent: &VPath, name: &str) -> (r: Option<VPath>)
    ensures
        match r {
            Some(c) => child_spec(parent@, name@) == Some(c@),
            None => child_spec(parent@, name@) is None,
        },
{
    let last = match parent.last() {
        Some(l) => l.clone_layer(),
        None => return None,
    };
    let n = parent.layers().len();
    let sub = crate::config::paths::join(last.sub.as_str(), name);
    let new_layer = Layer { scheme: last.scheme, location: last.location, sub };
    let mut new = parent.clone_path();
    let _ = new.pop_layer();
    new.push_layer(new_layer);
    Some(new)
}

/// The innermost layer with the given scheme.
pub open spec fn last_layer_with(ls: Seq<LayerText>, scheme: Seq<char>) -> Option<LayerText>
    decreases ls.len(),
{
    if ls.len() == 0 {
        None
    } else if ls.last().0 == scheme {
        Some(ls.last())
    } else {
        last_layer_with(ls.drop_last(), scheme)
    }
}

/// The innermost layer with the given scheme, as [`last_layer_with`] says.
pub fn innermost_layer<'a>(p: &'a VPath, scheme: &str) -> (r: Option<&'a Layer>)
    ensures
        match r {
            Some(l) => last_layer_with(p@, scheme@) == Some(l@),
            None => last_layer_with(p@, scheme@) is None,
        },
{
    let ls = p.layers();
    let ghost lv = ls@.map_values(|l: Layer| l@);
    let mut i = ls.len();
    assert(lv.take(i as int) =~= lv);
    while i > 0 && !crate::text::str_eq(ls[i - 1].scheme.as_str(), scheme)
        invariant
            i <= ls@.len(),
            lv == ls@.map_values(|l: Layer| l@),
            lv == p@,
            last_layer_with(lv.take(i as int), scheme@) == last_layer_with(lv, scheme@),
        decreases i,
    {
        assert(lv.take(i as int).drop_last() =~= lv.take(i - 1));
        assert(lv.take(i as int).last() == ls@[i - 1]@);
        i = i - 1;
    }
    if i == 0 {
        assert(lv.take(0) =~= Seq::<LayerText>::empty());
        return None;
    }
    assert(lv.take(i as int).last() == ls@[i - 1]@);
    Some(&ls[i - 1])
}

} // verus!
