//! File highlighting rules: classify files into named color groups by
//! their extension.

use vstd::prelude::*;

use crate::text::{ascii_lower, ascii_lowercase, chars_of, rfind, rfind_char, string_of};

verus! {

/// The built-in highlighting groups, as (group, extensions).
pub open spec fn default_highlight_rules() -> Seq<(Seq<char>, Seq<Seq<char>>)> {
    seq![
        ("archive"@, seq!["tar"@, "gz"@, "tgz"@, "zip"@, "bz2"@, "tbz"@, "tbz2"@, "xz"@, "txz"@, "7z"@, "rar"@, "zst"@, "tzst"@, "lz"@, "lzma"@]),
        ("image"@, seq!["png"@, "jpg"@, "jpeg"@, "gif"@, "webp"@, "bmp"@, "svg"@, "ico"@, "tif"@, "tiff"@]),
        ("audio"@, seq!["mp3"@, "ogg"@, "flac"@, "wav"@, "m4a"@, "opus"@]),
        ("video"@, seq!["mp4"@, "mkv"@, "webm"@, "mov"@, "avi"@, "mpg"@, "mpeg"@]),
        ("doc"@, seq!["pdf"@, "epub"@, "djvu"@, "doc"@, "docx"@, "odt"@, "rtf"@, "md"@, "txt"@]),
        ("source"@, seq!["rs"@, "c"@, "h"@, "cpp"@, "cc"@, "cxx"@, "hpp"@, "py"@, "go"@, "ts"@, "tsx"@, "js"@, "jsx"@, "java"@, "kt"@, "scala"@, "rb"@, "swift"@, "lua"@, "sh"@, "fish"@, "zsh"@, "ps1"@]),
        ("build"@, seq!["toml"@, "yaml"@, "yml"@, "json"@, "lock"@, "ini"@, "conf"@, "cfg"@])
    ]
}

/// One rule: a group name and the lower-case extensions (without dot) in it.
#[derive(Debug, Clone)]
pub struct HighlightRule {
    pub group: String,
    pub extensions: Vec<String>,
}

/// An ordered list of rules; the first rule that knows an extension wins.
#[derive(Debug, Clone)]
pub struct FileHighlight {
    pub rule: Vec<HighlightRule>,
}

impl View for HighlightRule {
    type V = (Seq<char>, Seq<Seq<char>>);

    open spec fn view(&self) -> (Seq<char>, Seq<Seq<char>>) {
        (self.group@, self.extensions@.map_values(|e: String| e@))
    }
}

impl View for FileHighlight {
    type V = Seq<(Seq<char>, Seq<Seq<char>>)>;

    open spec fn view(&self) -> Seq<(Seq<char>, Seq<Seq<char>>)> {
        self.rule@.map_values(|r: HighlightRule| r@)
    }
}

/// Whether a rule lists `ext`, ignoring ASCII case.
pub open spec fn rule_has_ext(r: (Seq<char>, Seq<Seq<char>>), ext: Seq<char>) -> bool {
    exists|j: int| 0 <= j < r.1.len() && ascii_lower(#[trigger] r.1[j]) == ascii_lower(ext)
}

/// Index of the first rule listing `ext`.
pub open spec fn first_rule_with(rules: Seq<(Seq<char>, Seq<Seq<char>>)>, ext: Seq<char>) -> Option<int>
    decreases rules.len(),
{
    if rules.len() == 0 {
        None
    } else if rule_has_ext(rules[0], ext) {
        Some(0)
    } else {
        match first_rule_with(rules.skip(1), ext) {
            Some(i) => Some(i + 1),
            None => None,
        }
    }
}

/// The group a file name falls in: by its extension (the text after the last
/// dot, compared without ASCII case), through the first rule listing it.
pub open spec fn classify_spec(rules: Seq<(Seq<char>, Seq<Seq<char>>)>, name: Seq<char>) -> Option<Seq<char>> {
    if rfind(name, '.') < 0 {
        None
    } else {
        match first_rule_with(rules, ascii_lower(name.skip(rfind(name, '.') + 1))) {
            Some(i) => Some(rules[i].0),
            None => None,
        }
    }
}

proof fn lemma_ascii_lower_idem(s: Seq<char>)
    ensures
        ascii_lower(ascii_lower(s)) == ascii_lower(s),
{
    assert(ascii_lower(ascii_lower(s)) =~= ascii_lower(s));
}

fn eq_ignore_ascii_case(a: &str, b: &str) -> (r: bool)
    ensures
        r == (ascii_lower(a@) == ascii_lower(b@)),
{
    let la = ascii_lowercase(a);
    let lb = ascii_lowercase(b);
    crate::text::str_eq(la.as_str(), lb.as_str())
}

impl HighlightRule {
    /// A rule from a group name and its extensions.
    pub fn of(group: &str, exts: &[&str]) -> (r: Self)
        ensures
            r@.0 == group@,
            r@.1 == exts@.map_values(|e: &str| e@),
    {
        let mut extensions: Vec<String> = Vec::new();
        let mut i: usize = 0;
        while i < exts.len()
            invariant
                i <= exts@.len(),
                extensions@.map_values(|e: String| e@) == exts@.take(i as int).map_values(|e: &str| e@),
            decreases exts@.len() - i,
        {
            extensions.push(String::from_str(exts[i]));
            assert(exts@.take(i + 1).map_values(|e: &str| e@) =~= exts@.take(i as int).map_values(|e: &str| e@).push(exts@[i as int]@));
            assert(extensions@.map_values(|e: String| e@) =~= exts@.take(i as int).map_values(|e: &str| e@).push(exts@[i as int]@));
            i = i + 1;
        }
        assert(exts@.take(exts@.len() as int) =~= exts@);
        HighlightRule { group: String::from_str(group), extensions }
    }
}

/// Whether `exts` lists `ext`, ignoring ASCII case.
fn lists_ext(exts: &Vec<String>, ext: &str) -> (r: bool)
    ensures
        r == exists|j: int| 0 <= j < exts@.len() && ascii_lower(#[trigger] exts@[j]@) == ascii_lower(ext@),
{
    let mut j: usize = 0;
    while j < exts.len()
        invariant
            j <= exts@.len(),
            forall|q: int| 0 <= q < j ==> ascii_lower(#[trigger] exts@[q]@) != ascii_lower(ext@),
        decreases exts@.len() - j,
    {
        if eq_ignore_ascii_case(exts[j].as_str(), ext) {
            return true;
        }
        j = j + 1;
    }
    false
}

impl FileHighlight {
    /// Default ruleset shipped with the binary.
    pub fn defaults() -> (r: Self)
        ensures
            r@ == default_highlight_rules(),
    {
        let mut rule: Vec<HighlightRule> = Vec::new();
        let h = HighlightRule::of("archive", &["tar", "gz", "tgz", "zip", "bz2", "tbz", "tbz2", "xz", "txz", "7z", "rar", "zst", "tzst", "lz", "lzma"]);
        assert(h@.1 =~= seq!["tar"@, "gz"@, "tgz"@, "zip"@, "bz2"@, "tbz"@, "tbz2"@, "xz"@, "txz"@, "7z"@, "rar"@, "zst"@, "tzst"@, "lz"@, "lzma"@]);
        rule.push(h);
        let h = HighlightRule::of("image", &["png", "jpg", "jpeg", "gif", "webp", "bmp", "svg", "ico", "tif", "tiff"]);
        assert(h@.1 =~= seq!["png"@, "jpg"@, "jpeg"@, "gif"@, "webp"@, "bmp"@, "svg"@, "ico"@, "tif"@, "tiff"@]);
        rule.push(h);
        let h = HighlightRule::of("audio", &["mp3", "ogg", "flac", "wav", "m4a", "opus"]);
        assert(h@.1 =~= seq!["mp3"@, "ogg"@, "flac"@, "wav"@, "m4a"@, "opus"@]);
        rule.push(h);
        let h = HighlightRule::of("video", &["mp4", "mkv", "webm", "mov", "avi", "mpg", "mpeg"]);
        assert(h@.1 =~= seq!["mp4"@, "mkv"@, "webm"@, "mov"@, "avi"@, "mpg"@, "mpeg"@]);
        rule.push(h);
        let h = HighlightRule::of("doc", &["pdf", "epub", "djvu", "doc", "docx", "odt", "rtf", "md", "txt"]);
        assert(h@.1 =~= seq!["pdf"@, "epub"@, "djvu"@, "doc"@, "docx"@, "odt"@, "rtf"@, "md"@, "txt"@]);
        rule.push(h);
        let h = HighlightRule::of("source", &["rs", "c", "h", "cpp", "cc", "cxx", "hpp", "py", "go", "ts", "tsx", "js", "jsx", "java", "kt", "scala", "rb", "swift", "lua", "sh", "fish", "zsh", "ps1"]);
        assert(h@.1 =~= seq!["rs"@, "c"@, "h"@, "cpp"@, "cc"@, "cxx"@, "hpp"@, "py"@, "go"@, "ts"@, "tsx"@, "js"@, "jsx"@, "java"@, "kt"@, "scala"@, "rb"@, "swift"@, "lua"@, "sh"@, "fish"@, "zsh"@, "ps1"@]);
        rule.push(h);
        let h = HighlightRule::of("build", &["toml", "yaml", "yml", "json", "lock", "ini", "conf", "cfg"]);
        assert(h@.1 =~= seq!["toml"@, "yaml"@, "yml"@, "json"@, "lock"@, "ini"@, "conf"@, "cfg"@]);
        rule.push(h);
        let r = FileHighlight { rule };
        assert(r@ =~= default_highlight_rules());
        r
    }

    /// Classify a filename into a group, or `None` if no rule matches.
    pub fn classify(&self, name: &str) -> (r: Option<&str>)
        ensures
            match r {
                Some(g) => classify_spec(self@, name@) == Some(g@),
                None => classify_spec(self@, name@) is None,
            },
    {
        let v = chars_of(name);
        proof {
            crate::text::lemma_rfind(name@, '.');
        }
        let len = v.len();
        let i = match rfind_char(v.as_slice(), '.') {
            Some(i) => i,
            None => return None,
        };
        let tail = crate::key::slice_from(v.as_slice(), i + 1);
        let tail_s = string_of(tail.as_slice());
        let ext = ascii_lowercase(tail_s.as_str());
        let ghost e = ascii_lower(name@.skip(i + 1));
        proof {
            lemma_ascii_lower_idem(name@.skip(i + 1));
        }
        let mut k: usize = 0;
        assert(self@.skip(0) == self@);
        while k < self.rule.len()
            invariant
                k <= self.rule@.len(),
                self@.len() == self.rule@.len(),
                ext@ == e,
                ascii_lower(e) == e,
                rfind(name@, '.') >= 0,
                e == ascii_lower(name@.skip(rfind(name@, '.') + 1)),
                first_rule_with(self@, e) == match first_rule_with(self@.skip(k as int), e) {
                    Some(j) => Some(j + k),
                    None => None,
                },
            decreases self.rule@.len() - k,
        {
            let r = &self.rule[k];
            let ghost rv = self@[k as int];
            assert(rv == r@);
            let found = lists_ext(&r.extensions, ext.as_str());
            proof {
                if found {
                    let j = choose|j: int| 0 <= j < r.extensions@.len() && ascii_lower(#[trigger] r.extensions@[j]@) == ascii_lower(ext@);
                    assert(rv.1[j] == r.extensions@[j]@);
                }
                if rule_has_ext(rv, e) {
                    let j = choose|j: int| 0 <= j < rv.1.len() && ascii_lower(#[trigger] rv.1[j]) == ascii_lower(e);
                    assert(rv.1[j] == r.extensions@[j]@);
                }
            }
            let ghost t = self@.skip(k as int);
            assert(t[0] == rv);
            if found {
                assert(rule_has_ext(rv, e));
                assert(first_rule_with(t, e) == Some(0int));
                assert(first_rule_with(self@, e) == Some(k as int));
                return Some(r.group.as_str());
            }
            assert(!rule_has_ext(rv, e));
            assert(t.skip(1) == self@.skip(k + 1));
            k = k + 1;
        }
        None
    }
}

} // verus!
