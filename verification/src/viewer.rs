//! The built-in file viewer: a file's bytes decoded into lines in one of a
//! cycle of encodings, shown as text or as a hex dump, with scrolling and a
//! case-insensitive line search.

use vstd::prelude::*;

use crate::commander::{contains_chars, has_infix};
use crate::key::{KeyChord, KeyCode, KeyMods};
use crate::text::{
    append_chars, append_str, chars_of, pop_char, push_char, split_chars, split_seg, string_of, to_lowercase,
    unicode_lowercase,
};
use crate::ui::ViewerMode;

verus! {

/// The most bytes the viewer loads; a longer file is shown truncated.
pub const VIEWER_MAX_BYTES: usize = 16777216;

/// How many encodings the viewer cycles through.
pub const ENCODING_COUNT: usize = 9;

/// The name of the `i`-th encoding of the cycle, which is also one of its
/// labels in the Encoding Standard.
pub open spec fn encoding_label(i: nat) -> Seq<char> {
    if i == 0 {
        "UTF-8"@
    } else if i == 1 {
        "windows-1252"@
    } else if i == 2 {
        "ISO-8859-2"@
    } else if i == 3 {
        "windows-1250"@
    } else if i == 4 {
        "windows-1251"@
    } else if i == 5 {
        "Shift_JIS"@
    } else if i == 6 {
        "UTF-16LE"@
    } else if i == 7 {
        "UTF-16BE"@
    } else {
        "GBK"@
    }
}

/// `label` names one of the encodings the viewer cycles through.
pub open spec fn cycle_label(label: Seq<char>) -> bool {
    exists|i: nat| i < ENCODING_COUNT && #[trigger] encoding_label(i) == label
}

/// The text that `bytes` decode to in the encoding with the label `label`
/// (`None` when the label names no encoding), with a byte order mark
/// choosing the encoding and malformed sequences replaced.
pub uninterp spec fn decoded_text(label: Seq<char>, bytes: Seq<u8>) -> Option<Seq<char>>;

/// Decodes `bytes` in the encoding labelled `label`, through
/// `encoding_rs::Encoding::for_label` and `Encoding::decode`. The claim:
/// the result is named by [`decoded_text`], and it is present for the
/// labels of the viewer's cycle, which all stand in the label table of
/// `encoding_rs`. The decoding tables are not stated. `decode` panics only
/// when its buffer size overflows, which the length bound rules out.
#[verifier::external_body]
fn decode_labelled(label: &str, bytes: &[u8]) -> (r: Option<String>)
    requires
        bytes@.len() <= VIEWER_MAX_BYTES,
    ensures
        match r {
            Some(s) => decoded_text(label@, bytes@) == Some(s@),
            None => decoded_text(label@, bytes@) is None,
        },
        cycle_label(label@) ==> r is Some,
{
    match encoding_rs::Encoding::for_label(label.as_bytes()) {
        Some(enc) => Some(enc.decode(bytes).0.into_owned()),
        None => None,
    }
}

/// The lines of `s`: the pieces between newlines, with no line after a
/// final newline (so none at all for an empty text).
pub open spec fn text_lines_of(s: Seq<char>) -> Seq<Seq<char>> {
    if s.len() == 0 {
        Seq::empty()
    } else if s.last() == '\n' {
        split_seg(s.drop_last(), '\n')
    } else {
        split_seg(s, '\n')
    }
}

/// The lines `bytes` show in the `enc`-th encoding of the cycle.
pub open spec fn decoded_lines(bytes: Seq<u8>, enc: nat) -> Seq<Seq<char>> {
    match decoded_text(encoding_label(enc), bytes) {
        Some(t) => text_lines_of(t),
        None => Seq::empty(),
    }
}

/// The name of the `i`-th encoding of the cycle.
pub fn encoding_name(i: usize) -> (r: &'static str)
    requires
        i < ENCODING_COUNT,
    ensures
        r@ == encoding_label(i as nat),
{
    proof {
        reveal_strlit("UTF-8");
        reveal_strlit("windows-1252");
        reveal_strlit("ISO-8859-2");
        reveal_strlit("windows-1250");
        reveal_strlit("windows-1251");
        reveal_strlit("Shift_JIS");
        reveal_strlit("UTF-16LE");
        reveal_strlit("UTF-16BE");
        reveal_strlit("GBK");
    }
    if i == 0 {
        "UTF-8"
    } else if i == 1 {
        "windows-1252"
    } else if i == 2 {
        "ISO-8859-2"
    } else if i == 3 {
        "windows-1250"
    } else if i == 4 {
        "windows-1251"
    } else if i == 5 {
        "Shift_JIS"
    } else if i == 6 {
        "UTF-16LE"
    } else if i == 7 {
        "UTF-16BE"
    } else {
        "GBK"
    }
}

/// The views of a list of strings.
pub open spec fn string_views(v: Seq<String>) -> Seq<Seq<char>> {
    Seq::new(v.len(), |i: int| v[i]@)
}

/// Splits a text into lines, as [`text_lines_of`] says.
pub fn split_lines(text: &str) -> (r: Vec<String>)
    ensures
        string_views(r@) == text_lines_of(text@),
{
    let mut v = chars_of(text);
    let mut out: Vec<String> = Vec::new();
    if v.len() == 0 {
        assert(string_views(out@) =~= text_lines_of(text@));
        return out;
    }
    if v[v.len() - 1] == '\n' {
        v.pop();
    }
    let parts = split_chars(v.as_slice(), '\n');
    let ghost want = split_seg(v@, '\n');
    assert(want == text_lines_of(text@));
    let mut i: usize = 0;
    while i < parts.len()
        invariant
            i <= parts@.len(),
            parts@.map_values(|p: Vec<char>| p@) == want,
            string_views(out@) == want.take(i as int),
        decreases parts@.len() - i,
    {
        let s = string_of(parts[i].as_slice());
        assert(want[i as int] == parts@[i as int]@);
        let ghost before = out@;
        out.push(s);
        assert(string_views(out@) =~= string_views(before).push(s@));
        assert(want.take(i + 1) =~= want.take(i as int).push(want[i as int]));
        i = i + 1;
    }
    assert(want.take(parts@.len() as int) =~= want);
    out
}

/// Decodes `bytes` in the `enc`-th encoding of the cycle and splits the
/// text into lines, as [`decoded_lines`] says.
pub fn decode_lines(bytes: &[u8], enc: usize) -> (r: Vec<String>)
    requires
        enc < ENCODING_COUNT,
        bytes@.len() <= VIEWER_MAX_BYTES,
    ensures
        string_views(r@) == decoded_lines(bytes@, enc as nat),
{
    let label = encoding_name(enc);
    assert(cycle_label(label@)) by {
        assert(encoding_label(enc as nat) == label@);
    }
    match decode_labelled(label, bytes) {
        Some(text) => split_lines(text.as_str()),
        None => Vec::new(),
    }
}

/// The search prompt: the pattern, and whether it is still being typed.
#[derive(Debug, Clone)]
pub struct SearchState {
    pub pattern: String,
    pub typing: bool,
}

/// A file shown in the viewer.
pub struct ViewerWidget {
    title: String,
    bytes: Vec<u8>,
    text_lines: Vec<String>,
    mode: ViewerMode,
    offset: usize,
    truncated: bool,
    search: Option<SearchState>,
    encoding: usize,
}

/// What the viewer's keys change: the display mode, the first line (or
/// hex row) in view, the search prompt's pattern and whether it is being
/// typed, and the encoding's place in the cycle.
pub struct ViewerModel {
    pub mode: ViewerMode,
    pub offset: usize,
    pub search: Option<(Seq<char>, bool)>,
    pub encoding: nat,
}

/// Line `i` of `lines`, lower-cased, holds `pat`.
pub open spec fn line_hit(lines: Seq<Seq<char>>, i: int, pat: Seq<char>) -> bool {
    has_infix(unicode_lowercase(lines[i]), pat)
}

/// The first line at or after `start` that holds `pat`.
pub open spec fn first_hit_from(lines: Seq<Seq<char>>, start: int, pat: Seq<char>) -> Option<int>
    decreases lines.len() - start,
{
    if start < 0 || start >= lines.len() {
        None
    } else if line_hit(lines, start, pat) {
        Some(start)
    } else {
        first_hit_from(lines, start + 1, pat)
    }
}

/// The last line before `end` that holds `pat`.
pub open spec fn last_hit_before(lines: Seq<Seq<char>>, end: int, pat: Seq<char>) -> Option<int>
    decreases end,
{
    if end <= 0 || end > lines.len() {
        None
    } else if line_hit(lines, end - 1, pat) {
        Some(end - 1)
    } else {
        last_hit_before(lines, end - 1, pat)
    }
}

/// The line a search for `pat` from `start` lands on: forward, the first
/// line at or after `start` that holds it; backward, the last one before
/// `start` (or before the end, for a start past it).
pub open spec fn hit_line(lines: Seq<Seq<char>>, start: int, forward: bool, pat: Seq<char>) -> Option<int> {
    if forward {
        first_hit_from(lines, start, pat)
    } else if start < lines.len() {
        last_hit_before(lines, start, pat)
    } else {
        last_hit_before(lines, lines.len() as int, pat)
    }
}

/// The first line in view after searching from `start` with the prompt's
/// pattern: with a non-empty pattern, the line [`hit_line`] finds for the
/// lower-cased pattern, lower-casing each line; where there is none, or no
/// pattern, the view stays.
pub open spec fn searched_offset(m: ViewerModel, lines: Seq<Seq<char>>, start: int, forward: bool) -> usize {
    match m.search {
        Some(st) => if st.0.len() == 0 {
            m.offset
        } else {
            match hit_line(lines, start, forward, unicode_lowercase(st.0)) {
                Some(i) => i as usize,
                None => m.offset,
            }
        },
        None => m.offset,
    }
}

/// `m` with the search prompt open and being typed.
pub open spec fn typing(m: ViewerModel) -> bool {
    m.search is Some && (m.search->0).1
}

/// The other display mode.
pub open spec fn other_mode(v: ViewerMode) -> ViewerMode {
    match v {
        ViewerMode::Text => ViewerMode::Hex,
        ViewerMode::Hex => ViewerMode::Text,
    }
}

/// `a - b`, or 0 below it.
pub open spec fn sat_sub(a: usize, b: usize) -> usize {
    if a >= b { (a - b) as usize } else { 0 }
}

/// What a key does to the viewer over `lines`, and whether the viewer stays
/// open. While the search prompt is typed, Esc drops it, Enter ends the
/// typing and, with a non-empty pattern, searches forward from the line in
/// view, Backspace deletes a character and a character is appended; other
/// keys do nothing. Otherwise Esc, F10 and `q` close; F4 switches between
/// text and hex; Down/`j` and Up/`k` scroll a line, PageDown/Space and
/// PageUp/Backspace twenty, stopping at the top; Home goes to the top, End
/// to the last offset; `/` opens an empty prompt; `n` searches forward from
/// the next line and `N` backward from the line in view; Alt-`e` moves to
/// the next encoding of the cycle.
pub open spec fn viewer_step(m: ViewerModel, lines: Seq<Seq<char>>, chord: KeyChord) -> (ViewerModel, bool) {
    if typing(m) {
        let p = (m.search->0).0;
        let n = match chord.code {
            KeyCode::Escape => ViewerModel { search: None, ..m },
            KeyCode::Enter => {
                let m1 = ViewerModel { search: Some((p, false)), ..m };
                if p.len() > 0 {
                    ViewerModel { offset: searched_offset(m1, lines, m.offset as int, true), ..m1 }
                } else {
                    m1
                }
            },
            KeyCode::Backspace => ViewerModel {
                search: Some((if p.len() > 0 { p.drop_last() } else { p }, true)),
                ..m
            },
            KeyCode::Char(c) => ViewerModel { search: Some((p.push(c), true)), ..m },
            _ => m,
        };
        (n, true)
    } else {
        match chord.code {
            KeyCode::Escape | KeyCode::F(10) | KeyCode::Char('q') => (m, false),
            KeyCode::F(4) => (ViewerModel { mode: other_mode(m.mode), ..m }, true),
            KeyCode::Down | KeyCode::Char('j') => (ViewerModel { offset: (m.offset + 1) as usize, ..m }, true),
            KeyCode::Up | KeyCode::Char('k') => (ViewerModel { offset: sat_sub(m.offset, 1), ..m }, true),
            KeyCode::PageDown | KeyCode::Char(' ') => (ViewerModel { offset: (m.offset + 20) as usize, ..m }, true),
            KeyCode::PageUp | KeyCode::Backspace => (ViewerModel { offset: sat_sub(m.offset, 20), ..m }, true),
            KeyCode::Home => (ViewerModel { offset: 0, ..m }, true),
            KeyCode::End => (ViewerModel { offset: usize::MAX, ..m }, true),
            KeyCode::Char('/') => (ViewerModel { search: Some((Seq::empty(), true)), ..m }, true),
            KeyCode::Char('n') => {
                let start = if m.offset == usize::MAX { m.offset as int } else { m.offset + 1 };
                (ViewerModel { offset: searched_offset(m, lines, start, true), ..m }, true)
            },
            KeyCode::Char('N') => (ViewerModel { offset: searched_offset(m, lines, sat_sub(m.offset, 1) as int, false), ..m }, true),
            KeyCode::Char(c) => if c == 'e' && chord.mods == (KeyMods { shift: false, alt: true, ctrl: false }) {
                (ViewerModel { encoding: (m.encoding + 1) % (ENCODING_COUNT as nat), ..m }, true)
            } else {
                (m, true)
            },
            _ => (m, true),
        }
    }
}

/// The key would scroll past the largest offset: Down or `j` at the last
/// offset, PageDown or Space within twenty of it, outside the search
/// prompt. (Such a key overflows the offset.)
pub open spec fn scroll_overflows(m: ViewerModel, chord: KeyChord) -> bool {
    !typing(m) && match chord.code {
        KeyCode::Down | KeyCode::Char('j') => m.offset == usize::MAX,
        KeyCode::PageDown | KeyCode::Char(' ') => m.offset > usize::MAX - 20,
        _ => false,
    }
}

impl ViewerWidget {
    /// What the keys change.
    pub closed spec fn model(&self) -> ViewerModel {
        ViewerModel {
            mode: self.mode,
            offset: self.offset,
            search: match self.search {
                Some(s) => Some((s.pattern@, s.typing)),
                None => None,
            },
            encoding: self.encoding as nat,
        }
    }

    /// The file's lines in the current encoding.
    pub closed spec fn lines(&self) -> Seq<Seq<char>> {
        string_views(self.text_lines@)
    }

    /// The file's bytes as loaded.
    pub closed spec fn data(&self) -> Seq<u8> {
        self.bytes@
    }

    /// The title and whether the file was cut short.
    pub closed spec fn label(&self) -> (Seq<char>, bool) {
        (self.title@, self.truncated)
    }

    /// The lines are the bytes decoded in the current encoding of the cycle.
    pub closed spec fn wf(&self) -> bool {
        &&& self.encoding < ENCODING_COUNT
        &&& self.bytes@.len() <= VIEWER_MAX_BYTES
        &&& self.lines() == decoded_lines(self.bytes@, self.encoding as nat)
    }

    /// The viewer on `bytes`, the first [`VIEWER_MAX_BYTES`] of a file of
    /// `total_size` bytes: text mode at the top, in UTF-8, no search, and
    /// marked truncated when the file is longer than what was loaded.
    pub fn new(title: String, bytes: Vec<u8>, total_size: u64) -> (r: Self)
        requires
            bytes@.len() <= VIEWER_MAX_BYTES,
        ensures
            r.wf(),
            r.model() == (ViewerModel { mode: ViewerMode::Text, offset: 0, search: None, encoding: 0 }),
            r.data() == bytes@,
            r.label() == (title@, total_size > VIEWER_MAX_BYTES),
    {
        let text_lines = decode_lines(bytes.as_slice(), 0);
        let truncated = total_size > VIEWER_MAX_BYTES as u64;
        ViewerWidget { title, bytes, text_lines, mode: ViewerMode::Text, offset: 0, truncated, search: None, encoding: 0 }
    }

    /// Whether `chord` would scroll past the largest offset, as
    /// [`scroll_overflows`] says.
    pub fn key_overflows(&self, chord: KeyChord) -> (r: bool)
        ensures
            r == scroll_overflows(self.model(), chord),
    {
        let typing = match &self.search {
            Some(s) => s.typing,
            None => false,
        };
        if typing {
            return false;
        }
        match chord.code {
            KeyCode::Down | KeyCode::Char('j') => self.offset == usize::MAX,
            KeyCode::PageDown | KeyCode::Char(' ') => self.offset > usize::MAX - 20,
            _ => false,
        }
    }

    fn line_hits(&self, i: usize, pat: &Vec<char>) -> (r: bool)
        requires
            i < self.lines().len(),
        ensures
            r == line_hit(self.lines(), i as int, pat@),
    {
        let lower = to_lowercase(self.text_lines[i].as_str());
        let lv = chars_of(lower.as_str());
        contains_chars(&lv, pat)
    }

    /// Searches from line `start`, as [`searched_offset`] says.
    fn find_from(&mut self, start: usize, forward: bool)
        ensures
            final(self).model() == (ViewerModel {
                offset: searched_offset(old(self).model(), old(self).lines(), start as int, forward),
                ..old(self).model()
            }),
            final(self).lines() == old(self).lines(),
            final(self).data() == old(self).data(),
            final(self).label() == old(self).label(),
            final(self).encoding == old(self).encoding,
    {
        let pattern = match &self.search {
            Some(s) => {
                if s.pattern.unicode_len() == 0 {
                    return;
                }
                to_lowercase(s.pattern.as_str())
            },
            None => return,
        };
        let pv = chars_of(pattern.as_str());
        let ghost lines = self.lines();
        let n = self.text_lines.len();
        if n == 0 {
            return;
        }
        if forward {
            let mut i = start;
            while i < n
                invariant
                    n == lines.len(),
                    lines == self.lines(),
                    *self == *old(self),
                    old(self).model().search is Some,
                    (old(self).model().search->0).0.len() > 0,
                    pv@ == unicode_lowercase((old(self).model().search->0).0),
                    forward,
                    start <= i,
                    first_hit_from(lines, start as int, pv@) == first_hit_from(lines, i as int, pv@),
                decreases n - i,
            {
                if self.line_hits(i, &pv) {
                    assert(first_hit_from(lines, i as int, pv@) == Some(i as int));
                    self.offset = i;
                    return;
                }
                i = i + 1;
            }
        } else {
            let mut i = if start < n { start } else { n };
            while i > 0
                invariant
                    n == lines.len(),
                    lines == self.lines(),
                    *self == *old(self),
                    old(self).model().search is Some,
                    (old(self).model().search->0).0.len() > 0,
                    pv@ == unicode_lowercase((old(self).model().search->0).0),
                    !forward,
                    i <= n,
                    last_hit_before(lines, if start < n { start as int } else { n as int }, pv@)
                        == last_hit_before(lines, i as int, pv@),
                decreases i,
            {
                i = i - 1;
                if self.line_hits(i, &pv) {
                    assert(last_hit_before(lines, i + 1, pv@) == Some(i as int));
                    self.offset = i;
                    return;
                }
            }
        }
    }

    /// Handles a key, as [`viewer_step`] says; the result tells whether the
    /// viewer stays open. A key that would scroll past the largest offset
    /// is not taken.
    pub fn handle_key(&mut self, chord: KeyChord) -> (r: bool)
        requires
            old(self).wf(),
            !scroll_overflows(old(self).model(), chord),
        ensures
            final(self).wf(),
            (final(self).model(), r) == viewer_step(old(self).model(), old(self).lines(), chord),
            final(self).data() == old(self).data(),
            final(self).label() == old(self).label(),
    {
        let typing = match &self.search {
            Some(s) => s.typing,
            None => false,
        };
        if typing {
            let mut st = match self.search.take() {
                Some(s) => s,
                None => SearchState { pattern: String::new(), typing: false },
            };
            match chord.code {
                KeyCode::Escape => {},
                KeyCode::Enter => {
                    st.typing = false;
                    let go = st.pattern.unicode_len() > 0;
                    self.search = Some(st);
                    if go {
                        self.find_from(self.offset, true);
                    }
                    return true;
                },
                KeyCode::Backspace => {
                    pop_char(&mut st.pattern);
                    self.search = Some(st);
                },
                KeyCode::Char(c) => {
                    push_char(&mut st.pattern, c);
                    self.search = Some(st);
                },
                _ => {
                    self.search = Some(st);
                },
            }
            return true;
        }
        match chord.code {
            KeyCode::Escape | KeyCode::F(10) | KeyCode::Char('q') => return false,
            KeyCode::F(4) => {
                self.mode = match self.mode {
                    ViewerMode::Text => ViewerMode::Hex,
                    ViewerMode::Hex => ViewerMode::Text,
                };
            },
            KeyCode::Down | KeyCode::Char('j') => self.offset = self.offset + 1,
            KeyCode::Up | KeyCode::Char('k') => self.offset = self.offset.saturating_sub(1),
            KeyCode::PageDown | KeyCode::Char(' ') => self.offset = self.offset + 20,
            KeyCode::PageUp | KeyCode::Backspace => self.offset = self.offset.saturating_sub(20),
            KeyCode::Home => self.offset = 0,
            KeyCode::End => self.offset = usize::MAX,
            KeyCode::Char('/') => {
                self.search = Some(SearchState { pattern: String::new(), typing: true });
            },
            KeyCode::Char('n') => {
                let start = self.offset.saturating_add(1);
                self.find_from(start, true);
            },
            KeyCode::Char('N') => {
                let start = self.offset.saturating_sub(1);
                self.find_from(start, false);
            },
            KeyCode::Char(c) => {
                if c == 'e' && chord.mods == KeyMods::alt() {
                    self.cycle_encoding();
                }
            },
            _ => {},
        }
        true
    }

    /// Moves to the next encoding of the cycle and decodes the lines again.
    fn cycle_encoding(&mut self)
        requires
            old(self).wf(),
        ensures
            final(self).wf(),
            final(self).model() == (ViewerModel {
                encoding: (old(self).model().encoding + 1) % (ENCODING_COUNT as nat),
                ..old(self).model()
            }),
            final(self).data() == old(self).data(),
            final(self).label() == old(self).label(),
    {
        let next = (self.encoding + 1) % ENCODING_COUNT;
        self.encoding = next;
        self.text_lines = decode_lines(self.bytes.as_slice(), next);
    }
}

/// The lines in view in text mode: from the offset, kept on the last line,
/// at most `height` of them.
pub open spec fn text_window(lines: Seq<Seq<char>>, offset: nat, height: nat) -> Seq<Seq<char>> {
    let last = if lines.len() > 0 { lines.len() - 1 } else { 0 };
    let start = if offset < last { offset as int } else { last as int };
    let end = if start + height < lines.len() { start + height } else { lines.len() as int };
    lines.subrange(start, end)
}

/// A hexadecimal digit, lower case.
pub open spec fn hex_digit(d: nat) -> char {
    if d < 10 {
        ('0' as nat + d) as char
    } else {
        ('a' as nat + d - 10) as char
    }
}

/// The hexadecimal digits of `n`, lower case, without leading zeros.
pub open spec fn hex_text(n: nat) -> Seq<char>
    decreases n,
{
    if n < 16 {
        seq![hex_digit(n)]
    } else {
        hex_text(n / 16).push(hex_digit(n % 16))
    }
}

/// `s` with zeros in front up to width `w`.
pub open spec fn zero_padded(s: Seq<char>, w: nat) -> Seq<char> {
    if s.len() >= w {
        s
    } else {
        Seq::new((w - s.len()) as nat, |i: int| '0') + s
    }
}

/// How the dump's text column shows a byte: printable ASCII as itself,
/// anything else as a dot.
pub open spec fn shown_byte(b: u8) -> char {
    if 0x20 <= b <= 0x7e {
        b as char
    } else {
        '.'
    }
}

/// Each byte as two hex digits and a space.
pub open spec fn hex_cells(c: Seq<u8>) -> Seq<char>
    decreases c.len(),
{
    if c.len() == 0 {
        Seq::empty()
    } else {
        hex_cells(c.drop_last()) + zero_padded(hex_text(c.last() as nat), 2) + seq![' ']
    }
}

/// The bytes as the text column shows them.
pub open spec fn shown_bytes(c: Seq<u8>) -> Seq<char> {
    Seq::new(c.len(), |i: int| shown_byte(c[i]))
}

/// One line of the dump: the offset in eight or more hex digits, two
/// spaces, the bytes in hex (with blank cells up to sixteen), a space and
/// the bytes as text.
pub open spec fn hex_line(chunk: Seq<u8>, off: nat) -> Seq<char> {
    zero_padded(hex_text(off), 8) + "  "@ + hex_cells(chunk) + Seq::new((3 * (16 - chunk.len())) as nat, |i: int| ' ')
        + seq![' '] + shown_bytes(chunk)
}

/// The number of sixteen-byte rows `len` bytes take.
pub open spec fn hex_row_count(len: nat) -> nat {
    len / 16 + if len % 16 != 0 { 1nat } else { 0nat }
}

/// The dump lines in view in hex mode: rows of sixteen bytes from the
/// offset, kept on the last row, at most `height` of them.
pub open spec fn hex_window(bytes: Seq<u8>, offset: nat, height: nat) -> Seq<Seq<char>> {
    let total = hex_row_count(bytes.len());
    let last = if total > 0 { total - 1 } else { 0 };
    let start = if offset < last { offset as int } else { last as int };
    let end = if start + height < total { start + height } else { total as int };
    Seq::new(
        (end - start) as nat,
        |k: int|
            {
                let off = 16 * (start + k);
                let stop = if off + 16 < bytes.len() { off + 16 } else { bytes.len() as int };
                hex_line(bytes.subrange(off, stop), off as nat)
            },
    )
}

/// The frame title: `View`, the mode (`TEXT` or `HEX `) and the encoding
/// in brackets, the title, and `(truncated)` for a file cut short.
pub open spec fn frame_title_text(mode: ViewerMode, enc: nat, title: Seq<char>, truncated: bool) -> Seq<char> {
    " View ["@ + (if mode == ViewerMode::Text { "TEXT"@ } else { "HEX "@ }) + " "@ + encoding_label(enc) + "] "@ + title
        + (if truncated { " (truncated)"@ } else { Seq::empty() }) + " "@
}

fn hex_digit_of(d: u8) -> (r: char)
    requires
        d < 16,
    ensures
        r == hex_digit(d as nat),
{
    if d < 10 {
        (('0' as u8) + d) as char
    } else {
        (('a' as u8) + d - 10) as char
    }
}

/// The hexadecimal digits of `n`, as [`hex_text`] says.
pub fn hex_chars(n: u64) -> (v: Vec<char>)
    ensures
        v@ == hex_text(n as nat),
    decreases n,
{
    if n < 16 {
        let mut v: Vec<char> = Vec::new();
        v.push(hex_digit_of(n as u8));
        v
    } else {
        let mut v = hex_chars(n / 16);
        v.push(hex_digit_of((n % 16) as u8));
        v
    }
}

/// Appends `v` with zeros in front up to width `w`.
fn push_padded(s: &mut String, v: &Vec<char>, w: usize)
    ensures
        final(s)@ == old(s)@ + zero_padded(v@, w as nat),
{
    let ghost start = s@;
    if v.len() < w {
        let mut k: usize = 0;
        while k < w - v.len()
            invariant
                v@.len() < w,
                k <= w - v@.len(),
                s@ == start + Seq::new(k as nat, |i: int| '0'),
            decreases w - v@.len() - k,
        {
            push_char(s, '0');
            assert(Seq::new((k + 1) as nat, |i: int| '0') =~= Seq::new(k as nat, |i: int| '0').push('0'));
            k = k + 1;
        }
        append_chars(s, v.as_slice());
        assert(s@ =~= start + zero_padded(v@, w as nat));
    } else {
        append_chars(s, v.as_slice());
    }
}

/// One line of the dump, as [`hex_line`] says.
pub fn hex_line_of(chunk: &[u8], off: u64) -> (r: String)
    requires
        chunk@.len() <= 16,
    ensures
        r@ == hex_line(chunk@, off as nat),
{
    let mut s = String::new();
    push_padded(&mut s, &hex_chars(off), 8);
    proof {
        reveal_strlit("  ");
    }
    append_str(&mut s, "  ");
    let ghost head = s@;
    let mut i: usize = 0;
    while i < chunk.len()
        invariant
            i <= chunk@.len(),
            s@ == head + hex_cells(chunk@.take(i as int)),
        decreases chunk@.len() - i,
    {
        assert(chunk@.take(i + 1).drop_last() =~= chunk@.take(i as int));
        push_padded(&mut s, &hex_chars(chunk[i] as u64), 2);
        push_char(&mut s, ' ');
        assert(s@ =~= head + hex_cells(chunk@.take(i + 1)));
        i = i + 1;
    }
    assert(chunk@.take(chunk@.len() as int) =~= chunk@);
    let ghost cells = s@;
    let mut k: usize = chunk.len();
    while k < 16
        invariant
            chunk@.len() <= k <= 16,
            s@ == cells + Seq::new((3 * (k - chunk@.len())) as nat, |j: int| ' '),
        decreases 16 - k,
    {
        push_char(&mut s, ' ');
        push_char(&mut s, ' ');
        push_char(&mut s, ' ');
        assert(s@ =~= cells + Seq::new((3 * (k + 1 - chunk@.len())) as nat, |j: int| ' '));
        k = k + 1;
    }
    push_char(&mut s, ' ');
    let ghost text_start = s@;
    let mut j: usize = 0;
    while j < chunk.len()
        invariant
            j <= chunk@.len(),
            s@ == text_start + shown_bytes(chunk@.take(j as int)),
        decreases chunk@.len() - j,
    {
        let b = chunk[j];
        let c = if 0x20 <= b && b <= 0x7e { b as char } else { '.' };
        push_char(&mut s, c);
        assert(s@ =~= text_start + shown_bytes(chunk@.take(j + 1)));
        j = j + 1;
    }
    assert(shown_bytes(chunk@.take(chunk@.len() as int)) =~= shown_bytes(chunk@));
    assert(s@ =~= hex_line(chunk@, off as nat));
    s
}

impl ViewerWidget {
    /// The lines in view in text mode, as [`text_window`] says.
    pub fn text_lines_in_view(&self, height: usize) -> (r: Vec<String>)
        requires
            self.lines().len() + height <= usize::MAX,
        ensures
            string_views(r@) == text_window(self.lines(), self.model().offset as nat, height as nat),
    {
        let n = self.text_lines.len();
        let last = if n > 0 { n - 1 } else { 0 };
        let start = if self.offset < last { self.offset } else { last };
        let end = if start + height < n { start + height } else { n };
        let ghost want = text_window(self.lines(), self.offset as nat, height as nat);
        let mut out: Vec<String> = Vec::new();
        let mut i = start;
        while i < end
            invariant
                start <= i <= end <= n,
                n == self.lines().len(),
                want == self.lines().subrange(start as int, end as int),
                string_views(out@) == self.lines().subrange(start as int, i as int),
            decreases end - i,
        {
            let ghost before = out@;
            out.push(self.text_lines[i].clone());
            assert(string_views(out@) =~= string_views(before).push(self.lines()[i as int]));
            assert(self.lines().subrange(start as int, i + 1) =~= self.lines().subrange(start as int, i as int).push(
                self.lines()[i as int],
            ));
            i = i + 1;
        }
        out
    }

    /// The dump lines in view in hex mode, as [`hex_window`] says.
    pub fn hex_lines_in_view(&self, height: usize) -> (r: Vec<String>)
        requires
            self.wf(),
            hex_row_count(self.data().len()) + height <= usize::MAX,
        ensures
            string_views(r@) == hex_window(self.data(), self.model().offset as nat, height as nat),
    {
        let len = self.bytes.len();
        let total = len / 16 + if len % 16 != 0 { 1 } else { 0 };
        let last = if total > 0 { total - 1 } else { 0 };
        let start = if self.offset < last { self.offset } else { last };
        let end = if start + height < total { start + height } else { total };
        let ghost want = hex_window(self.bytes@, self.offset as nat, height as nat);
        let mut out: Vec<String> = Vec::new();
        let mut row = start;
        while row < end
            invariant
                len == self.bytes@.len(),
                len <= VIEWER_MAX_BYTES,
                total == hex_row_count(len as nat),
                start <= row <= end <= total,
                want.len() == end - start,
                forall|k: int| 0 <= k < want.len() ==> #[trigger] want[k] == {
                    let off = 16 * (start + k);
                    let stop = if off + 16 < len { off + 16 } else { len as int };
                    hex_line(self.bytes@.subrange(off, stop), off as nat)
                },
                string_views(out@) == want.take(row - start),
            decreases end - row,
        {
            let off = row * 16;
            assert(off < len) by {
                assert(row < total);
            }
            let stop = if off + 16 < len { off + 16 } else { len };
            let chunk = vstd::slice::slice_subrange(self.bytes.as_slice(), off, stop);
            let line = hex_line_of(chunk, off as u64);
            let ghost before = out@;
            out.push(line);
            assert(want[row - start] == line@);
            assert(string_views(out@) =~= string_views(before).push(line@));
            assert(want.take(row + 1 - start) =~= want.take(row - start).push(want[row - start]));
            row = row + 1;
        }
        assert(want.take(end - start) =~= want);
        out
    }

    /// The frame title, as [`frame_title_text`] says.
    pub fn frame_title(&self) -> (r: String)
        requires
            self.wf(),
        ensures
            r@ == frame_title_text(self.model().mode, self.model().encoding, self.label().0, self.label().1),
    {
        proof {
            reveal_strlit(" View [");
            reveal_strlit("TEXT");
            reveal_strlit("HEX ");
            reveal_strlit(" ");
            reveal_strlit("] ");
            reveal_strlit(" (truncated)");
        }
        let mut s = String::from_str(" View [");
        match self.mode {
            ViewerMode::Text => append_str(&mut s, "TEXT"),
            ViewerMode::Hex => append_str(&mut s, "HEX "),
        }
        append_str(&mut s, " ");
        append_str(&mut s, encoding_name(self.encoding));
        append_str(&mut s, "] ");
        append_str(&mut s, self.title.as_str());
        if self.truncated {
            append_str(&mut s, " (truncated)");
        }
        append_str(&mut s, " ");
        assert(s@ =~= frame_title_text(self.mode, self.encoding as nat, self.title@, self.truncated));
        s
    }

    /// The display mode.
    pub fn mode(&self) -> (r: ViewerMode)
        ensures
            r == self.model().mode,
    {
        self.mode
    }

    /// The first line (or hex row) in view.
    pub fn offset(&self) -> (r: usize)
        ensures
            r == self.model().offset,
    {
        self.offset
    }

    /// The search prompt's pattern and whether it is being typed.
    pub fn search_prompt(&self) -> (r: Option<(&str, bool)>)
        ensures
            match r {
                Some((p, t)) => self.model().search == Some((p@, t)),
                None => self.model().search is None,
            },
    {
        match &self.search {
            Some(st) => Some((st.pattern.as_str(), st.typing)),
            None => None,
        }
    }
}

} // verus!
