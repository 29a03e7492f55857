//! Key chords and sequences in mc-compatible syntax.
//!
//! Examples: `F1`, `F10`, `F20`; `C-x`, `M-?`, `S-Tab`, `C-M-Delete`;
//! `Insert`, `Delete`, `PageUp`, `Enter`, `Esc`, `Tab`, `Backspace`;
//! `+`, `\`, `?`, single printable characters.

use vstd::prelude::*;

use crate::error::Error;
use crate::num::{all_radix_digits, decimal, decimal_chars, lemma_decimal_len, lemma_decimal_parses, parse_unsigned, parse_unsigned_chars};
use crate::text::{ascii_lower, ascii_lowercase, chars_of, str_eq, string_of, utf8_len, utf8_len_capped};

verus! {

/// Modifier keys held with a chord.
#[derive(Debug, Clone, Copy, PartialEq, Eq, Hash, Default, Structural)]
pub struct KeyMods {
    pub shift: bool,
    /// mc's `M-` (Meta).
    pub alt: bool,
    /// mc's `C-`.
    pub ctrl: bool,
}

impl KeyMods {
    pub open spec fn none() -> KeyMods {
        KeyMods { shift: false, alt: false, ctrl: false }
    }

    pub open spec fn union_spec(self, o: KeyMods) -> KeyMods {
        KeyMods { shift: self.shift || o.shift, alt: self.alt || o.alt, ctrl: self.ctrl || o.ctrl }
    }

    /// No modifier.
    pub fn empty() -> (r: KeyMods)
        ensures
            r == KeyMods::none(),
    {
        KeyMods { shift: false, alt: false, ctrl: false }
    }

    /// Shift alone.
    pub fn shift() -> (r: KeyMods)
        ensures
            r == (KeyMods { shift: true, alt: false, ctrl: false }),
    {
        KeyMods { shift: true, alt: false, ctrl: false }
    }

    /// Alt (Meta) alone.
    pub fn alt() -> (r: KeyMods)
        ensures
            r == (KeyMods { shift: false, alt: true, ctrl: false }),
    {
        KeyMods { shift: false, alt: true, ctrl: false }
    }

    /// Control alone.
    pub fn ctrl() -> (r: KeyMods)
        ensures
            r == (KeyMods { shift: false, alt: false, ctrl: true }),
    {
        KeyMods { shift: false, alt: false, ctrl: true }
    }

    /// Whether no modifier is held.
    pub fn is_empty(&self) -> (r: bool)
        ensures
            r == (*self == KeyMods::none()),
    {
        !self.shift && !self.alt && !self.ctrl
    }

    /// Every modifier of `other` is held in `self`.
    pub fn contains(&self, other: KeyMods) -> (r: bool)
        ensures
            r == ((other.shift ==> self.shift) && (other.alt ==> self.alt) && (other.ctrl
                ==> self.ctrl)),
    {
        (!other.shift || self.shift) && (!other.alt || self.alt) && (!other.ctrl || self.ctrl)
    }

    /// The modifiers held in either set.
    pub fn union(self, other: KeyMods) -> (r: KeyMods)
        ensures
            r == self.union_spec(other),
    {
        KeyMods {
            shift: self.shift || other.shift,
            alt: self.alt || other.alt,
            ctrl: self.ctrl || other.ctrl,
        }
    }
}

/// A key, without modifiers.
#[derive(Debug, Clone, Copy, PartialEq, Eq, Hash, Structural)]
pub enum KeyCode {
    Char(char),
    F(u8),
    Enter,
    Escape,
    Tab,
    BackTab,
    Backspace,
    Delete,
    Insert,
    Home,
    End,
    PageUp,
    PageDown,
    Up,
    Down,
    Left,
    Right,
}

/// A key with its modifiers.
#[derive(Debug, Clone, Copy, PartialEq, Eq, Hash, Structural)]
pub struct KeyChord {
    pub code: KeyCode,
    pub mods: KeyMods,
}

/// A sequence of chords pressed one after the other.
#[derive(Debug, Clone)]
pub struct KeySequence(pub Vec<KeyChord>);

impl KeyChord {
    /// A chord of `code` with `mods`.
    pub fn new(code: KeyCode, mods: KeyMods) -> (r: Self)
        ensures
            r == (KeyChord { code, mods }),
    {
        KeyChord { code, mods }
    }

    /// A chord of `code` without modifiers.
    pub fn plain(code: KeyCode) -> (r: Self)
        ensures
            r == (KeyChord { code, mods: KeyMods::none() }),
    {
        KeyChord { code, mods: KeyMods::empty() }
    }
}

impl KeySequence {
    /// A sequence of one chord.
    pub fn single(c: KeyChord) -> (r: Self)
        ensures
            r.0@ == seq![c],
    {
        let mut v: Vec<KeyChord> = Vec::new();
        v.push(c);
        KeySequence(v)
    }
}

// -- parsing --------------------------------------------------------------

/// Strips the leading `C-`, `M-`, `S-` prefixes, collecting the modifiers.
pub open spec fn mods_prefix(s: Seq<char>) -> (KeyMods, Seq<char>)
    decreases s.len(),
{
    if s.len() >= 2 && s[1] == '-' && (s[0] == 'C' || s[0] == 'M' || s[0] == 'S') {
        let (m, r) = mods_prefix(s.skip(2));
        let here = KeyMods { shift: s[0] == 'S', alt: s[0] == 'M', ctrl: s[0] == 'C' };
        (here.union_spec(m), r)
    } else {
        (KeyMods::none(), s)
    }
}

/// The key named by a lower-cased name, if any.
pub open spec fn named_key(lower: Seq<char>) -> Option<KeyCode> {
    if lower == "enter"@ || lower == "return"@ {
        Some(KeyCode::Enter)
    } else if lower == "esc"@ || lower == "escape"@ {
        Some(KeyCode::Escape)
    } else if lower == "tab"@ {
        Some(KeyCode::Tab)
    } else if lower == "backtab"@ {
        Some(KeyCode::BackTab)
    } else if lower == "backspace"@ || lower == "bs"@ {
        Some(KeyCode::Backspace)
    } else if lower == "delete"@ || lower == "del"@ {
        Some(KeyCode::Delete)
    } else if lower == "insert"@ || lower == "ins"@ {
        Some(KeyCode::Insert)
    } else if lower == "home"@ {
        Some(KeyCode::Home)
    } else if lower == "end"@ {
        Some(KeyCode::End)
    } else if lower == "pageup"@ || lower == "pgup"@ {
        Some(KeyCode::PageUp)
    } else if lower == "pagedown"@ || lower == "pgdn"@ {
        Some(KeyCode::PageDown)
    } else if lower == "up"@ {
        Some(KeyCode::Up)
    } else if lower == "down"@ {
        Some(KeyCode::Down)
    } else if lower == "left"@ {
        Some(KeyCode::Left)
    } else if lower == "right"@ {
        Some(KeyCode::Right)
    } else {
        None
    }
}

/// The key a chord's text (after its modifiers) names: a key name (any
/// ASCII case), `F1` to `F24` (an `f` with up to two decimal digits after
/// it), or a single character (so a lone `f` is the letter).
pub open spec fn parse_code_spec(s: Seq<char>) -> Option<KeyCode> {
    let lower = ascii_lower(s);
    if named_key(lower) is Some {
        named_key(lower)
    } else if lower.len() >= 2 && lower[0] == 'f' && utf8_len(lower) <= 3 && all_radix_digits(lower.skip(1), 10) {
        match parse_unsigned(lower.skip(1), 10, 255) {
            Some(n) => if 1 <= n <= 24 {
                Some(KeyCode::F(n as u8))
            } else {
                None
            },
            None => None,
        }
    } else if s.len() == 1 {
        Some(KeyCode::Char(s[0]))
    } else {
        None
    }
}

/// The chord a text names, or the rejected key text.
pub open spec fn parse_chord_spec(s: Seq<char>) -> Result<KeyChord, Seq<char>> {
    let (m, rest) = mods_prefix(s);
    match parse_code_spec(rest) {
        Some(code) => Ok(KeyChord { code, mods: m }),
        None => Err(rest),
    }
}

fn named_key_exec(lower: &str) -> (r: Option<KeyCode>)
    ensures
        r == named_key(lower@),
{
    if str_eq(lower, "enter") || str_eq(lower, "return") {
        Some(KeyCode::Enter)
    } else if str_eq(lower, "esc") || str_eq(lower, "escape") {
        Some(KeyCode::Escape)
    } else if str_eq(lower, "tab") {
        Some(KeyCode::Tab)
    } else if str_eq(lower, "backtab") {
        Some(KeyCode::BackTab)
    } else if str_eq(lower, "backspace") || str_eq(lower, "bs") {
        Some(KeyCode::Backspace)
    } else if str_eq(lower, "delete") || str_eq(lower, "del") {
        Some(KeyCode::Delete)
    } else if str_eq(lower, "insert") || str_eq(lower, "ins") {
        Some(KeyCode::Insert)
    } else if str_eq(lower, "home") {
        Some(KeyCode::Home)
    } else if str_eq(lower, "end") {
        Some(KeyCode::End)
    } else if str_eq(lower, "pageup") || str_eq(lower, "pgup") {
        Some(KeyCode::PageUp)
    } else if str_eq(lower, "pagedown") || str_eq(lower, "pgdn") {
        Some(KeyCode::PageDown)
    } else if str_eq(lower, "up") {
        Some(KeyCode::Up)
    } else if str_eq(lower, "down") {
        Some(KeyCode::Down)
    } else if str_eq(lower, "left") {
        Some(KeyCode::Left)
    } else if str_eq(lower, "right") {
        Some(KeyCode::Right)
    } else {
        None
    }
}

fn all_decimal(v: &[char]) -> (r: bool)
    ensures
        r == all_radix_digits(v@, 10),
{
    let mut i: usize = 0;
    while i < v.len()
        invariant
            i <= v@.len(),
            forall|k: int| 0 <= k < i ==> (#[trigger] crate::num::radix_digit(v@[k], 10)) is Some,
        decreases v@.len() - i,
    {
        if !('0' <= v[i] && v[i] <= '9') {
            assert(crate::num::radix_digit(v@[i as int], 10) is None);
            return false;
        }
        i = i + 1;
    }
    true
}

/// Parses the key part of a chord.
pub fn parse_code(s: &str) -> (r: Result<KeyCode, Error>)
    ensures
        match r {
            Ok(k) => parse_code_spec(s@) == Some(k),
            Err(Error::InvalidKey(msg)) => parse_code_spec(s@) is None && msg@ == s@,
            Err(_) => false,
        },
{
    let lower = ascii_lowercase(s);
    let ghost lw = ascii_lower(s@);
    if let Some(k) = named_key_exec(lower.as_str()) {
        return Ok(k);
    }
    let lv = chars_of(lower.as_str());
    let sv = chars_of(s);
    if lv.len() >= 2 && lv[0] == 'f' {
        let blen = utf8_len_capped(lv.as_slice(), 3);
        let digits = slice_from(lv.as_slice(), 1);
        assert(digits@ == lw.skip(1));
        if blen <= 3 && all_decimal(digits.as_slice()) {
            match parse_unsigned_chars(digits.as_slice(), 10, 255) {
                Some(n) => {
                    if 1 <= n && n <= 24 {
                        return Ok(KeyCode::F(n as u8));
                    }
                    return Err(Error::InvalidKey(s.to_owned()));
                }
                None => {
                    return Err(Error::InvalidKey(s.to_owned()));
                }
            }
        }
    }
    if sv.len() == 1 {
        Ok(KeyCode::Char(sv[0]))
    } else {
        Err(Error::InvalidKey(s.to_owned()))
    }
}

/// The elements of `v` from `start` on.
pub fn slice_from(v: &[char], start: usize) -> (r: Vec<char>)
    requires
        start <= v@.len(),
    ensures
        r@ == v@.skip(start as int),
{
    let mut r: Vec<char> = Vec::new();
    let mut i = start;
    while i < v.len()
        invariant
            start <= i <= v@.len(),
            r@ == v@.subrange(start as int, i as int),
        decreases v@.len() - i,
    {
        r.push(v[i]);
        i = i + 1;
        assert(r@ == v@.subrange(start as int, i as int));
    }
    assert(v@.subrange(start as int, v@.len() as int) == v@.skip(start as int));
    r
}

/// Parses one chord such as `C-x`, `M-?`, `F10` or `S-Tab`.
pub fn parse_chord(s: &str) -> (r: Result<KeyChord, Error>)
    ensures
        match r {
            Ok(c) => parse_chord_spec(s@) == Ok::<KeyChord, Seq<char>>(c),
            Err(Error::InvalidKey(msg)) => parse_chord_spec(s@) == Err::<KeyChord, Seq<char>>(
                msg@,
            ),
            Err(_) => false,
        },
{
    let v = chars_of(s);
    let mut mods = KeyMods::empty();
    let mut i: usize = 0;
    assert(s@.skip(0) == s@);
    while v.len() >= 2 && i <= v.len() - 2 && v[i + 1] == '-' && (v[i] == 'C' || v[i] == 'M' || v[i] == 'S')
        invariant
            v@ == s@,
            i <= v@.len(),
            mods_prefix(s@) == (mods.union_spec(mods_prefix(s@.skip(i as int)).0), mods_prefix(
                s@.skip(i as int),
            ).1),
        decreases v@.len() - i,
    {
        let ghost t = s@.skip(i as int);
        assert(t.skip(2) == s@.skip(i + 2));
        let here = KeyMods { shift: v[i] == 'S', alt: v[i] == 'M', ctrl: v[i] == 'C' };
        mods = mods.union(here);
        i = i + 2;
    }
    let rest_chars = slice_from(v.as_slice(), i);
    let rest = string_of(rest_chars.as_slice());
    proof {
        let t = s@.skip(i as int);
        assert(!(t.len() >= 2 && t[1] == '-' && (t[0] == 'C' || t[0] == 'M' || t[0] == 'S')));
        assert(mods_prefix(t) == (KeyMods::none(), t));
        assert(mods.union_spec(KeyMods::none()) == mods);
    }
    match parse_code(rest.as_str()) {
        Ok(code) => Ok(KeyChord { code, mods }),
        Err(e) => Err(e),
    }
}

impl std::str::FromStr for KeyChord {
    type Err = Error;

    fn from_str(s: &str) -> (r: Result<KeyChord, Error>)
        ensures
            match r {
                Ok(c) => parse_chord_spec(s@) == Ok::<KeyChord, Seq<char>>(c),
                Err(Error::InvalidKey(msg)) => parse_chord_spec(s@) == Err::<KeyChord, Seq<char>>(msg@),
                Err(_) => false,
            },
    {
        parse_chord(s)
    }
}

// -- printing -------------------------------------------------------------

/// The text of a key, as mc writes it.
pub open spec fn code_text(c: KeyCode) -> Seq<char> {
    match c {
        KeyCode::Char(ch) => seq![ch],
        KeyCode::F(n) => seq!['F'] + decimal(n as nat),
        KeyCode::Enter => "Enter"@,
        KeyCode::Escape => "Esc"@,
        KeyCode::Tab => "Tab"@,
        KeyCode::BackTab => "BackTab"@,
        KeyCode::Backspace => "Backspace"@,
        KeyCode::Delete => "Delete"@,
        KeyCode::Insert => "Insert"@,
        KeyCode::Home => "Home"@,
        KeyCode::End => "End"@,
        KeyCode::PageUp => "PageUp"@,
        KeyCode::PageDown => "PageDown"@,
        KeyCode::Up => "Up"@,
        KeyCode::Down => "Down"@,
        KeyCode::Left => "Left"@,
        KeyCode::Right => "Right"@,
    }
}

/// The modifier prefixes, always in the order `C-`, `M-`, `S-`.
pub open spec fn mods_text(m: KeyMods) -> Seq<char> {
    (if m.ctrl { seq!['C', '-'] } else { Seq::<char>::empty() }) + (if m.alt {
        seq!['M', '-']
    } else {
        Seq::<char>::empty()
    }) + (if m.shift { seq!['S', '-'] } else { Seq::<char>::empty() })
}

/// The text of a chord.
pub open spec fn chord_text(c: KeyChord) -> Seq<char> {
    mods_text(c.mods) + code_text(c.code)
}

fn append_chars(out: &mut String, v: &[char])
    ensures
        final(out)@ == old(out)@ + v@,
{
    let mut i: usize = 0;
    while i < v.len()
        invariant
            i <= v@.len(),
            out@ == old(out)@ + v@.take(i as int),
        decreases v@.len() - i,
    {
        crate::text::push_char(out, v[i]);
        i = i + 1;
        assert(out@ == old(out)@ + v@.take(i as int));
    }
    assert(v@.take(v@.len() as int) == v@);
}

fn code_string(c: KeyCode) -> (r: String)
    ensures
        r@ == code_text(c),
{
    match c {
        KeyCode::Char(ch) => {
            let mut s = String::new();
            crate::text::push_char(&mut s, ch);
            s
        },
        KeyCode::F(n) => {
            let mut s = String::new();
            crate::text::push_char(&mut s, 'F');
            let d = decimal_chars(n as u64);
            append_chars(&mut s, d.as_slice());
            s
        },
        KeyCode::Enter => String::from_str("Enter"),
        KeyCode::Escape => String::from_str("Esc"),
        KeyCode::Tab => String::from_str("Tab"),
        KeyCode::BackTab => String::from_str("BackTab"),
        KeyCode::Backspace => String::from_str("Backspace"),
        KeyCode::Delete => String::from_str("Delete"),
        KeyCode::Insert => String::from_str("Insert"),
        KeyCode::Home => String::from_str("Home"),
        KeyCode::End => String::from_str("End"),
        KeyCode::PageUp => String::from_str("PageUp"),
        KeyCode::PageDown => String::from_str("PageDown"),
        KeyCode::Up => String::from_str("Up"),
        KeyCode::Down => String::from_str("Down"),
        KeyCode::Left => String::from_str("Left"),
        KeyCode::Right => String::from_str("Right"),
    }
}

impl KeyChord {
    /// The chord in mc syntax, modifiers first (`C-`, `M-`, `S-`).
    pub fn to_text(&self) -> (r: String)
        ensures
            r@ == chord_text(*self),
    {
        let mut s = String::new();
        if self.mods.ctrl {
            crate::text::push_char(&mut s, 'C');
            crate::text::push_char(&mut s, '-');
        }
        if self.mods.alt {
            crate::text::push_char(&mut s, 'M');
            crate::text::push_char(&mut s, '-');
        }
        if self.mods.shift {
            crate::text::push_char(&mut s, 'S');
            crate::text::push_char(&mut s, '-');
        }
        let c = code_string(self.code);
        s.append(c.as_str());
        assert(s@ =~= chord_text(*self));
        s
    }
}

} // verus!

verus! {

/// Chords whose printed text reads back as themselves: every chord except
/// function keys outside `F1`..`F24`.
pub open spec fn round_trips(c: KeyChord) -> bool {
    match c.code {
        KeyCode::Char(ch) => true,
        KeyCode::F(n) => 1 <= n <= 24,
        _ => true,
    }
}


/// Stripping the printed modifier prefixes gives back the modifiers and the key text.
proof fn lemma_mods_prefix_of_text(m: KeyMods, t: Seq<char>)
    requires
        !(t.len() >= 2 && t[1] == '-' && (t[0] == 'C' || t[0] == 'M' || t[0] == 'S')),
    ensures
        mods_prefix(mods_text(m) + t) == (m, t),
{
    let s_part = if m.shift { seq!['S', '-'] } else { Seq::<char>::empty() };
    let a_part = if m.alt { seq!['M', '-'] } else { Seq::<char>::empty() };
    let c_part = if m.ctrl { seq!['C', '-'] } else { Seq::<char>::empty() };
    assert(mods_prefix(t) == (KeyMods::none(), t));
    let t1 = s_part + t;
    if m.shift {
        assert(t1.skip(2) == t);
    } else {
        assert(t1 == t);
    }
    let m1 = KeyMods { shift: m.shift, alt: false, ctrl: false };
    assert(mods_prefix(t1) == (m1, t));
    let t2 = a_part + t1;
    if m.alt {
        assert(t2.skip(2) == t1);
    } else {
        assert(t2 == t1);
    }
    let m2 = KeyMods { shift: m.shift, alt: m.alt, ctrl: false };
    assert(mods_prefix(t2) == (m2, t));
    let t3 = c_part + t2;
    if m.ctrl {
        assert(t3.skip(2) == t2);
    } else {
        assert(t3 == t2);
    }
    assert(mods_prefix(t3) == (m, t));
    assert(mods_text(m) + t == t3);
}

/// Printing a chord and parsing its text gives the chord back, for every
/// chord that `round_trips` admits.
pub proof fn lemma_chord_text_round_trip(c: KeyChord)
    requires
        round_trips(c),
    ensures
        parse_chord_spec(chord_text(c)) == Ok::<KeyChord, Seq<char>>(c),
{
    let t = code_text(c.code);

    reveal_strlit("enter");
    reveal_strlit("return");
    reveal_strlit("esc");
    reveal_strlit("escape");
    reveal_strlit("tab");
    reveal_strlit("backtab");
    reveal_strlit("backspace");
    reveal_strlit("bs");
    reveal_strlit("delete");
    reveal_strlit("del");
    reveal_strlit("insert");
    reveal_strlit("ins");
    reveal_strlit("home");
    reveal_strlit("end");
    reveal_strlit("pageup");
    reveal_strlit("pgup");
    reveal_strlit("pagedown");
    reveal_strlit("pgdn");
    reveal_strlit("up");
    reveal_strlit("down");
    reveal_strlit("left");
    reveal_strlit("right");
    match c.code {
        KeyCode::Char(ch) => {
            let lower = ascii_lower(t);
            assert(lower.len() == 1);
            assert(named_key(lower) is None);
            assert(parse_code_spec(t) == Some(c.code));
        },
        KeyCode::F(n) => {
            lemma_decimal_parses(n as nat);
            lemma_decimal_len(n as nat);
            let d = decimal(n as nat);
            let lower = ascii_lower(t);
            assert forall|i: int| 0 <= i < d.len() implies '0' <= #[trigger] d[i] <= '9' by {
                assert(crate::num::radix_digit(d[i], 10) is Some);
            }
            assert(lower =~= seq!['f'] + d);
            assert(lower.skip(1) =~= d);
            assert(named_key(lower) is None);
            assert forall|i: int| 0 <= i < lower.len() implies (#[trigger] lower[i] as u32) < 0x80 by {
                if i > 0 {
                    assert(lower[i] == d[i - 1]);
                }
            }
            crate::text::lemma_utf8_len_ascii(lower);
            assert(crate::num::all_radix_digits(lower.skip(1), 10));
            assert(parse_unsigned(lower.skip(1), 10, 255) == Some(n as nat));
            assert(parse_code_spec(t) == Some(c.code));
        },
        KeyCode::Enter => {
            reveal_strlit("Enter");
            assert(ascii_lower(t) =~= "enter"@);
        },
        KeyCode::Escape => {
            reveal_strlit("Esc");
            assert(ascii_lower(t) =~= "esc"@);
        },
        KeyCode::Tab => {
            reveal_strlit("Tab");
            assert(ascii_lower(t) =~= "tab"@);
        },
        KeyCode::BackTab => {
            reveal_strlit("BackTab");
            assert(ascii_lower(t) =~= "backtab"@);
        },
        KeyCode::Backspace => {
            reveal_strlit("Backspace");
            assert(ascii_lower(t) =~= "backspace"@);
        },
        KeyCode::Delete => {
            reveal_strlit("Delete");
            assert(ascii_lower(t) =~= "delete"@);
        },
        KeyCode::Insert => {
            reveal_strlit("Insert");
            assert(ascii_lower(t) =~= "insert"@);
        },
        KeyCode::Home => {
            reveal_strlit("Home");
            assert(ascii_lower(t) =~= "home"@);
        },
        KeyCode::End => {
            reveal_strlit("End");
            assert(ascii_lower(t) =~= "end"@);
        },
        KeyCode::PageUp => {
            reveal_strlit("PageUp");
            assert(ascii_lower(t) =~= "pageup"@);
        },
        KeyCode::PageDown => {
            reveal_strlit("PageDown");
            assert(ascii_lower(t) =~= "pagedown"@);
        },
        KeyCode::Up => {
            reveal_strlit("Up");
            assert(ascii_lower(t) =~= "up"@);
        },
        KeyCode::Down => {
            reveal_strlit("Down");
            assert(ascii_lower(t) =~= "down"@);
        },
        KeyCode::Left => {
            reveal_strlit("Left");
            assert(ascii_lower(t) =~= "left"@);
        },
        KeyCode::Right => {
            reveal_strlit("Right");
            assert(ascii_lower(t) =~= "right"@);
        },
    }
    assert(parse_code_spec(t) == Some(c.code));
    lemma_mods_prefix_of_text(c.mods, t);
}

} // verus!

verus! {

/// Parses whitespace-separated words as chords; the first bad word is the error.
pub open spec fn parse_chords_spec(toks: Seq<Seq<char>>) -> Result<Seq<KeyChord>, Seq<char>>
    decreases toks.len(),
{
    if toks.len() == 0 {
        Ok(Seq::empty())
    } else {
        match parse_chord_spec(toks[0]) {
            Err(e) => Err(e),
            Ok(c) => match parse_chords_spec(toks.skip(1)) {
                Ok(rest) => Ok(seq![c] + rest),
                Err(e) => Err(e),
            },
        }
    }
}

/// The chord sequence a text names.
pub open spec fn parse_sequence_spec(s: Seq<char>) -> Result<Seq<KeyChord>, Seq<char>> {
    parse_chords_spec(crate::text::split_ws(s))
}

impl KeySequence {
    /// Parses whitespace-separated chords, e.g. `C-x C-c`.
    pub fn parse(s: &str) -> (r: Result<KeySequence, Error>)
        ensures
            match r {
                Ok(seq) => parse_sequence_spec(s@) == Ok::<Seq<KeyChord>, Seq<char>>(seq.0@),
                Err(Error::InvalidKey(msg)) => parse_sequence_spec(s@) == Err::<
                    Seq<KeyChord>,
                    Seq<char>,
                >(msg@),
                Err(_) => false,
            },
    {
        let v = chars_of(s);
        let toks = crate::text::split_whitespace(v.as_slice());
        let ghost tv = crate::text::views(toks@);
        let mut out: Vec<KeyChord> = Vec::new();
        let mut i: usize = 0;
        assert(tv.skip(0) == tv);
        while i < toks.len()
            invariant
                i <= toks@.len(),
                tv == crate::text::views(toks@),
                tv == crate::text::split_ws(s@),
                tv.len() == toks@.len(),
                parse_chords_spec(tv) == match parse_chords_spec(tv.skip(i as int)) {
                    Ok(rest) => Ok(out@ + rest),
                    Err(e) => Err(e),
                },
            decreases toks@.len() - i,
        {
            let word = string_of(toks[i].as_slice());
            let ghost t = tv.skip(i as int);
            assert(t[0] == toks@[i as int]@);
            assert(t.skip(1) == tv.skip(i + 1));
            match parse_chord(word.as_str()) {
                Ok(c) => {
                    proof {
                        match parse_chords_spec(tv.skip(i + 1)) {
                            Ok(rest) => {
                                assert(out@.push(c) + rest =~= out@ + (seq![c] + rest));
                            },
                            Err(_) => {},
                        }
                    }
                    out.push(c);
                },
                Err(e) => {
                    proof {
                        assert(word@ == t[0]);
                        match &e {
                            Error::InvalidKey(msg) => {
                                assert(parse_chords_spec(t) == Err::<Seq<KeyChord>, Seq<char>>(
                                    msg@,
                                ));
                            },
                            _ => {},
                        }
                    }
                    return Err(e);
                },
            }
            i = i + 1;
        }
        assert(tv.skip(i as int) =~= Seq::<Seq<char>>::empty());
        assert(out@ + Seq::<KeyChord>::empty() =~= out@);
        Ok(KeySequence(out))
    }
}

impl std::str::FromStr for KeySequence {
    type Err = Error;

    fn from_str(s: &str) -> (r: Result<KeySequence, Error>)
        ensures
            match r {
                Ok(seq) => parse_sequence_spec(s@) == Ok::<Seq<KeyChord>, Seq<char>>(seq.0@),
                Err(Error::InvalidKey(msg)) => parse_sequence_spec(s@) == Err::<Seq<KeyChord>, Seq<char>>(msg@),
                Err(_) => false,
            },
    {
        KeySequence::parse(s)
    }
}

} // verus!

verus! {

/// Every key name and alias parses, in any ASCII case, to the key it
/// names: `Enter`/`Return`, `Esc`/`Escape`, `Tab`, `BackTab`,
/// `Backspace`/`BS`, `Delete`/`Del`, `Insert`/`Ins`, `Home`, `End`,
/// `PageUp`/`PgUp`, `PageDown`/`PgDn` and the four arrows.
pub proof fn lemma_key_names(s: Seq<char>)
    ensures
        ascii_lower(s) == "enter"@ ==> parse_code_spec(s) == Some(KeyCode::Enter),
        ascii_lower(s) == "return"@ ==> parse_code_spec(s) == Some(KeyCode::Enter),
        ascii_lower(s) == "esc"@ ==> parse_code_spec(s) == Some(KeyCode::Escape),
        ascii_lower(s) == "escape"@ ==> parse_code_spec(s) == Some(KeyCode::Escape),
        ascii_lower(s) == "tab"@ ==> parse_code_spec(s) == Some(KeyCode::Tab),
        ascii_lower(s) == "backtab"@ ==> parse_code_spec(s) == Some(KeyCode::BackTab),
        ascii_lower(s) == "backspace"@ ==> parse_code_spec(s) == Some(KeyCode::Backspace),
        ascii_lower(s) == "bs"@ ==> parse_code_spec(s) == Some(KeyCode::Backspace),
        ascii_lower(s) == "delete"@ ==> parse_code_spec(s) == Some(KeyCode::Delete),
        ascii_lower(s) == "del"@ ==> parse_code_spec(s) == Some(KeyCode::Delete),
        ascii_lower(s) == "insert"@ ==> parse_code_spec(s) == Some(KeyCode::Insert),
        ascii_lower(s) == "ins"@ ==> parse_code_spec(s) == Some(KeyCode::Insert),
        ascii_lower(s) == "home"@ ==> parse_code_spec(s) == Some(KeyCode::Home),
        ascii_lower(s) == "end"@ ==> parse_code_spec(s) == Some(KeyCode::End),
        ascii_lower(s) == "pageup"@ ==> parse_code_spec(s) == Some(KeyCode::PageUp),
        ascii_lower(s) == "pgup"@ ==> parse_code_spec(s) == Some(KeyCode::PageUp),
        ascii_lower(s) == "pagedown"@ ==> parse_code_spec(s) == Some(KeyCode::PageDown),
        ascii_lower(s) == "pgdn"@ ==> parse_code_spec(s) == Some(KeyCode::PageDown),
        ascii_lower(s) == "up"@ ==> parse_code_spec(s) == Some(KeyCode::Up),
        ascii_lower(s) == "down"@ ==> parse_code_spec(s) == Some(KeyCode::Down),
        ascii_lower(s) == "left"@ ==> parse_code_spec(s) == Some(KeyCode::Left),
        ascii_lower(s) == "right"@ ==> parse_code_spec(s) == Some(KeyCode::Right),
{
    reveal_strlit("enter");
    reveal_strlit("return");
    reveal_strlit("esc");
    reveal_strlit("escape");
    reveal_strlit("tab");
    reveal_strlit("backtab");
    reveal_strlit("backspace");
    reveal_strlit("bs");
    reveal_strlit("delete");
    reveal_strlit("del");
    reveal_strlit("insert");
    reveal_strlit("ins");
    reveal_strlit("home");
    reveal_strlit("end");
    reveal_strlit("pageup");
    reveal_strlit("pgup");
    reveal_strlit("pagedown");
    reveal_strlit("pgdn");
    reveal_strlit("up");
    reveal_strlit("down");
    reveal_strlit("left");
    reveal_strlit("right");
    let l = ascii_lower(s);
    if l == "delete"@ {
        assert(l[0] == 'd' && l.len() == 6);
        assert(l != "enter"@ && l != "return"@ && l != "esc"@ && l != "escape"@);
        assert(l != "tab"@ && l != "backtab"@ && l != "backspace"@ && l != "bs"@);
        assert(named_key(l) == Some(KeyCode::Delete));
    }
}

/// A modifier prefix sets its own modifier: `C-` control, `M-` meta (alt),
/// `S-` shift, on top of those that follow; what follows is the key text.
pub proof fn lemma_mod_prefixes(r: Seq<char>)
    ensures
        mods_prefix(seq!['C', '-'] + r) == (KeyMods { ctrl: true, ..mods_prefix(r).0 }, mods_prefix(r).1),
        mods_prefix(seq!['M', '-'] + r) == (KeyMods { alt: true, ..mods_prefix(r).0 }, mods_prefix(r).1),
        mods_prefix(seq!['S', '-'] + r) == (KeyMods { shift: true, ..mods_prefix(r).0 }, mods_prefix(r).1),
{
    assert((seq!['C', '-'] + r).skip(2) =~= r);
    assert((seq!['M', '-'] + r).skip(2) =~= r);
    assert((seq!['S', '-'] + r).skip(2) =~= r);
}

/// `F1` to `F24`, with an upper- or lower-case `f`, name the function keys
/// of those numbers.
pub proof fn lemma_function_key_names(n: u8, f: char)
    requires
        1 <= n <= 24,
        f == 'F' || f == 'f',
    ensures
        parse_code_spec(seq![f] + decimal(n as nat)) == Some(KeyCode::F(n)),
{
    let d = decimal(n as nat);
    let s = seq![f] + d;
    lemma_decimal_parses(n as nat);
    lemma_decimal_len(n as nat);
    let lower = ascii_lower(s);
    assert forall|j: int| 0 <= j < d.len() implies crate::text::ascii_lower_char(#[trigger] d[j]) == d[j] by {
        assert(crate::num::radix_digit(d[j], 10) is Some);
    }
    assert(lower =~= seq!['f'] + d) by {
        assert forall|j: int| 0 <= j < s.len() implies #[trigger] lower[j] == (seq!['f'] + d)[j] by {
            if j > 0 {
                assert(s[j] == d[j - 1]);
            }
        }
    }
    assert(lower.skip(1) =~= d);
    assert(lower.len() == 2 || lower.len() == 3);
    assert forall|j: int| 0 <= j < lower.len() implies (#[trigger] lower[j] as u32) < 0x80 by {
        if j > 0 {
            assert(lower[j] == d[j - 1]);
            assert(crate::num::radix_digit(d[j - 1], 10) is Some);
        }
    }
    crate::text::lemma_utf8_len_ascii(lower);
    assert(named_key(lower) is None) by {
        reveal_strlit("bs");
        reveal_strlit("up");
        reveal_strlit("esc");
        reveal_strlit("tab");
        reveal_strlit("del");
        reveal_strlit("ins");
        reveal_strlit("end");
        reveal_strlit("enter");
        reveal_strlit("return");
        reveal_strlit("escape");
        reveal_strlit("backtab");
        reveal_strlit("backspace");
        reveal_strlit("delete");
        reveal_strlit("insert");
        reveal_strlit("home");
        reveal_strlit("pageup");
        reveal_strlit("pgup");
        reveal_strlit("pagedown");
        reveal_strlit("pgdn");
        reveal_strlit("down");
        reveal_strlit("left");
        reveal_strlit("right");
        assert(lower[0] == 'f');
    }
    assert(parse_unsigned(d, 10, 255) == Some(n as nat));
}

} // verus!
