//! Skin files: a base theme by name plus per-field color overrides, and the
//! color syntax they are written in (`#rrggbb`, `#rgb`, `reset`, `default`).

use vstd::prelude::*;

use crate::config::scheme::{apply_override, apply_override_spec, theme_by_name, ColorScheme, modern_dark_palette};
use crate::num::{all_radix_digits, radix_digit};
use crate::text::{
    append_chars, append_str, ascii_lower, chars_eq, chars_of,
    lemma_utf8_len_front, push_char, string_of, sub_chars, trim_chars, trim_ws, utf8_len, utf8_len_capped,
};

verus! {

/// 24-bit RGB color, or "use the terminal's default".
#[derive(Debug, Clone, Copy, PartialEq, Eq, Hash, Structural)]
pub enum ThemeColor {
    Rgb(u8, u8, u8),
    Reset,
}

impl ThemeColor {
    /// An RGB color.
    pub fn rgb(r: u8, g: u8, b: u8) -> (c: Self)
        ensures
            c == ThemeColor::Rgb(r, g, b),
    {
        ThemeColor::Rgb(r, g, b)
    }
}

/// The message `u8::from_str_radix` gives for a malformed number.
pub open spec fn invalid_digit_msg() -> Seq<char> {
    "invalid digit found in string"@
}

/// `color '<s>' must be #rrggbb, #rgb, or 'reset'`
pub open spec fn no_hash_msg(s: Seq<char>) -> Seq<char> {
    "color '"@ + s + "' must be #rrggbb, #rgb, or 'reset'"@
}

/// `color '<s>' must be #rrggbb or #rgb`
pub open spec fn bad_len_msg(s: Seq<char>) -> Seq<char> {
    "color '"@ + s + "' must be #rrggbb or #rgb"@
}

/// `invalid hex digit '<c>'`
pub open spec fn bad_nibble_msg(c: char) -> Seq<char> {
    "invalid hex digit '"@ + seq![c] + "'"@
}

/// A hex digit doubled into a byte (`f` is `0xff`).
pub open spec fn nibble_byte(c: char) -> u8 {
    (radix_digit(c, 16).unwrap() * 17) as u8
}

/// The text after `#` in a trimmed color string.
pub open spec fn hex_part(s: Seq<char>) -> Seq<char> {
    trim_ws(s).skip(1)
}

/// Whether the color string names the terminal default.
pub open spec fn is_reset_word(s: Seq<char>) -> bool {
    ascii_lower(trim_ws(s)) == "reset"@ || ascii_lower(trim_ws(s)) == "default"@
}

/// Whether the trimmed color string starts with `#`.
pub open spec fn has_hash(s: Seq<char>) -> bool {
    trim_ws(s).len() > 0 && trim_ws(s)[0] == '#'
}

/// Two hex digits as one byte: the first is the high nibble.
pub open spec fn hex_pair(a: char, b: char) -> u8 {
    (radix_digit(a, 16).unwrap() * 16 + radix_digit(b, 16).unwrap()) as u8
}

/// The six-byte form: exactly six hex digits, read as three pairs; any
/// other six-byte text (a sign, a non-digit, a wider character) is an
/// invalid digit.
pub open spec fn parse_six(h: Seq<char>) -> Result<ThemeColor, Seq<char>> {
    if h.len() == 6 && all_radix_digits(h, 16) {
        Ok(ThemeColor::Rgb(hex_pair(h[0], h[1]), hex_pair(h[2], h[3]), hex_pair(h[4], h[5])))
    } else {
        Err(invalid_digit_msg())
    }
}

/// The three-byte form: three hex digits, each doubled.
pub open spec fn parse_three(h: Seq<char>) -> Result<ThemeColor, Seq<char>> {
    if radix_digit(h[0], 16) is None {
        Err(bad_nibble_msg(h[0]))
    } else if radix_digit(h[1], 16) is None {
        Err(bad_nibble_msg(h[1]))
    } else if radix_digit(h[2], 16) is None {
        Err(bad_nibble_msg(h[2]))
    } else {
        Ok(ThemeColor::Rgb(nibble_byte(h[0]), nibble_byte(h[1]), nibble_byte(h[2])))
    }
}

/// What `parse_color` gives for a string.
pub open spec fn parse_color_spec(s: Seq<char>) -> Result<ThemeColor, Seq<char>> {
    if is_reset_word(s) {
        Ok(ThemeColor::Reset)
    } else if !has_hash(s) {
        Err(no_hash_msg(s))
    } else if utf8_len(hex_part(s)) == 6 {
        parse_six(hex_part(s))
    } else if utf8_len(hex_part(s)) == 3 {
        parse_three(hex_part(s))
    } else {
        Err(bad_len_msg(s))
    }
}

fn hex_value(c: char) -> (r: Option<u8>)
    ensures
        match r {
            Some(v) => radix_digit(c, 16) == Some(v as nat),
            None => radix_digit(c, 16) is None,
        },
{
    if '0' <= c && c <= '9' {
        Some((c as u32 - '0' as u32) as u8)
    } else if 'a' <= c && c <= 'f' {
        Some((c as u32 - 'a' as u32 + 10) as u8)
    } else if 'A' <= c && c <= 'F' {
        Some((c as u32 - 'A' as u32 + 10) as u8)
    } else {
        None
    }
}

fn nibble(h: &Vec<char>, i: usize) -> (r: Result<u8, String>)
    requires
        i < h@.len(),
    ensures
        match r {
            Ok(v) => radix_digit(h@[i as int], 16) is Some && v == nibble_byte(h@[i as int]),
            Err(m) => radix_digit(h@[i as int], 16) is None && m@ == bad_nibble_msg(h@[i as int]),
        },
{
    match hex_value(h[i]) {
        Some(v) => Ok(v * 17),
        None => {
            let mut m = String::from_str("invalid hex digit '");
            push_char(&mut m, h[i]);
            append_str(&mut m, "'");
            Err(m)
        },
    }
}

fn six_form(h: &Vec<char>) -> (r: Result<ThemeColor, String>)
    ensures
        match r {
            Ok(c) => parse_six(h@) == Ok::<ThemeColor, Seq<char>>(c),
            Err(m) => parse_six(h@) == Err::<ThemeColor, Seq<char>>(m@),
        },
{
    if h.len() != 6 {
        return Err(String::from_str("invalid digit found in string"));
    }
    let mut d: Vec<u8> = Vec::new();
    let mut i: usize = 0;
    while i < 6
        invariant
            i <= 6,
            h@.len() == 6,
            d@.len() == i,
            forall|k: int| 0 <= k < i ==> radix_digit(#[trigger] h@[k], 16) == Some(d@[k] as nat),
        decreases 6 - i,
    {
        match hex_value(h[i]) {
            Some(v) => d.push(v),
            None => {
                assert(!all_radix_digits(h@, 16));
                return Err(String::from_str("invalid digit found in string"));
            },
        }
        i = i + 1;
    }
    assert(all_radix_digits(h@, 16));
    assert(forall|k: int| 0 <= k < 6 ==> d@[k] < 16) by {
        assert forall|k: int| 0 <= k < 6 implies d@[k] < 16 by {
            assert(radix_digit(h@[k], 16) == Some(d@[k] as nat));
        }
    }
    Ok(ThemeColor::Rgb(d[0] * 16 + d[1], d[2] * 16 + d[3], d[4] * 16 + d[5]))
}

fn three_form(h: &Vec<char>) -> (r: Result<ThemeColor, String>)
    requires
        utf8_len(h@) == 3,
    ensures
        match r {
            Ok(c) => parse_three(h@) == Ok::<ThemeColor, Seq<char>>(c),
            Err(m) => parse_three(h@) == Err::<ThemeColor, Seq<char>>(m@),
        },
{
    let ghost hv = h@;
    proof {
        lemma_utf8_len_front(hv);
    }
    let r = match nibble(h, 0) {
        Ok(v) => v,
        Err(m) => return Err(m),
    };
    proof {
        lemma_utf8_len_front(hv.skip(1));
        assert(hv.skip(1)[0] == hv[1]);
    }
    let g = match nibble(h, 1) {
        Ok(v) => v,
        Err(m) => return Err(m),
    };
    proof {
        assert(hv.skip(1).skip(1) == hv.skip(2));
        lemma_utf8_len_front(hv.skip(2));
    }
    let b = match nibble(h, 2) {
        Ok(v) => v,
        Err(m) => return Err(m),
    };
    Ok(ThemeColor::Rgb(r, g, b))
}

/// Parse a color string. Accepts `#rrggbb`, `#rgb`, or `reset`/`default`
/// (any ASCII case), with surrounding whitespace ignored.
pub fn parse_color(s: &str) -> (r: Result<ThemeColor, String>)
    ensures
        match r {
            Ok(c) => parse_color_spec(s@) == Ok::<ThemeColor, Seq<char>>(c),
            Err(m) => parse_color_spec(s@) == Err::<ThemeColor, Seq<char>>(m@),
        },
{
    let sv = chars_of(s);
    let t = trim_chars(sv.as_slice());
    let ts = string_of(t.as_slice());
    let lower = crate::text::ascii_lowercase(ts.as_str());
    let lv = chars_of(lower.as_str());
    let reset_v = chars_of("reset");
    let default_v = chars_of("default");
    if chars_eq(lv.as_slice(), reset_v.as_slice()) || chars_eq(lv.as_slice(), default_v.as_slice()) {
        return Ok(ThemeColor::Reset);
    }
    if t.len() == 0 || t[0] != '#' {
        let mut m = String::from_str("color '");
        append_str(&mut m, s);
        append_str(&mut m, "' must be #rrggbb, #rgb, or 'reset'");
        return Err(m);
    }
    let hex = sub_chars(t.as_slice(), 1, t.len());
    assert(hex@ == hex_part(s@));
    let n = utf8_len_capped(hex.as_slice(), 7);
    if n == 6 {
        six_form(&hex)
    } else if n == 3 {
        three_form(&hex)
    } else {
        let mut m = String::from_str("color '");
        append_str(&mut m, s);
        append_str(&mut m, "' must be #rrggbb or #rgb");
        Err(m)
    }
}

/// A skin file: base theme name plus `(field, color)` overrides. A field
/// appears at most once among the overrides when they are set through
/// [`SkinFile::set_color`].
#[derive(Debug, Clone)]
pub struct SkinFile {
    pub theme: String,
    pub colors: Vec<(String, String)>,
}

impl View for SkinFile {
    type V = (Seq<char>, Seq<(Seq<char>, Seq<char>)>);

    open spec fn view(&self) -> (Seq<char>, Seq<(Seq<char>, Seq<char>)>) {
        (self.theme@, self.colors@.map_values(|p: (String, String)| (p.0@, p.1@)))
    }
}

impl Default for SkinFile {
    fn default() -> (r: Self)
        ensures
            r@.0 == "modern-dark"@,
            r@.1.len() == 0,
    {
        SkinFile { theme: String::from_str("modern-dark"), colors: Vec::new() }
    }
}

/// Applying the overrides in order: the scheme so far and the warnings so far.
pub open spec fn apply_all(
    scheme: Seq<ThemeColor>,
    warnings: Seq<Seq<char>>,
    overrides: Seq<(Seq<char>, Seq<char>)>,
) -> (Seq<ThemeColor>, Seq<Seq<char>>)
    decreases overrides.len(),
{
    if overrides.len() == 0 {
        (scheme, warnings)
    } else {
        let (k, v) = overrides.last();
        let (s, w) = apply_all(scheme, warnings, overrides.drop_last());
        match apply_override_spec(s, k, v) {
            Ok(s2) => (s2, w),
            Err(m) => (s, w.push("skin: "@ + m)),
        }
    }
}

/// `skin: unknown theme '<name>', falling back to 'modern-dark'`
pub open spec fn unknown_theme_msg(name: Seq<char>) -> Seq<char> {
    "skin: unknown theme '"@ + name + "', falling back to 'modern-dark'"@
}

/// What `resolve` gives: the named base theme (or the default with a
/// warning), then every override in order.
pub open spec fn resolve_spec(skin: (Seq<char>, Seq<(Seq<char>, Seq<char>)>)) -> (Seq<ThemeColor>, Seq<Seq<char>>) {
    match theme_by_name(skin.0) {
        Some(base) => apply_all(base@, seq![], skin.1),
        None => apply_all(modern_dark_palette()@, seq![unknown_theme_msg(skin.0)], skin.1),
    }
}

/// Index of the override for `key`, or -1.
pub open spec fn override_index(colors: Seq<(Seq<char>, Seq<char>)>, key: Seq<char>) -> int {
    if exists|i: int| 0 <= i < colors.len() && colors[i].0 == key {
        choose|i: int| 0 <= i < colors.len() && colors[i].0 == key
    } else {
        -1
    }
}

/// Whether no field appears twice among the overrides.
pub open spec fn keys_unique(colors: Seq<(Seq<char>, Seq<char>)>) -> bool {
    forall|i: int, j: int| 0 <= i < j < colors.len() ==> colors[i].0 != colors[j].0
}

impl SkinFile {
    /// Sets the override for a field, replacing an earlier one for it.
    pub fn set_color(&mut self, key: String, value: String)
        ensures
            final(self)@.0 == old(self)@.0,
            keys_unique(old(self)@.1) ==> keys_unique(final(self)@.1),
            (exists|i: int| 0 <= i < old(self)@.1.len() && old(self)@.1[i].0 == key@) ==> (
                exists|i: int| 0 <= i < old(self)@.1.len() && old(self)@.1[i].0 == key@
                    && final(self)@.1 == old(self)@.1.update(i, (key@, value@))),
            !(exists|i: int| 0 <= i < old(self)@.1.len() && old(self)@.1[i].0 == key@)
                ==> final(self)@.1 == old(self)@.1.push((key@, value@)),
    {
        let mut i: usize = 0;
        while i < self.colors.len()
            invariant
                i <= self.colors@.len(),
                self@ == old(self)@,
                forall|q: int| 0 <= q < i ==> old(self)@.1[q].0 != key@,
            decreases self.colors@.len() - i,
        {
            if crate::text::str_eq(self.colors[i].0.as_str(), key.as_str()) {
                let ghost before = self@.1;
                let ghost kv = key@;
                self.colors.set(i, (key, value));
                assert(self@.1 =~= before.update(i as int, (kv, self@.1[i as int].1)));
                assert(forall|q: int| 0 <= q < before.len() ==> (#[trigger] self@.1[q]).0 == before[q].0);
                return;
            }
            i = i + 1;
        }
        let ghost before = self@.1;
        let ghost kv = key@;
        let ghost vv = value@;
        self.colors.push((key, value));
        assert(self@.1 =~= before.push((kv, vv)));
    }

    /// Resolve to a concrete [`ColorScheme`]: pick the named base theme,
    /// then apply the per-field overrides in order. A bad theme name falls
    /// back to the default; unknown fields and unparseable values are
    /// skipped, each with a warning.
    pub fn resolve(&self) -> (r: (ColorScheme, Vec<String>))
        ensures
            (r.0@, r.1@.map_values(|w: String| w@)) == resolve_spec(self@),
    {
        let mut warnings: Vec<String> = Vec::new();
        let mut scheme = match ColorScheme::from_named(self.theme.as_str()) {
            Some(s) => s,
            None => {
                let mut m = String::from_str("skin: unknown theme '");
                append_str(&mut m, self.theme.as_str());
                append_str(&mut m, "', falling back to 'modern-dark'");
                warnings.push(m);
                assert(warnings@.map_values(|w: String| w@) =~= seq![unknown_theme_msg(self@.0)]);
                ColorScheme::modern_dark()
            },
        };
        let ghost base = scheme@;
        let ghost w0 = warnings@.map_values(|w: String| w@);
        assert(theme_by_name(self@.0) is Some ==> w0 =~= Seq::<Seq<char>>::empty());
        assert(self@.1.take(0) =~= Seq::<(Seq<char>, Seq<char>)>::empty());
        let mut i: usize = 0;
        while i < self.colors.len()
            invariant
                i <= self.colors@.len(),
                (scheme@, warnings@.map_values(|w: String| w@)) == apply_all(base, w0, self@.1.take(i as int)),
            decreases self.colors@.len() - i,
        {
            let ghost prev = warnings@.map_values(|w: String| w@);
            assert(self@.1[i as int] == (self.colors@[i as int].0@, self.colors@[i as int].1@));
            let res = apply_override(&mut scheme, self.colors[i].0.as_str(), self.colors[i].1.as_str());
            match res {
                Ok(()) => {},
                Err(msg) => {
                    let mut m = String::from_str("skin: ");
                    append_str(&mut m, msg.as_str());
                    warnings.push(m);
                    assert(warnings@.map_values(|w: String| w@) =~= prev.push("skin: "@ + msg@));
                },
            }
            assert(self@.1.take(i + 1).drop_last() =~= self@.1.take(i as int));
            i = i + 1;
        }
        assert(self@.1.take(self.colors@.len() as int) =~= self@.1);
        (scheme, warnings)
    }
}

} // verus!


verus! {

/// A text has at least as many bytes as characters.
proof fn lemma_utf8_len_at_least(s: Seq<char>)
    ensures
        utf8_len(s) >= s.len(),
    decreases s.len(),
{
    if s.len() > 0 {
        lemma_utf8_len_at_least(s.drop_last());
    }
}

/// A hex digit is an ASCII character.
proof fn lemma_hex_digit_ascii(c: char)
    requires
        radix_digit(c, 16) is Some,
    ensures
        (c as u32) < 0x80,
{
}

/// A trimmed text that starts with `#` is not a reset word.
proof fn lemma_hash_not_reset(s: Seq<char>)
    requires
        has_hash(s),
    ensures
        !is_reset_word(s),
{
    reveal_strlit("reset");
    reveal_strlit("default");
    let t = trim_ws(s);
    assert(ascii_lower(t)[0] == crate::text::ascii_lower_char(t[0]));
}

/// The colour forms: after trimming, `reset` or `default` in any ASCII
/// case is the terminal's default; `#` and six hex digits is the colour of
/// the three digit pairs; `#` and three hex digits is the colour of the
/// three digits, each doubled; nothing else is a colour.
pub proof fn lemma_parse_color_forms(s: Seq<char>)
    ensures
        is_reset_word(s) ==> parse_color_spec(s) == Ok::<ThemeColor, Seq<char>>(ThemeColor::Reset),
        ({
            let h = hex_part(s);
            has_hash(s) && h.len() == 6 && all_radix_digits(h, 16) ==> parse_color_spec(s) == Ok::<ThemeColor, Seq<char>>(
                ThemeColor::Rgb(hex_pair(h[0], h[1]), hex_pair(h[2], h[3]), hex_pair(h[4], h[5])),
            )
        }),
        ({
            let h = hex_part(s);
            has_hash(s) && h.len() == 3 && all_radix_digits(h, 16) ==> parse_color_spec(s) == Ok::<ThemeColor, Seq<char>>(
                ThemeColor::Rgb(nibble_byte(h[0]), nibble_byte(h[1]), nibble_byte(h[2])),
            )
        }),
        parse_color_spec(s) is Ok ==> is_reset_word(s) || (has_hash(s) && (hex_part(s).len() == 6 || hex_part(s).len() == 3)
            && all_radix_digits(hex_part(s), 16)),
{
    let h = hex_part(s);
    lemma_utf8_len_at_least(h);
    if has_hash(s) {
        lemma_hash_not_reset(s);
        if all_radix_digits(h, 16) {
            assert forall|i: int| 0 <= i < h.len() implies (#[trigger] h[i] as u32) < 0x80 by {
                assert(radix_digit(h[i], 16) is Some);
                lemma_hex_digit_ascii(h[i]);
            }
            crate::text::lemma_utf8_len_ascii(h);
        }
        if parse_color_spec(s) is Ok && utf8_len(h) == 3 {
            assert(h.len() <= 3);
            assert forall|i: int| 0 <= i < h.len() implies (#[trigger] h[i] as u32) < 0x80 by {
                assert(radix_digit(h[i], 16) is Some);
                lemma_hex_digit_ascii(h[i]);
            }
            crate::text::lemma_utf8_len_ascii(h);
            assert(h.len() == 3);
            assert forall|i: int| 0 <= i < h.len() implies (#[trigger] radix_digit(h[i], 16)) is Some by {
            }
        }
    }
}

} // verus!

verus! {

/// Whether the override at `i` fails when it is applied, that is, on the
/// colours the earlier overrides left.
pub open spec fn override_fails(scheme: Seq<ThemeColor>, o: Seq<(Seq<char>, Seq<char>)>, i: int) -> bool {
    apply_override_spec(apply_all(scheme, seq![], o.take(i)).0, o[i].0, o[i].1) is Err
}

/// How many of the first `n` overrides fail.
pub open spec fn failure_count(scheme: Seq<ThemeColor>, o: Seq<(Seq<char>, Seq<char>)>, n: nat) -> nat
    decreases n,
{
    if n == 0 {
        0
    } else {
        failure_count(scheme, o, (n - 1) as nat) + if override_fails(scheme, o, n - 1) { 1nat } else { 0nat }
    }
}

/// The colours after the overrides do not depend on the warnings so far.
proof fn lemma_apply_all_colors(scheme: Seq<ThemeColor>, w: Seq<Seq<char>>, o: Seq<(Seq<char>, Seq<char>)>)
    ensures
        apply_all(scheme, w, o).0 == apply_all(scheme, seq![], o).0,
    decreases o.len(),
{
    if o.len() > 0 {
        lemma_apply_all_colors(scheme, w, o.drop_last());
    }
}

/// The warning `x` names the field of an override that fails.
pub open spec fn names_failing(x: Seq<char>, scheme: Seq<ThemeColor>, o: Seq<(Seq<char>, Seq<char>)>) -> bool {
    exists|i: int| 0 <= i < o.len() && override_fails(scheme, o, i) && crate::commander::has_infix(x, o[i].0)
}

/// Applying overrides keeps the earlier warnings and adds one per failing
/// override, in order, each naming the field it was for.
pub proof fn lemma_apply_all_warnings(scheme: Seq<ThemeColor>, w: Seq<Seq<char>>, o: Seq<(Seq<char>, Seq<char>)>)
    ensures
        apply_all(scheme, w, o).1.len() == w.len() + failure_count(scheme, o, o.len()),
        apply_all(scheme, w, o).1.take(w.len() as int) == w,
        forall|j: int|
            w.len() <= j < apply_all(scheme, w, o).1.len() ==> names_failing(#[trigger] apply_all(scheme, w, o).1[j], scheme, o),
    decreases o.len(),
{
    if o.len() > 0 {
        let d = o.drop_last();
        let n = o.len() - 1;
        lemma_apply_all_warnings(scheme, w, d);
        lemma_apply_all_colors(scheme, w, d);
        assert(o.take(n) =~= d);
        let prev = apply_all(scheme, w, d);
        let (k, v) = o.last();
        crate::config::scheme::lemma_apply_override_law(prev.0, k, v);
        assert forall|i: int| 0 <= i < n implies #[trigger] override_fails(scheme, o, i) == override_fails(scheme, d, i) by {
            assert(o.take(i) =~= d.take(i));
            assert(o[i] == d[i]);
        }
        assert forall|m: nat| m <= n implies #[trigger] failure_count(scheme, o, m) == failure_count(scheme, d, m) by {
            lemma_failure_count_prefix(scheme, o, d, m);
        }
        lemma_failure_count_prefix(scheme, o, d, n as nat);
        assert(failure_count(scheme, o, n as nat) == failure_count(scheme, d, d.len()));
        assert(apply_all(scheme, seq![], o.take(n)).0 == prev.0);
        assert(o[n] == (k, v));
        let cur = apply_all(scheme, w, o);
        assert(cur == match apply_override_spec(prev.0, k, v) {
            Ok(s2) => (s2, prev.1),
            Err(m) => (prev.0, prev.1.push("skin: "@ + m)),
        });
        match apply_override_spec(prev.0, k, v) {
            Ok(_) => {
                assert(!override_fails(scheme, o, n));
                assert(cur.1 == prev.1);
                assert forall|j: int| w.len() <= j < cur.1.len() implies names_failing(#[trigger] cur.1[j], scheme, o) by {
                    assert(names_failing(prev.1[j], scheme, d));
                    let i = choose|i: int| 0 <= i < d.len() && override_fails(scheme, d, i) && crate::commander::has_infix(prev.1[j], d[i].0);
                    assert(o[i] == d[i]);
                    assert(override_fails(scheme, o, i));
                }
            },
            Err(m) => {
                reveal_strlit("skin: ");
                assert(cur.1 == prev.1.push("skin: "@ + m));
                assert(cur.1.take(w.len() as int) =~= prev.1.take(w.len() as int));
                assert(override_fails(scheme, o, n));
                assert forall|j: int| w.len() <= j < cur.1.len() implies names_failing(#[trigger] cur.1[j], scheme, o) by {
                    if j < prev.1.len() {
                        assert(cur.1[j] == prev.1[j]);
                        assert(names_failing(prev.1[j], scheme, d));
                        let i = choose|i: int| 0 <= i < d.len() && override_fails(scheme, d, i) && crate::commander::has_infix(prev.1[j], d[i].0);
                        assert(o[i] == d[i]);
                        assert(override_fails(scheme, o, i));
                    } else {
                        let p = "skin: "@ + m;
                        let q = choose|q: int| 0 <= q && q + k.len() <= m.len() && #[trigger] m.subrange(q, q + k.len()) == k;
                        assert(p.subrange(6 + q, 6 + q + k.len()) =~= m.subrange(q, q + k.len()));
                        assert(crate::commander::has_infix(p, k));
                        assert(o[n].0 == k);
                        assert(cur.1[j] == p);
                        assert(override_fails(scheme, o, n) && crate::commander::has_infix(cur.1[j], o[n].0));
                    }
                }
            },
        }
    }
}

proof fn lemma_failure_count_prefix(
    scheme: Seq<ThemeColor>,
    o: Seq<(Seq<char>, Seq<char>)>,
    d: Seq<(Seq<char>, Seq<char>)>,
    m: nat,
)
    requires
        d.len() <= o.len(),
        m <= d.len(),
        forall|i: int| 0 <= i < d.len() ==> #[trigger] override_fails(scheme, o, i) == override_fails(scheme, d, i),
    ensures
        failure_count(scheme, o, m) == failure_count(scheme, d, m),
    decreases m,
{
    if m > 0 {
        lemma_failure_count_prefix(scheme, o, d, (m - 1) as nat);
        assert(override_fails(scheme, o, m - 1) == override_fails(scheme, d, m - 1));
    }
}

/// Resolving a skin: the base theme by name, or the default with a
/// warning first; then every override in order, each failing one skipped
/// with a warning that names its field.
pub proof fn lemma_resolve_law(skin: (Seq<char>, Seq<(Seq<char>, Seq<char>)>))
    ensures
        ({
            let base = match theme_by_name(skin.0) {
                Some(b) => b@,
                None => modern_dark_palette()@,
            };
            let w0: Seq<Seq<char>> = if theme_by_name(skin.0) is Some { seq![] } else { seq![unknown_theme_msg(skin.0)] };
            let r = resolve_spec(skin);
            &&& r == apply_all(base, w0, skin.1)
            &&& r.1.len() == w0.len() + failure_count(base, skin.1, skin.1.len())
            &&& r.1.take(w0.len() as int) == w0
            &&& forall|j: int| w0.len() <= j < r.1.len() ==> names_failing(#[trigger] r.1[j], base, skin.1)
        }),
{
    let base = match theme_by_name(skin.0) {
        Some(b) => b@,
        None => modern_dark_palette()@,
    };
    let w0: Seq<Seq<char>> = if theme_by_name(skin.0) is Some { seq![] } else { seq![unknown_theme_msg(skin.0)] };
    lemma_apply_all_warnings(base, w0, skin.1);
}

} // verus!
