//! Copying text out: the terminal escape that carries it (OSC 52), and which
//! way of copying is reported.

use vstd::prelude::*;

use crate::text::{append_str, str_bytes};

verus! {

/// The base64 digit for a value below 64.
pub open spec fn b64_digit(v: int) -> char {
    if v < 26 {
        (('A' as int) + v) as char
    } else if v < 52 {
        (('a' as int) + v - 26) as char
    } else if v < 62 {
        (('0' as int) + v - 52) as char
    } else if v == 62 {
        '+'
    } else {
        '/'
    }
}

/// Standard base64 with `=` padding: each three bytes become four digits.
pub open spec fn base64_spec(bs: Seq<u8>) -> Seq<char>
    decreases bs.len(),
{
    if bs.len() == 0 {
        Seq::empty()
    } else if bs.len() == 1 {
        seq![b64_digit(bs[0] as int / 4), b64_digit((bs[0] as int % 4) * 16), '=', '=']
    } else if bs.len() == 2 {
        seq![b64_digit(bs[0] as int / 4), b64_digit((bs[0] as int % 4) * 16 + bs[1] as int / 16), b64_digit((bs[1] as int % 16) * 4), '=']
    } else {
        seq![
            b64_digit(bs[0] as int / 4),
            b64_digit((bs[0] as int % 4) * 16 + bs[1] as int / 16),
            b64_digit((bs[1] as int % 16) * 4 + bs[2] as int / 64),
            b64_digit(bs[2] as int % 64),
        ] + base64_spec(bs.skip(3))
    }
}

/// Encodes the UTF-8 bytes of a text with `base64`'s standard engine, which
/// writes standard base64 with padding as `base64_spec` states.
#[verifier::external_body]
fn base64_encode(text: &str) -> (r: String)
    requires
        str_bytes(text@).len() < 3 * (usize::MAX as int / 4),
    ensures
        r@ == base64_spec(str_bytes(text@)),
{
    base64::Engine::encode(&base64::engine::general_purpose::STANDARD, text)
}

/// The OSC 52 escape that asks the terminal to put a text on its clipboard.
pub open spec fn osc52_spec(text: Seq<char>) -> Seq<char> {
    "\x1b]52;c;"@ + base64_spec(str_bytes(text)) + "\x1b\\"@
}

/// Builds the OSC 52 escape for a text.
pub fn osc52_sequence(text: &str) -> (r: String)
    requires
        str_bytes(text@).len() < 3 * (usize::MAX as int / 4),
    ensures
        r@ == osc52_spec(text@),
{
    let encoded = base64_encode(text);
    let mut s = String::from_str("\x1b]52;c;");
    append_str(&mut s, encoded.as_str());
    append_str(&mut s, "\x1b\\");
    s
}

/// Which way of copying is reported: the system clipboard when it took the
/// text, else the terminal escape when it was written, else none.
pub open spec fn copy_outcome_spec(system_ok: bool, osc52_ok: bool) -> Option<Seq<char>> {
    if system_ok {
        Some("clipboard"@)
    } else if osc52_ok {
        Some("OSC52"@)
    } else {
        None
    }
}

/// Names the way of copying that worked, for the status line.
pub fn copy_outcome(system_ok: bool, osc52_ok: bool) -> (r: Option<&'static str>)
    ensures
        match r {
            Some(s) => copy_outcome_spec(system_ok, osc52_ok) == Some(s@),
            None => copy_outcome_spec(system_ok, osc52_ok) is None,
        },
{
    if system_ok {
        Some("clipboard")
    } else if osc52_ok {
        Some("OSC52")
    } else {
        None
    }
}

} // verus!
