//! Modal dialogs: the key handling of each dialog as a state machine, and
//! the line editing they share.

use vstd::prelude::*;

use crate::key::{KeyChord, KeyCode, KeyMods};
use crate::text::{chars_of, string_of};

pub mod confirm;
pub mod copy_move;
pub mod help;
pub mod hotlist;
pub mod input;
pub mod jobs_view;
pub mod layout;
pub mod learn_keys;
pub mod menubar;
pub mod options;
pub mod password;
pub mod progress;
pub mod theme;

verus! {

/// What a key press did to a dialog.
#[derive(Debug)]
pub enum DialogOutcome<T> {
    /// The dialog stays open.
    Open,
    /// The dialog was dismissed.
    Cancelled,
    /// The dialog was confirmed with a value.
    Submitted(T),
}

/// Modifiers that still type a character: none, or Shift alone.
pub open spec fn types_char(m: KeyMods) -> bool {
    !m.alt && !m.ctrl
}

/// Tests [`types_char`].
pub fn mods_type_char(m: KeyMods) -> (r: bool)
    ensures
        r == types_char(m),
{
    !m.alt && !m.ctrl
}

/// A list cursor moved up one row, stopping at the top.
pub open spec fn cursor_up(c: usize) -> usize {
    if c > 0 { (c - 1) as usize } else { 0 }
}

/// A list cursor moved down one row, stopping at the last of `n` rows.
pub open spec fn cursor_down(c: usize, n: nat) -> usize {
    if c + 1 < n { (c + 1) as usize } else { c }
}

/// The last row of `n`, or 0 without rows.
pub open spec fn cursor_end(n: nat) -> usize {
    if n > 0 { (n - 1) as usize } else { 0 }
}

/// The edited text and cursor after a key in a single-line editor: typing
/// inserts at the cursor, Backspace and Delete remove around it, the arrows,
/// Home and End move it. `None` for keys the editor does not take.
pub open spec fn edit_line(v: Seq<char>, cursor: nat, chord: KeyChord) -> Option<(Seq<char>, nat)> {
    match chord.code {
        KeyCode::Backspace => if cursor > 0 && cursor <= v.len() {
            Some((v.remove(cursor - 1), (cursor - 1) as nat))
        } else {
            Some((v, cursor))
        },
        KeyCode::Delete => if cursor < v.len() {
            Some((v.remove(cursor as int), cursor))
        } else {
            Some((v, cursor))
        },
        KeyCode::Left => Some((v, if cursor > 0 { (cursor - 1) as nat } else { 0 })),
        KeyCode::Right => Some((v, if cursor < v.len() { cursor + 1 } else { cursor })),
        KeyCode::Home => Some((v, 0)),
        KeyCode::End => Some((v, v.len())),
        KeyCode::Char(c) => if types_char(chord.mods) && cursor <= v.len() {
            Some((v.insert(cursor as int, c), cursor + 1))
        } else {
            None
        },
        _ => None,
    }
}

/// Applies [`edit_line`] to a text and cursor; `false` when the key is not
/// an editing key (nothing changes then).
pub fn apply_edit(value: &mut String, cursor: &mut usize, chord: KeyChord) -> (r: bool)
    requires
        *old(cursor) <= old(value)@.len(),
    ensures
        match edit_line(old(value)@, *old(cursor) as nat, chord) {
            Some((v, c)) => r && final(value)@ == v && *final(cursor) == c,
            None => !r && final(value)@ == old(value)@ && *final(cursor) == *old(cursor),
        },
        *final(cursor) <= final(value)@.len(),
{
    let ghost v0 = value@;
    match chord.code {
        KeyCode::Backspace => {
            if *cursor > 0 {
                let mut chars = chars_of(value.as_str());
                chars.remove(*cursor - 1);
                *value = string_of(chars.as_slice());
                *cursor = *cursor - 1;
            }
            true
        },
        KeyCode::Delete => {
            let mut chars = chars_of(value.as_str());
            if *cursor < chars.len() {
                chars.remove(*cursor);
                *value = string_of(chars.as_slice());
            }
            true
        },
        KeyCode::Left => {
            if *cursor > 0 {
                *cursor = *cursor - 1;
            }
            true
        },
        KeyCode::Right => {
            let len = value.as_str().unicode_len();
            if *cursor < len {
                *cursor = *cursor + 1;
            }
            true
        },
        KeyCode::Home => {
            *cursor = 0;
            true
        },
        KeyCode::End => {
            *cursor = value.as_str().unicode_len();
            true
        },
        KeyCode::Char(c) => {
            if mods_type_char(chord.mods) {
                let mut chars = chars_of(value.as_str());
                chars.insert(*cursor, c);
                let n = chars.len();
                assert(*cursor < n);
                *value = string_of(chars.as_slice());
                *cursor = *cursor + 1;
                true
            } else {
                false
            }
        },
        _ => false,
    }
}

} // verus!

verus! {

/// A screen rectangle in cells.
#[derive(Debug, Clone, Copy, PartialEq, Eq, Structural)]
pub struct Rect {
    pub x: u16,
    pub y: u16,
    pub width: u16,
    pub height: u16,
}

/// Whether a rectangle stays within the screen coordinates.
pub open spec fn rect_fits(r: Rect) -> bool {
    r.x + r.width <= u16::MAX && r.y + r.height <= u16::MAX
}

/// A `width` by `height` rectangle (each cut to the area) centred in `area`.
pub open spec fn centered_spec(width: u16, height: u16, area: Rect) -> Rect {
    let w = if width < area.width { width } else { area.width };
    let h = if height < area.height { height } else { area.height };
    Rect { x: (area.x + (area.width - w) / 2) as u16, y: (area.y + (area.height - h) / 2) as u16, width: w, height: h }
}

/// Centres a `width` by `height` rectangle inside `area`.
pub fn centered_rect(width: u16, height: u16, area: Rect) -> (r: Rect)
    requires
        rect_fits(area),
    ensures
        r == centered_spec(width, height, area),
        rect_fits(r),
{
    let w = if width < area.width { width } else { area.width };
    let h = if height < area.height { height } else { area.height };
    Rect { x: area.x + (area.width - w) / 2, y: area.y + (area.height - h) / 2, width: w, height: h }
}

/// What a mouse event was.
#[derive(Debug, Clone, Copy, PartialEq, Eq, Structural)]
pub enum MouseKind {
    LeftDown,
    RightDown,
    ScrollUp,
    ScrollDown,
    Other,
}

/// A mouse event at a cell.
#[derive(Debug, Clone, Copy, PartialEq, Eq, Structural)]
pub struct MouseEvent {
    pub kind: MouseKind,
    pub column: u16,
    pub row: u16,
}

/// Whether the event's cell lies in the rectangle.
pub open spec fn inside(ev: MouseEvent, r: Rect) -> bool {
    r.x <= ev.column < r.x + r.width && r.y <= ev.row < r.y + r.height
}

/// Tests [`inside`].
pub fn is_inside(ev: MouseEvent, r: Rect) -> (b: bool)
    requires
        rect_fits(r),
    ensures
        b == inside(ev, r),
{
    ev.column >= r.x && ev.column < r.x + r.width && ev.row >= r.y && ev.row < r.y + r.height
}

} // verus!

