//! Theme picker.

use vstd::prelude::*;

use crate::config::scheme::ColorScheme;
use crate::dialog::{
    centered_rect, centered_spec, cursor_down, cursor_end, cursor_up, inside, is_inside, rect_fits, DialogOutcome,
    MouseEvent, MouseKind, Rect,
};
use crate::key::{KeyChord, KeyCode};
use crate::text::ascii_lower;

verus! {

/// The built-in themes with a cursor on one of them.
pub struct ThemeDialog {
    themes: Vec<(&'static str, &'static str)>,
    cursor: usize,
}

/// The built-in theme names, in order.
pub open spec fn theme_names() -> Seq<Seq<char>> {
    seq!["modern-dark"@, "tokyo-night"@, "solarized-light"@]
}

/// The row of the first theme named `current` (any ASCII case), else 0.
pub open spec fn initial_row(current: Seq<char>) -> usize {
    if ascii_lower(theme_names()[0]) == ascii_lower(current) {
        0
    } else if ascii_lower(theme_names()[1]) == ascii_lower(current) {
        1
    } else if ascii_lower(theme_names()[2]) == ascii_lower(current) {
        2
    } else {
        0
    }
}

/// The cursor after a key, and what the key did: Enter picks the theme
/// under the cursor by name, Esc cancels, the arrows, `j`/`k`, Home and End
/// move.
pub open spec fn theme_step(cursor: usize, code: KeyCode) -> (usize, DialogOutcome<Seq<char>>) {
    match code {
        KeyCode::Escape => (cursor, DialogOutcome::Cancelled),
        KeyCode::Up | KeyCode::Char('k') => (cursor_up(cursor), DialogOutcome::Open),
        KeyCode::Down | KeyCode::Char('j') => (cursor_down(cursor, 3), DialogOutcome::Open),
        KeyCode::Home => (0, DialogOutcome::Open),
        KeyCode::End => (cursor_end(3), DialogOutcome::Open),
        KeyCode::Enter => (cursor, if cursor < 3 {
            DialogOutcome::Submitted(theme_names()[cursor as int])
        } else {
            DialogOutcome::Open
        }),
        _ => (cursor, DialogOutcome::Open),
    }
}

/// The cursor after a mouse event over `area`, and what it did: the wheel
/// moves the cursor while over the 40 by 7 picker; a left click outside it
/// cancels, one on the row under the cursor picks that theme, one on another
/// theme row moves the cursor there (the top border counts as the first
/// row). Other events do nothing.
pub open spec fn theme_click(cursor: usize, ev: MouseEvent, area: Rect) -> (usize, DialogOutcome<Seq<char>>) {
    let r = centered_spec(40, 7, area);
    let ins = inside(ev, r);
    if ev.kind == MouseKind::ScrollUp && ins {
        (cursor_up(cursor), DialogOutcome::Open)
    } else if ev.kind == MouseKind::ScrollDown && ins {
        (cursor_down(cursor, 3), DialogOutcome::Open)
    } else if ev.kind == MouseKind::LeftDown {
        if !ins {
            (cursor, DialogOutcome::Cancelled)
        } else {
            let row = if ev.row >= r.y + 1 { ev.row - (r.y + 1) } else { 0 };
            if row >= 3 {
                (cursor, DialogOutcome::Open)
            } else if row == cursor {
                (cursor, DialogOutcome::Submitted(theme_names()[row]))
            } else {
                (row as usize, DialogOutcome::Open)
            }
        }
    } else {
        (cursor, DialogOutcome::Open)
    }
}

/// The text a string outcome carries.
pub open spec fn outcome_text(o: DialogOutcome<String>) -> DialogOutcome<Seq<char>> {
    match o {
        DialogOutcome::Open => DialogOutcome::Open,
        DialogOutcome::Cancelled => DialogOutcome::Cancelled,
        DialogOutcome::Submitted(s) => DialogOutcome::Submitted(s@),
    }
}

fn same_ignoring_case(a: &str, b: &str) -> (r: bool)
    ensures
        r == (ascii_lower(a@) == ascii_lower(b@)),
{
    let la = crate::text::ascii_lowercase(a);
    let lb = crate::text::ascii_lowercase(b);
    crate::text::str_eq(la.as_str(), lb.as_str())
}

impl ThemeDialog {
    /// The row under the cursor.
    pub closed spec fn cursor(&self) -> usize {
        self.cursor
    }

    /// The theme list holds the built-in themes.
    pub closed spec fn wf(&self) -> bool {
        self.themes@.len() == 3 && forall|i: int| 0 <= i < 3 ==> (#[trigger] self.themes@[i]).0@ == theme_names()[i]
    }

    /// The picker, on the current theme when it is listed.
    pub fn new(current: &str) -> (r: Self)
        ensures
            r.cursor() == initial_row(current@),
            r.wf(),
    {
        let themes = ColorScheme::available_themes();
        let mut cursor: usize = 0;
        if same_ignoring_case(themes[0].0, current) {
            cursor = 0;
        } else if same_ignoring_case(themes[1].0, current) {
            cursor = 1;
        } else if same_ignoring_case(themes[2].0, current) {
            cursor = 2;
        }
        ThemeDialog { themes, cursor }
    }

    /// Handles one key as [`theme_step`] says.
    pub fn handle_key(&mut self, chord: KeyChord) -> (r: DialogOutcome<String>)
        requires
            old(self).wf(),
        ensures
            (final(self).cursor(), outcome_text(r)) == theme_step(old(self).cursor(), chord.code),
            final(self).wf(),
    {
        let max = self.themes.len();
        match chord.code {
            KeyCode::Escape => DialogOutcome::Cancelled,
            KeyCode::Up | KeyCode::Char('k') => {
                if self.cursor > 0 {
                    self.cursor = self.cursor - 1;
                }
                DialogOutcome::Open
            },
            KeyCode::Down | KeyCode::Char('j') => {
                if self.cursor < max && self.cursor + 1 < max {
                    self.cursor = self.cursor + 1;
                }
                DialogOutcome::Open
            },
            KeyCode::Home => {
                self.cursor = 0;
                DialogOutcome::Open
            },
            KeyCode::End => {
                self.cursor = if max > 0 { max - 1 } else { 0 };
                DialogOutcome::Open
            },
            KeyCode::Enter => {
                if self.cursor < max {
                    DialogOutcome::Submitted(String::from_str(self.themes[self.cursor].0))
                } else {
                    DialogOutcome::Open
                }
            },
            _ => DialogOutcome::Open,
        }
    }

    /// Handles a mouse event over `area` as [`theme_click`] says.
    pub fn handle_mouse(&mut self, ev: MouseEvent, area: Rect) -> (r: DialogOutcome<String>)
        requires
            old(self).wf(),
            rect_fits(area),
        ensures
            (final(self).cursor(), outcome_text(r)) == theme_click(old(self).cursor(), ev, area),
            final(self).wf(),
    {
        let n = self.themes.len();
        let height: u16 = n as u16 + 4;
        let rect = centered_rect(40, height, area);
        let ins = is_inside(ev, rect);
        if ev.kind == MouseKind::ScrollUp && ins {
            if self.cursor > 0 {
                self.cursor = self.cursor - 1;
            }
            DialogOutcome::Open
        } else if ev.kind == MouseKind::ScrollDown && ins {
            if self.cursor < n && self.cursor + 1 < n {
                self.cursor = self.cursor + 1;
            }
            DialogOutcome::Open
        } else if ev.kind == MouseKind::LeftDown {
            if !ins {
                return DialogOutcome::Cancelled;
            }
            let body_y = rect.y + 1;
            let row: usize = if ev.row >= body_y { (ev.row - body_y) as usize } else { 0 };
            if row >= n {
                DialogOutcome::Open
            } else if row == self.cursor {
                DialogOutcome::Submitted(String::from_str(self.themes[row].0))
            } else {
                self.cursor = row;
                DialogOutcome::Open
            }
        } else {
            DialogOutcome::Open
        }
    }
}

} // verus!
