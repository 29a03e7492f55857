//! Background jobs list.

use vstd::prelude::*;

use crate::dialog::{
    centered_rect, centered_spec, cursor_down, cursor_up, inside, is_inside, rect_fits, DialogOutcome, MouseEvent,
    MouseKind, Rect,
};
use crate::key::{KeyChord, KeyCode};
use crate::text::{chars_of, string_of, sub_chars};

verus! {

/// One job as listed.
#[derive(Debug, Clone)]
pub struct JobRow {
    pub id_str: String,
    pub description: String,
    pub status: String,
    pub finished: bool,
}

/// The jobs with a cursor on one of them.
pub struct JobsViewDialog {
    rows: Vec<JobRow>,
    cursor: usize,
    offset: usize,
}

/// The cursor after a key over `n` rows, and what the key did: Esc, F10 and
/// `q` close, Down/`j` and Up/`k` move.
pub open spec fn jobs_step(n: nat, cursor: usize, code: KeyCode) -> (usize, DialogOutcome<()>) {
    match code {
        KeyCode::Escape | KeyCode::F(10) | KeyCode::Char('q') => (cursor, DialogOutcome::Cancelled),
        KeyCode::Down | KeyCode::Char('j') => (cursor_down(cursor, n), DialogOutcome::Open),
        KeyCode::Up | KeyCode::Char('k') => (cursor_up(cursor), DialogOutcome::Open),
        _ => (cursor, DialogOutcome::Open),
    }
}

/// The cursor after a mouse event over `area`, and what it did: the wheel
/// moves the cursor while over the 80 by 18 list; a left click outside it
/// closes, one on a listed row of its body (below the top border, above the
/// two bottom rows) moves the cursor to that row. Other events do nothing.
pub open spec fn jobs_click(n: nat, cursor: usize, offset: usize, ev: MouseEvent, area: Rect) -> (usize, DialogOutcome<()>) {
    let r = centered_spec(80, 18, area);
    let ins = inside(ev, r);
    if ev.kind == MouseKind::ScrollUp && ins {
        (cursor_up(cursor), DialogOutcome::Open)
    } else if ev.kind == MouseKind::ScrollDown && ins {
        (cursor_down(cursor, n), DialogOutcome::Open)
    } else if ev.kind == MouseKind::LeftDown {
        if !ins {
            (cursor, DialogOutcome::Cancelled)
        } else {
            let body_y = r.y + 1;
            let body_h = if r.height >= 3 { r.height - 3 } else { 0 };
            if ev.row < body_y || ev.row >= body_y + body_h {
                (cursor, DialogOutcome::Open)
            } else if offset + (ev.row - body_y) < n {
                ((offset + (ev.row - body_y)) as usize, DialogOutcome::Open)
            } else {
                (cursor, DialogOutcome::Open)
            }
        }
    } else {
        (cursor, DialogOutcome::Open)
    }
}

impl JobsViewDialog {
    /// The row under the cursor.
    pub closed spec fn cursor(&self) -> usize {
        self.cursor
    }

    /// The number of rows.
    pub closed spec fn row_count(&self) -> nat {
        self.rows@.len()
    }

    /// The first row in view.
    pub closed spec fn scroll(&self) -> usize {
        self.offset
    }

    /// The list on its first row.
    pub fn new(rows: Vec<JobRow>) -> (r: Self)
        ensures
            r.cursor() == 0,
            r.scroll() == 0,
            r.row_count() == rows@.len(),
    {
        JobsViewDialog { rows, cursor: 0, offset: 0 }
    }

    /// The row under the cursor.
    pub fn cursor_row(&self) -> (r: usize)
        ensures
            r == self.cursor(),
    {
        self.cursor
    }

    /// Handles one key as [`jobs_step`] says.
    pub fn handle_key(&mut self, chord: KeyChord) -> (r: DialogOutcome<()>)
        ensures
            (final(self).cursor(), r) == jobs_step(old(self).row_count(), old(self).cursor(), chord.code),
            final(self).row_count() == old(self).row_count(),
            final(self).scroll() == old(self).scroll(),
    {
        let n = self.rows.len();
        match chord.code {
            KeyCode::Escape | KeyCode::F(10) | KeyCode::Char('q') => DialogOutcome::Cancelled,
            KeyCode::Down | KeyCode::Char('j') => {
                if self.cursor < n && self.cursor + 1 < n {
                    self.cursor = self.cursor + 1;
                }
                DialogOutcome::Open
            },
            KeyCode::Up | KeyCode::Char('k') => {
                if self.cursor > 0 {
                    self.cursor = self.cursor - 1;
                }
                DialogOutcome::Open
            },
            _ => DialogOutcome::Open,
        }
    }

    /// Handles a mouse event over `area` as [`jobs_click`] says.
    pub fn handle_mouse(&mut self, ev: MouseEvent, area: Rect) -> (r: DialogOutcome<()>)
        requires
            rect_fits(area),
        ensures
            (final(self).cursor(), r) == jobs_click(old(self).row_count(), old(self).cursor(), old(self).scroll(), ev, area),
            final(self).row_count() == old(self).row_count(),
            final(self).scroll() == old(self).scroll(),
    {
        let n = self.rows.len();
        let rect = centered_rect(80, 18, area);
        let ins = is_inside(ev, rect);
        if ev.kind == MouseKind::ScrollUp && ins {
            if self.cursor > 0 {
                self.cursor = self.cursor - 1;
            }
            DialogOutcome::Open
        } else if ev.kind == MouseKind::ScrollDown && ins {
            if self.cursor < n && self.cursor + 1 < n {
                self.cursor = self.cursor + 1;
            }
            DialogOutcome::Open
        } else if ev.kind == MouseKind::LeftDown {
            if !ins {
                return DialogOutcome::Cancelled;
            }
            let body_y: u32 = rect.y as u32 + 1;
            let body_h: u32 = if rect.height >= 3 { rect.height as u32 - 3 } else { 0 };
            let row = ev.row as u32;
            if row < body_y || row >= body_y + body_h {
                return DialogOutcome::Open;
            }
            let in_body: usize = (row - body_y) as usize;
            if self.offset < n && in_body < n - self.offset {
                self.cursor = self.offset + in_body;
            }
            DialogOutcome::Open
        } else {
            DialogOutcome::Open
        }
    }
}

/// At most the first `n` characters of `s`, as the job list cuts its
/// descriptions; for `n` zero a text of at most one byte is kept whole.
pub open spec fn truncate_spec(s: Seq<char>, n: nat) -> Seq<char> {
    if n == 0 && (s.len() == 0 || (s.len() == 1 && (s[0] as u32) < 0x80)) {
        s
    } else if s.len() <= n {
        s
    } else {
        s.take(n as int)
    }
}

/// Cuts a text as [`truncate_spec`] says.
pub fn truncate(s: &str, n: usize) -> (r: String)
    ensures
        r@ == truncate_spec(s@, n as nat),
{
    let v = chars_of(s);
    if n == 0 && (v.len() == 0 || (v.len() == 1 && (v[0] as u32) < 0x80)) {
        return String::from_str(s);
    }
    if v.len() <= n {
        return String::from_str(s);
    }
    let w = sub_chars(v.as_slice(), 0, n);
    assert(w@ =~= s@.take(n as int));
    string_of(w.as_slice())
}

} // verus!
