//! Single-line text input with optional history.

use vstd::prelude::*;

use crate::dialog::{
    apply_edit, centered_rect, centered_spec, edit_line, inside, is_inside, rect_fits, DialogOutcome, MouseEvent,
    MouseKind, Rect,
};
use crate::key::{KeyChord, KeyCode};

verus! {

/// A text prompt. Up and Down walk an optional history; the text typed
/// before walking is kept and given back when walking past the newest entry.
pub struct InputDialog {
    title: String,
    prompt: String,
    value: String,
    cursor: usize,
    history: Option<Vec<String>>,
    history_pos: Option<usize>,
    saved: Option<String>,
}

/// The editing state of an input dialog: text, cursor, history, position
/// in the history, and the text saved when walking started.
pub struct InputModel {
    pub value: Seq<char>,
    pub cursor: nat,
    pub history: Option<Seq<Seq<char>>>,
    pub pos: Option<nat>,
    pub saved: Option<Seq<char>>,
}

/// An older history entry (Up).
pub open spec fn history_up(m: InputModel) -> InputModel {
    match m.history {
        Some(h) if h.len() > 0 => match m.pos {
            Some(p) => if p == 0 {
                m
            } else {
                InputModel { value: h[p - 1], cursor: h[p - 1].len(), pos: Some((p - 1) as nat), ..m }
            },
            None => InputModel {
                value: h[h.len() - 1],
                cursor: h[h.len() - 1].len(),
                pos: Some((h.len() - 1) as nat),
                saved: Some(m.value),
                ..m
            },
        },
        _ => m,
    }
}

/// A newer history entry (Down), or back to the saved text past the newest.
pub open spec fn history_down(m: InputModel) -> InputModel {
    match m.history {
        Some(h) if h.len() > 0 => match m.pos {
            None => m,
            Some(p) => if p + 1 >= h.len() {
                let v = match m.saved {
                    Some(s) => s,
                    None => Seq::empty(),
                };
                InputModel { value: v, cursor: v.len(), pos: None, saved: None, ..m }
            } else {
                InputModel { value: h[p + 1 as int], cursor: h[p + 1 as int].len(), pos: Some(p + 1), ..m }
            },
        },
        _ => m,
    }
}

/// The state after a key, and what the key did: Enter submits a non-empty
/// text (an empty one cancels), Esc cancels, Up and Down walk the history,
/// the other editing keys edit the line.
pub open spec fn input_step(m: InputModel, chord: KeyChord) -> (InputModel, DialogOutcome<Seq<char>>) {
    match chord.code {
        KeyCode::Escape => (m, DialogOutcome::Cancelled),
        KeyCode::Enter => (m, if m.value.len() == 0 { DialogOutcome::Cancelled } else { DialogOutcome::Submitted(m.value) }),
        KeyCode::Up => (history_up(m), DialogOutcome::Open),
        KeyCode::Down => (history_down(m), DialogOutcome::Open),
        _ => match edit_line(m.value, m.cursor, chord) {
            Some((v, c)) => (InputModel { value: v, cursor: c, ..m }, DialogOutcome::Open),
            None => (m, DialogOutcome::Open),
        },
    }
}

/// The text a string outcome carries.
pub open spec fn outcome_text(o: DialogOutcome<String>) -> DialogOutcome<Seq<char>> {
    match o {
        DialogOutcome::Open => DialogOutcome::Open,
        DialogOutcome::Cancelled => DialogOutcome::Cancelled,
        DialogOutcome::Submitted(s) => DialogOutcome::Submitted(s@),
    }
}

/// The texts of a list of strings.
pub open spec fn texts(v: Vec<String>) -> Seq<Seq<char>> {
    v@.map_values(|s: String| s@)
}

/// The state after a mouse event over `area`, and what it did: a left
/// click outside the 60 by 6 prompt cancels; one on the text row puts the
/// cursor under the click, at most at the end of the text. Other events do
/// nothing.
pub open spec fn input_click(m: InputModel, ev: MouseEvent, area: Rect) -> (InputModel, DialogOutcome<Seq<char>>) {
    let r = centered_spec(60, 6, area);
    if ev.kind != MouseKind::LeftDown {
        (m, DialogOutcome::Open)
    } else if !inside(ev, r) {
        (m, DialogOutcome::Cancelled)
    } else if ev.row == r.y + 2 && ev.column >= r.x + 1 {
        let col = ev.column - (r.x + 1);
        (InputModel { cursor: if col < m.value.len() { col as nat } else { m.value.len() }, ..m }, DialogOutcome::Open)
    } else {
        (m, DialogOutcome::Open)
    }
}

impl InputDialog {
    /// The editing state.
    pub closed spec fn model(&self) -> InputModel {
        InputModel {
            value: self.value@,
            cursor: self.cursor as nat,
            history: match self.history {
                Some(h) => Some(texts(h)),
                None => None,
            },
            pos: match self.history_pos {
                Some(p) => Some(p as nat),
                None => None,
            },
            saved: match self.saved {
                Some(s) => Some(s@),
                None => None,
            },
        }
    }

    /// The title and prompt shown.
    pub closed spec fn labels(&self) -> (Seq<char>, Seq<char>) {
        (self.title@, self.prompt@)
    }

    /// The cursor lies within the text, and a history position within the
    /// history.
    pub closed spec fn wf(&self) -> bool {
        &&& self.cursor <= self.value@.len()
        &&& match self.history_pos {
            Some(p) => match self.history {
                Some(h) => p < h@.len(),
                None => false,
            },
            None => true,
        }
    }

    /// A prompt holding `initial`, with the cursor at its end.
    pub fn new(title: String, prompt: String, initial: String) -> (r: Self)
        ensures
            r.model() == (InputModel {
                value: initial@,
                cursor: initial@.len(),
                history: None,
                pos: None,
                saved: None,
            }),
            r.labels() == (title@, prompt@),
            r.wf(),
    {
        let cursor = initial.as_str().unicode_len();
        InputDialog { title, prompt, value: initial, cursor, history: None, history_pos: None, saved: None }
    }

    /// The same prompt with a history to walk.
    pub fn with_history(self, entries: Vec<String>) -> (r: Self)
        requires
            self.wf(),
            self.model().pos matches Some(p) ==> p < entries@.len(),
        ensures
            r.wf(),
            r.model() == (InputModel { history: Some(texts(entries)), ..self.model() }),
            r.labels() == self.labels(),
    {
        InputDialog {
            title: self.title,
            prompt: self.prompt,
            value: self.value,
            cursor: self.cursor,
            history: Some(entries),
            history_pos: self.history_pos,
            saved: self.saved,
        }
    }

    fn take_saved(&mut self) -> (r: String)
        requires
            old(self).wf(),
        ensures
            r@ == match old(self).saved {
                Some(s) => s@,
                None => Seq::<char>::empty(),
            },
            final(self).saved is None,
            final(self).title == old(self).title,
            final(self).prompt == old(self).prompt,
            final(self).value == old(self).value,
            final(self).cursor == old(self).cursor,
            final(self).history == old(self).history,
            final(self).history_pos == old(self).history_pos,
    {
        match self.saved.take() {
            Some(s) => s,
            None => String::new(),
        }
    }

    /// Handles one key as [`input_step`] says.
    pub fn handle_key(&mut self, chord: KeyChord) -> (r: DialogOutcome<String>)
        requires
            old(self).wf(),
        ensures
            final(self).wf(),
            (final(self).model(), outcome_text(r)) == input_step(old(self).model(), chord),
            final(self).labels() == old(self).labels(),
    {
        match chord.code {
            KeyCode::Escape => DialogOutcome::Cancelled,
            KeyCode::Enter => {
                if self.value.as_str().unicode_len() == 0 {
                    DialogOutcome::Cancelled
                } else {
                    DialogOutcome::Submitted(self.value.clone())
                }
            },
            KeyCode::Up => {
                self.up();
                DialogOutcome::Open
            },
            KeyCode::Down => {
                self.down();
                DialogOutcome::Open
            },
            _ => {
                let mut value = self.value.clone();
                let mut cursor = self.cursor;
                let _ = apply_edit(&mut value, &mut cursor, chord);
                self.value = value;
                self.cursor = cursor;
                DialogOutcome::Open
            },
        }
    }

    /// Handles a mouse event over `area` as [`input_click`] says.
    pub fn handle_mouse(&mut self, ev: MouseEvent, area: Rect) -> (r: DialogOutcome<String>)
        requires
            old(self).wf(),
            rect_fits(area),
        ensures
            final(self).wf(),
            (final(self).model(), outcome_text(r)) == input_click(old(self).model(), ev, area),
            final(self).labels() == old(self).labels(),
    {
        if ev.kind != MouseKind::LeftDown {
            return DialogOutcome::Open;
        }
        let rect = centered_rect(60, 6, area);
        if !is_inside(ev, rect) {
            return DialogOutcome::Cancelled;
        }
        let inner_x: u32 = rect.x as u32 + 1;
        let value_y: u32 = rect.y as u32 + 2;
        if ev.row as u32 == value_y && ev.column as u32 >= inner_x {
            let col: u32 = ev.column as u32 - inner_x;
            let len = self.value.as_str().unicode_len();
            self.cursor = if (col as usize) < len { col as usize } else { len };
        }
        DialogOutcome::Open
    }

    fn up(&mut self)
        requires
            old(self).wf(),
        ensures
            final(self).wf(),
            final(self).model() == history_up(old(self).model()),
            final(self).labels() == old(self).labels(),
    {
        let n = match &self.history {
            Some(h) => h.len(),
            None => 0,
        };
        if n == 0 {
            return;
        }
        let new_pos = match self.history_pos {
            Some(p) => {
                if p == 0 {
                    return;
                }
                p - 1
            },
            None => {
                self.saved = Some(self.value.clone());
                n - 1
            },
        };
        let v = match &self.history {
            Some(h) => h[new_pos].clone(),
            None => String::new(),
        };
        self.cursor = v.as_str().unicode_len();
        self.value = v;
        self.history_pos = Some(new_pos);
    }

    fn down(&mut self)
        requires
            old(self).wf(),
        ensures
            final(self).wf(),
            final(self).model() == history_down(old(self).model()),
            final(self).labels() == old(self).labels(),
    {
        let n = match &self.history {
            Some(h) => h.len(),
            None => 0,
        };
        if n == 0 {
            return;
        }
        match self.history_pos {
            None => {},
            Some(p) => {
                if p + 1 >= n {
                    let v = self.take_saved();
                    self.history_pos = None;
                    self.cursor = v.as_str().unicode_len();
                    self.value = v;
                } else {
                    let v = match &self.history {
                        Some(h) => h[p + 1].clone(),
                        None => String::new(),
                    };
                    self.cursor = v.as_str().unicode_len();
                    self.value = v;
                    self.history_pos = Some(p + 1);
                }
            },
        }
    }
}

} // verus!
