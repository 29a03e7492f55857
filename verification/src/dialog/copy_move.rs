//! Copy/Move settings: the destination and the copy options.

use vstd::prelude::*;

use crate::dialog::{apply_edit, edit_line, DialogOutcome};
use crate::key::{KeyChord, KeyCode};

verus! {

/// How a copy treats existing files, attributes and links.
#[derive(Debug, Clone, Copy, PartialEq, Eq, Structural)]
pub struct CopyOptions {
    pub overwrite: bool,
    pub preserve_attrs: bool,
    pub follow_symlinks: bool,
}

/// What the dialog hands back: the destination and the options.
#[derive(Debug, Clone)]
pub struct CopyMoveSettings {
    pub dst: String,
    pub opts: CopyOptions,
}

/// The settings dialog. The focus is on the destination (0) or one of the
/// three option toggles (1 to 3).
pub struct CopyMoveSettingsDialog {
    title: String,
    prompt: String,
    dst: String,
    cursor: usize,
    focus: usize,
    opts: CopyOptions,
}

/// The dialog's state: destination text, cursor, focus, options.
pub struct CopyMoveModel {
    pub dst: Seq<char>,
    pub cursor: nat,
    pub focus: nat,
    pub opts: CopyOptions,
}

/// The options with the toggle under the focus flipped.
pub open spec fn toggle(o: CopyOptions, focus: nat) -> CopyOptions {
    if focus == 1 {
        CopyOptions { overwrite: !o.overwrite, ..o }
    } else if focus == 2 {
        CopyOptions { preserve_attrs: !o.preserve_attrs, ..o }
    } else if focus == 3 {
        CopyOptions { follow_symlinks: !o.follow_symlinks, ..o }
    } else {
        o
    }
}

/// The state after a key, and what the key did: Enter submits a non-empty
/// destination (an empty one cancels), Esc cancels, Tab/Down and
/// BackTab/Up move the focus around, the editing keys edit the destination
/// while it has the focus, and Space flips the focused toggle.
pub open spec fn copy_move_step(m: CopyMoveModel, chord: KeyChord) -> (CopyMoveModel, DialogOutcome<(Seq<char>, CopyOptions)>) {
    match chord.code {
        KeyCode::Escape => (m, DialogOutcome::Cancelled),
        KeyCode::Enter => (m, if m.dst.len() == 0 { DialogOutcome::Cancelled } else { DialogOutcome::Submitted((m.dst, m.opts)) }),
        KeyCode::Tab | KeyCode::Down => (CopyMoveModel { focus: (m.focus + 1) % 4, ..m }, DialogOutcome::Open),
        KeyCode::BackTab | KeyCode::Up => (CopyMoveModel { focus: if m.focus == 0 { 3 } else { (m.focus - 1) as nat }, ..m }, DialogOutcome::Open),
        _ => if m.focus == 0 {
            match edit_line(m.dst, m.cursor, chord) {
                Some((v, c)) => (CopyMoveModel { dst: v, cursor: c, ..m }, DialogOutcome::Open),
                None => (m, DialogOutcome::Open),
            }
        } else if chord.code == KeyCode::Char(' ') && !chord.mods.shift && !chord.mods.alt && !chord.mods.ctrl {
            (CopyMoveModel { opts: toggle(m.opts, m.focus), ..m }, DialogOutcome::Open)
        } else {
            (m, DialogOutcome::Open)
        },
    }
}

/// The settings a settings outcome carries, as text.
pub open spec fn settings_text(o: DialogOutcome<CopyMoveSettings>) -> DialogOutcome<(Seq<char>, CopyOptions)> {
    match o {
        DialogOutcome::Open => DialogOutcome::Open,
        DialogOutcome::Cancelled => DialogOutcome::Cancelled,
        DialogOutcome::Submitted(s) => DialogOutcome::Submitted((s.dst@, s.opts)),
    }
}

impl CopyMoveSettingsDialog {
    /// The dialog's state.
    pub closed spec fn model(&self) -> CopyMoveModel {
        CopyMoveModel { dst: self.dst@, cursor: self.cursor as nat, focus: self.focus as nat, opts: self.opts }
    }

    /// The title and prompt shown.
    pub closed spec fn labels(&self) -> (Seq<char>, Seq<char>) {
        (self.title@, self.prompt@)
    }

    /// The cursor lies within the destination and the focus on a field.
    pub closed spec fn wf(&self) -> bool {
        self.cursor <= self.dst@.len() && self.focus < 4
    }

    /// The dialog with the destination focused and the cursor at its end.
    pub fn new(title: String, prompt: String, dst: String, opts: CopyOptions) -> (r: Self)
        ensures
            r.wf(),
            r.model() == (CopyMoveModel { dst: dst@, cursor: dst@.len(), focus: 0, opts }),
            r.labels() == (title@, prompt@),
    {
        let cursor = dst.as_str().unicode_len();
        CopyMoveSettingsDialog { title, prompt, dst, cursor, focus: 0, opts }
    }

    /// Handles one key as [`copy_move_step`] says.
    pub fn handle_key(&mut self, chord: KeyChord) -> (r: DialogOutcome<CopyMoveSettings>)
        requires
            old(self).wf(),
        ensures
            final(self).wf(),
            (final(self).model(), settings_text(r)) == copy_move_step(old(self).model(), chord),
            final(self).labels() == old(self).labels(),
    {
        match chord.code {
            KeyCode::Escape => DialogOutcome::Cancelled,
            KeyCode::Enter => {
                if self.dst.as_str().unicode_len() == 0 {
                    DialogOutcome::Cancelled
                } else {
                    DialogOutcome::Submitted(CopyMoveSettings { dst: self.dst.clone(), opts: self.opts })
                }
            },
            KeyCode::Tab | KeyCode::Down => {
                self.focus = (self.focus + 1) % 4;
                DialogOutcome::Open
            },
            KeyCode::BackTab | KeyCode::Up => {
                self.focus = if self.focus == 0 { 3 } else { self.focus - 1 };
                DialogOutcome::Open
            },
            _ => {
                if self.focus == 0 {
                    let mut dst = self.dst.clone();
                    let mut cursor = self.cursor;
                    let _ = apply_edit(&mut dst, &mut cursor, chord);
                    self.dst = dst;
                    self.cursor = cursor;
                } else if chord.code == KeyCode::Char(' ') && !chord.mods.shift && !chord.mods.alt && !chord.mods.ctrl {
                    if self.focus == 1 {
                        self.opts.overwrite = !self.opts.overwrite;
                    } else if self.focus == 2 {
                        self.opts.preserve_attrs = !self.opts.preserve_attrs;
                    } else {
                        self.opts.follow_symlinks = !self.opts.follow_symlinks;
                    }
                }
                DialogOutcome::Open
            },
        }
    }
}

} // verus!
