//! Yes/no confirmation.

use vstd::prelude::*;

use crate::dialog::DialogOutcome;
use crate::key::{KeyChord, KeyCode};

verus! {

/// A yes/no question; the focused button starts on "No".
pub struct ConfirmDialog {
    title: String,
    message: String,
    yes: bool,
}

/// The focused button after a key, and what the key did.
pub open spec fn confirm_step(yes: bool, code: KeyCode) -> (bool, DialogOutcome<bool>) {
    match code {
        KeyCode::Escape => (yes, DialogOutcome::Cancelled),
        KeyCode::Char('y') | KeyCode::Char('Y') => (yes, DialogOutcome::Submitted(true)),
        KeyCode::Char('n') | KeyCode::Char('N') => (yes, DialogOutcome::Submitted(false)),
        KeyCode::Enter => (yes, DialogOutcome::Submitted(yes)),
        KeyCode::Tab | KeyCode::Left | KeyCode::Right => (!yes, DialogOutcome::Open),
        _ => (yes, DialogOutcome::Open),
    }
}

impl ConfirmDialog {
    /// Whether "Yes" has the focus.
    pub closed spec fn yes_focused(&self) -> bool {
        self.yes
    }

    /// The title and message shown.
    pub closed spec fn texts(&self) -> (Seq<char>, Seq<char>) {
        (self.title@, self.message@)
    }

    /// A question with "No" focused.
    pub fn new(title: String, message: String) -> (r: Self)
        ensures
            !r.yes_focused(),
            r.texts() == (title@, message@),
    {
        ConfirmDialog { title, message, yes: false }
    }

    /// `y`/`n` answer at once, Enter answers with the focused button, Tab
    /// and the arrows switch the focus, Esc cancels.
    pub fn handle_key(&mut self, chord: KeyChord) -> (r: DialogOutcome<bool>)
        ensures
            (final(self).yes_focused(), r) == confirm_step(old(self).yes_focused(), chord.code),
            final(self).texts() == old(self).texts(),
    {
        match chord.code {
            KeyCode::Escape => DialogOutcome::Cancelled,
            KeyCode::Char('y') | KeyCode::Char('Y') => DialogOutcome::Submitted(true),
            KeyCode::Char('n') | KeyCode::Char('N') => DialogOutcome::Submitted(false),
            KeyCode::Enter => DialogOutcome::Submitted(self.yes),
            KeyCode::Tab | KeyCode::Left | KeyCode::Right => {
                self.yes = !self.yes;
                DialogOutcome::Open
            },
            _ => DialogOutcome::Open,
        }
    }
}

} // verus!
