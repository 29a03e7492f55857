//! Password prompt: like the input dialog, shown masked.

use vstd::prelude::*;

use crate::dialog::{mods_type_char, types_char, DialogOutcome};
use crate::key::{KeyChord, KeyCode};
use crate::text::push_char;

verus! {

/// A masked text prompt.
pub struct PasswordDialog {
    title: String,
    prompt: String,
    value: String,
}

/// The typed text after a key, and what the key did (the text itself on
/// Enter, which empties the prompt).
pub open spec fn password_step(v: Seq<char>, chord: KeyChord) -> (Seq<char>, DialogOutcome<Seq<char>>) {
    match chord.code {
        KeyCode::Escape => (v, DialogOutcome::Cancelled),
        KeyCode::Enter => (Seq::empty(), DialogOutcome::Submitted(v)),
        KeyCode::Backspace => (if v.len() > 0 { v.drop_last() } else { v }, DialogOutcome::Open),
        KeyCode::Char(c) => (if types_char(chord.mods) { v.push(c) } else { v }, DialogOutcome::Open),
        _ => (v, DialogOutcome::Open),
    }
}

/// The text a string outcome carries.
pub open spec fn outcome_text(o: DialogOutcome<String>) -> DialogOutcome<Seq<char>> {
    match o {
        DialogOutcome::Open => DialogOutcome::Open,
        DialogOutcome::Cancelled => DialogOutcome::Cancelled,
        DialogOutcome::Submitted(s) => DialogOutcome::Submitted(s@),
    }
}

impl PasswordDialog {
    /// The typed text.
    pub closed spec fn value(&self) -> Seq<char> {
        self.value@
    }

    /// The title and prompt shown.
    pub closed spec fn texts(&self) -> (Seq<char>, Seq<char>) {
        (self.title@, self.prompt@)
    }

    /// The prompt shown above the entry.
    pub fn prompt(&self) -> (r: &str)
        ensures
            r@ == self.texts().1,
    {
        self.prompt.as_str()
    }

    /// An empty prompt.
    pub fn new(title: String, prompt: String) -> (r: Self)
        ensures
            r.value().len() == 0,
            r.texts() == (title@, prompt@),
    {
        PasswordDialog { title, prompt, value: String::new() }
    }

    /// Typing appends, Backspace removes the last character, Enter submits
    /// the text, Esc cancels.
    pub fn handle_key(&mut self, chord: KeyChord) -> (r: DialogOutcome<String>)
        ensures
            (final(self).value(), outcome_text(r)) == password_step(old(self).value(), chord),
            final(self).texts() == old(self).texts(),
    {
        match chord.code {
            KeyCode::Escape => DialogOutcome::Cancelled,
            KeyCode::Enter => {
                let v = self.value.clone();
                self.value = String::new();
                DialogOutcome::Submitted(v)
            },
            KeyCode::Backspace => {
                crate::text::pop_char(&mut self.value);
                DialogOutcome::Open
            },
            KeyCode::Char(c) => {
                if mods_type_char(chord.mods) {
                    push_char(&mut self.value, c);
                }
                DialogOutcome::Open
            },
            _ => DialogOutcome::Open,
        }
    }
}

} // verus!
