//! Key learning: shows the chords pressed, newest first.

use vstd::prelude::*;

use crate::dialog::DialogOutcome;
use crate::key::{KeyChord, KeyCode};

verus! {

/// The chords pressed so far, newest first, at most 32 of them.
pub struct LearnKeysDialog {
    history: Vec<KeyChord>,
}

/// The chords after one more press, and what it did: Esc twice in a row
/// closes; otherwise the chord is put in front and the oldest beyond 32 is
/// dropped.
pub open spec fn learn_step(h: Seq<KeyChord>, chord: KeyChord) -> (Seq<KeyChord>, DialogOutcome<()>) {
    if chord.code == KeyCode::Escape && h.len() > 0 && h[0].code == KeyCode::Escape {
        (h, DialogOutcome::Cancelled)
    } else {
        let n = seq![chord] + h;
        (if n.len() > 32 { n.drop_last() } else { n }, DialogOutcome::Open)
    }
}

impl LearnKeysDialog {
    /// The chords shown, newest first.
    pub closed spec fn shown(&self) -> Seq<KeyChord> {
        self.history@
    }

    /// Nothing pressed yet.
    pub fn new() -> (r: Self)
        ensures
            r.shown().len() == 0,
    {
        LearnKeysDialog { history: Vec::new() }
    }

    /// Handles one chord as [`learn_step`] says.
    pub fn handle_key(&mut self, chord: KeyChord) -> (r: DialogOutcome<()>)
        ensures
            (final(self).shown(), r) == learn_step(old(self).shown(), chord),
    {
        if chord.code == KeyCode::Escape && self.history.len() > 0 && self.history[0].code == KeyCode::Escape {
            return DialogOutcome::Cancelled;
        }
        let ghost before = self.history@;
        self.history.insert(0, chord);
        assert(self.history@ =~= seq![chord] + before);
        if self.history.len() > 32 {
            let _ = self.history.pop();
        }
        DialogOutcome::Open
    }
}

impl Default for LearnKeysDialog {
    fn default() -> (r: Self)
        ensures
            r.shown().len() == 0,
    {
        Self::new()
    }
}

} // verus!
