//! The hotlist (directory bookmarks) browser.

use vstd::prelude::*;

use crate::config::hotlist::Hotlist;
use crate::dialog::{cursor_down, cursor_end, cursor_up, DialogOutcome};
use crate::key::{KeyChord, KeyCode};

verus! {

/// What the user asked of the hotlist.
#[derive(Debug)]
pub enum HotlistAction {
    /// Go to this path.
    Navigate(String),
    /// Bookmark the current directory.
    AddCurrent,
    /// Remove the bookmark at this row.
    Remove(usize),
}

/// The bookmarks with a cursor on one of them.
pub struct HotlistDialog {
    pub hotlist: Hotlist,
    cursor: usize,
    view_offset: usize,
}

/// A hotlist action as text.
pub enum HotlistActionText {
    Navigate(Seq<char>),
    AddCurrent,
    Remove(usize),
}

/// The action an outcome carries, as text.
pub open spec fn action_text(o: DialogOutcome<HotlistAction>) -> DialogOutcome<HotlistActionText> {
    match o {
        DialogOutcome::Open => DialogOutcome::Open,
        DialogOutcome::Cancelled => DialogOutcome::Cancelled,
        DialogOutcome::Submitted(HotlistAction::Navigate(p)) => DialogOutcome::Submitted(HotlistActionText::Navigate(p@)),
        DialogOutcome::Submitted(HotlistAction::AddCurrent) => DialogOutcome::Submitted(HotlistActionText::AddCurrent),
        DialogOutcome::Submitted(HotlistAction::Remove(i)) => DialogOutcome::Submitted(HotlistActionText::Remove(i)),
    }
}

/// The cursor after a key over the bookmarks `h`, and what the key did:
/// `a` adds the current directory, `d`/Delete removes the bookmark under the
/// cursor, Enter goes to it, Esc cancels, the arrows, `j`/`k`, Home and End
/// move.
pub open spec fn hotlist_step(h: Seq<(Seq<char>, Seq<char>)>, cursor: usize, code: KeyCode) -> (usize, DialogOutcome<HotlistActionText>) {
    match code {
        KeyCode::Escape => (cursor, DialogOutcome::Cancelled),
        KeyCode::Char('a') | KeyCode::Char('A') => (cursor, DialogOutcome::Submitted(HotlistActionText::AddCurrent)),
        KeyCode::Char('d') | KeyCode::Char('D') | KeyCode::Delete => (cursor, if h.len() == 0 {
            DialogOutcome::Open
        } else {
            DialogOutcome::Submitted(HotlistActionText::Remove(cursor))
        }),
        KeyCode::Up | KeyCode::Char('k') => (cursor_up(cursor), DialogOutcome::Open),
        KeyCode::Down | KeyCode::Char('j') => (cursor_down(cursor, h.len()), DialogOutcome::Open),
        KeyCode::Home => (0, DialogOutcome::Open),
        KeyCode::End => (cursor_end(h.len()), DialogOutcome::Open),
        KeyCode::Enter => (cursor, if cursor < h.len() {
            DialogOutcome::Submitted(HotlistActionText::Navigate(h[cursor as int].1))
        } else {
            DialogOutcome::Open
        }),
        _ => (cursor, DialogOutcome::Open),
    }
}

impl HotlistDialog {
    /// The row under the cursor.
    pub closed spec fn cursor(&self) -> usize {
        self.cursor
    }

    /// The bookmarks shown.
    pub closed spec fn bookmarks(&self) -> Seq<(Seq<char>, Seq<char>)> {
        self.hotlist@
    }

    /// The browser on the first bookmark.
    pub fn new(hotlist: Hotlist) -> (r: Self)
        ensures
            r.cursor() == 0,
            r.bookmarks() == hotlist@,
    {
        HotlistDialog { hotlist, cursor: 0, view_offset: 0 }
    }

    /// Handles one key as [`hotlist_step`] says; the bookmarks themselves do
    /// not change.
    pub fn handle_key(&mut self, chord: KeyChord) -> (r: DialogOutcome<HotlistAction>)
        ensures
            (final(self).cursor(), action_text(r)) == hotlist_step(old(self).bookmarks(), old(self).cursor(), chord.code),
            final(self).bookmarks() == old(self).bookmarks(),
    {
        let max = self.hotlist.entries.len();
        match chord.code {
            KeyCode::Escape => DialogOutcome::Cancelled,
            KeyCode::Char('a') | KeyCode::Char('A') => DialogOutcome::Submitted(HotlistAction::AddCurrent),
            KeyCode::Char('d') | KeyCode::Char('D') | KeyCode::Delete => {
                if max == 0 {
                    DialogOutcome::Open
                } else {
                    DialogOutcome::Submitted(HotlistAction::Remove(self.cursor))
                }
            },
            KeyCode::Up | KeyCode::Char('k') => {
                if self.cursor > 0 {
                    self.cursor = self.cursor - 1;
                }
                DialogOutcome::Open
            },
            KeyCode::Down | KeyCode::Char('j') => {
                if self.cursor < max && self.cursor + 1 < max {
                    self.cursor = self.cursor + 1;
                }
                DialogOutcome::Open
            },
            KeyCode::Home => {
                self.cursor = 0;
                DialogOutcome::Open
            },
            KeyCode::End => {
                self.cursor = if max > 0 { max - 1 } else { 0 };
                DialogOutcome::Open
            },
            KeyCode::Enter => {
                if self.cursor < max {
                    assert(self.hotlist@[self.cursor as int] == self.hotlist.entries@[self.cursor as int]@);
                    DialogOutcome::Submitted(HotlistAction::Navigate(self.hotlist.entries[self.cursor].path.clone()))
                } else {
                    DialogOutcome::Open
                }
            },
            _ => DialogOutcome::Open,
        }
    }
}

} // verus!
