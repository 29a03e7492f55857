//! Panel layout settings.

use vstd::prelude::*;

use crate::dialog::DialogOutcome;
use crate::key::{KeyChord, KeyCode};

verus! {

/// How the two panels share the screen.
#[derive(Debug, Clone, Copy, PartialEq, Eq, Structural)]
pub struct LayoutConfig {
    /// Panels side by side (`false`) or stacked (`true`).
    pub vertical: bool,
    /// Share of the first panel, in percent.
    pub left_pct: u8,
}

/// The layout editor: row 0 toggles stacking, row 1 sets the split.
pub struct LayoutDialog {
    cfg: LayoutConfig,
    cursor: usize,
}

/// A percentage held within 1 to 99.
pub open spec fn clamp_pct(p: u8) -> u8 {
    if p < 1 { 1 } else if p > 99 { 99 } else { p }
}

/// The layout and row after a key, and what the key did: Enter submits the
/// layout with the split held within 1 to 99, Esc cancels, Up and Down pick
/// the row, Space on row 0 toggles stacking, `+`/Right and `-`/Left on row 1
/// widen and narrow the split within 1 to 99.
pub open spec fn layout_step(cfg: LayoutConfig, cursor: usize, code: KeyCode) -> (LayoutConfig, usize, DialogOutcome<LayoutConfig>) {
    match code {
        KeyCode::Escape => (cfg, cursor, DialogOutcome::Cancelled),
        KeyCode::Enter => (cfg, cursor, DialogOutcome::Submitted(LayoutConfig { left_pct: clamp_pct(cfg.left_pct), ..cfg })),
        KeyCode::Up => (cfg, if cursor > 0 { (cursor - 1) as usize } else { 0 }, DialogOutcome::Open),
        KeyCode::Down => (cfg, if cursor < 1 { (cursor + 1) as usize } else { cursor }, DialogOutcome::Open),
        _ => if code == KeyCode::Char(' ') && cursor == 0 {
            (LayoutConfig { vertical: !cfg.vertical, ..cfg }, cursor, DialogOutcome::Open)
        } else if (code == KeyCode::Char('+') || code == KeyCode::Right) && cursor == 1 {
            (LayoutConfig { left_pct: if cfg.left_pct >= 99 { 99 } else { (cfg.left_pct + 1) as u8 }, ..cfg }, cursor, DialogOutcome::Open)
        } else if (code == KeyCode::Char('-') || code == KeyCode::Left) && cursor == 1 {
            (LayoutConfig { left_pct: if cfg.left_pct <= 1 { 1 } else { (cfg.left_pct - 1) as u8 }, ..cfg }, cursor, DialogOutcome::Open)
        } else {
            (cfg, cursor, DialogOutcome::Open)
        },
    }
}

impl LayoutDialog {
    /// The layout being edited and the focused row.
    pub closed spec fn state(&self) -> (LayoutConfig, usize) {
        (self.cfg, self.cursor)
    }

    /// The editor on row 0.
    pub fn new(cfg: LayoutConfig) -> (r: Self)
        ensures
            r.state() == (cfg, 0usize),
    {
        LayoutDialog { cfg, cursor: 0 }
    }

    /// Handles one key as [`layout_step`] says.
    pub fn handle_key(&mut self, chord: KeyChord) -> (r: DialogOutcome<LayoutConfig>)
        ensures
            (final(self).state().0, final(self).state().1, r) == layout_step(old(self).state().0, old(self).state().1, chord.code),
    {
        let code = chord.code;
        match code {
            KeyCode::Escape => DialogOutcome::Cancelled,
            KeyCode::Enter => {
                let mut c = self.cfg;
                c.left_pct = if c.left_pct < 1 { 1 } else if c.left_pct > 99 { 99 } else { c.left_pct };
                DialogOutcome::Submitted(c)
            },
            KeyCode::Up => {
                if self.cursor > 0 {
                    self.cursor = self.cursor - 1;
                }
                DialogOutcome::Open
            },
            KeyCode::Down => {
                if self.cursor < 1 {
                    self.cursor = self.cursor + 1;
                }
                DialogOutcome::Open
            },
            _ => {
                if code == KeyCode::Char(' ') && self.cursor == 0 {
                    self.cfg.vertical = !self.cfg.vertical;
                } else if (code == KeyCode::Char('+') || code == KeyCode::Right) && self.cursor == 1 {
                    self.cfg.left_pct = if self.cfg.left_pct >= 99 { 99 } else { self.cfg.left_pct + 1 };
                } else if (code == KeyCode::Char('-') || code == KeyCode::Left) && self.cursor == 1 {
                    self.cfg.left_pct = if self.cfg.left_pct <= 1 { 1 } else { self.cfg.left_pct - 1 };
                }
                DialogOutcome::Open
            },
        }
    }
}

} // verus!
