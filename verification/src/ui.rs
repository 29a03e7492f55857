//! Events the interface loop handles, how a session ends, and the viewer's
//! display modes.

use vstd::prelude::*;

use crate::key::KeyChord;

verus! {

/// What the interface loop reacts to.
#[derive(Debug, Clone)]
pub enum AppEvent {
    /// A key press.
    Key(KeyChord),
    /// The terminal's new width and height.
    Resize(u16, u16),
    /// A timer tick.
    Tick,
}

/// Outcome of an interface session.
#[derive(Debug, Default)]
pub struct ExitInfo {
    /// Final working directory of the active panel, if it points at a local
    /// path.
    pub final_cwd: Option<String>,
}

/// How the file viewer shows a file.
#[derive(Debug, Clone, Copy, PartialEq, Eq, Structural)]
pub enum ViewerMode {
    Text,
    Hex,
}

} // verus!
