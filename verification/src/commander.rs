//! The two file panels and what a key pressed on them does: the panel state
//! it changes and the command it hands to the application, which opens
//! dialogs, runs jobs and reloads listings.

use vstd::prelude::*;

use crate::archive_index::{distinct, find_text, texts};
use crate::dialog::{cursor_down, cursor_end, cursor_up};
use crate::num::{decimal, decimal_chars};
use crate::ops::{local_sub, next_sort, next_sort_key, parent_path, parent_spec, vpath_to_local};
use crate::entry::{Entry, EntryKind};
use crate::key::{KeyChord, KeyCode, KeyMods};
use crate::panel::{
    first_prefixed, back_model, cursor_path_spec, fwd_model, history_view, mark_set, navigated, next_mode, resorted, same_settings,
    tagged, PanelState,
};
use crate::path::{child_path, child_spec, LayerText, VPath};
use crate::config::hotlist::{other_paths, Hotlist};
use crate::config::paths::{join, opt_text, path_join};
use crate::dialog::menubar::MenuChoice;
use crate::net::trim_start_slashes;
use crate::path::{parse_vpath, vpath_spec, vpath_text};
use crate::text::{
    pop_char, push_char, unicode_lowercase, append_chars, append_str, chars_eq, chars_of, has_prefix, starts_with_chars, str_eq, string_of, sub_chars,
    trim_chars, trim_ws,
};

verus! {

/// What a key does on the panels.
#[derive(Debug, Clone, Copy, PartialEq, Eq, Structural)]
pub enum PanelKey {
    Quit,
    SwitchPanel,
    Up,
    Down,
    PageUp,
    PageDown,
    Home,
    End,
    Open,
    Parent,
    Tag,
    ToggleHidden,
    CycleListing,
    CycleSort,
    ToggleReverse,
    QuickSearch,
    CtrlXPrefix,
    Hotlist,
    MenuBar,
    FindFile,
    Help,
    LearnKeys,
    Jobs,
    Shell,
    QuickCd,
    UserMenu,
    CommandLine,
    MirrorCwd,
    LoadOther,
    HistoryBack,
    HistoryForward,
    View,
    Edit,
    Copy,
    Move,
    SelectGroup,
    UnselectGroup,
    Mkdir,
    Delete,
    CloseProgress,
    Unbound,
}

/// No modifier held.
pub open spec fn plain(m: KeyMods) -> bool {
    !m.shift && !m.alt && !m.ctrl
}

/// Control alone.
pub open spec fn ctrl_only(m: KeyMods) -> bool {
    !m.shift && !m.alt && m.ctrl
}

/// Alt alone.
pub open spec fn alt_only(m: KeyMods) -> bool {
    !m.shift && m.alt && !m.ctrl
}

/// Shift alone.
pub open spec fn shift_only(m: KeyMods) -> bool {
    m.shift && !m.alt && !m.ctrl
}

/// Alt with Shift.
pub open spec fn alt_shift(m: KeyMods) -> bool {
    m.shift && m.alt && !m.ctrl
}

/// What a character key does: with Control, `q` quits, `.` toggles hidden
/// files, `r` reverses the sort, `s` starts a quick search, `x` is the
/// Ctrl-X prefix, `\` opens the hotlist, `k` learns keys, `j` lists jobs and
/// `o` drops to a shell; with Alt, `.` toggles hidden files, `t` cycles the
/// listing, `s` the sort key, `?` finds files, `c` is quick cd, `i` mirrors
/// the directory to the other panel, `o` loads the other panel, `y` and `u`
/// go back and forward; Alt-Shift-`?` finds files too; alone or with Shift,
/// `:` opens the command line and `+` selects a group; `\` alone unselects a
/// group.
pub open spec fn char_key(c: char, m: KeyMods) -> PanelKey {
    if ctrl_only(m) {
        if c == 'q' {
            PanelKey::Quit
        } else if c == '.' {
            PanelKey::ToggleHidden
        } else if c == 'r' {
            PanelKey::ToggleReverse
        } else if c == 's' {
            PanelKey::QuickSearch
        } else if c == 'x' {
            PanelKey::CtrlXPrefix
        } else if c == '\\' {
            PanelKey::Hotlist
        } else if c == 'k' {
            PanelKey::LearnKeys
        } else if c == 'j' {
            PanelKey::Jobs
        } else if c == 'o' {
            PanelKey::Shell
        } else {
            PanelKey::Unbound
        }
    } else if alt_only(m) {
        if c == '.' {
            PanelKey::ToggleHidden
        } else if c == 't' {
            PanelKey::CycleListing
        } else if c == 's' {
            PanelKey::CycleSort
        } else if c == '?' {
            PanelKey::FindFile
        } else if c == 'c' {
            PanelKey::QuickCd
        } else if c == 'i' {
            PanelKey::MirrorCwd
        } else if c == 'o' {
            PanelKey::LoadOther
        } else if c == 'y' {
            PanelKey::HistoryBack
        } else if c == 'u' {
            PanelKey::HistoryForward
        } else {
            PanelKey::Unbound
        }
    } else if alt_shift(m) {
        if c == '?' {
            PanelKey::FindFile
        } else {
            PanelKey::Unbound
        }
    } else if plain(m) || shift_only(m) {
        if c == ':' {
            PanelKey::CommandLine
        } else if c == '+' {
            PanelKey::SelectGroup
        } else if c == '\\' && plain(m) {
            PanelKey::UnselectGroup
        } else {
            PanelKey::Unbound
        }
    } else {
        PanelKey::Unbound
    }
}

/// What a function key does: alone, F1 help, F2 user menu, F3 view, F4 edit,
/// F5 copy, F6 move or rename, F7 make a directory, F8 delete, F9 the menu
/// bar, F10 quit; Shift-F8 deletes too.
pub open spec fn function_key(n: u8, m: KeyMods) -> PanelKey {
    if plain(m) {
        if n == 1 {
            PanelKey::Help
        } else if n == 2 {
            PanelKey::UserMenu
        } else if n == 3 {
            PanelKey::View
        } else if n == 4 {
            PanelKey::Edit
        } else if n == 5 {
            PanelKey::Copy
        } else if n == 6 {
            PanelKey::Move
        } else if n == 7 {
            PanelKey::Mkdir
        } else if n == 8 {
            PanelKey::Delete
        } else if n == 9 {
            PanelKey::MenuBar
        } else if n == 10 {
            PanelKey::Quit
        } else {
            PanelKey::Unbound
        }
    } else if shift_only(m) && n == 8 {
        PanelKey::Delete
    } else {
        PanelKey::Unbound
    }
}

/// What a chord does on the panels. Tab, the arrows, the page keys, Home,
/// End, Enter, Backspace and Insert act whatever the modifiers; Esc closes a
/// finished progress dialog.
pub open spec fn panel_key_of(chord: KeyChord, progress_finished: bool) -> PanelKey {
    match chord.code {
        KeyCode::F(n) => function_key(n, chord.mods),
        KeyCode::Char(c) => char_key(c, chord.mods),
        KeyCode::Tab => PanelKey::SwitchPanel,
        KeyCode::Up => PanelKey::Up,
        KeyCode::Down => PanelKey::Down,
        KeyCode::PageUp => PanelKey::PageUp,
        KeyCode::PageDown => PanelKey::PageDown,
        KeyCode::Home => PanelKey::Home,
        KeyCode::End => PanelKey::End,
        KeyCode::Enter => PanelKey::Open,
        KeyCode::Backspace => PanelKey::Parent,
        KeyCode::Insert => PanelKey::Tag,
        KeyCode::Escape => if progress_finished {
            PanelKey::CloseProgress
        } else {
            PanelKey::Unbound
        },
        _ => PanelKey::Unbound,
    }
}

fn char_key_of(c: char, m: KeyMods) -> (r: PanelKey)
    ensures
        r == char_key(c, m),
{
    let ctrl_only = !m.shift && !m.alt && m.ctrl;
    let alt_only = !m.shift && m.alt && !m.ctrl;
    let alt_shift = m.shift && m.alt && !m.ctrl;
    let plain = !m.shift && !m.alt && !m.ctrl;
    let shift_only = m.shift && !m.alt && !m.ctrl;
    if ctrl_only {
        match c {
            'q' => PanelKey::Quit,
            '.' => PanelKey::ToggleHidden,
            'r' => PanelKey::ToggleReverse,
            's' => PanelKey::QuickSearch,
            'x' => PanelKey::CtrlXPrefix,
            '\\' => PanelKey::Hotlist,
            'k' => PanelKey::LearnKeys,
            'j' => PanelKey::Jobs,
            'o' => PanelKey::Shell,
            _ => PanelKey::Unbound,
        }
    } else if alt_only {
        match c {
            '.' => PanelKey::ToggleHidden,
            't' => PanelKey::CycleListing,
            's' => PanelKey::CycleSort,
            '?' => PanelKey::FindFile,
            'c' => PanelKey::QuickCd,
            'i' => PanelKey::MirrorCwd,
            'o' => PanelKey::LoadOther,
            'y' => PanelKey::HistoryBack,
            'u' => PanelKey::HistoryForward,
            _ => PanelKey::Unbound,
        }
    } else if alt_shift {
        if c == '?' {
            PanelKey::FindFile
        } else {
            PanelKey::Unbound
        }
    } else if plain || shift_only {
        if c == ':' {
            PanelKey::CommandLine
        } else if c == '+' {
            PanelKey::SelectGroup
        } else if c == '\\' && plain {
            PanelKey::UnselectGroup
        } else {
            PanelKey::Unbound
        }
    } else {
        PanelKey::Unbound
    }
}

fn function_key_of(n: u8, m: KeyMods) -> (r: PanelKey)
    ensures
        r == function_key(n, m),
{
    let plain = !m.shift && !m.alt && !m.ctrl;
    if plain {
        match n {
            1 => PanelKey::Help,
            2 => PanelKey::UserMenu,
            3 => PanelKey::View,
            4 => PanelKey::Edit,
            5 => PanelKey::Copy,
            6 => PanelKey::Move,
            7 => PanelKey::Mkdir,
            8 => PanelKey::Delete,
            9 => PanelKey::MenuBar,
            10 => PanelKey::Quit,
            _ => PanelKey::Unbound,
        }
    } else if m.shift && !m.alt && !m.ctrl && n == 8 {
        PanelKey::Delete
    } else {
        PanelKey::Unbound
    }
}

/// What a chord does on the panels, as [`panel_key_of`] says.
pub fn classify_panel_key(chord: KeyChord, progress_finished: bool) -> (r: PanelKey)
    ensures
        r == panel_key_of(chord, progress_finished),
{
    match chord.code {
        KeyCode::F(n) => function_key_of(n, chord.mods),
        KeyCode::Char(c) => char_key_of(c, chord.mods),
        KeyCode::Tab => PanelKey::SwitchPanel,
        KeyCode::Up => PanelKey::Up,
        KeyCode::Down => PanelKey::Down,
        KeyCode::PageUp => PanelKey::PageUp,
        KeyCode::PageDown => PanelKey::PageDown,
        KeyCode::Home => PanelKey::Home,
        KeyCode::End => PanelKey::End,
        KeyCode::Enter => PanelKey::Open,
        KeyCode::Backspace => PanelKey::Parent,
        KeyCode::Insert => PanelKey::Tag,
        KeyCode::Escape => if progress_finished {
            PanelKey::CloseProgress
        } else {
            PanelKey::Unbound
        },
        _ => PanelKey::Unbound,
    }
}

/// A dialog a key asks the application to open.
#[derive(Debug, Clone, Copy, PartialEq, Eq, Structural)]
pub enum ModalRequest {
    QuickSearch,
    CtrlXPrefix,
    Hotlist,
    MenuBar,
    FindFile,
    Help,
    LearnKeys,
    Jobs,
    QuickCd,
    UserMenu,
    CommandLine,
    SelectGroup,
    UnselectGroup,
    Mkdir,
}

/// What the application does after a key on the panels.
#[derive(Debug)]
pub enum PanelCommand {
    /// Nothing to do.
    Nothing,
    Redraw,
    Quit,
    /// Reload the active panel's listing.
    ReloadActive,
    /// Reload both listings.
    ReloadBoth,
    OpenModal(ModalRequest),
    /// Close the finished progress dialog.
    CloseModal,
    /// Open a file: mount it when it is an archive, else run its bound
    /// Open command.
    OpenFile { target: Option<VPath>, name: String },
    /// View a file with its bound View command or the viewer.
    View { name: String, target: VPath },
    /// Edit a local file.
    Edit { file: String },
    /// Run an interactive shell in a directory.
    DropToShell { cwd: String },
    SubmitCopy { sources: Vec<VPath>, dst_dir: VPath },
    SubmitMove { sources: Vec<VPath>, dst_dir: VPath },
    /// Ask for a new name for one entry.
    Rename { src: VPath, name: String },
    /// Ask to confirm deleting the targets.
    ConfirmDelete { message: String, targets: Vec<VPath> },
    /// Ask for the octal mode of the targets.
    OpenChmod { targets: Vec<VPath> },
    /// Write the hotlist back to its file.
    SaveHotlist,
    /// Compare the file under the cursor with the same name in the other
    /// panel.
    OpenDiff,
    /// Put a text on the clipboard: the directory (`cwd_only`) or the path
    /// under the cursor.
    CopyText { text: String, cwd_only: bool },
    /// Show a message in the status line.
    Status { message: String },
    /// Make a directory.
    MakeDir { in_dir: VPath, name: String },
    /// Delete the targets, recursively.
    SubmitDelete { targets: Vec<VPath> },
    /// Set the permission bits of the targets.
    SetMode { targets: Vec<VPath>, mode: u32 },
    /// Give an entry a new name.
    RenameTo { src: VPath, new_name: String },
    /// Run a command line, as typed, in a directory; the application
    /// expands its macros and records it in the command history.
    RunShell { cwd: String, command: String },
    /// Connect again to a remote location with a password.
    RetryWithPassword { scheme: String, location: String, password: String },
    /// Cancel the running job.
    CancelJob,
}

/// A command as plain values.
pub enum CommandView {
    Nothing,
    Redraw,
    Quit,
    ReloadActive,
    ReloadBoth,
    OpenModal(ModalRequest),
    CloseModal,
    OpenFile(Option<Seq<LayerText>>, Seq<char>),
    View(Seq<char>, Seq<LayerText>),
    Edit(Seq<char>),
    DropToShell(Seq<char>),
    SubmitCopy(Seq<Seq<LayerText>>, Seq<LayerText>),
    SubmitMove(Seq<Seq<LayerText>>, Seq<LayerText>),
    Rename(Seq<LayerText>, Seq<char>),
    ConfirmDelete(Seq<char>, Seq<Seq<LayerText>>),
    OpenChmod(Seq<Seq<LayerText>>),
    SaveHotlist,
    OpenDiff,
    CopyText(Seq<char>, bool),
    Status(Seq<char>),
    MakeDir(Seq<LayerText>, Seq<char>),
    SubmitDelete(Seq<Seq<LayerText>>),
    SetMode(Seq<Seq<LayerText>>, u32),
    RenameTo(Seq<LayerText>, Seq<char>),
    RunShell(Seq<char>, Seq<char>),
    RetryWithPassword(Seq<char>, Seq<char>, Seq<char>),
    CancelJob,
}

/// The layers of an optional path.
pub open spec fn opt_path(o: Option<VPath>) -> Option<Seq<LayerText>> {
    match o {
        Some(p) => Some(p@),
        None => None,
    }
}

impl View for PanelCommand {
    type V = CommandView;

    open spec fn view(&self) -> CommandView {
        match self {
            PanelCommand::Nothing => CommandView::Nothing,
            PanelCommand::Redraw => CommandView::Redraw,
            PanelCommand::Quit => CommandView::Quit,
            PanelCommand::ReloadActive => CommandView::ReloadActive,
            PanelCommand::ReloadBoth => CommandView::ReloadBoth,
            PanelCommand::OpenModal(m) => CommandView::OpenModal(*m),
            PanelCommand::CloseModal => CommandView::CloseModal,
            PanelCommand::OpenFile { target, name } => CommandView::OpenFile(opt_path(*target), name@),
            PanelCommand::View { name, target } => CommandView::View(name@, target@),
            PanelCommand::Edit { file } => CommandView::Edit(file@),
            PanelCommand::DropToShell { cwd } => CommandView::DropToShell(cwd@),
            PanelCommand::SubmitCopy { sources, dst_dir } => CommandView::SubmitCopy(history_view(sources@), dst_dir@),
            PanelCommand::SubmitMove { sources, dst_dir } => CommandView::SubmitMove(history_view(sources@), dst_dir@),
            PanelCommand::Rename { src, name } => CommandView::Rename(src@, name@),
            PanelCommand::ConfirmDelete { message, targets } => CommandView::ConfirmDelete(message@, history_view(targets@)),
            PanelCommand::OpenChmod { targets } => CommandView::OpenChmod(history_view(targets@)),
            PanelCommand::SaveHotlist => CommandView::SaveHotlist,
            PanelCommand::OpenDiff => CommandView::OpenDiff,
            PanelCommand::CopyText { text, cwd_only } => CommandView::CopyText(text@, *cwd_only),
            PanelCommand::Status { message } => CommandView::Status(message@),
            PanelCommand::MakeDir { in_dir, name } => CommandView::MakeDir(in_dir@, name@),
            PanelCommand::SubmitDelete { targets } => CommandView::SubmitDelete(history_view(targets@)),
            PanelCommand::SetMode { targets, mode } => CommandView::SetMode(history_view(targets@), *mode),
            PanelCommand::RenameTo { src, new_name } => CommandView::RenameTo(src@, new_name@),
            PanelCommand::RunShell { cwd, command } => CommandView::RunShell(cwd@, command@),
            PanelCommand::RetryWithPassword { scheme, location, password } => CommandView::RetryWithPassword(
                scheme@,
                location@,
                password@,
            ),
            PanelCommand::CancelJob => CommandView::CancelJob,
        }
    }
}

/// The children of `cwd` named by the tagged entries, in listing order.
pub open spec fn marked_children(es: Seq<Entry>, marks: Set<Seq<char>>, cwd: Seq<LayerText>) -> Seq<Seq<LayerText>>
    decreases es.len(),
{
    if es.len() == 0 {
        Seq::empty()
    } else {
        let r = marked_children(es.drop_last(), marks, cwd);
        let e = es.last();
        if marks.contains(e.name@) {
            match child_spec(cwd, e.name@) {
                Some(c) => r.push(c),
                None => r,
            }
        } else {
            r
        }
    }
}

/// What a file operation acts on: the tagged entries when there are any,
/// else the entry under the cursor unless it is `..`.
pub open spec fn selected_spec(a: PanelState) -> Seq<Seq<LayerText>> {
    if a.marks@.len() > 0 {
        marked_children(a.entries@, mark_set(a.marks@), a.cwd@)
    } else {
        match cursor_path_spec(a.entries@, a.cursor as int, a.cwd@) {
            Some(c) => if a.cursor < a.entries@.len() && a.entries@[a.cursor as int].name@ != ".."@ {
                seq![c]
            } else {
                Seq::empty()
            },
            None => Seq::empty(),
        }
    }
}

/// Whether a name is among the tagged names.
fn is_marked(marks: &Vec<String>, name: &str) -> (r: bool)
    ensures
        r == mark_set(marks@).contains(name@),
{
    let found = find_text(marks, name);
    proof {
        assert(texts(marks@) =~= marks@.map_values(|m: String| m@));
        match found {
            Some(j) => {
                assert(texts(marks@)[j as int] == name@);
            },
            None => {},
        }
    }
    found.is_some()
}

/// What a file operation acts on, as [`selected_spec`] says.
pub fn selected_targets(a: &PanelState) -> (r: Vec<VPath>)
    ensures
        history_view(r@) == selected_spec(*a),
{
    let mut out: Vec<VPath> = Vec::new();
    if a.marks.len() > 0 {
        let ghost ms = mark_set(a.marks@);
        let mut i: usize = 0;
        assert(a.entries@.take(0) =~= Seq::<Entry>::empty());
        assert(history_view(out@) =~= Seq::<Seq<LayerText>>::empty());
        while i < a.entries.len()
            invariant
                i <= a.entries@.len(),
                ms == mark_set(a.marks@),
                history_view(out@) == marked_children(a.entries@.take(i as int), ms, a.cwd@),
            decreases a.entries@.len() - i,
        {
            let e = &a.entries[i];
            assert(a.entries@.take(i + 1).drop_last() =~= a.entries@.take(i as int));
            assert(a.entries@.take(i + 1).last() == a.entries@[i as int]);
            if is_marked(&a.marks, e.name.as_str()) {
                match child_path(&a.cwd, e.name.as_str()) {
                    Some(c) => {
                        let ghost before = history_view(out@);
                        out.push(c);
                        assert(history_view(out@) =~= before.push(c@));
                    },
                    None => {},
                }
            }
            i = i + 1;
        }
        assert(a.entries@.take(a.entries@.len() as int) =~= a.entries@);
        out
    } else {
        match a.cursor_path() {
            Some(c) => {
                if a.cursor < a.entries.len() && !crate::text::str_eq(a.entries[a.cursor].name.as_str(), "..") {
                    out.push(c);
                    assert(history_view(out@) =~= seq![c@]);
                } else {
                    assert(history_view(out@) =~= Seq::<Seq<LayerText>>::empty());
                }
            },
            None => {
                assert(history_view(out@) =~= Seq::<Seq<LayerText>>::empty());
            },
        }
        out
    }
}

/// The cursor twenty rows up, stopping at the top.
pub open spec fn page_up(c: usize) -> usize {
    if c >= 20 { (c - 20) as usize } else { 0 }
}

/// The cursor twenty rows down, stopping at the last of `n` rows.
pub open spec fn page_down(c: usize, n: nat) -> usize {
    if c + 20 < cursor_end(n) { (c + 20) as usize } else { cursor_end(n) }
}

/// The directory a shell started from the panel runs in: the innermost
/// sub-path, or `.` for a path without layers.
pub open spec fn shell_dir(a: PanelState) -> Seq<char> {
    if a.cwd@.len() > 0 {
        a.cwd@.last().2
    } else {
        "."@
    }
}

/// Viewing the entry under the cursor, when it leads somewhere.
pub open spec fn view_command(a: PanelState) -> CommandView {
    match cursor_path_spec(a.entries@, a.cursor as int, a.cwd@) {
        Some(t) => CommandView::View(a.entries@[a.cursor as int].name@, t),
        None => CommandView::Nothing,
    }
}

/// Editing the entry under the cursor, when it is a local file.
pub open spec fn edit_command(a: PanelState) -> CommandView {
    match cursor_path_spec(a.entries@, a.cursor as int, a.cwd@) {
        Some(t) => match local_sub(t) {
            Some(l) => CommandView::Edit(l),
            None => CommandView::Nothing,
        },
        None => CommandView::Nothing,
    }
}

/// The question before deleting: the sub-path of a single target, else the
/// number of targets.
pub open spec fn delete_message(ts: Seq<Seq<LayerText>>) -> Seq<char> {
    if ts.len() == 1 {
        "Delete \""@ + (if ts[0].len() > 0 { ts[0].last().2 } else { Seq::empty() }) + "\"?"@
    } else {
        "Delete "@ + decimal(ts.len()) + " items?"@
    }
}

/// Asking to delete the selected entries, when there are any.
pub open spec fn delete_command(a: PanelState) -> CommandView {
    let ts = selected_spec(a);
    if ts.len() == 0 {
        CommandView::Nothing
    } else {
        CommandView::ConfirmDelete(delete_message(ts), ts)
    }
}

/// Enter: a directory under the cursor is gone into; a file is handed on to
/// be opened; anything else does nothing.
pub open spec fn enter_step(a: PanelState, b: PanelState, r: CommandView) -> bool {
    if a.cursor < a.entries@.len() {
        let e = a.entries@[a.cursor as int];
        let t = cursor_path_spec(a.entries@, a.cursor as int, a.cwd@);
        if e.kind == EntryKind::Dir {
            match t {
                Some(d) => navigated(a, b, d) && r == CommandView::ReloadActive,
                None => b == a && r == CommandView::Nothing,
            }
        } else if e.kind == EntryKind::File {
            b == a && r == CommandView::OpenFile(t, e.name@)
        } else {
            b == a && r == CommandView::Nothing
        }
    } else {
        b == a && r == CommandView::Nothing
    }
}

/// Backspace: go to the parent directory; at the root of an archive layer,
/// leave the archive; at the root of a plain path, do nothing.
pub open spec fn parent_step(a: PanelState, b: PanelState, r: CommandView) -> bool {
    match parent_spec(a.cwd@) {
        Some(d) => navigated(a, b, d) && r == CommandView::ReloadActive,
        None => if a.cwd@.len() > 1 {
            navigated(a, b, a.cwd@.drop_last()) && r == CommandView::ReloadActive
        } else {
            b == a && r == CommandView::Nothing
        },
    }
}

/// A step back (or forward) in the history: the panel goes there and is
/// reloaded, or nothing happens at the oldest (newest) directory.
pub open spec fn history_step(a: PanelState, b: PanelState, r: CommandView, back: bool) -> bool {
    let (m, moved) = if back { back_model(a.hist_model()) } else { fwd_model(a.hist_model()) };
    if moved {
        &&& b.hist_model() == m
        &&& b.cursor == 0
        &&& b.view_offset == 0
        &&& b.marks@.len() == 0
        &&& b.entries@ == a.entries@
        &&& same_settings(a, b)
        &&& (a.wf() ==> b.wf())
        &&& r == CommandView::ReloadActive
    } else {
        b == a && r == CommandView::Nothing
    }
}

/// What a key that concerns the active panel alone does to it (`a` before,
/// `b` after) and hands on.
pub open spec fn local_step(a: PanelState, k: PanelKey, b: PanelState, r: CommandView) -> bool {
    match k {
        PanelKey::Quit => b == a && r == CommandView::Quit,
        PanelKey::Up => b == (PanelState { cursor: cursor_up(a.cursor), ..a }) && r == CommandView::Redraw,
        PanelKey::Down => b == (PanelState { cursor: cursor_down(a.cursor, a.entries@.len()), ..a }) && r == CommandView::Redraw,
        PanelKey::PageUp => b == (PanelState { cursor: page_up(a.cursor), ..a }) && r == CommandView::Redraw,
        PanelKey::PageDown => b == (PanelState { cursor: page_down(a.cursor, a.entries@.len()), ..a }) && r == CommandView::Redraw,
        PanelKey::Home => b == (PanelState { cursor: 0, ..a }) && r == CommandView::Redraw,
        PanelKey::End => b == (PanelState { cursor: cursor_end(a.entries@.len()), ..a }) && r == CommandView::Redraw,
        PanelKey::Open => enter_step(a, b, r),
        PanelKey::Parent => parent_step(a, b, r),
        PanelKey::Tag => tagged(a, b) && r == CommandView::Redraw,
        PanelKey::ToggleHidden => b == (PanelState { show_hidden: !a.show_hidden, ..a }) && r == CommandView::ReloadActive,
        PanelKey::CycleListing => b == (PanelState { mode: next_mode(a.mode), ..a }) && r == CommandView::Redraw,
        PanelKey::CycleSort => resorted(PanelState { sort_by: next_sort_key(a.sort_by), ..a }, b) && r == CommandView::Redraw,
        PanelKey::ToggleReverse => resorted(PanelState { reverse: !a.reverse, ..a }, b) && r == CommandView::Redraw,
        PanelKey::QuickSearch => b == a && r == CommandView::OpenModal(ModalRequest::QuickSearch),
        PanelKey::CtrlXPrefix => b == a && r == CommandView::OpenModal(ModalRequest::CtrlXPrefix),
        PanelKey::Hotlist => b == a && r == CommandView::OpenModal(ModalRequest::Hotlist),
        PanelKey::MenuBar => b == a && r == CommandView::OpenModal(ModalRequest::MenuBar),
        PanelKey::FindFile => b == a && r == CommandView::OpenModal(ModalRequest::FindFile),
        PanelKey::Help => b == a && r == CommandView::OpenModal(ModalRequest::Help),
        PanelKey::LearnKeys => b == a && r == CommandView::OpenModal(ModalRequest::LearnKeys),
        PanelKey::Jobs => b == a && r == CommandView::OpenModal(ModalRequest::Jobs),
        PanelKey::QuickCd => b == a && r == CommandView::OpenModal(ModalRequest::QuickCd),
        PanelKey::UserMenu => b == a && r == CommandView::OpenModal(ModalRequest::UserMenu),
        PanelKey::CommandLine => b == a && r == CommandView::OpenModal(ModalRequest::CommandLine),
        PanelKey::SelectGroup => b == a && r == CommandView::OpenModal(ModalRequest::SelectGroup),
        PanelKey::UnselectGroup => b == a && r == CommandView::OpenModal(ModalRequest::UnselectGroup),
        PanelKey::Mkdir => b == a && r == CommandView::OpenModal(ModalRequest::Mkdir),
        PanelKey::Shell => b == a && r == CommandView::DropToShell(shell_dir(a)),
        PanelKey::HistoryBack => history_step(a, b, r, true),
        PanelKey::HistoryForward => history_step(a, b, r, false),
        PanelKey::View => b == a && r == view_command(a),
        PanelKey::Edit => b == a && r == edit_command(a),
        PanelKey::Delete => b == a && r == delete_command(a),
        PanelKey::CloseProgress => b == a && r == CommandView::CloseModal,
        _ => b == a && r == CommandView::Nothing,
    }
}

fn delete_message_of(ts: &Vec<VPath>) -> (r: String)
    requires
        ts@.len() > 0,
    ensures
        r@ == delete_message(history_view(ts@)),
{
    let ghost tv = history_view(ts@);
    if ts.len() == 1 {
        assert(tv[0] == ts@[0]@);
        let sub = match ts[0].last() {
            Some(l) => l.sub.clone(),
            None => String::new(),
        };
        let mut m = String::from_str("Delete \"");
        append_str(&mut m, sub.as_str());
        append_str(&mut m, "\"?");
        m
    } else {
        let n: u64 = ts.len() as u64;
        let mut m = String::from_str("Delete ");
        append_chars(&mut m, decimal_chars(n).as_slice());
        append_str(&mut m, " items?");
        m
    }
}

fn modal(b: ModalRequest) -> (r: PanelCommand)
    ensures
        r@ == CommandView::OpenModal(b),
{
    PanelCommand::OpenModal(b)
}

/// Applies a key that concerns the active panel alone, as [`local_step`]
/// says.
#[verifier::spinoff_prover]
pub fn local_key(a: &mut PanelState, k: PanelKey) -> (r: PanelCommand)
    requires
        k == PanelKey::HistoryBack ==> old(a).history_pos <= old(a).history@.len(),
    ensures
        local_step(*old(a), k, *final(a), r@),
{
    let n = a.entries.len();
    let last: usize = if n > 0 { n - 1 } else { 0 };
    match k {
        PanelKey::Quit => PanelCommand::Quit,
        PanelKey::Up => {
            a.cursor = if a.cursor >= 1 { a.cursor - 1 } else { 0 };
            PanelCommand::Redraw
        },
        PanelKey::Down => {
            if a.cursor < n && a.cursor + 1 < n {
                a.cursor = a.cursor + 1;
            }
            PanelCommand::Redraw
        },
        PanelKey::PageUp => {
            a.cursor = if a.cursor >= 20 { a.cursor - 20 } else { 0 };
            PanelCommand::Redraw
        },
        PanelKey::PageDown => {
            a.cursor = if a.cursor < last && last - a.cursor > 20 { a.cursor + 20 } else { last };
            PanelCommand::Redraw
        },
        PanelKey::Home => {
            a.cursor = 0;
            PanelCommand::Redraw
        },
        PanelKey::End => {
            a.cursor = last;
            PanelCommand::Redraw
        },
        PanelKey::Open => {
            if a.cursor >= n {
                return PanelCommand::Nothing;
            }
            let kind = a.entries[a.cursor].kind;
            let target = a.cursor_path();
            match kind {
                EntryKind::Dir => match target {
                    Some(t) => {
                        a.navigate(t);
                        PanelCommand::ReloadActive
                    },
                    None => PanelCommand::Nothing,
                },
                EntryKind::File => PanelCommand::OpenFile { target, name: a.entries[a.cursor].name.clone() },
                _ => PanelCommand::Nothing,
            }
        },
        PanelKey::Parent => {
            match parent_path(&a.cwd) {
                Some(t) => {
                    a.navigate(t);
                    return PanelCommand::ReloadActive;
                },
                None => {},
            }
            if a.cwd.layers().len() > 1 {
                let mut up = a.cwd.clone_path();
                let _ = up.pop_layer();
                a.navigate(up);
                return PanelCommand::ReloadActive;
            }
            PanelCommand::Nothing
        },
        PanelKey::Tag => {
            a.toggle_mark();
            PanelCommand::Redraw
        },
        PanelKey::ToggleHidden => {
            a.show_hidden = !a.show_hidden;
            PanelCommand::ReloadActive
        },
        PanelKey::CycleListing => {
            a.mode = a.mode.next();
            PanelCommand::Redraw
        },
        PanelKey::CycleSort => {
            a.sort_by = next_sort(a.sort_by);
            a.apply_filter_sort();
            PanelCommand::Redraw
        },
        PanelKey::ToggleReverse => {
            a.reverse = !a.reverse;
            a.apply_filter_sort();
            PanelCommand::Redraw
        },
        PanelKey::QuickSearch => modal(ModalRequest::QuickSearch),
        PanelKey::CtrlXPrefix => modal(ModalRequest::CtrlXPrefix),
        PanelKey::Hotlist => modal(ModalRequest::Hotlist),
        PanelKey::MenuBar => modal(ModalRequest::MenuBar),
        PanelKey::FindFile => modal(ModalRequest::FindFile),
        PanelKey::Help => modal(ModalRequest::Help),
        PanelKey::LearnKeys => modal(ModalRequest::LearnKeys),
        PanelKey::Jobs => modal(ModalRequest::Jobs),
        PanelKey::QuickCd => modal(ModalRequest::QuickCd),
        PanelKey::UserMenu => modal(ModalRequest::UserMenu),
        PanelKey::CommandLine => modal(ModalRequest::CommandLine),
        PanelKey::SelectGroup => modal(ModalRequest::SelectGroup),
        PanelKey::UnselectGroup => modal(ModalRequest::UnselectGroup),
        PanelKey::Mkdir => modal(ModalRequest::Mkdir),
        PanelKey::Shell => {
            let cwd = match a.cwd.last() {
                Some(l) => l.sub.clone(),
                None => String::from_str("."),
            };
            PanelCommand::DropToShell { cwd }
        },
        PanelKey::HistoryBack => {
            if a.history_back() {
                PanelCommand::ReloadActive
            } else {
                PanelCommand::Nothing
            }
        },
        PanelKey::HistoryForward => {
            if a.history_fwd() {
                PanelCommand::ReloadActive
            } else {
                PanelCommand::Nothing
            }
        },
        PanelKey::View => {
            match a.cursor_path() {
                Some(target) => PanelCommand::View { name: a.entries[a.cursor].name.clone(), target },
                None => PanelCommand::Nothing,
            }
        },
        PanelKey::Edit => {
            match a.cursor_path() {
                Some(target) => match vpath_to_local(&target) {
                    Some(file) => PanelCommand::Edit { file },
                    None => PanelCommand::Nothing,
                },
                None => PanelCommand::Nothing,
            }
        },
        PanelKey::Delete => {
            let targets = selected_targets(a);
            if targets.len() == 0 {
                PanelCommand::Nothing
            } else {
                let message = delete_message_of(&targets);
                PanelCommand::ConfirmDelete { message, targets }
            }
        },
        PanelKey::CloseProgress => PanelCommand::CloseModal,
        _ => PanelCommand::Nothing,
    }
}

/// The two panels and which of them is active.
#[derive(Debug)]
pub struct Panels {
    pub left: PanelState,
    pub right: PanelState,
    pub active_left: bool,
}

impl Panels {
    /// The active panel.
    pub open spec fn active_spec(self) -> PanelState {
        if self.active_left {
            self.left
        } else {
            self.right
        }
    }

    /// The other panel.
    pub open spec fn other_spec(self) -> PanelState {
        if self.active_left {
            self.right
        } else {
            self.left
        }
    }
}

/// Where Alt-O sends the other panel: into the directory under the cursor
/// (not `..`), else to the parent directory, else to the same directory.
pub open spec fn load_target(a: PanelState) -> Option<Seq<LayerText>> {
    if a.cursor < a.entries@.len() && a.entries@[a.cursor as int].kind == EntryKind::Dir
        && a.entries@[a.cursor as int].name@ != ".."@ {
        cursor_path_spec(a.entries@, a.cursor as int, a.cwd@)
    } else {
        match parent_spec(a.cwd@) {
            Some(q) => Some(q),
            None => Some(a.cwd@),
        }
    }
}

/// F5: copy the selected entries into the other panel's directory.
pub open spec fn copy_command(a: PanelState, dst: Seq<LayerText>) -> CommandView {
    let s = selected_spec(a);
    if s.len() == 0 {
        CommandView::Nothing
    } else {
        CommandView::SubmitCopy(s, dst)
    }
}

/// F6: rename the one entry under the cursor when nothing is tagged;
/// otherwise move the selected entries into the other panel's directory.
pub open spec fn move_command(a: PanelState, dst: Seq<LayerText>) -> CommandView {
    let s = selected_spec(a);
    if s.len() == 0 {
        CommandView::Nothing
    } else if s.len() == 1 && a.marks@.len() == 0 {
        if a.cursor < a.entries@.len() && a.entries@[a.cursor as int].name@ != ".."@ {
            CommandView::Rename(s[0], a.entries@[a.cursor as int].name@)
        } else {
            CommandView::Nothing
        }
    } else {
        CommandView::SubmitMove(s, dst)
    }
}

/// What a key does to the panels (`o` before, `n` after) and hands on: Tab
/// makes the other panel active; Alt-I and Alt-O send the other panel to a
/// directory; F5 and F6 act on the active panel's selection with the other
/// panel's directory as destination; every other key acts on the active
/// panel alone, as [`local_step`] says.
pub open spec fn panel_step(o: Panels, k: PanelKey, n: Panels, r: CommandView) -> bool {
    match k {
        PanelKey::SwitchPanel => {
            &&& n.active_left == !o.active_left
            &&& n.left == (PanelState { active: !o.active_left, ..o.left })
            &&& n.right == (PanelState { active: o.active_left, ..o.right })
            &&& r == CommandView::Redraw
        },
        PanelKey::MirrorCwd => {
            &&& n.active_left == o.active_left
            &&& n.active_spec() == o.active_spec()
            &&& navigated(o.other_spec(), n.other_spec(), o.active_spec().cwd@)
            &&& r == CommandView::ReloadBoth
        },
        PanelKey::LoadOther => {
            &&& n.active_left == o.active_left
            &&& n.active_spec() == o.active_spec()
            &&& match load_target(o.active_spec()) {
                Some(t) => navigated(o.other_spec(), n.other_spec(), t),
                None => n.other_spec() == o.other_spec(),
            }
            &&& r == CommandView::ReloadActive
        },
        PanelKey::Copy => n == o && r == copy_command(o.active_spec(), o.other_spec().cwd@),
        PanelKey::Move => n == o && r == move_command(o.active_spec(), o.other_spec().cwd@),
        _ => {
            &&& n.active_left == o.active_left
            &&& n.other_spec() == o.other_spec()
            &&& local_step(o.active_spec(), k, n.active_spec(), r)
        },
    }
}

fn load_target_of(a: &PanelState) -> (r: Option<VPath>)
    ensures
        opt_path(r) == load_target(*a),
{
    if a.cursor < a.entries.len() && a.entries[a.cursor].is_dir() && !crate::text::str_eq(a.entries[a.cursor].name.as_str(), "..") {
        a.cursor_path()
    } else {
        match parent_path(&a.cwd) {
            Some(q) => Some(q),
            None => Some(a.cwd.clone_path()),
        }
    }
}

fn copy_or_move(a: &PanelState, dst: &VPath, moving: bool) -> (r: PanelCommand)
    ensures
        r@ == if moving { move_command(*a, dst@) } else { copy_command(*a, dst@) },
{
    let sources = selected_targets(a);
    if sources.len() == 0 {
        return PanelCommand::Nothing;
    }
    if !moving {
        return PanelCommand::SubmitCopy { sources, dst_dir: dst.clone_path() };
    }
    if sources.len() == 1 && a.marks.len() == 0 {
        if a.cursor < a.entries.len() && !crate::text::str_eq(a.entries[a.cursor].name.as_str(), "..") {
            let mut sources = sources;
            let src = sources.remove(0);
            return PanelCommand::Rename { src, name: a.entries[a.cursor].name.clone() };
        }
        return PanelCommand::Nothing;
    }
    PanelCommand::SubmitMove { sources, dst_dir: dst.clone_path() }
}

impl Panels {
    /// Applies a key, as [`panel_step`] says.
    #[verifier::spinoff_prover]
    pub fn apply(&mut self, k: PanelKey) -> (r: PanelCommand)
        requires
            k == PanelKey::HistoryBack ==> old(self).active_spec().history_pos <= old(self).active_spec().history@.len(),
        ensures
            panel_step(*old(self), k, *final(self), r@),
    {
        match k {
            PanelKey::SwitchPanel => {
                self.active_left = !self.active_left;
                self.left.active = self.active_left;
                self.right.active = !self.active_left;
                PanelCommand::Redraw
            },
            PanelKey::MirrorCwd => {
                if self.active_left {
                    let cwd = self.left.cwd.clone_path();
                    self.right.navigate(cwd);
                } else {
                    let cwd = self.right.cwd.clone_path();
                    self.left.navigate(cwd);
                }
                PanelCommand::ReloadBoth
            },
            PanelKey::LoadOther => {
                if self.active_left {
                    match load_target_of(&self.left) {
                        Some(t) => self.right.navigate(t),
                        None => {},
                    }
                } else {
                    match load_target_of(&self.right) {
                        Some(t) => self.left.navigate(t),
                        None => {},
                    }
                }
                PanelCommand::ReloadActive
            },
            PanelKey::Copy => if self.active_left {
                copy_or_move(&self.left, &self.right.cwd, false)
            } else {
                copy_or_move(&self.right, &self.left.cwd, false)
            },
            PanelKey::Move => if self.active_left {
                copy_or_move(&self.left, &self.right.cwd, true)
            } else {
                copy_or_move(&self.right, &self.left.cwd, true)
            },
            _ => if self.active_left {
                local_key(&mut self.left, k)
            } else {
                local_key(&mut self.right, k)
            },
        }
    }

    /// Handles a chord pressed on the panels: [`panel_key_of`] says what it
    /// does, and [`panel_step`] how.
    pub fn handle_panel_key(&mut self, chord: KeyChord, progress_finished: bool) -> (r: PanelCommand)
        requires
            panel_key_of(chord, progress_finished) == PanelKey::HistoryBack ==> old(self).active_spec().history_pos
                <= old(self).active_spec().history@.len(),
        ensures
            panel_step(*old(self), panel_key_of(chord, progress_finished), *final(self), r@),
    {
        let k = classify_panel_key(chord, progress_finished);
        self.apply(k)
    }
}

/// The panels' own flags agree with which of them is active.
pub open spec fn flags_agree(ps: Panels) -> bool {
    ps.left.active == ps.active_left && ps.right.active == !ps.active_left
}

/// Switching panels keeps the flags in agreement, and switching twice
/// restores the panels.
pub proof fn lemma_switch_twice(o: Panels, m: Panels, n: Panels, r1: CommandView, r2: CommandView)
    requires
        flags_agree(o),
        panel_step(o, PanelKey::SwitchPanel, m, r1),
        panel_step(m, PanelKey::SwitchPanel, n, r2),
    ensures
        flags_agree(m),
        n == o,
{
}

/// The cursor keys keep the cursor on an entry, or at 0 with no entries.
pub proof fn lemma_cursor_keys_in_range(a: PanelState, k: PanelKey, b: PanelState, r: CommandView)
    requires
        k == PanelKey::Up || k == PanelKey::Down || k == PanelKey::PageUp || k == PanelKey::PageDown
            || k == PanelKey::Home || k == PanelKey::End,
        local_step(a, k, b, r),
        a.cursor < a.entries@.len() || (a.entries@.len() == 0 && a.cursor == 0),
    ensures
        b.entries@ == a.entries@,
        b.cursor < b.entries@.len() || (b.entries@.len() == 0 && b.cursor == 0),
{
}

/// The index of the last `/` or `\\` in `s`, or -1.
pub open spec fn last_separator(s: Seq<char>) -> int
    decreases s.len(),
{
    if s.len() == 0 {
        -1
    } else if s.last() == '/' || s.last() == '\\' {
        s.len() - 1
    } else {
        last_separator(s.drop_last())
    }
}

/// The label a bookmark of a written path gets: the text after its last
/// `/` or `\\`, or the whole text.
pub open spec fn hotlist_label_spec(p: Seq<char>) -> Seq<char> {
    let i = last_separator(p);
    if i < 0 {
        p
    } else {
        p.skip(i + 1)
    }
}

/// The label of a bookmark, as [`hotlist_label_spec`] says.
pub fn hotlist_label(p: &str) -> (r: String)
    ensures
        r@ == hotlist_label_spec(p@),
{
    let v = chars_of(p);
    let mut i = v.len();
    assert(v@.take(i as int) =~= v@);
    while i > 0 && v[i - 1] != '/' && v[i - 1] != '\\'
        invariant
            i <= v@.len(),
            last_separator(v@.take(i as int)) == last_separator(v@),
        decreases i,
    {
        assert(v@.take(i as int).drop_last() =~= v@.take(i - 1));
        i = i - 1;
    }
    if i == 0 {
        assert(v@.take(0) =~= Seq::<char>::empty());
        return String::from_str(p);
    }
    assert(v@.take(i as int).last() == v@[i - 1]);
    let w = sub_chars(v.as_slice(), i, v.len());
    assert(w@ =~= v@.skip(i as int));
    string_of(w.as_slice())
}

/// Whether `p` occurs in `s`.
pub open spec fn has_infix(s: Seq<char>, p: Seq<char>) -> bool {
    exists|i: int| 0 <= i && i + p.len() <= s.len() && #[trigger] s.subrange(i, i + p.len()) == p
}

pub(crate) fn contains_chars(s: &Vec<char>, p: &Vec<char>) -> (r: bool)
    ensures
        r == has_infix(s@, p@),
{
    if p.len() > s.len() {
        return false;
    }
    if p.len() == 0 {
        assert(s@.subrange(0, 0 + p@.len() as int) =~= p@);
        assert(has_infix(s@, p@));
        return true;
    }
    let mut i: usize = 0;
    while p.len() <= s.len() - i
        invariant
            1 <= p@.len() <= s@.len(),
            i <= s@.len(),
            forall|j: int| 0 <= j < i ==> #[trigger] s@.subrange(j, j + p@.len()) != p@,
        decreases s@.len() - i,
    {
        let w = sub_chars(s.as_slice(), i, i + p.len());
        if chars_eq(w.as_slice(), p.as_slice()) {
            return true;
        }
        i = i + 1;
    }
    proof {
        if has_infix(s@, p@) {
            let j = choose|j: int| 0 <= j && j + p@.len() <= s@.len() && #[trigger] s@.subrange(j, j + p@.len()) == p@;
            assert(j < i);
        }
    }
    false
}

/// Where a quick cd typed as `input` goes from `cwd`: a written path when
/// the trimmed text has `://` or starts with `local:` (nowhere when it does
/// not parse); an absolute local path for a text starting with `/`; the home
/// directory (`/` without one) joined with the rest for a text starting with
/// `~`; else the text joined onto a local directory; nowhere otherwise.
pub open spec fn quick_cd_spec(input: Seq<char>, home: Option<Seq<char>>, cwd: Seq<LayerText>) -> Option<Seq<LayerText>> {
    let s = trim_ws(input);
    if has_infix(s, "://"@) || has_prefix(s, "local:"@) {
        match vpath_spec(s) {
            Ok(p) => Some(p),
            Err(_) => None,
        }
    } else if s.len() > 0 && (s[0] == '/' || s[0] == '~') {
        let path = if s[0] == '~' {
            let h = match home {
                Some(h) => h,
                None => "/"@,
            };
            path_join(h, trim_start_slashes(s.skip(1)))
        } else {
            s
        };
        Some(seq![("local"@, Seq::<char>::empty(), path)])
    } else if cwd.len() > 0 && cwd.last().0 == "local"@ {
        Some(seq![("local"@, Seq::<char>::empty(), path_join(cwd.last().2, s))])
    } else {
        None
    }
}

/// Where a quick cd goes, as [`quick_cd_spec`] says; `home` is the value of
/// `HOME`.
pub fn quick_cd_target(input: &str, home: Option<String>, cwd: &VPath) -> (r: Option<VPath>)
    ensures
        opt_path(r) == quick_cd_spec(input@, opt_text(home), cwd@),
{
    let iv = chars_of(input);
    let t = trim_chars(iv.as_slice());
    let s = string_of(t.as_slice());
    let sep = chars_of("://");
    let loc = chars_of("local:");
    if contains_chars(&t, &sep) || starts_with_chars(t.as_slice(), loc.as_slice()) {
        return match parse_vpath(s.as_str()) {
            Ok(p) => Some(p),
            Err(_) => None,
        };
    }
    if t.len() > 0 && (t[0] == '/' || t[0] == '~') {
        let path = if t[0] == '~' {
            let h = match home {
                Some(h) => h,
                None => String::from_str("/"),
            };
            let mut a: usize = 1;
            assert(t@.skip(1).skip(0) =~= t@.skip(1));
            while a < t.len() && t[a] == '/'
                invariant
                    1 <= a <= t@.len(),
                    trim_start_slashes(t@.skip(a as int)) == trim_start_slashes(t@.skip(1)),
                decreases t@.len() - a,
            {
                assert(t@.skip(a as int).skip(1) =~= t@.skip(a + 1));
                a = a + 1;
            }
            proof {
                if a < t@.len() {
                    assert(t@.skip(a as int)[0] == t@[a as int]);
                }
            }
            let rest = sub_chars(t.as_slice(), a, t.len());
            assert(rest@ =~= t@.skip(a as int));
            join(h.as_str(), string_of(rest.as_slice()).as_str())
        } else {
            s
        };
        return Some(VPath::local(path.as_str()));
    }
    match cwd.last() {
        Some(l) => if str_eq(l.scheme.as_str(), "local") {
            let joined = join(l.sub.as_str(), s.as_str());
            Some(VPath::local(joined.as_str()))
        } else {
            None
        },
        None => None,
    }
}

/// An entry the directory comparison looks at: not `..`, not a directory.
pub open spec fn counts_as_file(e: Entry) -> bool {
    e.name@ != ".."@ && e.kind != EntryKind::Dir
}

/// The size of the last file named `name` among the entries.
pub open spec fn size_in(es: Seq<Entry>, name: Seq<char>) -> Option<u64>
    decreases es.len(),
{
    if es.len() == 0 {
        None
    } else if counts_as_file(es.last()) && es.last().name@ == name {
        Some(es.last().size)
    } else {
        size_in(es.drop_last(), name)
    }
}

/// The names of the files among `es` that the other listing lacks or holds
/// with another size, in listing order.
pub open spec fn differing(es: Seq<Entry>, other: Seq<Entry>) -> Seq<Seq<char>>
    decreases es.len(),
{
    if es.len() == 0 {
        Seq::empty()
    } else {
        let r = differing(es.drop_last(), other);
        let e = es.last();
        if counts_as_file(e) && size_in(other, e.name@) != Some(e.size) {
            r.push(e.name@)
        } else {
            r
        }
    }
}

/// `Compare dirs: <n> files differ`
pub open spec fn compare_message(n: nat) -> Seq<char> {
    "Compare dirs: "@ + decimal(n) + " files differ"@
}

fn size_in_of(es: &Vec<Entry>, name: &str) -> (r: Option<u64>)
    ensures
        r == size_in(es@, name@),
{
    let mut i = es.len();
    assert(es@.take(i as int) =~= es@);
    while i > 0
        invariant
            i <= es@.len(),
            size_in(es@.take(i as int), name@) == size_in(es@, name@),
        decreases i,
    {
        let e = &es[i - 1];
        assert(es@.take(i as int).last() == es@[i - 1]);
        assert(es@.take(i as int).drop_last() =~= es@.take(i - 1));
        if !crate::text::str_eq(e.name.as_str(), "..") && !e.is_dir() && str_eq(e.name.as_str(), name) {
            return Some(e.size);
        }
        i = i - 1;
    }
    assert(es@.take(0) =~= Seq::<Entry>::empty());
    None
}

/// The differing names of `a` against `other`, each once.
fn differing_names(a: &Vec<Entry>, other: &Vec<Entry>) -> (r: Vec<String>)
    ensures
        distinct(texts(r@)),
        texts(r@).to_set() == differing(a@, other@).to_set(),
{
    let mut out: Vec<String> = Vec::new();
    let mut i: usize = 0;
    assert(a@.take(0) =~= Seq::<Entry>::empty());
    assert(texts(out@).to_set() =~= differing(a@.take(0), other@).to_set());
    while i < a.len()
        invariant
            i <= a@.len(),
            distinct(texts(out@)),
            texts(out@).to_set() == differing(a@.take(i as int), other@).to_set(),
        decreases a@.len() - i,
    {
        let e = &a[i];
        assert(a@.take(i + 1).drop_last() =~= a@.take(i as int));
        assert(a@.take(i + 1).last() == a@[i as int]);
        let ghost d0 = differing(a@.take(i as int), other@);
        if !crate::text::str_eq(e.name.as_str(), "..") && !e.is_dir() {
            let sz = size_in_of(other, e.name.as_str());
            let same = match sz {
                Some(x) => x == e.size,
                None => false,
            };
            if !same {
                proof {
                    d0.lemma_push_to_set_commute(e.name@);
                }
                match find_text(&out, e.name.as_str()) {
                    Some(j) => {
                        assert(texts(out@)[j as int] == e.name@);
                        assert(texts(out@).to_set().contains(e.name@));
                        assert(texts(out@).to_set() =~= d0.push(e.name@).to_set());
                    },
                    None => {
                        let ghost before = texts(out@);
                        out.push(e.name.clone());
                        proof {
                            assert(texts(out@) =~= before.push(e.name@));
                            before.lemma_push_to_set_commute(e.name@);
                            assert forall|x: int, y: int| 0 <= x < y < texts(out@).len() implies texts(out@)[x] != texts(out@)[y] by {
                                if y == before.len() {
                                    assert(before.contains(before[x]));
                                }
                            }
                        }
                    },
                }
            }
        }
        i = i + 1;
    }
    assert(a@.take(a@.len() as int) =~= a@);
    out
}

impl Panels {
    /// Tags, in the active panel, exactly the files the other panel lacks
    /// or holds with another size, and reports how many there are.
    pub fn compare_dirs(&mut self) -> (r: PanelCommand)
        ensures
            final(self).active_left == old(self).active_left,
            final(self).other_spec() == old(self).other_spec(),
            final(self).active_spec() == (PanelState { marks: final(self).active_spec().marks, ..old(self).active_spec() }),
            mark_set(final(self).active_spec().marks@) == differing(old(self).active_spec().entries@, old(self).other_spec().entries@).to_set(),
            distinct(texts(final(self).active_spec().marks@)),
            r@ == CommandView::Status(compare_message(final(self).active_spec().marks@.len())),
    {
        let names = if self.active_left {
            differing_names(&self.left.entries, &self.right.entries)
        } else {
            differing_names(&self.right.entries, &self.left.entries)
        };
        let n: u64 = names.len() as u64;
        proof {
            assert(names@.map_values(|m: String| m@) =~= texts(names@));
        }
        if self.active_left {
            self.left.marks = names;
        } else {
            self.right.marks = names;
        }
        let mut message = String::from_str("Compare dirs: ");
        append_chars(&mut message, decimal_chars(n).as_slice());
        append_str(&mut message, " files differ");
        PanelCommand::Status { message }
    }
}

/// What a key does after the Ctrl-X prefix.
#[derive(Debug, Clone, Copy, PartialEq, Eq, Structural)]
pub enum CtrlXKey {
    Compare,
    Chmod,
    AddHotlist,
    Diff,
    CopyCwd,
    CopyPath,
    Other,
}

/// After Ctrl-X: `=` alone compares the directories; `c`, `h`, `d`, `p` and
/// `t`, in either case, alone or with Shift, change modes, bookmark the
/// directory, compare files, and copy the directory or the path under the
/// cursor to the clipboard.
pub open spec fn ctrl_x_key_of(chord: KeyChord) -> CtrlXKey {
    let m = chord.mods;
    match chord.code {
        KeyCode::Char(c) => if plain(m) && c == '=' {
            CtrlXKey::Compare
        } else if plain(m) || shift_only(m) {
            if c == 'c' || c == 'C' {
                CtrlXKey::Chmod
            } else if c == 'h' || c == 'H' {
                CtrlXKey::AddHotlist
            } else if c == 'd' || c == 'D' {
                CtrlXKey::Diff
            } else if c == 'p' || c == 'P' {
                CtrlXKey::CopyCwd
            } else if c == 't' || c == 'T' {
                CtrlXKey::CopyPath
            } else {
                CtrlXKey::Other
            }
        } else {
            CtrlXKey::Other
        },
        _ => CtrlXKey::Other,
    }
}

/// Classifies a key after Ctrl-X, as [`ctrl_x_key_of`] says.
pub fn classify_ctrl_x(chord: KeyChord) -> (r: CtrlXKey)
    ensures
        r == ctrl_x_key_of(chord),
{
    let m = chord.mods;
    let plain = !m.shift && !m.alt && !m.ctrl;
    let shift_only = m.shift && !m.alt && !m.ctrl;
    match chord.code {
        KeyCode::Char(c) => if plain && c == '=' {
            CtrlXKey::Compare
        } else if plain || shift_only {
            match c {
                'c' | 'C' => CtrlXKey::Chmod,
                'h' | 'H' => CtrlXKey::AddHotlist,
                'd' | 'D' => CtrlXKey::Diff,
                'p' | 'P' => CtrlXKey::CopyCwd,
                't' | 'T' => CtrlXKey::CopyPath,
                _ => CtrlXKey::Other,
            }
        } else {
            CtrlXKey::Other
        },
        _ => CtrlXKey::Other,
    }
}

/// The innermost sub-path of the panel's directory, or nothing.
pub open spec fn cwd_text(a: PanelState) -> Seq<char> {
    if a.cwd@.len() > 0 {
        a.cwd@.last().2
    } else {
        Seq::empty()
    }
}

/// The path of the entry under the cursor (the directory alone for `..` or
/// no entry), joined with a `/` unless there is one already.
pub open spec fn cursor_full_path(a: PanelState) -> Seq<char> {
    let full = cwd_text(a);
    if a.cursor < a.entries@.len() && a.entries@[a.cursor as int].name@ != ".."@ {
        (if full.len() > 0 && full.last() != '/' { full + "/"@ } else { full }) + a.entries@[a.cursor as int].name@
    } else {
        full
    }
}

/// Asking for the mode of the selected entries, when there are any.
pub open spec fn chmod_command(a: PanelState) -> CommandView {
    let t = selected_spec(a);
    if t.len() == 0 {
        CommandView::Redraw
    } else {
        CommandView::OpenChmod(t)
    }
}

/// The hotlist after bookmarking the active directory under its label.
pub open spec fn hotlist_with_cwd(h: Seq<(Seq<char>, Seq<char>)>, a: PanelState) -> Seq<(Seq<char>, Seq<char>)> {
    let t = vpath_text(a.cwd@);
    h.filter(other_paths(t)).push((hotlist_label_spec(t), t))
}

/// The directory comparison: only the active panel's marks change, to the
/// differing files, each once.
pub open spec fn compared(o: Panels, n: Panels) -> bool {
    &&& n.active_left == o.active_left
    &&& n.other_spec() == o.other_spec()
    &&& n.active_spec() == (PanelState { marks: n.active_spec().marks, ..o.active_spec() })
    &&& mark_set(n.active_spec().marks@) == differing(o.active_spec().entries@, o.other_spec().entries@).to_set()
    &&& distinct(texts(n.active_spec().marks@))
}

/// What a key after Ctrl-X does to the panels and the hotlist, and hands
/// on.
pub open spec fn ctrl_x_step(
    o: Panels,
    ho: Seq<(Seq<char>, Seq<char>)>,
    k: CtrlXKey,
    n: Panels,
    hn: Seq<(Seq<char>, Seq<char>)>,
    r: CommandView,
) -> bool {
    let a = o.active_spec();
    match k {
        CtrlXKey::Compare => compared(o, n) && hn == ho && r == CommandView::Status(
            compare_message(n.active_spec().marks@.len()),
        ),
        CtrlXKey::AddHotlist => n == o && hn == hotlist_with_cwd(ho, a) && r == CommandView::SaveHotlist,
        CtrlXKey::Chmod => n == o && hn == ho && r == chmod_command(a),
        CtrlXKey::Diff => n == o && hn == ho && r == CommandView::OpenDiff,
        CtrlXKey::CopyCwd => n == o && hn == ho && r == CommandView::CopyText(cwd_text(a), true),
        CtrlXKey::CopyPath => n == o && hn == ho && r == CommandView::CopyText(cursor_full_path(a), false),
        CtrlXKey::Other => n == o && hn == ho && r == CommandView::Redraw,
    }
}

fn cwd_text_of(a: &PanelState) -> (r: String)
    ensures
        r@ == cwd_text(*a),
{
    match a.cwd.last() {
        Some(l) => l.sub.clone(),
        None => String::new(),
    }
}

fn chmod_of(a: &PanelState) -> (r: PanelCommand)
    ensures
        r@ == chmod_command(*a),
{
    let targets = selected_targets(a);
    if targets.len() == 0 {
        PanelCommand::Redraw
    } else {
        PanelCommand::OpenChmod { targets }
    }
}

fn bookmark_cwd(a: &PanelState, hotlist: &mut Hotlist)
    ensures
        final(hotlist)@ == hotlist_with_cwd(old(hotlist)@, *a),
{
    let p = a.cwd.to_text();
    let label = hotlist_label(p.as_str());
    hotlist.add(label, p);
}

impl Panels {
    /// Handles the key after Ctrl-X, as [`ctrl_x_step`] says.
    pub fn handle_ctrl_x(&mut self, chord: KeyChord, hotlist: &mut Hotlist) -> (r: PanelCommand)
        ensures
            ctrl_x_step(*old(self), old(hotlist)@, ctrl_x_key_of(chord), *final(self), final(hotlist)@, r@),
    {
        let k = classify_ctrl_x(chord);
        match k {
            CtrlXKey::Compare => self.compare_dirs(),
            CtrlXKey::AddHotlist => {
                if self.active_left {
                    bookmark_cwd(&self.left, hotlist);
                } else {
                    bookmark_cwd(&self.right, hotlist);
                }
                PanelCommand::SaveHotlist
            },
            CtrlXKey::Chmod => if self.active_left {
                chmod_of(&self.left)
            } else {
                chmod_of(&self.right)
            },
            CtrlXKey::Diff => PanelCommand::OpenDiff,
            CtrlXKey::CopyCwd => {
                let text = if self.active_left {
                    cwd_text_of(&self.left)
                } else {
                    cwd_text_of(&self.right)
                };
                PanelCommand::CopyText { text, cwd_only: true }
            },
            CtrlXKey::CopyPath => {
                let text = if self.active_left {
                    full_path_of(&self.left)
                } else {
                    full_path_of(&self.right)
                };
                PanelCommand::CopyText { text, cwd_only: false }
            },
            CtrlXKey::Other => PanelCommand::Redraw,
        }
    }
}

fn full_path_of(a: &PanelState) -> (r: String)
    ensures
        r@ == cursor_full_path(*a),
{
    let mut full = cwd_text_of(a);
    if a.cursor < a.entries.len() && !str_eq(a.entries[a.cursor].name.as_str(), "..") {
        let fv = chars_of(full.as_str());
        if fv.len() > 0 && fv[fv.len() - 1] != '/' {
            append_str(&mut full, "/");
        }
        append_str(&mut full, a.entries[a.cursor].name.as_str());
    }
    full
}

/// The panel key a menu choice stands for, where it stands for one.
pub open spec fn menu_key(c: MenuChoice) -> PanelKey {
    match c {
        MenuChoice::View => PanelKey::View,
        MenuChoice::Edit => PanelKey::Edit,
        MenuChoice::Copy => PanelKey::Copy,
        MenuChoice::Move => PanelKey::Move,
        MenuChoice::Mkdir => PanelKey::Mkdir,
        MenuChoice::Delete => PanelKey::Delete,
        MenuChoice::Quit => PanelKey::Quit,
        MenuChoice::Hotlist => PanelKey::Hotlist,
        MenuChoice::ToggleHidden => PanelKey::ToggleHidden,
        MenuChoice::SortCycle => PanelKey::CycleSort,
        MenuChoice::ToggleListingMode => PanelKey::CycleListing,
        MenuChoice::Find => PanelKey::FindFile,
        MenuChoice::Chmod | MenuChoice::AddToHotlist => PanelKey::Unbound,
    }
}

/// What a menu choice does: Chmod asks for the mode of the selection,
/// bookmarking adds the active directory to the hotlist, and every other
/// choice does what its key does.
pub open spec fn menu_step(
    o: Panels,
    ho: Seq<(Seq<char>, Seq<char>)>,
    c: MenuChoice,
    n: Panels,
    hn: Seq<(Seq<char>, Seq<char>)>,
    r: CommandView,
) -> bool {
    match c {
        MenuChoice::Chmod => n == o && hn == ho && r == chmod_command(o.active_spec()),
        MenuChoice::AddToHotlist => n == o && hn == hotlist_with_cwd(ho, o.active_spec()) && r == CommandView::SaveHotlist,
        _ => hn == ho && panel_step(o, menu_key(c), n, r),
    }
}

impl Panels {
    /// Carries out a menu choice, as [`menu_step`] says.
    pub fn handle_menu_choice(&mut self, c: MenuChoice, hotlist: &mut Hotlist) -> (r: PanelCommand)
        ensures
            menu_step(*old(self), old(hotlist)@, c, *final(self), final(hotlist)@, r@),
    {
        let k = match c {
            MenuChoice::View => PanelKey::View,
            MenuChoice::Edit => PanelKey::Edit,
            MenuChoice::Copy => PanelKey::Copy,
            MenuChoice::Move => PanelKey::Move,
            MenuChoice::Mkdir => PanelKey::Mkdir,
            MenuChoice::Delete => PanelKey::Delete,
            MenuChoice::Quit => PanelKey::Quit,
            MenuChoice::Hotlist => PanelKey::Hotlist,
            MenuChoice::ToggleHidden => PanelKey::ToggleHidden,
            MenuChoice::SortCycle => PanelKey::CycleSort,
            MenuChoice::ToggleListingMode => PanelKey::CycleListing,
            MenuChoice::Find => PanelKey::FindFile,
            MenuChoice::Chmod => {
                return if self.active_left {
                    chmod_of(&self.left)
                } else {
                    chmod_of(&self.right)
                };
            },
            MenuChoice::AddToHotlist => {
                if self.active_left {
                    bookmark_cwd(&self.left, hotlist);
                } else {
                    bookmark_cwd(&self.right, hotlist);
                }
                return PanelCommand::SaveHotlist;
            },
        };
        self.apply(k)
    }
}

/// What a key did to a quick search.
#[derive(Debug, Clone, Copy, PartialEq, Eq, Structural)]
pub enum SearchStep {
    /// The search is over.
    Closed,
    /// The filter changed and the cursor was moved to the first match.
    Searched,
    /// Nothing changed.
    Unchanged,
}

/// `b` is `a` with the cursor on the first entry matching the filter, as
/// [`PanelState::quick_search`] moves it.
pub open spec fn searched(a: PanelState, b: PanelState, f: Seq<char>) -> bool {
    let i = first_prefixed(a.entries@, unicode_lowercase(f));
    if f.len() > 0 && i >= 0 {
        b == (PanelState { cursor: i as usize, ..a })
    } else {
        b == a
    }
}

/// A key in a quick search: Esc and Enter end it; Backspace drops the last
/// character of the filter and a character typed alone or with Shift adds
/// one, each searching again; other keys do nothing.
pub open spec fn search_step(o: Panels, fo: Seq<char>, chord: KeyChord, n: Panels, fnew: Seq<char>, r: SearchStep) -> bool {
    match chord.code {
        KeyCode::Escape | KeyCode::Enter => n == o && fnew == fo && r == SearchStep::Closed,
        KeyCode::Backspace => {
            &&& fnew == (if fo.len() > 0 { fo.drop_last() } else { fo })
            &&& n.active_left == o.active_left
            &&& n.other_spec() == o.other_spec()
            &&& searched(o.active_spec(), n.active_spec(), fnew)
            &&& r == SearchStep::Searched
        },
        KeyCode::Char(c) => if plain(chord.mods) || shift_only(chord.mods) {
            &&& fnew == fo.push(c)
            &&& n.active_left == o.active_left
            &&& n.other_spec() == o.other_spec()
            &&& searched(o.active_spec(), n.active_spec(), fnew)
            &&& r == SearchStep::Searched
        } else {
            n == o && fnew == fo && r == SearchStep::Unchanged
        },
        _ => n == o && fnew == fo && r == SearchStep::Unchanged,
    }
}

impl Panels {
    /// Handles a key in a quick search, as [`search_step`] says.
    pub fn quick_search_key(&mut self, filter: &mut String, chord: KeyChord) -> (r: SearchStep)
        ensures
            search_step(*old(self), old(filter)@, chord, *final(self), final(filter)@, r),
    {
        match chord.code {
            KeyCode::Escape | KeyCode::Enter => SearchStep::Closed,
            KeyCode::Backspace => {
                pop_char(filter);
                if self.active_left {
                    self.left.quick_search(filter.as_str());
                } else {
                    self.right.quick_search(filter.as_str());
                }
                SearchStep::Searched
            },
            KeyCode::Char(c) => {
                let m = chord.mods;
                if !m.alt && !m.ctrl {
                    push_char(filter, c);
                    if self.active_left {
                        self.left.quick_search(filter.as_str());
                    } else {
                        self.right.quick_search(filter.as_str());
                    }
                    SearchStep::Searched
                } else {
                    SearchStep::Unchanged
                }
            },
            _ => SearchStep::Unchanged,
        }
    }
}

/// What a key does while a job's progress is shown.
#[derive(Debug, Clone, Copy, PartialEq, Eq, Structural)]
pub enum ProgressStep {
    /// Cancel the running job and keep showing it.
    CancelJob,
    /// Close the dialog.
    Close,
    /// Nothing.
    Ignore,
}

/// Esc cancels a running job and closes a finished one's dialog; Enter
/// closes the dialog; other keys do nothing.
pub open spec fn progress_step(code: KeyCode, finished: bool) -> ProgressStep {
    match code {
        KeyCode::Escape => if finished { ProgressStep::Close } else { ProgressStep::CancelJob },
        KeyCode::Enter => ProgressStep::Close,
        _ => ProgressStep::Ignore,
    }
}

/// Handles a key while a job's progress is shown, as [`progress_step`]
/// says.
pub fn progress_key(code: KeyCode, finished: bool) -> (r: ProgressStep)
    ensures
        r == progress_step(code, finished),
{
    match code {
        KeyCode::Escape => if finished {
            ProgressStep::Close
        } else {
            ProgressStep::CancelJob
        },
        KeyCode::Enter => ProgressStep::Close,
        _ => ProgressStep::Ignore,
    }
}

/// The two local files a diff compares: the file under the active panel's
/// cursor and the entry (not `..`) under the other panel's cursor, when
/// both lie on local paths.
pub open spec fn diff_spec(ps: Panels) -> Option<(Seq<char>, Seq<char>)> {
    let a = ps.active_spec();
    let o = ps.other_spec();
    match cursor_path_spec(a.entries@, a.cursor as int, a.cwd@) {
        None => None,
        Some(lp) => if o.cursor >= o.entries@.len() || o.entries@[o.cursor as int].name@ == ".."@ {
            None
        } else {
            match child_spec(o.cwd@, o.entries@[o.cursor as int].name@) {
                None => None,
                Some(rp) => match (local_sub(lp), local_sub(rp)) {
                    (Some(l), Some(r)) => Some((l, r)),
                    _ => None,
                },
            }
        },
    }
}

impl Panels {
    /// The files a diff compares, as [`diff_spec`] says.
    pub fn diff_targets(&self) -> (r: Option<(String, String)>)
        ensures
            match r {
                Some((l, rr)) => diff_spec(*self) == Some((l@, rr@)),
                None => diff_spec(*self) is None,
            },
    {
        proof {
            reveal_strlit("..");
        }
        let (a, o) = if self.active_left { (&self.left, &self.right) } else { (&self.right, &self.left) };
        let lp = match a.cursor_path() {
            Some(p) => p,
            None => return None,
        };
        if o.cursor >= o.entries.len() || str_eq(o.entries[o.cursor].name.as_str(), "..") {
            return None;
        }
        let rp = match child_path(&o.cwd, o.entries[o.cursor].name.as_str()) {
            Some(p) => p,
            None => return None,
        };
        match (vpath_to_local(&lp), vpath_to_local(&rp)) {
            (Some(l), Some(r)) => Some((l, r)),
            _ => None,
        }
    }
}

} // verus!
