//! F1 help: a scrollable reference of the key bindings.

use vstd::prelude::*;

use crate::dialog::DialogOutcome;
use crate::key::{KeyChord, KeyCode};
use crate::text::{append_str, push_char};

verus! {

/// One line of help text: a bold part followed by a plain part.
#[derive(Debug, Clone)]
pub struct HelpLine {
    pub bold: String,
    pub plain: String,
}

/// A help line as text: bold part, plain part.
pub type HelpText = (Seq<char>, Seq<char>);

impl View for HelpLine {
    type V = HelpText;

    open spec fn view(&self) -> HelpText {
        (self.bold@, self.plain@)
    }
}

/// The text of a list of help lines.
pub open spec fn help_view(v: Seq<HelpLine>) -> Seq<HelpText> {
    v.map_values(|l: HelpLine| l@)
}

/// `n` spaces.
pub open spec fn spaces(n: nat) -> Seq<char>
    decreases n,
{
    if n == 0 {
        Seq::empty()
    } else {
        spaces((n - 1) as nat).push(' ')
    }
}

/// A key column: two spaces, the key left-aligned in 14 columns, a space.
pub open spec fn key_column(key: Seq<char>) -> Seq<char> {
    "  "@ + key + spaces(if key.len() < 14 { (14 - key.len()) as nat } else { 0 }) + " "@
}

/// A line of plain text.
pub open spec fn plain_line(t: Seq<char>) -> HelpText {
    (Seq::empty(), t)
}

/// A line of bold text.
pub open spec fn bold_line(t: Seq<char>) -> HelpText {
    (t, Seq::empty())
}

/// A key and what it does.
pub open spec fn row_line(key: Seq<char>, desc: Seq<char>) -> HelpText {
    (key_column(key), desc)
}

/// A section starts with an empty line and its bold title.
pub open spec fn section_lines(title: Seq<char>) -> Seq<HelpText> {
    seq![plain_line(Seq::empty()), bold_line(title)]
}

fn push_plain(out: &mut Vec<HelpLine>, t: &str)
    ensures
        help_view(final(out)@) == help_view(old(out)@).push(plain_line(t@)),
{
    out.push(HelpLine { bold: String::new(), plain: String::from_str(t) });
    assert(help_view(out@) =~= help_view(old(out)@).push(plain_line(t@)));
}

fn push_bold(out: &mut Vec<HelpLine>, t: &str)
    ensures
        help_view(final(out)@) == help_view(old(out)@).push(bold_line(t@)),
{
    out.push(HelpLine { bold: String::from_str(t), plain: String::new() });
    assert(help_view(out@) =~= help_view(old(out)@).push(bold_line(t@)));
}

fn push_section(out: &mut Vec<HelpLine>, title: &str)
    ensures
        help_view(final(out)@) == help_view(old(out)@) + section_lines(title@),
{
    proof {
        reveal_strlit("");
    }
    assert(""@ =~= Seq::<char>::empty());
    push_plain(out, "");
    push_bold(out, title);
    assert(help_view(out@) =~= help_view(old(out)@) + section_lines(title@));
}

fn key_column_of(key: &str) -> (r: String)
    ensures
        r@ == key_column(key@),
{
    let mut r = String::from_str("  ");
    append_str(&mut r, key);
    let n = key.unicode_len();
    let mut pad: usize = if n < 14 { 14 - n } else { 0 };
    let ghost target = pad as nat;
    let ghost base = r@;
    assert(spaces(0) =~= Seq::<char>::empty());
    assert(r@ =~= base + spaces(0));
    let mut done: usize = 0;
    while done < pad
        invariant
            done <= pad,
            pad == target,
            r@ == base + spaces(done as nat),
        decreases pad - done,
    {
        push_char(&mut r, ' ');
        done = done + 1;
        assert(r@ =~= base + spaces(done as nat));
    }
    append_str(&mut r, " ");
    r
}

fn push_row(out: &mut Vec<HelpLine>, key: &str, desc: &str)
    ensures
        help_view(final(out)@) == help_view(old(out)@).push(row_line(key@, desc@)),
{
    out.push(HelpLine { bold: key_column_of(key), plain: String::from_str(desc) });
    assert(help_view(out@) =~= help_view(old(out)@).push(row_line(key@, desc@)));
}

/// The opening lines: the title and where bindings and colours are set.
pub open spec fn intro_lines() -> Seq<HelpText> {
    seq![
        bold_line("mc-rs-tui — Rust + Ratatui file manager in the style of GNU Midnight Commander"@),
        plain_line(""@),
        plain_line("Customize bindings: ~/.config/mc-rs/keymap.toml (e.g. [[remap]] from=\"C-d\" to=\"F8\")"@),
        plain_line("Customize colors:   ~/.config/mc-rs/skin.toml ([panel] background, [groups] archive=...)"@),
    ]
}

/// The function keys.
pub open spec fn function_key_lines() -> Seq<HelpText> {
    section_lines("Function keys"@) + seq![
        row_line("F1"@, "this help"@),
        row_line("F2"@, "user menu"@),
        row_line("F3"@, "view file (text + hex)"@),
        row_line("F4"@, "edit file (external $EDITOR / hx)"@),
        row_line("F5"@, "copy selected to other panel"@),
        row_line("F6"@, "rename (1 entry) or move to other panel"@),
        row_line("F7"@, "make directory"@),
        row_line("F8"@, "delete (recursive, confirmed)"@),
        row_line("F9"@, "menu bar"@),
        row_line("F10"@, "quit"@),
    ]
}

/// Moving around the panels.
pub open spec fn navigation_lines() -> Seq<HelpText> {
    section_lines("Panel navigation"@) + seq![
        row_line("↑/↓/PgUp/PgDn"@, "move cursor"@),
        row_line("Home/End"@, "first / last entry"@),
        row_line("Enter"@, "descend dir or mount archive"@),
        row_line("Backspace"@, "parent dir / unmount archive"@),
        row_line("Tab"@, "swap active panel"@),
        row_line("Insert"@, "tag / untag entry"@),
        row_line("+"@, "select group (glob, e.g. *.txt)"@),
        row_line("\\"@, "unselect group"@),
        row_line("Alt-Y / Alt-U"@, "directory history back / forward"@),
        row_line("Alt-I"@, "mirror cwd into other panel"@),
        row_line("Alt-O"@, "load other panel with selected/parent dir"@),
        row_line("Ctrl-./Alt-."@, "toggle hidden files"@),
    ]
}

/// Sorting and listing modes.
pub open spec fn sort_lines() -> Seq<HelpText> {
    section_lines("Sort & listing"@) + seq![
        row_line("Alt-T"@, "cycle Full / Brief / Long"@),
        row_line("Alt-S"@, "cycle sort key"@),
        row_line("Ctrl-R"@, "toggle reverse sort"@),
        row_line("Ctrl-S"@, "type-ahead quick search"@),
    ]
}

/// The tools.
pub open spec fn tool_lines() -> Seq<HelpText> {
    section_lines("Tools"@) + seq![
        row_line("Alt-?"@, "find file (filename + content)"@),
        row_line("Alt-C"@, "quick cd (typed path or sftp://… URL)"@),
        row_line("Ctrl-\\"@, "hotlist"@),
        row_line(":"@, "shell command line (Up/Dn: history)"@),
        row_line("Ctrl-X C"@, "chmod (octal)"@),
        row_line("Ctrl-X H"@, "add cwd to hotlist"@),
        row_line("Ctrl-X D"@, "diff cursor file vs other panel"@),
        row_line("Ctrl-X ="@, "compare directories (mark differing files)"@),
        row_line("Ctrl-X P"@, "copy active cwd to clipboard"@),
        row_line("Ctrl-X T"@, "copy cursor path to clipboard"@),
        row_line("Ctrl-K"@, "learn keys (terminal calibration)"@),
        row_line("Ctrl-J"@, "background jobs view"@),
        row_line("Ctrl-O"@, "drop to shell ($SHELL); exit/Ctrl-D returns"@),
    ]
}

/// Keys of the viewer.
pub open spec fn viewer_lines() -> Seq<HelpText> {
    section_lines("Inside viewer (F3)"@) + seq![
        row_line("F4"@, "toggle text / hex mode"@),
        row_line("/"@, "search forward"@),
        row_line("n / N"@, "next / prev match"@),
        row_line("Alt-E"@, "cycle text encoding"@),
        row_line("j/k or arrows"@, "scroll"@),
        row_line("Esc / F10 / q"@, "close"@),
    ]
}

/// Keys of the diff view.
pub open spec fn diff_lines() -> Seq<HelpText> {
    section_lines("Inside diff (Ctrl-X D)"@) + seq![
        row_line("Enter / n"@, "next hunk"@),
        row_line("p"@, "previous hunk"@),
        row_line("Esc / F10 / q"@, "close"@),
    ]
}

/// The whole help text, in order.
pub open spec fn help_lines_spec() -> Seq<HelpText> {
    intro_lines() + function_key_lines() + navigation_lines() + sort_lines() + tool_lines() + viewer_lines()
        + diff_lines()
}

fn push_intro(out: &mut Vec<HelpLine>)
    ensures
        help_view(final(out)@) == help_view(old(out)@) + intro_lines(),
{
    push_bold(out, "mc-rs-tui — Rust + Ratatui file manager in the style of GNU Midnight Commander");
    push_plain(out, "");
    push_plain(out, "Customize bindings: ~/.config/mc-rs/keymap.toml (e.g. [[remap]] from=\"C-d\" to=\"F8\")");
    push_plain(out, "Customize colors:   ~/.config/mc-rs/skin.toml ([panel] background, [groups] archive=...)");
    assert(help_view(out@) =~= help_view(old(out)@) + intro_lines());
}

fn push_function_keys(out: &mut Vec<HelpLine>)
    ensures
        help_view(final(out)@) == help_view(old(out)@) + function_key_lines(),
{
    push_section(out, "Function keys");
    push_row(out, "F1", "this help");
    push_row(out, "F2", "user menu");
    push_row(out, "F3", "view file (text + hex)");
    push_row(out, "F4", "edit file (external $EDITOR / hx)");
    push_row(out, "F5", "copy selected to other panel");
    push_row(out, "F6", "rename (1 entry) or move to other panel");
    push_row(out, "F7", "make directory");
    push_row(out, "F8", "delete (recursive, confirmed)");
    push_row(out, "F9", "menu bar");
    push_row(out, "F10", "quit");
    assert(help_view(out@) =~= help_view(old(out)@) + function_key_lines());
}

fn push_navigation(out: &mut Vec<HelpLine>)
    ensures
        help_view(final(out)@) == help_view(old(out)@) + navigation_lines(),
{
    push_section(out, "Panel navigation");
    push_row(out, "↑/↓/PgUp/PgDn", "move cursor");
    push_row(out, "Home/End", "first / last entry");
    push_row(out, "Enter", "descend dir or mount archive");
    push_row(out, "Backspace", "parent dir / unmount archive");
    push_row(out, "Tab", "swap active panel");
    push_row(out, "Insert", "tag / untag entry");
    push_row(out, "+", "select group (glob, e.g. *.txt)");
    push_row(out, "\\", "unselect group");
    push_row(out, "Alt-Y / Alt-U", "directory history back / forward");
    push_row(out, "Alt-I", "mirror cwd into other panel");
    push_row(out, "Alt-O", "load other panel with selected/parent dir");
    push_row(out, "Ctrl-./Alt-.", "toggle hidden files");
    assert(help_view(out@) =~= help_view(old(out)@) + navigation_lines());
}

fn push_sort(out: &mut Vec<HelpLine>)
    ensures
        help_view(final(out)@) == help_view(old(out)@) + sort_lines(),
{
    push_section(out, "Sort & listing");
    push_row(out, "Alt-T", "cycle Full / Brief / Long");
    push_row(out, "Alt-S", "cycle sort key");
    push_row(out, "Ctrl-R", "toggle reverse sort");
    push_row(out, "Ctrl-S", "type-ahead quick search");
    assert(help_view(out@) =~= help_view(old(out)@) + sort_lines());
}

fn push_tools(out: &mut Vec<HelpLine>)
    ensures
        help_view(final(out)@) == help_view(old(out)@) + tool_lines(),
{
    push_section(out, "Tools");
    push_row(out, "Alt-?", "find file (filename + content)");
    push_row(out, "Alt-C", "quick cd (typed path or sftp://… URL)");
    push_row(out, "Ctrl-\\", "hotlist");
    push_row(out, ":", "shell command line (Up/Dn: history)");
    push_row(out, "Ctrl-X C", "chmod (octal)");
    push_row(out, "Ctrl-X H", "add cwd to hotlist");
    push_row(out, "Ctrl-X D", "diff cursor file vs other panel");
    push_row(out, "Ctrl-X =", "compare directories (mark differing files)");
    push_row(out, "Ctrl-X P", "copy active cwd to clipboard");
    push_row(out, "Ctrl-X T", "copy cursor path to clipboard");
    push_row(out, "Ctrl-K", "learn keys (terminal calibration)");
    push_row(out, "Ctrl-J", "background jobs view");
    push_row(out, "Ctrl-O", "drop to shell ($SHELL); exit/Ctrl-D returns");
    assert(help_view(out@) =~= help_view(old(out)@) + tool_lines());
}

fn push_viewer(out: &mut Vec<HelpLine>)
    ensures
        help_view(final(out)@) == help_view(old(out)@) + viewer_lines(),
{
    push_section(out, "Inside viewer (F3)");
    push_row(out, "F4", "toggle text / hex mode");
    push_row(out, "/", "search forward");
    push_row(out, "n / N", "next / prev match");
    push_row(out, "Alt-E", "cycle text encoding");
    push_row(out, "j/k or arrows", "scroll");
    push_row(out, "Esc / F10 / q", "close");
    assert(help_view(out@) =~= help_view(old(out)@) + viewer_lines());
}

fn push_diff(out: &mut Vec<HelpLine>)
    ensures
        help_view(final(out)@) == help_view(old(out)@) + diff_lines(),
{
    push_section(out, "Inside diff (Ctrl-X D)");
    push_row(out, "Enter / n", "next hunk");
    push_row(out, "p", "previous hunk");
    push_row(out, "Esc / F10 / q", "close");
    assert(help_view(out@) =~= help_view(old(out)@) + diff_lines());
}

/// The help text, as [`help_lines_spec`] lists it.
pub fn build_help_lines() -> (r: Vec<HelpLine>)
    ensures
        help_view(r@) == help_lines_spec(),
{
    let mut out: Vec<HelpLine> = Vec::new();
    assert(help_view(out@) =~= Seq::<HelpText>::empty());
    push_intro(&mut out);
    push_function_keys(&mut out);
    push_navigation(&mut out);
    push_sort(&mut out);
    push_tools(&mut out);
    push_viewer(&mut out);
    push_diff(&mut out);
    assert(help_view(out@) =~= help_lines_spec());
    out
}

/// The help text and how far it is scrolled.
pub struct HelpDialog {
    lines: Vec<HelpLine>,
    offset: usize,
}

/// The last line a scroll may start at: one before the end, 0 without
/// lines.
pub open spec fn last_start(n: nat) -> int {
    if n > 0 { n - 1 } else { 0 }
}

/// The smaller of two integers.
pub open spec fn min_int(a: int, b: int) -> int {
    if a < b { a } else { b }
}

/// The offset after a key over `n` lines, and what the key did: Esc, F10
/// and `q` close; Down/`j` and Up/`k` scroll one line, PageDown/Space and
/// PageUp/Backspace ten, never past the last line nor before the first;
/// Home and End go to the first and last line.
pub open spec fn help_step(n: nat, offset: usize, code: KeyCode) -> (int, DialogOutcome<()>) {
    match code {
        KeyCode::Escape | KeyCode::F(10) | KeyCode::Char('q') => (offset as int, DialogOutcome::Cancelled),
        KeyCode::Down | KeyCode::Char('j') => (min_int(offset + 1, last_start(n)), DialogOutcome::Open),
        KeyCode::Up | KeyCode::Char('k') => (if offset >= 1 { offset - 1 } else { 0 }, DialogOutcome::Open),
        KeyCode::PageDown | KeyCode::Char(' ') => (min_int(offset + 10, last_start(n)), DialogOutcome::Open),
        KeyCode::PageUp | KeyCode::Backspace => (if offset >= 10 { offset - 10 } else { 0 }, DialogOutcome::Open),
        KeyCode::Home => (0, DialogOutcome::Open),
        KeyCode::End => (last_start(n), DialogOutcome::Open),
        _ => (offset as int, DialogOutcome::Open),
    }
}

impl HelpDialog {
    /// The lines shown.
    pub closed spec fn text(&self) -> Seq<HelpText> {
        help_view(self.lines@)
    }

    /// The first line in view.
    pub closed spec fn scroll(&self) -> usize {
        self.offset
    }

    /// The help text, scrolled to the top.
    pub fn new() -> (r: Self)
        ensures
            r.text() == help_lines_spec(),
            r.scroll() == 0,
    {
        HelpDialog { lines: build_help_lines(), offset: 0 }
    }

    /// The lines of help text.
    pub fn lines(&self) -> (r: &[HelpLine])
        ensures
            help_view(r@) == self.text(),
    {
        self.lines.as_slice()
    }

    /// The first line in view.
    pub fn offset(&self) -> (r: usize)
        ensures
            r == self.scroll(),
    {
        self.offset
    }

    /// Handles one key as [`help_step`] says.
    pub fn handle_key(&mut self, chord: KeyChord) -> (r: DialogOutcome<()>)
        ensures
            (final(self).scroll() as int, r) == help_step(old(self).text().len(), old(self).scroll(), chord.code),
            final(self).text() == old(self).text(),
    {
        let max = self.lines.len();
        let last = if max > 0 { max - 1 } else { 0 };
        match chord.code {
            KeyCode::Escape | KeyCode::F(10) | KeyCode::Char('q') => DialogOutcome::Cancelled,
            KeyCode::Down | KeyCode::Char('j') => {
                self.offset = if self.offset < last { self.offset + 1 } else { last };
                DialogOutcome::Open
            },
            KeyCode::Up | KeyCode::Char('k') => {
                self.offset = if self.offset >= 1 { self.offset - 1 } else { 0 };
                DialogOutcome::Open
            },
            KeyCode::PageDown | KeyCode::Char(' ') => {
                self.offset = if self.offset <= last && last - self.offset >= 10 { self.offset + 10 } else { last };
                DialogOutcome::Open
            },
            KeyCode::PageUp | KeyCode::Backspace => {
                self.offset = if self.offset >= 10 { self.offset - 10 } else { 0 };
                DialogOutcome::Open
            },
            KeyCode::Home => {
                self.offset = 0;
                DialogOutcome::Open
            },
            KeyCode::End => {
                self.offset = last;
                DialogOutcome::Open
            },
            _ => DialogOutcome::Open,
        }
    }
}

impl Default for HelpDialog {
    fn default() -> (r: Self)
        ensures
            r.text() == help_lines_spec(),
            r.scroll() == 0,
    {
        Self::new()
    }
}

} // verus!
