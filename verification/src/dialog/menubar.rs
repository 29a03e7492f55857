//! The pull-down menu bar.

use vstd::prelude::*;

use crate::dialog::{cursor_up, DialogOutcome};
use crate::key::{KeyChord, KeyCode};

verus! {

/// What a menu entry asks for.
#[derive(Debug, Clone, Copy, PartialEq, Eq, Structural)]
pub enum MenuChoice {
    View,
    Edit,
    Copy,
    Move,
    Mkdir,
    Delete,
    Chmod,
    Quit,
    Find,
    Hotlist,
    AddToHotlist,
    ToggleHidden,
    SortCycle,
    ToggleListingMode,
}

#[derive(Debug, Clone)]
struct MenuItem {
    label: &'static str,
    hint: &'static str,
    choice: MenuChoice,
}

#[derive(Debug, Clone)]
struct Section {
    title: &'static str,
    items: Vec<MenuItem>,
}

/// The menu bar: its sections and the highlighted section and entry.
pub struct MenuBar {
    sections: Vec<Section>,
    active_section: usize,
    active_item: usize,
}

/// The choices of each section, in order: File, Command, Options.
pub open spec fn menu_choices() -> Seq<Seq<MenuChoice>> {
    seq![
        seq![MenuChoice::View, MenuChoice::Edit, MenuChoice::Copy, MenuChoice::Move, MenuChoice::Mkdir, MenuChoice::Delete, MenuChoice::Chmod, MenuChoice::Quit],
        seq![MenuChoice::Find, MenuChoice::Hotlist, MenuChoice::AddToHotlist],
        seq![MenuChoice::ToggleHidden, MenuChoice::SortCycle, MenuChoice::ToggleListingMode],
    ]
}

/// The highlighted section and entry after a key, and what the key did:
/// Esc and F9 close, Left and Right change section (back to its first
/// entry), Up/`k` and Down/`j` move within it, Enter picks the entry.
pub open spec fn menu_step(s: usize, i: usize, code: KeyCode) -> (usize, usize, DialogOutcome<MenuChoice>) {
    match code {
        KeyCode::Escape | KeyCode::F(9) => (s, i, DialogOutcome::Cancelled),
        KeyCode::Left => if s > 0 { ((s - 1) as usize, 0, DialogOutcome::Open) } else { (s, i, DialogOutcome::Open) },
        KeyCode::Right => if s + 1 < 3 { ((s + 1) as usize, 0, DialogOutcome::Open) } else { (s, i, DialogOutcome::Open) },
        KeyCode::Up | KeyCode::Char('k') => (s, cursor_up(i), DialogOutcome::Open),
        KeyCode::Down | KeyCode::Char('j') => (s, if i + 1 < menu_choices()[s as int].len() { (i + 1) as usize } else { i }, DialogOutcome::Open),
        KeyCode::Enter => (s, i, DialogOutcome::Submitted(menu_choices()[s as int][i as int])),
        _ => (s, i, DialogOutcome::Open),
    }
}

/// The sections' titles, and each entry's label and key hint, in order.
pub open spec fn menu_texts() -> (Seq<Seq<char>>, Seq<Seq<(Seq<char>, Seq<char>)>>) {
    (
        seq!["File"@, "Command"@, "Options"@],
        seq![
            seq![("View"@, "F3"@), ("Edit"@, "F4"@), ("Copy"@, "F5"@), ("Move"@, "F6"@), ("Mkdir"@, "F7"@),
                ("Delete"@, "F8"@), ("Chmod"@, "C-x C"@), ("Quit"@, "F10"@)],
            seq![("Find file"@, "M-?"@), ("Hotlist"@, "C-\\"@), ("Add to hotlist"@, "C-x H"@)],
            seq![("Toggle hidden"@, "C-."@), ("Cycle sort"@, "M-S"@), ("Cycle listing"@, "M-T"@)],
        ],
    )
}

fn item(label: &'static str, hint: &'static str, choice: MenuChoice) -> (r: MenuItem)
    ensures
        r.choice == choice,
        r.label@ == label@,
        r.hint@ == hint@,
{
    MenuItem { label, hint, choice }
}

impl MenuBar {
    /// The highlighted section and entry.
    pub closed spec fn position(&self) -> (usize, usize) {
        (self.active_section, self.active_item)
    }

    /// The sections' titles, and each entry's label and key hint.
    pub closed spec fn texts(&self) -> (Seq<Seq<char>>, Seq<Seq<(Seq<char>, Seq<char>)>>) {
        (
            self.sections@.map_values(|s: Section| s.title@),
            self.sections@.map_values(|s: Section| s.items@.map_values(|it: MenuItem| (it.label@, it.hint@))),
        )
    }

    /// The sections are the menu's, and the highlight is on one of their entries.
    pub closed spec fn wf(&self) -> bool {
        &&& self.sections@.len() == 3
        &&& forall|k: int| 0 <= k < 3 ==> (#[trigger] self.sections@[k]).items@.map_values(|it: MenuItem| it.choice) == menu_choices()[k]
        &&& self.active_section < 3
        &&& self.active_item < menu_choices()[self.active_section as int].len()
    }

    /// The menu with the first entry of File highlighted.
    pub fn new() -> (r: Self)
        ensures
            r.wf(),
            r.position() == (0usize, 0usize),
            r.texts() == menu_texts(),
    {
        let mut file: Vec<MenuItem> = Vec::new();
        file.push(item("View", "F3", MenuChoice::View));
        file.push(item("Edit", "F4", MenuChoice::Edit));
        file.push(item("Copy", "F5", MenuChoice::Copy));
        file.push(item("Move", "F6", MenuChoice::Move));
        file.push(item("Mkdir", "F7", MenuChoice::Mkdir));
        file.push(item("Delete", "F8", MenuChoice::Delete));
        file.push(item("Chmod", "C-x C", MenuChoice::Chmod));
        file.push(item("Quit", "F10", MenuChoice::Quit));
        let mut command: Vec<MenuItem> = Vec::new();
        command.push(item("Find file", "M-?", MenuChoice::Find));
        command.push(item("Hotlist", "C-\\", MenuChoice::Hotlist));
        command.push(item("Add to hotlist", "C-x H", MenuChoice::AddToHotlist));
        let mut options: Vec<MenuItem> = Vec::new();
        options.push(item("Toggle hidden", "C-.", MenuChoice::ToggleHidden));
        options.push(item("Cycle sort", "M-S", MenuChoice::SortCycle));
        options.push(item("Cycle listing", "M-T", MenuChoice::ToggleListingMode));
        assert(file@.map_values(|it: MenuItem| it.choice) =~= menu_choices()[0]);
        assert(command@.map_values(|it: MenuItem| it.choice) =~= menu_choices()[1]);
        assert(options@.map_values(|it: MenuItem| it.choice) =~= menu_choices()[2]);
        let mut sections: Vec<Section> = Vec::new();
        sections.push(Section { title: "File", items: file });
        sections.push(Section { title: "Command", items: command });
        sections.push(Section { title: "Options", items: options });
        let r = MenuBar { sections, active_section: 0, active_item: 0 };
        assert(r.texts().0 =~= menu_texts().0);
        assert(r.sections@[0].items@.map_values(|it: MenuItem| (it.label@, it.hint@)) =~= menu_texts().1[0]);
        assert(r.sections@[1].items@.map_values(|it: MenuItem| (it.label@, it.hint@)) =~= menu_texts().1[1]);
        assert(r.sections@[2].items@.map_values(|it: MenuItem| (it.label@, it.hint@)) =~= menu_texts().1[2]);
        assert(r.texts().1 =~= menu_texts().1);
        r
    }

    /// Handles one key as [`menu_step`] says.
    pub fn handle_key(&mut self, chord: KeyChord) -> (r: DialogOutcome<MenuChoice>)
        requires
            old(self).wf(),
        ensures
            final(self).wf(),
            final(self).texts() == old(self).texts(),
            (final(self).position().0, final(self).position().1, r) == menu_step(old(self).position().0, old(self).position().1, chord.code),
    {
        let ghost k = self.active_section as int;
        assert(self.sections@[k].items@.map_values(|it: MenuItem| it.choice) == menu_choices()[k]);
        match chord.code {
            KeyCode::Escape | KeyCode::F(9) => DialogOutcome::Cancelled,
            KeyCode::Left => {
                if self.active_section > 0 {
                    self.active_section = self.active_section - 1;
                    self.active_item = 0;
                }
                DialogOutcome::Open
            },
            KeyCode::Right => {
                if self.active_section + 1 < self.sections.len() {
                    self.active_section = self.active_section + 1;
                    self.active_item = 0;
                }
                DialogOutcome::Open
            },
            KeyCode::Up | KeyCode::Char('k') => {
                if self.active_item > 0 {
                    self.active_item = self.active_item - 1;
                }
                DialogOutcome::Open
            },
            KeyCode::Down | KeyCode::Char('j') => {
                let max = self.sections[self.active_section].items.len();
                if self.active_item + 1 < max {
                    self.active_item = self.active_item + 1;
                }
                DialogOutcome::Open
            },
            KeyCode::Enter => {
                let c = self.sections[self.active_section].items[self.active_item].choice;
                assert(c == menu_choices()[k][self.active_item as int]);
                DialogOutcome::Submitted(c)
            },
            _ => DialogOutcome::Open,
        }
    }
}

impl Default for MenuBar {
    fn default() -> (r: Self)
        ensures
            r.wf(),
            r.position() == (0usize, 0usize),
            r.texts() == menu_texts(),
    {
        Self::new()
    }
}

} // verus!
