//! User-invokable commands: the single source of truth for keymap targets.

use vstd::prelude::*;

verus! {

/// What a panel is sorted by.
#[derive(Debug, Clone, Copy, PartialEq, Eq, Hash, Structural)]
pub enum SortKey {
    Unsorted,
    Name,
    Extension,
    Size,
    Mtime,
    Atime,
    Ctime,
    Inode,
}

/// How two directories are compared.
#[derive(Debug, Clone, Copy, PartialEq, Eq, Hash, Structural)]
pub enum CompareMode {
    Quick,
    Thorough,
    SizeOnly,
}

/// Commands of the file viewer.
#[derive(Debug, Clone, PartialEq, Eq, Hash, Structural)]
pub enum ViewerAction {
    LineUp,
    LineDown,
    PageUp,
    PageDown,
    Home,
    End,
    ToggleWrap,
    ToggleHex,
    ToggleRaw,
    ToggleParsed,
    ToggleRuler,
    Search,
    SearchNext,
    SearchPrev,
    Goto,
    SetMark(u8),
    GotoMark(u8),
    Charset,
    Quit,
}

/// Commands of the diff viewer.
#[derive(Debug, Clone, PartialEq, Eq, Hash, Structural)]
pub enum DiffAction {
    NextHunk,
    PrevHunk,
    MergeHunk,
    EditLeft,
    EditRight,
    Swap,
    Refresh,
    ToggleIgnoreSpace,
    ToggleIgnoreCase,
    SetTabSize(u8),
    Quit,
}

/// Commands inside dialogs.
#[derive(Debug, Clone, PartialEq, Eq, Hash, Structural)]
pub enum DialogAction {
    Accept,
    Cancel,
    NextField,
    PrevField,
}

/// Every command a key can be bound to.
#[derive(Debug, Clone, PartialEq, Eq, Hash, Structural)]
pub enum Action {
    PanelUp,
    PanelDown,
    PanelPgUp,
    PanelPgDn,
    PanelHome,
    PanelEnd,
    PanelToggleTag,
    PanelSelectGroup,
    PanelUnselectGroup,
    PanelInvertSelection,
    PanelCdParent,
    PanelCdHome,
    PanelSortBy(SortKey),
    PanelToggleReverse,
    PanelToggleHidden,
    PanelLayoutCycle,
    PanelSyncSibling,
    PanelSwap,
    PanelHistoryBack,
    PanelHistoryFwd,
    PanelHistoryList,
    Copy,
    Move,
    Delete,
    Mkdir,
    Chmod,
    Chown,
    Chattr,
    Hardlink,
    AbsSymlink,
    RelSymlink,
    EditSymlink,
    CompareDirs(CompareMode),
    ViewFile,
    ViewRaw,
    EditFile,
    Find,
    FindAndPanelize,
    Hotlist,
    AddToHotlist,
    UserMenu,
    ExtMenu,
    QuickCd,
    QuickSearch,
    SwitchPanel,
    RefreshPanel,
    ToggleQuickView,
    ToggleTreeMode,
    SuspendShell,
    Quit,
    MenuBar,
    Help,
    Learn,
    CmdlineSubmit,
    CmdlineHistoryUp,
    CmdlineHistoryDn,
    CmdlineInsertSelected,
    CmdlineInsertCwd,
    Viewer(ViewerAction),
    Diff(DiffAction),
    Dialog(DialogAction),
}

/// The stable id of an action, as keymap files name it.
pub open spec fn action_id(a: Action) -> Seq<char> {
    match a {
        Action::PanelUp => "panel.up"@,
        Action::PanelDown => "panel.down"@,
        Action::PanelPgUp => "panel.pgup"@,
        Action::PanelPgDn => "panel.pgdn"@,
        Action::PanelHome => "panel.home"@,
        Action::PanelEnd => "panel.end"@,
        Action::PanelToggleTag => "panel.toggle_tag"@,
        Action::PanelSelectGroup => "panel.select_group"@,
        Action::PanelUnselectGroup => "panel.unselect_group"@,
        Action::PanelInvertSelection => "panel.invert_selection"@,
        Action::PanelCdParent => "panel.cd_parent"@,
        Action::PanelCdHome => "panel.cd_home"@,
        Action::PanelSortBy(_) => "panel.sort_by"@,
        Action::PanelToggleReverse => "panel.toggle_reverse"@,
        Action::PanelToggleHidden => "panel.toggle_hidden"@,
        Action::PanelLayoutCycle => "panel.layout_cycle"@,
        Action::PanelSyncSibling => "panel.sync_sibling"@,
        Action::PanelSwap => "panel.swap"@,
        Action::PanelHistoryBack => "panel.history_back"@,
        Action::PanelHistoryFwd => "panel.history_fwd"@,
        Action::PanelHistoryList => "panel.history_list"@,
        Action::Copy => "ops.copy"@,
        Action::Move => "ops.move"@,
        Action::Delete => "ops.delete"@,
        Action::Mkdir => "ops.mkdir"@,
        Action::Chmod => "ops.chmod"@,
        Action::Chown => "ops.chown"@,
        Action::Chattr => "ops.chattr"@,
        Action::Hardlink => "ops.hardlink"@,
        Action::AbsSymlink => "ops.abs_symlink"@,
        Action::RelSymlink => "ops.rel_symlink"@,
        Action::EditSymlink => "ops.edit_symlink"@,
        Action::CompareDirs(_) => "ops.compare_dirs"@,
        Action::ViewFile => "tools.view"@,
        Action::ViewRaw => "tools.view_raw"@,
        Action::EditFile => "tools.edit"@,
        Action::Find => "tools.find"@,
        Action::FindAndPanelize => "tools.find_and_panelize"@,
        Action::Hotlist => "tools.hotlist"@,
        Action::AddToHotlist => "tools.add_to_hotlist"@,
        Action::UserMenu => "tools.user_menu"@,
        Action::ExtMenu => "tools.ext_menu"@,
        Action::QuickCd => "tools.quick_cd"@,
        Action::QuickSearch => "tools.quick_search"@,
        Action::SwitchPanel => "app.switch_panel"@,
        Action::RefreshPanel => "app.refresh_panel"@,
        Action::ToggleQuickView => "app.toggle_quick_view"@,
        Action::ToggleTreeMode => "app.toggle_tree_mode"@,
        Action::SuspendShell => "app.suspend_shell"@,
        Action::Quit => "app.quit"@,
        Action::MenuBar => "app.menu_bar"@,
        Action::Help => "app.help"@,
        Action::Learn => "app.learn"@,
        Action::CmdlineSubmit => "cmdline.submit"@,
        Action::CmdlineHistoryUp => "cmdline.history_up"@,
        Action::CmdlineHistoryDn => "cmdline.history_dn"@,
        Action::CmdlineInsertSelected => "cmdline.insert_selected"@,
        Action::CmdlineInsertCwd => "cmdline.insert_cwd"@,
        Action::Viewer(_) => "viewer"@,
        Action::Diff(_) => "diff"@,
        Action::Dialog(_) => "dialog"@,
    }
}

impl Action {
    /// Stable string id used in keymap config files.
    pub fn id(&self) -> (r: &'static str)
        ensures
            r@ == action_id(*self),
    {
        match self {
            Action::PanelUp => "panel.up",
            Action::PanelDown => "panel.down",
            Action::PanelPgUp => "panel.pgup",
            Action::PanelPgDn => "panel.pgdn",
            Action::PanelHome => "panel.home",
            Action::PanelEnd => "panel.end",
            Action::PanelToggleTag => "panel.toggle_tag",
            Action::PanelSelectGroup => "panel.select_group",
            Action::PanelUnselectGroup => "panel.unselect_group",
            Action::PanelInvertSelection => "panel.invert_selection",
            Action::PanelCdParent => "panel.cd_parent",
            Action::PanelCdHome => "panel.cd_home",
            Action::PanelSortBy(_) => "panel.sort_by",
            Action::PanelToggleReverse => "panel.toggle_reverse",
            Action::PanelToggleHidden => "panel.toggle_hidden",
            Action::PanelLayoutCycle => "panel.layout_cycle",
            Action::PanelSyncSibling => "panel.sync_sibling",
            Action::PanelSwap => "panel.swap",
            Action::PanelHistoryBack => "panel.history_back",
            Action::PanelHistoryFwd => "panel.history_fwd",
            Action::PanelHistoryList => "panel.history_list",
            Action::Copy => "ops.copy",
            Action::Move => "ops.move",
            Action::Delete => "ops.delete",
            Action::Mkdir => "ops.mkdir",
            Action::Chmod => "ops.chmod",
            Action::Chown => "ops.chown",
            Action::Chattr => "ops.chattr",
            Action::Hardlink => "ops.hardlink",
            Action::AbsSymlink => "ops.abs_symlink",
            Action::RelSymlink => "ops.rel_symlink",
            Action::EditSymlink => "ops.edit_symlink",
            Action::CompareDirs(_) => "ops.compare_dirs",
            Action::ViewFile => "tools.view",
            Action::ViewRaw => "tools.view_raw",
            Action::EditFile => "tools.edit",
            Action::Find => "tools.find",
            Action::FindAndPanelize => "tools.find_and_panelize",
            Action::Hotlist => "tools.hotlist",
            Action::AddToHotlist => "tools.add_to_hotlist",
            Action::UserMenu => "tools.user_menu",
            Action::ExtMenu => "tools.ext_menu",
            Action::QuickCd => "tools.quick_cd",
            Action::QuickSearch => "tools.quick_search",
            Action::SwitchPanel => "app.switch_panel",
            Action::RefreshPanel => "app.refresh_panel",
            Action::ToggleQuickView => "app.toggle_quick_view",
            Action::ToggleTreeMode => "app.toggle_tree_mode",
            Action::SuspendShell => "app.suspend_shell",
            Action::Quit => "app.quit",
            Action::MenuBar => "app.menu_bar",
            Action::Help => "app.help",
            Action::Learn => "app.learn",
            Action::CmdlineSubmit => "cmdline.submit",
            Action::CmdlineHistoryUp => "cmdline.history_up",
            Action::CmdlineHistoryDn => "cmdline.history_dn",
            Action::CmdlineInsertSelected => "cmdline.insert_selected",
            Action::CmdlineInsertCwd => "cmdline.insert_cwd",
            Action::Viewer(_) => "viewer",
            Action::Diff(_) => "diff",
            Action::Dialog(_) => "dialog",
        }
    }
}

} // verus!

verus! {

/// The variant of an action, by its position in the declaration.
pub open spec fn action_variant(a: Action) -> int {
    match a {
        Action::PanelUp => 0,
        Action::PanelDown => 1,
        Action::PanelPgUp => 2,
        Action::PanelPgDn => 3,
        Action::PanelHome => 4,
        Action::PanelEnd => 5,
        Action::PanelToggleTag => 6,
        Action::PanelSelectGroup => 7,
        Action::PanelUnselectGroup => 8,
        Action::PanelInvertSelection => 9,
        Action::PanelCdParent => 10,
        Action::PanelCdHome => 11,
        Action::PanelSortBy(_) => 12,
        Action::PanelToggleReverse => 13,
        Action::PanelToggleHidden => 14,
        Action::PanelLayoutCycle => 15,
        Action::PanelSyncSibling => 16,
        Action::PanelSwap => 17,
        Action::PanelHistoryBack => 18,
        Action::PanelHistoryFwd => 19,
        Action::PanelHistoryList => 20,
        Action::Copy => 21,
        Action::Move => 22,
        Action::Delete => 23,
        Action::Mkdir => 24,
        Action::Chmod => 25,
        Action::Chown => 26,
        Action::Chattr => 27,
        Action::Hardlink => 28,
        Action::AbsSymlink => 29,
        Action::RelSymlink => 30,
        Action::EditSymlink => 31,
        Action::CompareDirs(_) => 32,
        Action::ViewFile => 33,
        Action::ViewRaw => 34,
        Action::EditFile => 35,
        Action::Find => 36,
        Action::FindAndPanelize => 37,
        Action::Hotlist => 38,
        Action::AddToHotlist => 39,
        Action::UserMenu => 40,
        Action::ExtMenu => 41,
        Action::QuickCd => 42,
        Action::QuickSearch => 43,
        Action::SwitchPanel => 44,
        Action::RefreshPanel => 45,
        Action::ToggleQuickView => 46,
        Action::ToggleTreeMode => 47,
        Action::SuspendShell => 48,
        Action::Quit => 49,
        Action::MenuBar => 50,
        Action::Help => 51,
        Action::Learn => 52,
        Action::CmdlineSubmit => 53,
        Action::CmdlineHistoryUp => 54,
        Action::CmdlineHistoryDn => 55,
        Action::CmdlineInsertSelected => 56,
        Action::CmdlineInsertCwd => 57,
        Action::Viewer(_) => 58,
        Action::Diff(_) => 59,
        Action::Dialog(_) => 60,
    }
}

/// A few characters of a text, enough to tell the action ids apart: its
/// length and its characters at 4, 8 and 16 (a space past the end).
pub open spec fn id_sig(s: Seq<char>) -> (nat, char, char, char) {
    (
        s.len(),
        if 4 < s.len() { s[4] } else { ' ' },
        if 8 < s.len() { s[8] } else { ' ' },
        if 16 < s.len() { s[16] } else { ' ' },
    )
}

/// The variant an id names, by its signature; -1 for other texts.
pub open spec fn id_variant(s: Seq<char>) -> int {
    let g = id_sig(s);
    if g == (8nat, 'l', ' ', ' ') {
        0
    } else if g == (10nat, 'l', 'w', ' ') {
        1
    } else if g == (10nat, 'l', 'u', ' ') {
        2
    } else if g == (10nat, 'l', 'd', ' ') {
        3
    } else if g == (10nat, 'l', 'm', ' ') {
        4
    } else if g == (9nat, 'l', 'd', ' ') {
        5
    } else if g == (16nat, 'l', 'g', ' ') {
        6
    } else if g == (18nat, 'l', 'l', 'u') {
        7
    } else if g == (20nat, 'l', 's', 'r') {
        8
    } else if g == (22nat, 'l', 'v', 'e') {
        9
    } else if g == (15nat, 'l', '_', ' ') {
        10
    } else if g == (13nat, 'l', '_', ' ') {
        11
    } else if g == (13nat, 'l', 'r', ' ') {
        12
    } else if g == (20nat, 'l', 'g', 'e') {
        13
    } else if g == (19nat, 'l', 'g', 'd') {
        14
    } else if g == (18nat, 'l', 'y', 'l') {
        15
    } else if g == (18nat, 'l', 'n', 'n') {
        16
    } else if g == (10nat, 'l', 'a', ' ') {
        17
    } else if g == (18nat, 'l', 's', 'c') {
        18
    } else if g == (17nat, 'l', 's', 'd') {
        19
    } else if g == (18nat, 'l', 's', 's') {
        20
    } else if g == (8nat, 'c', ' ', ' ') {
        21
    } else if g == (8nat, 'm', ' ', ' ') {
        22
    } else if g == (10nat, 'd', 't', ' ') {
        23
    } else if g == (9nat, 'm', 'r', ' ') {
        24
    } else if g == (9nat, 'c', 'd', ' ') {
        25
    } else if g == (9nat, 'c', 'n', ' ') {
        26
    } else if g == (10nat, 'c', 't', ' ') {
        27
    } else if g == (12nat, 'h', 'l', ' ') {
        28
    } else if g == (15nat, 'a', 's', ' ') {
        29
    } else if g == (15nat, 'r', 's', ' ') {
        30
    } else if g == (16nat, 'e', '_', ' ') {
        31
    } else if g == (16nat, 'c', 'a', ' ') {
        32
    } else if g == (10nat, 's', 'e', ' ') {
        33
    } else if g == (14nat, 's', 'e', ' ') {
        34
    } else if g == (10nat, 's', 'i', ' ') {
        35
    } else if g == (10nat, 's', 'n', ' ') {
        36
    } else if g == (23nat, 's', 'n', 'a') {
        37
    } else if g == (13nat, 's', 't', ' ') {
        38
    } else if g == (20nat, 's', 'd', 'l') {
        39
    } else if g == (15nat, 's', 'e', ' ') {
        40
    } else if g == (14nat, 's', 't', ' ') {
        41
    } else if g == (14nat, 's', 'i', ' ') {
        42
    } else if g == (18nat, 's', 'i', 'c') {
        43
    } else if g == (16nat, 's', 'c', ' ') {
        44
    } else if g == (17nat, 'r', 'e', 'l') {
        45
    } else if g == (21nat, 't', 'l', '_') {
        46
    } else if g == (20nat, 't', 'l', 'm') {
        47
    } else if g == (17nat, 's', 'e', 'l') {
        48
    } else if g == (8nat, 'q', ' ', ' ') {
        49
    } else if g == (12nat, 'm', '_', ' ') {
        50
    } else if g == (8nat, 'h', ' ', ' ') {
        51
    } else if g == (9nat, 'l', 'n', ' ') {
        52
    } else if g == (14nat, 'i', 's', ' ') {
        53
    } else if g == (18nat, 'i', 'h', 'u') {
        54
    } else if g == (18nat, 'i', 'h', 'd') {
        55
    } else if g == (23nat, 'i', 'i', 'e') {
        56
    } else if g == (18nat, 'i', 'i', 'w') {
        57
    } else if g == (6nat, 'e', ' ', ' ') {
        58
    } else if g == (4nat, ' ', ' ', ' ') {
        59
    } else if g == (6nat, 'o', ' ', ' ') {
        60
    } else {
        -1
    }
}

proof fn lemma_id_names_variant(a: Action)
    ensures
        id_variant(action_id(a)) == action_variant(a),
{
    match a {
        Action::PanelUp => {
            reveal_strlit("panel.up");
        },
        Action::PanelDown => {
            reveal_strlit("panel.down");
        },
        Action::PanelPgUp => {
            reveal_strlit("panel.pgup");
        },
        Action::PanelPgDn => {
            reveal_strlit("panel.pgdn");
        },
        Action::PanelHome => {
            reveal_strlit("panel.home");
        },
        Action::PanelEnd => {
            reveal_strlit("panel.end");
        },
        Action::PanelToggleTag => {
            reveal_strlit("panel.toggle_tag");
        },
        Action::PanelSelectGroup => {
            reveal_strlit("panel.select_group");
        },
        Action::PanelUnselectGroup => {
            reveal_strlit("panel.unselect_group");
        },
        Action::PanelInvertSelection => {
            reveal_strlit("panel.invert_selection");
        },
        Action::PanelCdParent => {
            reveal_strlit("panel.cd_parent");
        },
        Action::PanelCdHome => {
            reveal_strlit("panel.cd_home");
        },
        Action::PanelSortBy(_) => {
            reveal_strlit("panel.sort_by");
        },
        Action::PanelToggleReverse => {
            reveal_strlit("panel.toggle_reverse");
        },
        Action::PanelToggleHidden => {
            reveal_strlit("panel.toggle_hidden");
        },
        Action::PanelLayoutCycle => {
            reveal_strlit("panel.layout_cycle");
        },
        Action::PanelSyncSibling => {
            reveal_strlit("panel.sync_sibling");
        },
        Action::PanelSwap => {
            reveal_strlit("panel.swap");
        },
        Action::PanelHistoryBack => {
            reveal_strlit("panel.history_back");
        },
        Action::PanelHistoryFwd => {
            reveal_strlit("panel.history_fwd");
        },
        Action::PanelHistoryList => {
            reveal_strlit("panel.history_list");
        },
        Action::Copy => {
            reveal_strlit("ops.copy");
        },
        Action::Move => {
            reveal_strlit("ops.move");
        },
        Action::Delete => {
            reveal_strlit("ops.delete");
        },
        Action::Mkdir => {
            reveal_strlit("ops.mkdir");
        },
        Action::Chmod => {
            reveal_strlit("ops.chmod");
        },
        Action::Chown => {
            reveal_strlit("ops.chown");
        },
        Action::Chattr => {
            reveal_strlit("ops.chattr");
        },
        Action::Hardlink => {
            reveal_strlit("ops.hardlink");
        },
        Action::AbsSymlink => {
            reveal_strlit("ops.abs_symlink");
        },
        Action::RelSymlink => {
            reveal_strlit("ops.rel_symlink");
        },
        Action::EditSymlink => {
            reveal_strlit("ops.edit_symlink");
        },
        Action::CompareDirs(_) => {
            reveal_strlit("ops.compare_dirs");
        },
        Action::ViewFile => {
            reveal_strlit("tools.view");
        },
        Action::ViewRaw => {
            reveal_strlit("tools.view_raw");
        },
        Action::EditFile => {
            reveal_strlit("tools.edit");
        },
        Action::Find => {
            reveal_strlit("tools.find");
        },
        Action::FindAndPanelize => {
            reveal_strlit("tools.find_and_panelize");
        },
        Action::Hotlist => {
            reveal_strlit("tools.hotlist");
        },
        Action::AddToHotlist => {
            reveal_strlit("tools.add_to_hotlist");
        },
        Action::UserMenu => {
            reveal_strlit("tools.user_menu");
        },
        Action::ExtMenu => {
            reveal_strlit("tools.ext_menu");
        },
        Action::QuickCd => {
            reveal_strlit("tools.quick_cd");
        },
        Action::QuickSearch => {
            reveal_strlit("tools.quick_search");
        },
        Action::SwitchPanel => {
            reveal_strlit("app.switch_panel");
        },
        Action::RefreshPanel => {
            reveal_strlit("app.refresh_panel");
        },
        Action::ToggleQuickView => {
            reveal_strlit("app.toggle_quick_view");
        },
        Action::ToggleTreeMode => {
            reveal_strlit("app.toggle_tree_mode");
        },
        Action::SuspendShell => {
            reveal_strlit("app.suspend_shell");
        },
        Action::Quit => {
            reveal_strlit("app.quit");
        },
        Action::MenuBar => {
            reveal_strlit("app.menu_bar");
        },
        Action::Help => {
            reveal_strlit("app.help");
        },
        Action::Learn => {
            reveal_strlit("app.learn");
        },
        Action::CmdlineSubmit => {
            reveal_strlit("cmdline.submit");
        },
        Action::CmdlineHistoryUp => {
            reveal_strlit("cmdline.history_up");
        },
        Action::CmdlineHistoryDn => {
            reveal_strlit("cmdline.history_dn");
        },
        Action::CmdlineInsertSelected => {
            reveal_strlit("cmdline.insert_selected");
        },
        Action::CmdlineInsertCwd => {
            reveal_strlit("cmdline.insert_cwd");
        },
        Action::Viewer(_) => {
            reveal_strlit("viewer");
        },
        Action::Diff(_) => {
            reveal_strlit("diff");
        },
        Action::Dialog(_) => {
            reveal_strlit("dialog");
        },
    }
}

/// Distinct variants have distinct ids: an id names one variant.
pub proof fn lemma_action_ids_distinct(a: Action, b: Action)
    requires
        action_variant(a) != action_variant(b),
    ensures
        action_id(a) != action_id(b),
{
    lemma_id_names_variant(a);
    lemma_id_names_variant(b);
}

} // verus!
