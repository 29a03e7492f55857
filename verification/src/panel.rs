//! A file panel: its directory, entries, cursor, marks and the history of
//! directories it visited.

use vstd::prelude::*;

use crate::action::SortKey;
use crate::entry::{Entry, EntryKind};
use crate::archive_index::{find_text, texts};
use crate::glob::{glob_match, gmatch, lower_flat};
use crate::text::{chars_of, has_prefix, push_char, starts_with_chars, str_eq, to_lowercase, unicode_lowercase};
use crate::config::filehighlight::{classify_spec, FileHighlight};
use crate::ops::{parent_path, parent_spec};
use crate::path::{child_path, child_spec, LayerText, VPath};
use crate::sort::{sort_entries, stable_sorted_by};

verus! {

/// How a panel lists its entries.
#[derive(Debug, Clone, Copy, PartialEq, Eq, Structural)]
pub enum ListingMode {
    Full,
    Brief,
    Long,
}

/// The listing mode after `m` in the cycle Full, Brief, Long.
pub open spec fn next_mode(m: ListingMode) -> ListingMode {
    match m {
        ListingMode::Full => ListingMode::Brief,
        ListingMode::Brief => ListingMode::Long,
        ListingMode::Long => ListingMode::Full,
    }
}

impl ListingMode {
    /// The next listing mode in the cycle Full, Brief, Long.
    pub fn next(self) -> (r: Self)
        ensures
            r == next_mode(self),
    {
        match self {
            ListingMode::Full => ListingMode::Brief,
            ListingMode::Brief => ListingMode::Long,
            ListingMode::Long => ListingMode::Full,
        }
    }
}

/// Cycling the listing mode three times comes back to where it started,
/// and no mode is its own successor.
pub proof fn lemma_listing_cycle(m: ListingMode)
    ensures
        next_mode(next_mode(next_mode(m))) == m,
        next_mode(m) != m,
{
}

/// One panel's state.
#[derive(Debug)]
pub struct PanelState {
    pub cwd: VPath,
    pub entries: Vec<Entry>,
    pub cursor: usize,
    pub view_offset: usize,
    pub active: bool,
    pub show_hidden: bool,
    pub mix_dirs: bool,
    pub sort_by: SortKey,
    pub reverse: bool,
    pub mode: ListingMode,
    /// Names of the tagged entries.
    pub marks: Vec<String>,
    /// Directories visited from this panel, oldest first.
    pub history: Vec<VPath>,
    pub history_pos: usize,
}

/// The tagged names, as a set.
pub open spec fn mark_set(marks: Seq<String>) -> Set<Seq<char>> {
    marks.map_values(|m: String| m@).to_set()
}

/// The visited directories.
pub open spec fn history_view(h: Seq<VPath>) -> Seq<Seq<LayerText>> {
    h.map_values(|p: VPath| p@)
}

/// Whether an entry is listed when hidden files are not: its name does not
/// start with `.`, or it is `..`.
pub open spec fn shown_unhidden(e: Entry) -> bool {
    !(e.name@.len() > 0 && e.name@[0] == '.') || e.name@ == ".."@
}

/// [`shown_unhidden`] as a predicate.
pub open spec fn unhidden() -> spec_fn(Entry) -> bool {
    |e: Entry| shown_unhidden(e)
}

/// The entries a listing keeps.
pub open spec fn listed(entries: Seq<Entry>, show_hidden: bool) -> Seq<Entry> {
    if show_hidden {
        entries
    } else {
        entries.filter(unhidden())
    }
}

/// The directory part of a panel: visited directories, position among
/// them, current directory.
pub struct HistModel {
    pub hist: Seq<Seq<LayerText>>,
    pub pos: int,
    pub cwd: Seq<LayerText>,
}

/// Whether the position names a visited directory and it is the current one.
pub open spec fn hist_wf(m: HistModel) -> bool {
    0 <= m.pos < m.hist.len() && m.hist[m.pos] == m.cwd
}

/// Going to `d`: the directories after the position are dropped and `d` is
/// added as the newest.
pub open spec fn navigate_model(m: HistModel, d: Seq<LayerText>) -> HistModel {
    let kept = m.hist.take(if m.pos + 1 <= m.hist.len() { m.pos + 1 } else { m.hist.len() as int });
    HistModel { hist: kept.push(d), pos: kept.len() as int, cwd: d }
}

/// Going back one directory, when there is an older one.
pub open spec fn back_model(m: HistModel) -> (HistModel, bool) {
    if m.pos == 0 {
        (m, false)
    } else {
        (HistModel { pos: m.pos - 1, cwd: m.hist[m.pos - 1], ..m }, true)
    }
}

/// Going forward one directory, when there is a newer one.
pub open spec fn fwd_model(m: HistModel) -> (HistModel, bool) {
    if m.pos + 1 < m.hist.len() {
        (HistModel { pos: m.pos + 1, cwd: m.hist[m.pos + 1], ..m }, true)
    } else {
        (m, false)
    }
}

/// Going somewhere new and then back returns to where the panel was, at the
/// same position in its history; going forward again returns to the new
/// directory.
pub proof fn lemma_back_undoes_navigate(m: HistModel, d: Seq<LayerText>)
    requires
        hist_wf(m),
    ensures
        back_model(navigate_model(m, d)).1,
        back_model(navigate_model(m, d)).0.cwd == m.cwd,
        back_model(navigate_model(m, d)).0.pos == m.pos,
        fwd_model(back_model(navigate_model(m, d)).0).1,
        fwd_model(back_model(navigate_model(m, d)).0).0.cwd == d,
{
    let n = navigate_model(m, d);
    assert(n.hist[m.pos] == m.hist.take(m.pos + 1)[m.pos]);
}

/// Every move keeps the position on the current directory.
pub proof fn lemma_history_moves_keep_wf(m: HistModel, d: Seq<LayerText>)
    requires
        hist_wf(m),
    ensures
        hist_wf(navigate_model(m, d)),
        hist_wf(back_model(m).0),
        hist_wf(fwd_model(m).0),
{
}

/// The listing settings of two panel states agree: which panel is active,
/// hidden files, mixing, sort key and order, listing mode.
pub open spec fn same_settings(o: PanelState, n: PanelState) -> bool {
    &&& n.active == o.active
    &&& n.show_hidden == o.show_hidden
    &&& n.mix_dirs == o.mix_dirs
    &&& n.sort_by == o.sort_by
    &&& n.reverse == o.reverse
    &&& n.mode == o.mode
}

/// `n` is `o` gone to `d`: the history as [`navigate_model`] says, on the
/// new directory, cursor and scroll at the top, no marks, the same entries
/// and settings.
pub open spec fn navigated(o: PanelState, n: PanelState, d: Seq<LayerText>) -> bool {
    &&& n.hist_model() == navigate_model(o.hist_model(), d)
    &&& n.wf()
    &&& n.cursor == 0
    &&& n.view_offset == 0
    &&& n.marks@.len() == 0
    &&& n.entries@ == o.entries@
    &&& same_settings(o, n)
}

/// `n` is `o` with its entries filtered and sorted by `o`'s settings, the
/// cursor kept on an entry, and everything else unchanged.
pub open spec fn resorted(o: PanelState, n: PanelState) -> bool {
    &&& exists|p: Seq<int>| stable_sorted_by(p, n.entries@, listed(o.entries@, o.show_hidden), o.sort_by, o.reverse, o.mix_dirs)
    &&& n.cursor == if o.cursor >= n.entries@.len() {
        if n.entries@.len() > 0 { (n.entries@.len() - 1) as usize } else { 0 }
    } else {
        o.cursor
    }
    &&& n.cwd@ == o.cwd@
    &&& history_view(n.history@) == history_view(o.history@)
    &&& n.history_pos == o.history_pos
    &&& n.marks@ == o.marks@
    &&& same_settings(o, n)
    &&& n.view_offset == o.view_offset
}

/// `n` is `o` after a tag key: the entry under the cursor, unless it is
/// `..` or there is none, is tagged or untagged and the cursor moves down a
/// row when it can; nothing else changes.
pub open spec fn tagged(o: PanelState, n: PanelState) -> bool {
    if o.cursor < o.entries@.len() && o.entries@[o.cursor as int].name@ != ".."@ {
        let name = o.entries@[o.cursor as int].name@;
        &&& mark_set(n.marks@) == if mark_set(o.marks@).contains(name) {
            mark_set(o.marks@).remove(name)
        } else {
            mark_set(o.marks@).insert(name)
        }
        &&& n.cursor == if o.cursor + 1 < o.entries@.len() { (o.cursor + 1) as usize } else { o.cursor }
        &&& n.entries@ == o.entries@
        &&& n.cwd@ == o.cwd@
        &&& same_settings(o, n)
        &&& n.view_offset == o.view_offset
        &&& n.history == o.history
        &&& n.history_pos == o.history_pos
    } else {
        n == o
    }
}

impl PanelState {
    /// The directory part of the panel.
    pub open spec fn hist_model(&self) -> HistModel {
        HistModel { hist: history_view(self.history@), pos: self.history_pos as int, cwd: self.cwd@ }
    }

    /// The history position names a visited directory, and it is the
    /// current one.
    pub open spec fn wf(&self) -> bool {
        &&& self.history_pos < self.history@.len()
        &&& self.history@[self.history_pos as int]@ == self.cwd@
    }

    /// A panel on `cwd`, with that directory as its whole history.
    pub fn new(cwd: VPath) -> (r: Self)
        ensures
            r.wf(),
            r.cwd@ == cwd@,
            history_view(r.history@) == seq![cwd@],
            r.entries@.len() == 0,
            r.cursor == 0,
            r.view_offset == 0,
            !r.active && !r.show_hidden && !r.mix_dirs && !r.reverse,
            r.sort_by == SortKey::Name,
            r.mode == ListingMode::Full,
            r.marks@.len() == 0,
            r.history_pos == 0,
    {
        let mut history: Vec<VPath> = Vec::new();
        history.push(cwd.clone_path());
        let r = PanelState {
            cwd,
            entries: Vec::new(),
            cursor: 0,
            view_offset: 0,
            active: false,
            show_hidden: false,
            mix_dirs: false,
            sort_by: SortKey::Name,
            reverse: false,
            mode: ListingMode::Full,
            marks: Vec::new(),
            history,
            history_pos: 0,
        };
        assert(history_view(r.history@) =~= seq![r.cwd@]);
        r
    }

    /// Drops hidden entries unless they are shown, sorts the rest, and keeps
    /// the cursor on an entry (on 0 when there is none).
    pub fn apply_filter_sort(&mut self)
        ensures
            exists|p: Seq<int>| stable_sorted_by(p, final(self).entries@, listed(old(self).entries@, old(self).show_hidden), old(self).sort_by, old(self).reverse, old(self).mix_dirs),
            final(self).cursor == if old(self).cursor >= final(self).entries@.len() {
                if final(self).entries@.len() > 0 { (final(self).entries@.len() - 1) as usize } else { 0 }
            } else {
                old(self).cursor
            },
            final(self).cwd@ == old(self).cwd@,
            history_view(final(self).history@) == history_view(old(self).history@),
            final(self).history_pos == old(self).history_pos,
            final(self).marks@ == old(self).marks@,
            final(self).show_hidden == old(self).show_hidden,
            same_settings(*old(self), *final(self)),
            final(self).view_offset == old(self).view_offset,
            resorted(*old(self), *final(self)),
    {
        if !self.show_hidden {
            let ghost pred = unhidden();
            let ghost orig = self.entries@;
            let mut kept: Vec<Entry> = Vec::new();
            let mut rest: Vec<Entry> = Vec::new();
            std::mem::swap(&mut rest, &mut self.entries);
            assert(Seq::<Entry>::empty().filter(pred) =~= Seq::<Entry>::empty()) by {
                reveal(Seq::filter);
            }
            let ghost mut taken: Seq<Entry> = Seq::empty();
            while rest.len() > 0
                invariant
                    pred == unhidden(),
                    taken + rest@ == orig,
                    kept@ == taken.filter(pred),
                decreases rest@.len(),
            {
                let ghost r0 = rest@;
                let e = rest.remove(0);
                assert(e == r0[0]);
                proof {
                    taken.lemma_filter_push(e, pred);
                }
                let keep = !starts_with_dot(&e.name) || is_parent_name(&e.name);
                proof {
                    taken = taken.push(e);
                }
                if keep {
                    kept.push(e);
                }
                assert(taken + rest@ =~= orig);
            }
            assert(taken =~= orig);
            assert(kept@ == listed(orig, false));
            self.entries = kept;
        }
        let ghost pre = self.entries@;
        assert(pre == listed(old(self).entries@, old(self).show_hidden));
        let key = self.sort_by;
        let rev = self.reverse;
        let mix = self.mix_dirs;
        sort_entries(&mut self.entries, key, rev, mix);
        assert(exists|p: Seq<int>| stable_sorted_by(p, self.entries@, pre, key, rev, mix));
        let ghost w = choose|p: Seq<int>| stable_sorted_by(p, self.entries@, pre, key, rev, mix);
        if self.cursor >= self.entries.len() {
            self.cursor = if self.entries.len() > 0 { self.entries.len() - 1 } else { 0 };
        }
        assert(stable_sorted_by(w, self.entries@, listed(old(self).entries@, old(self).show_hidden), old(self).sort_by, old(self).reverse, old(self).mix_dirs));
    }

    /// Goes to a new directory: forward history is dropped, the directory
    /// is added after the current position, the cursor goes to the top and
    /// the marks are cleared.
    pub fn navigate(&mut self, new_cwd: VPath)
        ensures
            final(self).hist_model() == navigate_model(old(self).hist_model(), new_cwd@),
            final(self).wf(),
            final(self).cursor == 0,
            final(self).view_offset == 0,
            final(self).marks@.len() == 0,
            final(self).entries@ == old(self).entries@,
            same_settings(*old(self), *final(self)),
            navigated(*old(self), *final(self), new_cwd@),
    {
        let ghost hv = history_view(self.history@);
        if self.history_pos < self.history.len() {
            self.history.truncate(self.history_pos + 1);
        }
        assert(history_view(self.history@) =~= hv.take(
            if old(self).history_pos + 1 <= old(self).history@.len() { old(self).history_pos + 1 } else { old(self).history@.len() as int },
        ));
        let ghost before = history_view(self.history@);
        self.history.push(new_cwd.clone_path());
        assert(history_view(self.history@) =~= before.push(new_cwd@));
        self.history_pos = self.history.len() - 1;
        self.cwd = new_cwd;
        assert(self.hist_model().hist =~= navigate_model(old(self).hist_model(), self.cwd@).hist);
        self.cursor = 0;
        self.view_offset = 0;
        self.marks = Vec::new();
    }

    /// Goes back one directory in the history; `false` at the oldest one.
    pub fn history_back(&mut self) -> (r: bool)
        requires
            old(self).history_pos <= old(self).history@.len(),
        ensures
            (final(self).hist_model(), r) == back_model(old(self).hist_model()),
            r ==> final(self).cursor == 0 && final(self).view_offset == 0 && final(self).marks@.len() == 0,
            !r ==> final(self).cursor == old(self).cursor && final(self).marks@ == old(self).marks@,
            final(self).entries@ == old(self).entries@,
            old(self).wf() ==> final(self).wf(),
            same_settings(*old(self), *final(self)),
            !r ==> *final(self) == *old(self),
    {
        if self.history_pos == 0 {
            return false;
        }
        self.history_pos = self.history_pos - 1;
        self.cwd = self.history[self.history_pos].clone_path();
        self.cursor = 0;
        self.view_offset = 0;
        self.marks = Vec::new();
        true
    }

    /// Goes forward one directory in the history; `false` at the newest one.
    pub fn history_fwd(&mut self) -> (r: bool)
        ensures
            (final(self).hist_model(), r) == fwd_model(old(self).hist_model()),
            r ==> final(self).cursor == 0 && final(self).view_offset == 0 && final(self).marks@.len() == 0,
            !r ==> final(self).cursor == old(self).cursor && final(self).marks@ == old(self).marks@,
            final(self).entries@ == old(self).entries@,
            old(self).wf() ==> final(self).wf(),
            same_settings(*old(self), *final(self)),
            !r ==> *final(self) == *old(self),
    {
        if self.history_pos >= self.history.len() || self.history_pos + 1 >= self.history.len() {
            return false;
        }
        self.history_pos = self.history_pos + 1;
        self.cwd = self.history[self.history_pos].clone_path();
        self.cursor = 0;
        self.view_offset = 0;
        self.marks = Vec::new();
        true
    }

    /// Tags or untags the entry under the cursor (never `..`) and moves the
    /// cursor down one row when there is one.
    pub fn toggle_mark(&mut self)
        ensures
            old(self).cursor < old(self).entries@.len() && old(self).entries@[old(self).cursor as int].name@ != ".."@ ==> {
                let name = old(self).entries@[old(self).cursor as int].name@;
                &&& mark_set(final(self).marks@) == if mark_set(old(self).marks@).contains(name) {
                    mark_set(old(self).marks@).remove(name)
                } else {
                    mark_set(old(self).marks@).insert(name)
                }
                &&& final(self).cursor == if old(self).cursor + 1 < old(self).entries@.len() { (old(self).cursor + 1) as usize } else { old(self).cursor }
            },
            !(old(self).cursor < old(self).entries@.len() && old(self).entries@[old(self).cursor as int].name@ != ".."@) ==> final(self).marks@ == old(self).marks@ && final(self).cursor == old(self).cursor,
            final(self).entries@ == old(self).entries@,
            final(self).cwd@ == old(self).cwd@,
            same_settings(*old(self), *final(self)),
            final(self).view_offset == old(self).view_offset,
            final(self).history == old(self).history,
            final(self).history_pos == old(self).history_pos,
            !(old(self).cursor < old(self).entries@.len() && old(self).entries@[old(self).cursor as int].name@ != ".."@) ==> *final(self) == *old(self),
            tagged(*old(self), *final(self)),
    {
        if self.cursor >= self.entries.len() {
            return;
        }
        if is_parent_name(&self.entries[self.cursor].name) {
            return;
        }
        let name = self.entries[self.cursor].name.clone();
        let ghost nv = name@;
        let ghost mv = self.marks@.map_values(|m: String| m@);
        let mut kept: Vec<String> = Vec::new();
        let mut found = false;
        let mut i: usize = 0;
        while i < self.marks.len()
            invariant
                i <= self.marks@.len(),
                mv == self.marks@.map_values(|m: String| m@),
                nv == name@,
                found == mv.take(i as int).contains(nv),
                kept@.map_values(|m: String| m@).to_set() == mv.take(i as int).to_set().remove(nv),
            decreases self.marks@.len() - i,
        {
            let ghost kb = kept@.map_values(|m: String| m@);
            assert(mv.take(i + 1) =~= mv.take(i as int).push(mv[i as int]));
            assert(mv[i as int] == self.marks@[i as int]@);
            if crate::text::str_eq(self.marks[i].as_str(), name.as_str()) {
                found = true;
                proof { mv.take(i as int).lemma_push_to_set_commute(nv); }
                assert(mv.take(i + 1).to_set() =~= mv.take(i as int).to_set().insert(nv));
                assert(mv.take(i + 1).to_set().remove(nv) =~= mv.take(i as int).to_set().remove(nv));
            } else {
                kept.push(self.marks[i].clone());
                assert(kept@.map_values(|m: String| m@) =~= kb.push(mv[i as int]));
                proof { kb.lemma_push_to_set_commute(mv[i as int]); }
                proof { mv.take(i as int).lemma_push_to_set_commute(mv[i as int]); }
                assert(kb.push(mv[i as int]).to_set() =~= kb.to_set().insert(mv[i as int]));
                assert(mv.take(i + 1).to_set() =~= mv.take(i as int).to_set().insert(mv[i as int]));
                assert(mv.take(i + 1).to_set().remove(nv) =~= mv.take(i as int).to_set().remove(nv).insert(mv[i as int]));
            }
            proof {
                if !found {
                    assert(!mv.take(i as int).contains(nv));
                }
                assert(mv.take(i + 1).contains(nv) == (mv.take(i as int).contains(nv) || mv[i as int] == nv)) by {
                    if mv[i as int] == nv {
                        assert(mv.take(i + 1)[i as int] == nv);
                    }
                    if mv.take(i as int).contains(nv) {
                        let j = choose|j: int| 0 <= j < i && #[trigger] mv.take(i as int)[j] == nv;
                        assert(mv.take(i + 1)[j] == nv);
                    }
                    if mv.take(i + 1).contains(nv) {
                        let j = choose|j: int| 0 <= j < i + 1 && #[trigger] mv.take(i + 1)[j] == nv;
                        if j < i {
                            assert(mv.take(i as int)[j] == nv);
                        }
                    }
                }
            }
            i = i + 1;
        }
        assert(mv.take(self.marks@.len() as int) =~= mv);
        if !found {
            let ghost kb = kept@.map_values(|m: String| m@);
            kept.push(name);
            assert(kept@.map_values(|m: String| m@) =~= kb.push(nv));
            proof { kb.lemma_push_to_set_commute(nv); }
            assert(kb.push(nv).to_set() =~= kb.to_set().insert(nv));
            assert(mv.to_set().remove(nv).insert(nv) =~= mv.to_set().insert(nv));
        } else {
            assert(mv.to_set().contains(nv));
        }
        proof {
            assert(mark_set(old(self).marks@) == mv.to_set());
            assert(mv.contains(nv) == mv.to_set().contains(nv));
        }
        self.marks = kept;
        if self.cursor + 1 < self.entries.len() {
            self.cursor = self.cursor + 1;
        }
    }

    /// The path the entry under the cursor leads to: the parent directory
    /// for `..`, the entry's name joined onto the directory otherwise;
    /// `None` when the cursor is past the entries or there is no such path.
    pub fn cursor_path(&self) -> (r: Option<VPath>)
        ensures
            match r {
                Some(p) => cursor_path_spec(self.entries@, self.cursor as int, self.cwd@) == Some(p@),
                None => cursor_path_spec(self.entries@, self.cursor as int, self.cwd@) is None,
            },
    {
        if self.cursor >= self.entries.len() {
            return None;
        }
        let e = &self.entries[self.cursor];
        if is_parent_name(&e.name) {
            parent_path(&self.cwd)
        } else {
            child_path(&self.cwd, e.name.as_str())
        }
    }
}

/// Where the entry at `cursor` leads from `cwd`, as
/// [`PanelState::cursor_path`] finds it.
pub open spec fn cursor_path_spec(entries: Seq<Entry>, cursor: int, cwd: Seq<LayerText>) -> Option<Seq<LayerText>> {
    if 0 <= cursor < entries.len() {
        if entries[cursor].name@ == ".."@ {
            parent_spec(cwd)
        } else {
            child_spec(cwd, entries[cursor].name@)
        }
    } else {
        None
    }
}

fn starts_with_dot(s: &String) -> (r: bool)
    ensures
        r == (s@.len() > 0 && s@[0] == '.'),
{
    let v = crate::text::chars_of(s.as_str());
    v.len() > 0 && v[0] == '.'
}

fn is_parent_name(s: &String) -> (r: bool)
    ensures
        r == (s@ == ".."@),
{
    crate::text::str_eq(s.as_str(), "..")
}

/// The type letter of a long listing: `d`, `l`, `p`, `s`, `b`, `c`, or `-`
/// for files and anything else.
pub open spec fn kind_char(k: EntryKind) -> char {
    match k {
        EntryKind::Dir => 'd',
        EntryKind::Symlink => 'l',
        EntryKind::Fifo => 'p',
        EntryKind::Socket => 's',
        EntryKind::BlockDevice => 'b',
        EntryKind::CharDevice => 'c',
        EntryKind::File | EntryKind::Other => '-',
    }
}

/// `c` when the permission bit `mask` is set in `m`, `-` otherwise.
pub open spec fn perm_char(m: u32, mask: u32, c: char) -> char {
    if m & mask != 0 {
        c
    } else {
        '-'
    }
}

/// The `ls -l` style mode column: the type letter, then `rwx` for owner,
/// group and others, `-` for each bit not set (no bits without a mode).
pub open spec fn mode_text(e: Entry) -> Seq<char> {
    let m = match e.mode {
        Some(x) => x,
        None => 0,
    };
    seq![
        kind_char(e.kind),
        perm_char(m, 0o400, 'r'),
        perm_char(m, 0o200, 'w'),
        perm_char(m, 0o100, 'x'),
        perm_char(m, 0o040, 'r'),
        perm_char(m, 0o020, 'w'),
        perm_char(m, 0o010, 'x'),
        perm_char(m, 0o004, 'r'),
        perm_char(m, 0o002, 'w'),
        perm_char(m, 0o001, 'x'),
    ]
}

fn perm_char_of(m: u32, mask: u32, c: char) -> (r: char)
    ensures
        r == perm_char(m, mask, c),
{
    if m & mask != 0 {
        c
    } else {
        '-'
    }
}

/// The mode column of a long listing, as [`mode_text`] says.
pub fn unix_mode_str(e: &Entry) -> (r: String)
    ensures
        r@ == mode_text(*e),
{
    let kind_ch = match e.kind {
        EntryKind::Dir => 'd',
        EntryKind::Symlink => 'l',
        EntryKind::Fifo => 'p',
        EntryKind::Socket => 's',
        EntryKind::BlockDevice => 'b',
        EntryKind::CharDevice => 'c',
        EntryKind::File | EntryKind::Other => '-',
    };
    let m: u32 = match e.mode {
        Some(x) => x,
        None => 0,
    };
    let c1 = perm_char_of(m, 0o400, 'r');
    let c2 = perm_char_of(m, 0o200, 'w');
    let c3 = perm_char_of(m, 0o100, 'x');
    let c4 = perm_char_of(m, 0o040, 'r');
    let c5 = perm_char_of(m, 0o020, 'w');
    let c6 = perm_char_of(m, 0o010, 'x');
    let c7 = perm_char_of(m, 0o004, 'r');
    let c8 = perm_char_of(m, 0o002, 'w');
    let c9 = perm_char_of(m, 0o001, 'x');
    let v: Vec<char> = vec![kind_ch, c1, c2, c3, c4, c5, c6, c7, c8, c9];
    assert(v@ =~= seq![kind_ch, c1, c2, c3, c4, c5, c6, c7, c8, c9]);
    let r = crate::text::string_of(v.as_slice());
    assert(r@ =~= mode_text(*e));
    r
}

/// A color of the listing.
#[derive(Debug, Clone, Copy, PartialEq, Eq, Structural)]
pub enum PanelColor {
    White,
    Black,
    Blue,
    Cyan,
    Magenta,
    Yellow,
    Green,
    Red,
    LightMagenta,
    LightCyan,
}

/// How a listing line is drawn: its colors and whether it is bold.
#[derive(Debug, Clone, Copy, PartialEq, Eq, Structural)]
pub struct LineStyle {
    pub fg: PanelColor,
    pub bg: PanelColor,
    pub bold: bool,
}

/// White on blue, not bold.
pub open spec fn base_style() -> LineStyle {
    LineStyle { fg: PanelColor::White, bg: PanelColor::Blue, bold: false }
}

/// The style of a regular file: green when any execute bit is set, else by
/// its highlight group (archives red, images magenta, audio and video light
/// magenta, documents bold, sources light cyan, build files yellow), else
/// plain.
pub open spec fn file_style(mode: Option<u32>, group: Option<Seq<char>>) -> LineStyle {
    let b = base_style();
    if mode is Some && (mode->0 & 0o111u32) != 0 {
        LineStyle { fg: PanelColor::Green, ..b }
    } else {
        match group {
            Some(g) => if g == "archive"@ {
                LineStyle { fg: PanelColor::Red, ..b }
            } else if g == "image"@ {
                LineStyle { fg: PanelColor::Magenta, ..b }
            } else if g == "audio"@ || g == "video"@ {
                LineStyle { fg: PanelColor::LightMagenta, ..b }
            } else if g == "doc"@ {
                LineStyle { fg: PanelColor::White, bold: true, ..b }
            } else if g == "source"@ {
                LineStyle { fg: PanelColor::LightCyan, ..b }
            } else if g == "build"@ {
                LineStyle { fg: PanelColor::Yellow, ..b }
            } else {
                b
            },
            None => b,
        }
    }
}

/// The style of an entry of kind `kind`: directories bold, symlinks cyan,
/// fifos and sockets magenta, devices yellow, regular files as
/// [`file_style`] says, anything else plain; `group` is the file's
/// highlight group.
pub open spec fn entry_style_spec(kind: EntryKind, mode: Option<u32>, group: Option<Seq<char>>) -> LineStyle {
    let b = base_style();
    match kind {
        EntryKind::Dir => LineStyle { bold: true, ..b },
        EntryKind::Symlink => LineStyle { fg: PanelColor::Cyan, ..b },
        EntryKind::Fifo | EntryKind::Socket => LineStyle { fg: PanelColor::Magenta, ..b },
        EntryKind::BlockDevice | EntryKind::CharDevice => LineStyle { fg: PanelColor::Yellow, ..b },
        EntryKind::File => file_style(mode, group),
        EntryKind::Other => b,
    }
}

/// The style of a listing line: the entry's own, then bold yellow when it
/// is tagged, then black on cyan under the cursor.
pub open spec fn line_style_spec(s: LineStyle, is_cursor: bool, is_marked: bool) -> LineStyle {
    let m = if is_marked { LineStyle { fg: PanelColor::Yellow, bold: true, ..s } } else { s };
    if is_cursor { LineStyle { fg: PanelColor::Black, bg: PanelColor::Cyan, ..m } } else { m }
}

fn group_style(group: &str) -> (r: LineStyle)
    ensures
        r == file_style(None, Some(group@)),
{
    proof {
        reveal_strlit("archive");
        reveal_strlit("image");
        reveal_strlit("audio");
        reveal_strlit("video");
        reveal_strlit("doc");
        reveal_strlit("source");
        reveal_strlit("build");
    }
    let b = LineStyle { fg: PanelColor::White, bg: PanelColor::Blue, bold: false };
    if str_eq(group, "archive") {
        LineStyle { fg: PanelColor::Red, ..b }
    } else if str_eq(group, "image") {
        LineStyle { fg: PanelColor::Magenta, ..b }
    } else if str_eq(group, "audio") || str_eq(group, "video") {
        LineStyle { fg: PanelColor::LightMagenta, ..b }
    } else if str_eq(group, "doc") {
        LineStyle { fg: PanelColor::White, bold: true, ..b }
    } else if str_eq(group, "source") {
        LineStyle { fg: PanelColor::LightCyan, ..b }
    } else if str_eq(group, "build") {
        LineStyle { fg: PanelColor::Yellow, ..b }
    } else {
        b
    }
}

/// The style of an entry, as [`entry_style_spec`] says with the group that
/// `highlight` classifies its name in.
pub fn entry_style(e: &Entry, highlight: &FileHighlight) -> (r: LineStyle)
    ensures
        r == entry_style_spec(e.kind, e.mode, classify_spec(highlight@, e.name@)),
{
    let b = LineStyle { fg: PanelColor::White, bg: PanelColor::Blue, bold: false };
    match e.kind {
        EntryKind::Dir => LineStyle { bold: true, ..b },
        EntryKind::Symlink => LineStyle { fg: PanelColor::Cyan, ..b },
        EntryKind::Fifo | EntryKind::Socket => LineStyle { fg: PanelColor::Magenta, ..b },
        EntryKind::BlockDevice | EntryKind::CharDevice => LineStyle { fg: PanelColor::Yellow, ..b },
        EntryKind::File => {
            if let Some(mode) = e.mode {
                if mode & 0o111u32 != 0 {
                    return LineStyle { fg: PanelColor::Green, ..b };
                }
            }
            match highlight.classify(e.name.as_str()) {
                Some(g) => group_style(g),
                None => b,
            }
        },
        EntryKind::Other => b,
    }
}

/// The style of a listing line, as [`line_style_spec`] says of the
/// entry's style.
pub fn line_style(e: &Entry, highlight: &FileHighlight, is_cursor: bool, is_marked: bool) -> (r: LineStyle)
    ensures
        r == line_style_spec(entry_style_spec(e.kind, e.mode, classify_spec(highlight@, e.name@)), is_cursor, is_marked),
{
    let s = entry_style(e, highlight);
    let m = if is_marked { LineStyle { fg: PanelColor::Yellow, bold: true, ..s } } else { s };
    if is_cursor { LineStyle { fg: PanelColor::Black, bg: PanelColor::Cyan, ..m } } else { m }
}

/// The names of the entries (never `..`) a group pattern matches, in
/// listing order; the pattern is matched as [`crate::glob::glob_match`]
/// does.
pub open spec fn group_list(es: Seq<Entry>, pattern: Seq<char>) -> Seq<Seq<char>>
    decreases es.len(),
{
    if es.len() == 0 {
        Seq::empty()
    } else {
        let r = group_list(es.drop_last(), pattern);
        let n = es.last().name@;
        if n != ".."@ && gmatch(lower_flat(pattern), lower_flat(n)) {
            r.push(n)
        } else {
            r
        }
    }
}

/// The index of the first entry whose lower-cased name starts with
/// `lower`, or -1.
pub open spec fn first_prefixed(es: Seq<Entry>, lower: Seq<char>) -> int
    decreases es.len(),
{
    if es.len() == 0 {
        -1
    } else if has_prefix(unicode_lowercase(es[0].name@), lower) {
        0
    } else {
        let i = first_prefixed(es.skip(1), lower);
        if i < 0 { -1 } else { i + 1 }
    }
}

impl PanelState {
    /// Tags (`select`) or untags the entries other than `..` whose names
    /// match `pattern`; nothing else changes.
    pub fn select_group(&mut self, pattern: &str, select: bool)
        ensures
            mark_set(final(self).marks@) == if select {
                mark_set(old(self).marks@).union(group_list(old(self).entries@, pattern@).to_set())
            } else {
                mark_set(old(self).marks@).difference(group_list(old(self).entries@, pattern@).to_set())
            },
            *final(self) == (PanelState { marks: final(self).marks, ..*old(self) }),
    {
        let ghost es = self.entries@;
        let mut names: Vec<String> = Vec::new();
        let mut i: usize = 0;
        assert(es.take(0) =~= Seq::<Entry>::empty());
        assert(texts(names@) =~= Seq::<Seq<char>>::empty());
        while i < self.entries.len()
            invariant
                i <= es.len(),
                es == self.entries@,
                texts(names@) == group_list(es.take(i as int), pattern@),
                *self == *old(self),
            decreases es.len() - i,
        {
            assert(es.take(i + 1).drop_last() =~= es.take(i as int));
            assert(es.take(i + 1).last() == es[i as int]);
            let n = &self.entries[i].name;
            if !is_parent_name(n) && glob_match(pattern, n.as_str()) {
                let ghost before = texts(names@);
                names.push(n.clone());
                assert(texts(names@) =~= before.push(n@));
            }
            i = i + 1;
        }
        assert(es.take(es.len() as int) =~= es);
        let ghost g = texts(names@).to_set();
        let ghost m0 = mark_set(self.marks@);
        if select {
            let mut j: usize = 0;
            assert(texts(names@).take(0).to_set() =~= Set::<Seq<char>>::empty());
            assert(m0.union(Set::<Seq<char>>::empty()) =~= m0);
            while j < names.len()
                invariant
                    j <= names@.len(),
                    g == texts(names@).to_set(),
                    mark_set(self.marks@) == m0.union(texts(names@).take(j as int).to_set()),
                    self.entries@ == es,
                    *self == (PanelState { marks: self.marks, ..*old(self) }),
                decreases names@.len() - j,
            {
                let ghost mv = mark_set(self.marks@);
                proof {
                    assert(texts(names@).take(j + 1) =~= texts(names@).take(j as int).push(names@[j as int]@));
                    texts(names@).take(j as int).lemma_push_to_set_commute(names@[j as int]@);
                }
                if !contains_text(&self.marks, names[j].as_str()) {
                    let ghost before = self.marks@;
                    self.marks.push(names[j].clone());
                    proof {
                        assert(self.marks@.map_values(|m: String| m@) =~= before.map_values(|m: String| m@).push(names@[j as int]@));
                        before.map_values(|m: String| m@).lemma_push_to_set_commute(names@[j as int]@);
                    }
                }
                assert(mark_set(self.marks@) =~= m0.union(texts(names@).take(j + 1).to_set()));
                j = j + 1;
            }
            assert(texts(names@).take(names@.len() as int) =~= texts(names@));
        } else {
            let mut kept: Vec<String> = Vec::new();
            let mut j: usize = 0;
            let ghost mv = self.marks@.map_values(|m: String| m@);
            assert(mv.take(0).to_set() =~= Set::<Seq<char>>::empty());
            assert(kept@.map_values(|m: String| m@).to_set() =~= mv.take(0).to_set().difference(g));
            while j < self.marks.len()
                invariant
                    j <= self.marks@.len(),
                    mv == self.marks@.map_values(|m: String| m@),
                    g == texts(names@).to_set(),
                    kept@.map_values(|m: String| m@).to_set() == mv.take(j as int).to_set().difference(g),
                    *self == *old(self),
                decreases self.marks@.len() - j,
            {
                let ghost kb = kept@.map_values(|m: String| m@);
                proof {
                    assert(mv.take(j + 1) =~= mv.take(j as int).push(mv[j as int]));
                    mv.take(j as int).lemma_push_to_set_commute(mv[j as int]);
                    assert(mv[j as int] == self.marks@[j as int]@);
                }
                if !contains_text(&names, self.marks[j].as_str()) {
                    kept.push(self.marks[j].clone());
                    proof {
                        assert(kept@.map_values(|m: String| m@) =~= kb.push(mv[j as int]));
                        kb.lemma_push_to_set_commute(mv[j as int]);
                    }
                }
                assert(kept@.map_values(|m: String| m@).to_set() =~= mv.take(j + 1).to_set().difference(g));
                j = j + 1;
            }
            assert(mv.take(mv.len() as int) =~= mv);
            self.marks = kept;
        }
    }

    /// Puts the cursor on the first entry whose lower-cased name starts
    /// with the lower-cased `filter`; nothing changes for an empty filter or
    /// when no name matches.
    pub fn quick_search(&mut self, filter: &str)
        ensures
            ({
                let i = first_prefixed(old(self).entries@, unicode_lowercase(filter@));
                if filter@.len() > 0 && i >= 0 {
                    *final(self) == (PanelState { cursor: i as usize, ..*old(self) })
                } else {
                    *final(self) == *old(self)
                }
            }),
    {
        if filter.unicode_len() == 0 {
            return;
        }
        let lower = to_lowercase(filter);
        let lv = chars_of(lower.as_str());
        let ghost es = self.entries@;
        let mut i: usize = 0;
        assert(es.skip(0) =~= es);
        while i < self.entries.len()
            invariant
                i <= es.len(),
                es == self.entries@,
                lv@ == unicode_lowercase(filter@),
                *self == *old(self),
                filter@.len() > 0,
                first_prefixed(es, lv@) == if first_prefixed(es.skip(i as int), lv@) < 0 {
                    -1
                } else {
                    first_prefixed(es.skip(i as int), lv@) + i
                },
            decreases es.len() - i,
        {
            let name = to_lowercase(self.entries[i].name.as_str());
            let nv = chars_of(name.as_str());
            assert(es.skip(i as int)[0] == es[i as int]);
            if starts_with_chars(nv.as_slice(), lv.as_slice()) {
                self.cursor = i;
                return;
            }
            assert(es.skip(i as int).skip(1) =~= es.skip(i + 1));
            i = i + 1;
        }
        assert(es.skip(es.len() as int) =~= Seq::<Entry>::empty());
    }
}

/// Whether a text is among the strings.
fn contains_text(v: &Vec<String>, t: &str) -> (r: bool)
    ensures
        r == texts(v@).contains(t@),
{
    match find_text(v, t) {
        Some(j) => {
            assert(texts(v@)[j as int] == t@);
            true
        },
        None => false,
    }
}

/// The index of the first pair in `sizes` named `name`, or -1.
pub open spec fn size_index(sizes: Seq<(String, u64)>, name: Seq<char>) -> int
    decreases sizes.len(),
{
    if sizes.len() == 0 {
        -1
    } else if sizes[0].0@ == name {
        0
    } else {
        let i = size_index(sizes.skip(1), name);
        if i < 0 { -1 } else { i + 1 }
    }
}

proof fn lemma_size_index(sizes: Seq<(String, u64)>, name: Seq<char>)
    ensures
        -1 <= size_index(sizes, name) < sizes.len(),
        size_index(sizes, name) >= 0 ==> sizes[size_index(sizes, name)].0@ == name,
    decreases sizes.len(),
{
    if sizes.len() > 0 {
        lemma_size_index(sizes.skip(1), name);
    }
}

/// `e` with the size the first pair of its name in `sizes` gives, if any.
pub open spec fn sized(e: Entry, sizes: Seq<(String, u64)>) -> Entry {
    let i = size_index(sizes, e.name@);
    if i >= 0 { Entry { size: sizes[i].1, ..e } } else { e }
}

/// The names of the entries whose sizes a directory-size computation
/// measures: the directories other than `..`, in order.
pub open spec fn measured_dirs(es: Seq<Entry>) -> Seq<Seq<char>>
    decreases es.len(),
{
    if es.len() == 0 {
        Seq::empty()
    } else {
        let rest = measured_dirs(es.drop_last());
        if es.last().kind == EntryKind::Dir && es.last().name@ != ".."@ {
            rest.push(es.last().name@)
        } else {
            rest
        }
    }
}

impl PanelState {
    /// The directories whose sizes to measure, as [`measured_dirs`] says.
    pub fn dirs_to_measure(&self) -> (r: Vec<String>)
        ensures
            r@.map_values(|n: String| n@) == measured_dirs(self.entries@),
    {
        let ghost es = self.entries@;
        let mut out: Vec<String> = Vec::new();
        let mut i: usize = 0;
        assert(es.take(0) =~= Seq::<Entry>::empty());
        assert(out@.map_values(|n: String| n@) =~= Seq::<Seq<char>>::empty());
        while i < self.entries.len()
            invariant
                i <= es.len(),
                es == self.entries@,
                out@.map_values(|n: String| n@) == measured_dirs(es.take(i as int)),
            decreases es.len() - i,
        {
            assert(es.take(i + 1).drop_last() =~= es.take(i as int));
            let e = &self.entries[i];
            if e.kind == EntryKind::Dir && !is_parent_name(&e.name) {
                let ghost before = out@;
                out.push(e.name.clone());
                assert(out@.map_values(|n: String| n@) =~= before.map_values(|n: String| n@).push(e.name@));
            }
            i = i + 1;
        }
        assert(es.take(es.len() as int) =~= es);
        out
    }

    /// Gives each entry the size of the first pair of its name in `sizes`;
    /// entries without one keep theirs; nothing else changes.
    pub fn apply_dir_sizes(&mut self, sizes: &Vec<(String, u64)>)
        ensures
            final(self).entries@ == Seq::new(old(self).entries@.len(), |i: int| sized(old(self).entries@[i], sizes@)),
            *final(self) == (PanelState { entries: final(self).entries, ..*old(self) }),
    {
        let ghost es = self.entries@;
        let mut entries: Vec<Entry> = Vec::new();
        std::mem::swap(&mut entries, &mut self.entries);
        let mut i: usize = 0;
        while i < entries.len()
            invariant
                i <= es.len(),
                entries@.len() == es.len(),
                forall|k: int| 0 <= k < i ==> entries@[k] == sized(es[k], sizes@),
                forall|k: int| i <= k < es.len() ==> entries@[k] == es[k],
                *self == (PanelState { entries: self.entries, ..*old(self) }),
            decreases es.len() - i,
        {
            let mut j: usize = 0;
            let ghost name = es[i as int].name@;
            assert(sizes@.skip(0) =~= sizes@);
            while j < sizes.len()
                invariant
                    j <= sizes@.len(),
                    i < es.len(),
                    entries@.len() == es.len(),
                    entries@[i as int] == es[i as int],
                    forall|k: int| 0 <= k < i ==> entries@[k] == sized(es[k], sizes@),
                    forall|k: int| i <= k < es.len() ==> entries@[k] == es[k],
                    name == es[i as int].name@,
                    size_index(sizes@, name) == if size_index(sizes@.skip(j as int), name) < 0 {
                        -1
                    } else {
                        size_index(sizes@.skip(j as int), name) + j
                    },
                ensures
                    j <= sizes@.len(),
                    j < sizes@.len() ==> sizes@[j as int].0@ == name,
                    size_index(sizes@, name) == if size_index(sizes@.skip(j as int), name) < 0 {
                        -1
                    } else {
                        size_index(sizes@.skip(j as int), name) + j
                    },
                decreases sizes@.len() - j,
            {
                assert(sizes@.skip(j as int)[0] == sizes@[j as int]);
                assert(sizes@.skip(j as int).skip(1) =~= sizes@.skip(j + 1));
                if str_eq(sizes[j].0.as_str(), entries[i].name.as_str()) {
                    break;
                }
                j = j + 1;
            }
            proof {
                lemma_size_index(sizes@, name);
            }
            if j < sizes.len() {
                assert(sizes@.skip(j as int)[0] == sizes@[j as int]);
                assert(size_index(sizes@, name) == j);
                let ghost before = entries@;
                let mut e = entries.remove(i);
                e.size = sizes[j].1;
                entries.insert(i, e);
                assert(entries@ =~= before.update(i as int, sized(es[i as int], sizes@)));
            }
            i = i + 1;
        }
        self.entries = entries;
        assert(self.entries@ =~= Seq::new(es.len(), |k: int| sized(es[k], sizes@)));
    }

    /// Shows `entries` in place of the listing, from the top.
    pub fn panelize(&mut self, entries: Vec<Entry>)
        ensures
            *final(self) == (PanelState { entries, cursor: 0, view_offset: 0, ..*old(self) }),
    {
        self.entries = entries;
        self.cursor = 0;
        self.view_offset = 0;
    }
}

} // verus!
