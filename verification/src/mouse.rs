//! What a mouse event does: in the dialog in front of the panels, on the
//! button bar, and over the panels' listings.

use vstd::prelude::*;

use crate::commander::{panel_key_of, panel_step, shell_dir, CommandView, PanelCommand, Panels};
use crate::key::{KeyChord, KeyCode, KeyMods};
use crate::dialog::input::{input_click, InputDialog, InputModel};
use crate::dialog::jobs_view::jobs_click;
use crate::dialog::{inside, is_inside, rect_fits, DialogOutcome, MouseEvent, MouseKind, Rect};
use crate::modal::{active_cwd, active_grouped, active_shell_dir, modal_wf, unchanged, Modal, Session};
use crate::ops::{octal_mode_spec, parse_octal_mode};
use crate::panel::{history_view, tagged, PanelState};

verus! {

/// `d2` is the input dialog `d` after the click, still open.
pub open spec fn input_clicked(d: InputDialog, ev: MouseEvent, area: Rect, d2: InputDialog) -> bool {
    &&& d2.wf()
    &&& d2.model() == input_click(d.model(), ev, area).0
    &&& d2.labels() == d.labels()
}

/// The text a click in an input dialog submits (empty when it submits
/// none).
pub open spec fn clicked_text(d: InputDialog, ev: MouseEvent, area: Rect) -> Seq<char> {
    match input_click(d.model(), ev, area).1 {
        DialogOutcome::Submitted(t) => t,
        _ => Seq::empty(),
    }
}

/// An input dialog under a click: it stays open on `Open`, closes on
/// `Cancelled`, and on `Submitted` closes and hands on `done`.
pub open spec fn click_answer(
    o: Session,
    d: InputDialog,
    ev: MouseEvent,
    area: Rect,
    n: Session,
    r: CommandView,
    kept: bool,
    done: CommandView,
) -> bool {
    match input_click(d.model(), ev, area).1 {
        DialogOutcome::Open => unchanged(o, n) && kept && r == CommandView::Redraw,
        DialogOutcome::Cancelled => unchanged(o, n) && n.modal is Idle && r == CommandView::Redraw,
        DialogOutcome::Submitted(_) => unchanged(o, n) && n.modal is Idle && r == done,
    }
}

/// What a mouse event over `area` does in the dialog in front of the
/// panels (`o` before, `n` after) and hands on. Input dialogs and the jobs
/// list take the click themselves: the input dialogs
/// answer as their keys do, except that a quick cd submitted by a click
/// goes nowhere; a closed jobs list just redraws. Dialogs without mouse
/// handling (confirmation, hotlist, help, learn keys, password) stay and
/// redraw; the progress dialog and a quick search stay and do nothing. No
/// dialog, the menu and the Ctrl-X prefix are dropped without a command.
pub open spec fn modal_click(o: Session, ev: MouseEvent, area: Rect, n: Session, r: CommandView) -> bool {
    let a = o.panels.active_spec();
    match o.modal {
        Modal::Idle | Modal::Menu(_) | Modal::PrefixCtrlX => unchanged(o, n) && n.modal is Idle && r
            == CommandView::Nothing,
        Modal::Mkdir(d) => click_answer(
            o,
            d,
            ev,
            area,
            n,
            r,
            n.modal matches Modal::Mkdir(d2) && input_clicked(d, ev, area, d2),
            CommandView::MakeDir(a.cwd@, clicked_text(d, ev, area)),
        ),
        Modal::Rename(d, src) => click_answer(
            o,
            d,
            ev,
            area,
            n,
            r,
            n.modal matches Modal::Rename(d2, s2) && input_clicked(d, ev, area, d2) && s2@ == src@,
            CommandView::RenameTo(src@, clicked_text(d, ev, area)),
        ),
        Modal::CmdLine(d) => click_answer(
            o,
            d,
            ev,
            area,
            n,
            r,
            n.modal matches Modal::CmdLine(d2) && input_clicked(d, ev, area, d2),
            CommandView::RunShell(shell_dir(a), clicked_text(d, ev, area)),
        ),
        Modal::QuickCd(d) => click_answer(
            o,
            d,
            ev,
            area,
            n,
            r,
            n.modal matches Modal::QuickCd(d2) && input_clicked(d, ev, area, d2),
            CommandView::Redraw,
        ),
        Modal::Chmod { dlg, targets } => match input_click(dlg.model(), ev, area).1 {
            DialogOutcome::Open => unchanged(o, n) && (n.modal matches Modal::Chmod { dlg: d2, targets: t2 }
                && input_clicked(dlg, ev, area, d2) && history_view(t2@) == history_view(targets@)) && r
                == CommandView::Redraw,
            DialogOutcome::Cancelled => unchanged(o, n) && n.modal is Idle && r == CommandView::Redraw,
            DialogOutcome::Submitted(t) => unchanged(o, n) && match octal_mode_spec(t) {
                Some(m) => n.modal is Idle && r == CommandView::SetMode(history_view(targets@), m),
                None => (n.modal matches Modal::Chmod { dlg: d2, targets: t2 } && d2.wf() && d2.model() == (InputModel {
                    value: t,
                    cursor: t.len(),
                    history: None,
                    pos: None,
                    saved: None,
                }) && d2.labels() == (" Chmod "@, "Octal mode (e.g. 755):"@) && history_view(t2@) == history_view(targets@))
                    && r == CommandView::Redraw,
            },
        },
        Modal::SelectGroup { dlg, select } => match input_click(dlg.model(), ev, area).1 {
            DialogOutcome::Open => unchanged(o, n) && (n.modal matches Modal::SelectGroup { dlg: d2, select: s2 }
                && input_clicked(dlg, ev, area, d2) && s2 == select) && r == CommandView::Redraw,
            DialogOutcome::Cancelled => unchanged(o, n) && n.modal is Idle && r == CommandView::Redraw,
            DialogOutcome::Submitted(p) => n.hotlist@ == o.hotlist@ && n.modal is Idle && active_grouped(o.panels, n.panels, p, select)
                && r == CommandView::Redraw,
        },
        Modal::JobsView(j) => {
            let (c, out) = jobs_click(j.row_count(), j.cursor(), j.scroll(), ev, area);
            &&& unchanged(o, n)
            &&& match out {
                DialogOutcome::Open => (n.modal matches Modal::JobsView(j2) && j2.cursor() == c && j2.row_count() == j.row_count()
                    && j2.scroll() == j.scroll()) && r == CommandView::Redraw,
                _ => n.modal is Idle && r == CommandView::Redraw,
            }
        },
        Modal::DeleteConfirm(..) | Modal::Hotlist(_) | Modal::Help(_) | Modal::LearnKeys(_) | Modal::Password { .. } => unchanged(
            o,
            n,
        ) && n.modal == o.modal && r == CommandView::Redraw,
        Modal::Progress(_) | Modal::QuickSearch(_) => unchanged(o, n) && n.modal == o.modal && r == CommandView::Nothing,
    }
}

impl Session {
    /// Handles a mouse event over `area` in the dialog in front of the
    /// panels, as [`modal_click`] says.
    pub fn handle_modal_mouse(&mut self, ev: MouseEvent, area: Rect) -> (r: PanelCommand)
        requires
            modal_wf(old(self).modal),
            rect_fits(area),
        ensures
            modal_wf(final(self).modal),
            modal_click(*old(self), ev, area, *final(self), r@),
    {
        let mut taken = Modal::Idle;
        std::mem::swap(&mut taken, &mut self.modal);
        match taken {
            Modal::Idle | Modal::Menu(_) | Modal::PrefixCtrlX => PanelCommand::Nothing,
            Modal::Mkdir(mut d) => match d.handle_mouse(ev, area) {
                DialogOutcome::Open => {
                    self.modal = Modal::Mkdir(d);
                    PanelCommand::Redraw
                },
                DialogOutcome::Cancelled => PanelCommand::Redraw,
                DialogOutcome::Submitted(name) => PanelCommand::MakeDir { in_dir: active_cwd(&self.panels), name },
            },
            Modal::Rename(mut d, src) => match d.handle_mouse(ev, area) {
                DialogOutcome::Open => {
                    self.modal = Modal::Rename(d, src);
                    PanelCommand::Redraw
                },
                DialogOutcome::Cancelled => PanelCommand::Redraw,
                DialogOutcome::Submitted(new_name) => PanelCommand::RenameTo { src, new_name },
            },
            Modal::CmdLine(mut d) => match d.handle_mouse(ev, area) {
                DialogOutcome::Open => {
                    self.modal = Modal::CmdLine(d);
                    PanelCommand::Redraw
                },
                DialogOutcome::Cancelled => PanelCommand::Redraw,
                DialogOutcome::Submitted(command) => PanelCommand::RunShell { cwd: active_shell_dir(&self.panels), command },
            },
            Modal::QuickCd(mut d) => match d.handle_mouse(ev, area) {
                DialogOutcome::Open => {
                    self.modal = Modal::QuickCd(d);
                    PanelCommand::Redraw
                },
                _ => PanelCommand::Redraw,
            },
            Modal::Chmod { mut dlg, targets } => match dlg.handle_mouse(ev, area) {
                DialogOutcome::Open => {
                    self.modal = Modal::Chmod { dlg, targets };
                    PanelCommand::Redraw
                },
                DialogOutcome::Cancelled => PanelCommand::Redraw,
                DialogOutcome::Submitted(t) => match parse_octal_mode(t.as_str()) {
                    Some(mode) => PanelCommand::SetMode { targets, mode },
                    None => {
                        let dlg = InputDialog::new(String::from_str(" Chmod "), String::from_str("Octal mode (e.g. 755):"), t);
                        self.modal = Modal::Chmod { dlg, targets };
                        PanelCommand::Redraw
                    },
                },
            },
            Modal::SelectGroup { mut dlg, select } => match dlg.handle_mouse(ev, area) {
                DialogOutcome::Open => {
                    self.modal = Modal::SelectGroup { dlg, select };
                    PanelCommand::Redraw
                },
                DialogOutcome::Cancelled => PanelCommand::Redraw,
                DialogOutcome::Submitted(pattern) => {
                    if self.panels.active_left {
                        self.panels.left.select_group(pattern.as_str(), select);
                    } else {
                        self.panels.right.select_group(pattern.as_str(), select);
                    }
                    PanelCommand::Redraw
                },
            },
            Modal::JobsView(mut j) => match j.handle_mouse(ev, area) {
                DialogOutcome::Open => {
                    self.modal = Modal::JobsView(j);
                    PanelCommand::Redraw
                },
                _ => PanelCommand::Redraw,
            },
            Modal::DeleteConfirm(d, targets) => {
                self.modal = Modal::DeleteConfirm(d, targets);
                PanelCommand::Redraw
            },
            Modal::Hotlist(d) => {
                self.modal = Modal::Hotlist(d);
                PanelCommand::Redraw
            },
            Modal::Help(d) => {
                self.modal = Modal::Help(d);
                PanelCommand::Redraw
            },
            Modal::LearnKeys(d) => {
                self.modal = Modal::LearnKeys(d);
                PanelCommand::Redraw
            },
            Modal::Password { dlg, scheme, location } => {
                self.modal = Modal::Password { dlg, scheme, location };
                PanelCommand::Redraw
            },
            Modal::Progress(d) => {
                self.modal = Modal::Progress(d);
                PanelCommand::Nothing
            },
            Modal::QuickSearch(f) => {
                self.modal = Modal::QuickSearch(f);
                PanelCommand::Nothing
            },
        }
    }
}

/// A button of the button bar: its column, width and function key.
#[derive(Debug, Clone, Copy, PartialEq, Eq, Structural)]
pub struct ButtonSegment {
    pub x: u16,
    pub w: u16,
    pub fkey: u8,
}

/// Where the panels' listings and the button bar lie on the screen.
#[derive(Debug, Clone)]
pub struct ScreenAreas {
    /// The whole screen, which dialogs are centred in.
    pub frame: Rect,
    pub buttonbar: Rect,
    pub left_body: Rect,
    pub right_body: Rect,
    pub buttons: Vec<ButtonSegment>,
}

/// What becomes of the remembered last click, which tells a double click.
#[derive(Debug, Clone, Copy, PartialEq, Eq, Structural)]
pub enum ClickMemory {
    /// It stays as it was.
    Keep,
    /// This click is remembered.
    Remember,
    /// It is forgotten (a double click was used up).
    Forget,
}

/// `a + b`, or the largest value above it.
pub open spec fn sat_add16(a: u16, b: u16) -> u16 {
    if a + b <= u16::MAX { (a + b) as u16 } else { u16::MAX }
}

/// The function key of the first button over column `col`.
pub open spec fn button_at(segs: Seq<ButtonSegment>, col: u16) -> Option<u8>
    decreases segs.len(),
{
    if segs.len() == 0 {
        None
    } else if segs[0].x <= col && col < sat_add16(segs[0].x, segs[0].w) {
        Some(segs[0].fkey)
    } else {
        button_at(segs.skip(1), col)
    }
}

/// The left panel if `left`, else the right one.
pub open spec fn panel_of(ps: Panels, left: bool) -> PanelState {
    if left { ps.left } else { ps.right }
}

/// `ps` with the left (if `left`) or right panel replaced by `p`.
pub open spec fn with_panel(ps: Panels, left: bool, p: PanelState) -> Panels {
    if left { Panels { left: p, ..ps } } else { Panels { right: p, ..ps } }
}

/// `ps` with the left (if `left`) or right panel made active.
pub open spec fn focused(ps: Panels, left: bool) -> Panels {
    if ps.active_left == left {
        ps
    } else {
        Panels {
            active_left: left,
            left: PanelState { active: left, ..ps.left },
            right: PanelState { active: !left, ..ps.right },
        }
    }
}

/// The cursor three rows up, stopping at the top.
pub open spec fn wheel_up(p: PanelState) -> PanelState {
    PanelState { cursor: if p.cursor >= 3 { (p.cursor - 3) as usize } else { 0 }, ..p }
}

/// The cursor three rows down, stopping at the last entry.
pub open spec fn wheel_down(p: PanelState) -> PanelState {
    if p.entries@.len() == 0 {
        p
    } else {
        let last = p.entries@.len() - 1;
        PanelState { cursor: if p.cursor + 3 < last { (p.cursor + 3) as usize } else { last as usize }, ..p }
    }
}

/// Whether the wheel over the screen turns the left panel: the one under
/// the pointer, else the active one.
pub open spec fn wheel_left(ps: Panels, ev: MouseEvent, a: ScreenAreas) -> bool {
    if inside(ev, a.left_body) {
        true
    } else if inside(ev, a.right_body) {
        false
    } else {
        ps.active_left
    }
}

/// The entry row a click at `ev` in the body `body` of panel `p` lands on.
pub open spec fn clicked_row(p: PanelState, ev: MouseEvent, body: Rect) -> int {
    p.view_offset + (ev.row - body.y)
}

/// What a mouse event does on the panels (`o` before, `n` after), what it
/// hands on and what becomes of the remembered click. A left click on a
/// button of the button bar presses its function key. The wheel moves the
/// cursor of the panel under the pointer (else the active one) three rows.
/// A left or right click in a listing makes that panel active; past the
/// last entry it does nothing more; a right click moves the cursor to the
/// entry and tags it as Insert does; a double click on the entry under the
/// cursor opens it as Enter does; any other left click moves the cursor
/// there and is remembered. Anything else does nothing.
pub open spec fn panels_click(
    o: Panels,
    ev: MouseEvent,
    a: ScreenAreas,
    is_double: bool,
    n: Panels,
    r: CommandView,
    mem: ClickMemory,
) -> bool {
    if ev.kind == MouseKind::LeftDown && ev.row == a.buttonbar.y && button_at(a.buttons@, ev.column) is Some {
        &&& panel_step(o, panel_key_of(KeyChord { code: KeyCode::F(button_at(a.buttons@, ev.column)->0), mods: KeyMods::none() }, false), n, r)
        &&& mem == ClickMemory::Keep
    } else if ev.kind == MouseKind::ScrollUp || ev.kind == MouseKind::ScrollDown {
        let left = wheel_left(o, ev, a);
        let p = panel_of(o, left);
        &&& n == with_panel(o, left, if ev.kind == MouseKind::ScrollUp { wheel_up(p) } else { wheel_down(p) })
        &&& r == CommandView::Redraw
        &&& mem == ClickMemory::Keep
    } else if (ev.kind == MouseKind::LeftDown || ev.kind == MouseKind::RightDown) && (inside(ev, a.left_body) || inside(ev, a.right_body)) {
        let left = inside(ev, a.left_body);
        let body = if left { a.left_body } else { a.right_body };
        let f = focused(o, left);
        let p = panel_of(f, left);
        let t = clicked_row(p, ev, body);
        if t >= p.entries@.len() {
            n == f && r == CommandView::Redraw && mem == ClickMemory::Keep
        } else if ev.kind == MouseKind::RightDown {
            &&& tagged(PanelState { cursor: t as usize, ..p }, panel_of(n, left))
            &&& n == with_panel(f, left, panel_of(n, left))
            &&& r == CommandView::Redraw
            &&& mem == ClickMemory::Keep
        } else if is_double && t == p.cursor {
            panel_step(f, panel_key_of(KeyChord { code: KeyCode::Enter, mods: KeyMods::none() }, false), n, r)
                && mem == ClickMemory::Forget
        } else {
            n == with_panel(f, left, PanelState { cursor: t as usize, ..p }) && r == CommandView::Redraw && mem
                == ClickMemory::Remember
        }
    } else {
        n == o && r == CommandView::Nothing && mem == ClickMemory::Keep
    }
}

/// The event would move a cursor past the largest index: the wheel down
/// with a cursor within three of it, or a click below a view offset within
/// a screen of it. (Such an event overflows.)
pub open spec fn click_overflows(o: Panels, ev: MouseEvent, a: ScreenAreas) -> bool {
    if ev.kind == MouseKind::ScrollDown {
        let p = panel_of(o, wheel_left(o, ev, a));
        p.entries@.len() > 0 && p.cursor + 3 > usize::MAX
    } else if (ev.kind == MouseKind::LeftDown || ev.kind == MouseKind::RightDown) && (inside(ev, a.left_body) || inside(ev, a.right_body)) {
        let left = inside(ev, a.left_body);
        let body = if left { a.left_body } else { a.right_body };
        clicked_row(panel_of(focused(o, left), left), ev, body) > usize::MAX
    } else {
        false
    }
}

/// The areas stay within the screen coordinates.
pub open spec fn areas_fit(a: ScreenAreas) -> bool {
    rect_fits(a.frame) && rect_fits(a.buttonbar) && rect_fits(a.left_body) && rect_fits(a.right_body)
}

/// What a mouse event does to the session, and what becomes of the
/// remembered click: with the menu open nothing happens; another dialog
/// takes it as [`modal_click`] says; otherwise the panels take it as
/// [`panels_click`] says.
pub open spec fn session_click(o: Session, ev: MouseEvent, a: ScreenAreas, is_double: bool, n: Session, r: CommandView, mem: ClickMemory) -> bool {
    match o.modal {
        Modal::Menu(_) => n == o && r == CommandView::Nothing && mem == ClickMemory::Keep,
        Modal::Idle | Modal::PrefixCtrlX => {
            &&& n.modal == o.modal
            &&& n.hotlist@ == o.hotlist@
            &&& panels_click(o.panels, ev, a, is_double, n.panels, r, mem)
        },
        _ => modal_click(o, ev, a.frame, n, r) && mem == ClickMemory::Keep,
    }
}

fn button_under(segs: &Vec<ButtonSegment>, col: u16) -> (r: Option<u8>)
    ensures
        r == button_at(segs@, col),
{
    let mut i: usize = 0;
    assert(segs@.skip(0) =~= segs@);
    while i < segs.len()
        invariant
            i <= segs@.len(),
            button_at(segs@, col) == button_at(segs@.skip(i as int), col),
        decreases segs@.len() - i,
    {
        assert(segs@.skip(i as int)[0] == segs@[i as int]);
        assert(segs@.skip(i as int).skip(1) =~= segs@.skip(i + 1));
        let s = segs[i];
        let end = s.x.saturating_add(s.w);
        if s.x <= col && col < end {
            return Some(s.fkey);
        }
        i = i + 1;
    }
    None
}

fn panel_mut(ps: &mut Panels, left: bool) -> (r: &mut PanelState)
    ensures
        *r == panel_of(*old(ps), left),
        *final(ps) == with_panel(*old(ps), left, *final(r)),
{
    if left { &mut ps.left } else { &mut ps.right }
}

impl Session {
    /// Whether the event would overflow a cursor, as [`click_overflows`]
    /// says (only the panels' own handling can).
    pub fn click_would_overflow(&self, ev: MouseEvent, a: &ScreenAreas) -> (r: bool)
        requires
            areas_fit(*a),
        ensures
            r == click_overflows(self.panels, ev, *a),
    {
        let on_left = is_inside(ev, a.left_body);
        let on_right = is_inside(ev, a.right_body);
        if ev.kind == MouseKind::ScrollDown {
            let left = if on_left { true } else if on_right { false } else { self.panels.active_left };
            let p = if left { &self.panels.left } else { &self.panels.right };
            p.entries.len() > 0 && p.cursor > usize::MAX - 3
        } else if (ev.kind == MouseKind::LeftDown || ev.kind == MouseKind::RightDown) && (on_left || on_right) {
            let body = if on_left { a.left_body } else { a.right_body };
            let p = if on_left { &self.panels.left } else { &self.panels.right };
            p.view_offset > usize::MAX - ((ev.row - body.y) as usize)
        } else {
            false
        }
    }

    /// Handles a mouse event, as [`session_click`] says; `is_double` tells
    /// whether it repeats the remembered click closely enough to be a
    /// double click.
    pub fn handle_mouse(&mut self, ev: MouseEvent, a: &ScreenAreas, is_double: bool) -> (r: (PanelCommand, ClickMemory))
        requires
            modal_wf(old(self).modal),
            areas_fit(*a),
            (old(self).modal is Idle || old(self).modal is PrefixCtrlX) ==> !click_overflows(old(self).panels, ev, *a),
        ensures
            modal_wf(final(self).modal),
            session_click(*old(self), ev, *a, is_double, *final(self), r.0@, r.1),
    {
        match &self.modal {
            Modal::Menu(_) => (PanelCommand::Nothing, ClickMemory::Keep),
            Modal::Idle | Modal::PrefixCtrlX => click_panels(&mut self.panels, ev, a, is_double),
            _ => {
                let c = self.handle_modal_mouse(ev, a.frame);
                (c, ClickMemory::Keep)
            },
        }
    }
}

/// Handles a mouse event on the panels, as [`panels_click`] says.
#[verifier::spinoff_prover]
pub fn click_panels(ps: &mut Panels, ev: MouseEvent, a: &ScreenAreas, is_double: bool) -> (r: (PanelCommand, ClickMemory))
    requires
        areas_fit(*a),
        !click_overflows(*old(ps), ev, *a),
    ensures
        panels_click(*old(ps), ev, *a, is_double, *final(ps), r.0@, r.1),
{
    if ev.kind == MouseKind::LeftDown && ev.row == a.buttonbar.y {
        if let Some(k) = button_under(&a.buttons, ev.column) {
            let c = ps.handle_panel_key(KeyChord::new(KeyCode::F(k), KeyMods::empty()), false);
            return (c, ClickMemory::Keep);
        }
    }
    let on_left = is_inside(ev, a.left_body);
    let on_right = is_inside(ev, a.right_body);
    if ev.kind == MouseKind::ScrollUp || ev.kind == MouseKind::ScrollDown {
        let left = if on_left { true } else if on_right { false } else { ps.active_left };
        wheel(ps, left, ev.kind == MouseKind::ScrollUp);
        return (PanelCommand::Redraw, ClickMemory::Keep);
    }
    if !(ev.kind == MouseKind::LeftDown || ev.kind == MouseKind::RightDown) || !(on_left || on_right) {
        return (PanelCommand::Nothing, ClickMemory::Keep);
    }
    let body = if on_left { a.left_body } else { a.right_body };
    focus(ps, on_left);
    click_row(ps, on_left, ev.row - body.y, ev.kind == MouseKind::RightDown, is_double)
}

fn wheel(ps: &mut Panels, left: bool, up: bool)
    requires
        !up && panel_of(*old(ps), left).entries@.len() > 0 ==> panel_of(*old(ps), left).cursor + 3 <= usize::MAX,
    ensures
        *final(ps) == with_panel(*old(ps), left, if up { wheel_up(panel_of(*old(ps), left)) } else { wheel_down(panel_of(*old(ps), left)) }),
{
    let p = panel_mut(ps, left);
    if up {
        p.cursor = p.cursor.saturating_sub(3);
    } else if p.entries.len() > 0 {
        let last = p.entries.len() - 1;
        p.cursor = if p.cursor + 3 < last { p.cursor + 3 } else { last };
    }
}

fn focus(ps: &mut Panels, left: bool)
    ensures
        *final(ps) == focused(*old(ps), left),
{
    if ps.active_left != left {
        ps.active_left = left;
        ps.left.active = left;
        ps.right.active = !left;
    }
}

fn click_row(ps: &mut Panels, left: bool, dy: u16, right_click: bool, is_double: bool) -> (r: (PanelCommand, ClickMemory))
    requires
        old(ps).active_left == left,
        panel_of(*old(ps), left).view_offset + dy <= usize::MAX,
    ensures
        ({
            let p = panel_of(*old(ps), left);
            let t = p.view_offset + dy;
            if t >= p.entries@.len() {
                *final(ps) == *old(ps) && r.0@ == CommandView::Redraw && r.1 == ClickMemory::Keep
            } else if right_click {
                &&& tagged(PanelState { cursor: t as usize, ..p }, panel_of(*final(ps), left))
                &&& *final(ps) == with_panel(*old(ps), left, panel_of(*final(ps), left))
                &&& r.0@ == CommandView::Redraw
                &&& r.1 == ClickMemory::Keep
            } else if is_double && t == p.cursor {
                panel_step(*old(ps), panel_key_of(KeyChord { code: KeyCode::Enter, mods: KeyMods::none() }, false), *final(ps), r.0@)
                    && r.1 == ClickMemory::Forget
            } else {
                *final(ps) == with_panel(*old(ps), left, PanelState { cursor: t as usize, ..p }) && r.0@ == CommandView::Redraw
                    && r.1 == ClickMemory::Remember
            }
        }),
{
    let (target, len, cursor) = {
        let p = if left { &ps.left } else { &ps.right };
        (p.view_offset + (dy as usize), p.entries.len(), p.cursor)
    };
    if target >= len {
        return (PanelCommand::Redraw, ClickMemory::Keep);
    }
    if right_click {
        let p = panel_mut(ps, left);
        p.cursor = target;
        p.toggle_mark();
        return (PanelCommand::Redraw, ClickMemory::Keep);
    }
    if is_double && target == cursor {
        let c = ps.handle_panel_key(KeyChord::new(KeyCode::Enter, KeyMods::empty()), false);
        return (c, ClickMemory::Forget);
    }
    let p = panel_mut(ps, left);
    p.cursor = target;
    (PanelCommand::Redraw, ClickMemory::Remember)
}

} // verus!
