//! The dialog in front of the panels, and what a key pressed in it does:
//! the dialog's own step, then what its answer asks of the panels, the
//! hotlist and the application.

use vstd::prelude::*;

use crate::commander::{
    ctrl_x_key_of, ctrl_x_step, hotlist_label, hotlist_with_cwd, menu_step as choice_step, plain, progress_key,
    progress_step, quick_cd_spec, quick_cd_target, search_step, shell_dir, shift_only, CommandView, PanelCommand,
    Panels, ProgressStep, SearchStep,
};
use crate::config::paths::opt_text;
use crate::ops::{octal_mode_spec, parse_octal_mode};
use crate::path::{parse_vpath, vpath_spec};
use crate::config::hotlist::Hotlist;
use crate::dialog::confirm::{confirm_step, ConfirmDialog};
use crate::dialog::help::{help_step, HelpDialog};
use crate::dialog::hotlist::{hotlist_step, HotlistAction, HotlistActionText, HotlistDialog};
use crate::dialog::input::{input_step, InputDialog, InputModel};
use crate::dialog::jobs_view::{jobs_step, JobsViewDialog};
use crate::dialog::learn_keys::{learn_step, LearnKeysDialog};
use crate::dialog::menubar::{menu_step, MenuBar};
use crate::dialog::password::{password_step, PasswordDialog};
use crate::dialog::progress::{progress_applied, ProgressDialog};
use crate::jobs::{logged, JobHandle, JobLog, JobUpdate, Progress};
use crate::dialog::DialogOutcome;
use crate::key::{KeyChord, KeyCode, KeyMods};
use crate::panel::{group_list, history_view, mark_set, navigated, PanelState};
use crate::path::{LayerText, VPath};
use crate::text::{append_str, chars_of};

verus! {

/// The dialog in front of the panels, with what it works on.
pub enum Modal {
    /// No dialog.
    Idle,
    Mkdir(InputDialog),
    DeleteConfirm(ConfirmDialog, Vec<VPath>),
    Rename(InputDialog, VPath),
    SelectGroup { dlg: InputDialog, select: bool },
    Chmod { dlg: InputDialog, targets: Vec<VPath> },
    /// Waiting for the key after Ctrl-X.
    PrefixCtrlX,
    /// A job's progress.
    Progress(ProgressDialog),
    Hotlist(HotlistDialog),
    Menu(MenuBar),
    CmdLine(InputDialog),
    Help(HelpDialog),
    LearnKeys(LearnKeysDialog),
    JobsView(JobsViewDialog),
    Password { dlg: PasswordDialog, scheme: String, location: String },
    QuickCd(InputDialog),
    /// A type-ahead search with its filter.
    QuickSearch(String),
}

/// The panels, the dialog in front of them and the bookmarks.
pub struct Session {
    pub panels: Panels,
    pub modal: Modal,
    pub hotlist: Hotlist,
}

/// The dialogs that need it are well formed.
pub open spec fn modal_wf(m: Modal) -> bool {
    match m {
        Modal::Mkdir(d) => d.wf(),
        Modal::Rename(d, _) => d.wf(),
        Modal::SelectGroup { dlg, .. } => dlg.wf(),
        Modal::Chmod { dlg, .. } => dlg.wf(),
        Modal::CmdLine(d) => d.wf(),
        Modal::QuickCd(d) => d.wf(),
        Modal::Menu(b) => b.wf(),
        _ => true,
    }
}

/// `d2` is the input dialog `d` after `chord`, still open.
pub open spec fn input_kept(d: InputDialog, chord: KeyChord, d2: InputDialog) -> bool {
    &&& d2.wf()
    &&& d2.model() == input_step(d.model(), chord).0
    &&& d2.labels() == d.labels()
}

/// `m` is the progress dialog of the job `handle` just started as
/// `description`: no status, no progress, no outcome.
pub open spec fn fresh_progress(m: Modal, handle: JobHandle, description: String) -> bool {
    match m {
        Modal::Progress(d) => {
            &&& d.handle == handle
            &&& d.description == description
            &&& d.status@ == Seq::<char>::empty()
            &&& d.progress == (Progress { items_done: 0, items_total: 0, bytes_done: 0, bytes_total: 0 })
            &&& d.finished is None
        },
        _ => false,
    }
}

/// The password prompt for a location: `password for
/// <scheme>://<location>:`.
pub open spec fn password_prompt(scheme: Seq<char>, location: Seq<char>) -> Seq<char> {
    "password for "@ + scheme + "://"@ + location + ":"@
}

/// `m` asks for the password of `scheme://location`, with an empty entry.
pub open spec fn asking_password(m: Modal, scheme: Seq<char>, location: Seq<char>) -> bool {
    match m {
        Modal::Password { dlg, scheme: s, location: l } => {
            &&& dlg.value().len() == 0
            &&& dlg.texts() == (" Authenticate "@, password_prompt(scheme, location))
            &&& s@ == scheme
            &&& l@ == location
        },
        _ => false,
    }
}

/// `m` is the progress dialog of a job that has ended.
pub open spec fn progress_ended(m: Modal) -> bool {
    match m {
        Modal::Progress(d) => d.finished is Some,
        _ => false,
    }
}

/// `n` is the dialog `m` after the report `u`: a progress dialog takes it
/// in as [`progress_applied`] says; any other dialog stays.
pub open spec fn job_reported(m: Modal, u: JobUpdate, n: Modal) -> bool {
    match m {
        Modal::Progress(d) => match n {
            Modal::Progress(d2) => progress_applied(d, u, d2),
            _ => false,
        },
        _ => n == m,
    }
}

/// Panels and bookmarks are as they were.
pub open spec fn unchanged(o: Session, n: Session) -> bool {
    n.panels == o.panels && n.hotlist@ == o.hotlist@
}

/// An input dialog that stays open on `Open`, closes on `Cancelled`, and on
/// `Submitted` closes and hands on `done` of the text.
pub open spec fn input_answer(
    o: Session,
    d: InputDialog,
    chord: KeyChord,
    n: Session,
    r: CommandView,
    kept: bool,
    done: CommandView,
) -> bool {
    match input_step(d.model(), chord).1 {
        DialogOutcome::Open => unchanged(o, n) && kept && r == CommandView::Redraw,
        DialogOutcome::Cancelled => unchanged(o, n) && n.modal is Idle && r == CommandView::Redraw,
        DialogOutcome::Submitted(_) => unchanged(o, n) && n.modal is Idle && r == done,
    }
}

/// The text an input dialog's key submits (empty when it submits none).
pub open spec fn submitted_text(d: InputDialog, chord: KeyChord) -> Seq<char> {
    match input_step(d.model(), chord).1 {
        DialogOutcome::Submitted(t) => t,
        _ => Seq::empty(),
    }
}

/// The active panel went to `t`; the other panel stayed.
pub open spec fn active_navigated(o: Panels, n: Panels, t: Seq<LayerText>) -> bool {
    &&& n.active_left == o.active_left
    &&& n.other_spec() == o.other_spec()
    &&& navigated(o.active_spec(), n.active_spec(), t)
}

/// The active panel's marks took in (`select`) or lost the entries the
/// pattern matches; nothing else changed.
pub open spec fn active_grouped(o: Panels, n: Panels, pattern: Seq<char>, select: bool) -> bool {
    let a = o.active_spec();
    let b = n.active_spec();
    &&& n.active_left == o.active_left
    &&& n.other_spec() == o.other_spec()
    &&& mark_set(b.marks@) == if select {
        mark_set(a.marks@).union(group_list(a.entries@, pattern).to_set())
    } else {
        mark_set(a.marks@).difference(group_list(a.entries@, pattern).to_set())
    }
    &&& b == (PanelState { marks: b.marks, ..a })
}

/// What a key does to a quick search.
pub open spec fn search_kind(chord: KeyChord) -> SearchStep {
    match chord.code {
        KeyCode::Escape | KeyCode::Enter => SearchStep::Closed,
        KeyCode::Backspace => SearchStep::Searched,
        KeyCode::Char(_) => if plain(chord.mods) || shift_only(chord.mods) {
            SearchStep::Searched
        } else {
            SearchStep::Unchanged
        },
        _ => SearchStep::Unchanged,
    }
}

/// The filter after a key in a quick search.
pub open spec fn search_filter(f: Seq<char>, chord: KeyChord) -> Seq<char> {
    match chord.code {
        KeyCode::Backspace => if f.len() > 0 { f.drop_last() } else { f },
        KeyCode::Char(c) => if plain(chord.mods) || shift_only(chord.mods) { f.push(c) } else { f },
        _ => f,
    }
}

/// The hotlist browser opened again, on its first row, over the bookmarks.
pub open spec fn hotlist_reopened(n: Session) -> bool {
    n.modal matches Modal::Hotlist(d2) && d2.cursor() == 0 && d2.bookmarks() == n.hotlist@
}

/// What a key does in the dialog in front of the panels (`o` before, `n`
/// after) and hands on; `home` is the value of `HOME`.
pub open spec fn modal_step(o: Session, chord: KeyChord, home: Option<Seq<char>>, n: Session, r: CommandView) -> bool {
    let a = o.panels.active_spec();
    match o.modal {
        Modal::Idle => unchanged(o, n) && n.modal is Idle && r == CommandView::Nothing,
        Modal::Mkdir(d) => input_answer(
            o,
            d,
            chord,
            n,
            r,
            n.modal matches Modal::Mkdir(d2) && input_kept(d, chord, d2),
            CommandView::MakeDir(a.cwd@, submitted_text(d, chord)),
        ),
        Modal::Rename(d, src) => input_answer(
            o,
            d,
            chord,
            n,
            r,
            n.modal matches Modal::Rename(d2, s2) && input_kept(d, chord, d2) && s2@ == src@,
            CommandView::RenameTo(src@, submitted_text(d, chord)),
        ),
        Modal::CmdLine(d) => input_answer(
            o,
            d,
            chord,
            n,
            r,
            n.modal matches Modal::CmdLine(d2) && input_kept(d, chord, d2),
            CommandView::RunShell(shell_dir(a), submitted_text(d, chord)),
        ),
        Modal::DeleteConfirm(d, ts) => {
            let (y, out) = confirm_step(d.yes_focused(), chord.code);
            &&& unchanged(o, n)
            &&& match out {
                DialogOutcome::Open => (n.modal matches Modal::DeleteConfirm(d2, t2) && d2.yes_focused() == y && d2.texts()
                    == d.texts() && history_view(t2@) == history_view(ts@)) && r == CommandView::Redraw,
                DialogOutcome::Submitted(true) => n.modal is Idle && r == CommandView::SubmitDelete(history_view(ts@)),
                _ => n.modal is Idle && r == CommandView::Redraw,
            }
        },
        Modal::Chmod { dlg, targets } => match input_step(dlg.model(), chord).1 {
            DialogOutcome::Open => unchanged(o, n) && (n.modal matches Modal::Chmod { dlg: d2, targets: t2 } && input_kept(
                dlg,
                chord,
                d2,
            ) && history_view(t2@) == history_view(targets@)) && r == CommandView::Redraw,
            DialogOutcome::Cancelled => unchanged(o, n) && n.modal is Idle && r == CommandView::Redraw,
            DialogOutcome::Submitted(t) => unchanged(o, n) && match octal_mode_spec(t) {
                Some(m) => n.modal is Idle && r == CommandView::SetMode(history_view(targets@), m),
                None => (n.modal matches Modal::Chmod { dlg: d2, targets: t2 } && d2.wf() && d2.model() == (InputModel {
                    value: t,
                    cursor: t.len(),
                    history: None,
                    pos: None,
                    saved: None,
                }) && d2.labels() == (" Chmod "@, "Octal mode (e.g. 755):"@) && history_view(t2@) == history_view(targets@))
                    && r == CommandView::Redraw,
            },
        },
        Modal::SelectGroup { dlg, select } => match input_step(dlg.model(), chord).1 {
            DialogOutcome::Open => unchanged(o, n) && (n.modal matches Modal::SelectGroup { dlg: d2, select: s2 }
                && input_kept(dlg, chord, d2) && s2 == select) && r == CommandView::Redraw,
            DialogOutcome::Cancelled => unchanged(o, n) && n.modal is Idle && r == CommandView::Redraw,
            DialogOutcome::Submitted(p) => n.hotlist@ == o.hotlist@ && n.modal is Idle && active_grouped(o.panels, n.panels, p, select)
                && r == CommandView::Redraw,
        },
        Modal::QuickCd(d) => match input_step(d.model(), chord).1 {
            DialogOutcome::Open => unchanged(o, n) && (n.modal matches Modal::QuickCd(d2) && input_kept(d, chord, d2)) && r
                == CommandView::Redraw,
            DialogOutcome::Cancelled => unchanged(o, n) && n.modal is Idle && r == CommandView::Redraw,
            DialogOutcome::Submitted(t) => n.hotlist@ == o.hotlist@ && n.modal is Idle && match quick_cd_spec(t, home, a.cwd@) {
                Some(p) => active_navigated(o.panels, n.panels, p) && r == CommandView::ReloadActive,
                None => n.panels == o.panels && r == CommandView::Redraw,
            },
        },
        Modal::PrefixCtrlX => n.modal is Idle && ctrl_x_step(o.panels, o.hotlist@, ctrl_x_key_of(chord), n.panels, n.hotlist@, r),
        Modal::Progress(d) => unchanged(o, n) && match progress_step(chord.code, d.finished is Some) {
            ProgressStep::CancelJob => n.modal == o.modal && r == CommandView::CancelJob,
            ProgressStep::Close => n.modal is Idle && r == CommandView::Redraw,
            ProgressStep::Ignore => n.modal == o.modal && r == CommandView::Nothing,
        },
        Modal::Hotlist(d) => {
            let (c, out) = hotlist_step(d.bookmarks(), d.cursor(), chord.code);
            match out {
                DialogOutcome::Open => unchanged(o, n) && (n.modal matches Modal::Hotlist(d2) && d2.cursor() == c && d2.bookmarks()
                    == d.bookmarks()) && r == CommandView::Redraw,
                DialogOutcome::Cancelled => unchanged(o, n) && n.modal is Idle && r == CommandView::Redraw,
                DialogOutcome::Submitted(HotlistActionText::AddCurrent) => n.panels == o.panels && n.hotlist@ == hotlist_with_cwd(
                    o.hotlist@,
                    a,
                ) && hotlist_reopened(n) && r == CommandView::SaveHotlist,
                DialogOutcome::Submitted(HotlistActionText::Remove(i)) => n.panels == o.panels && n.hotlist@ == (if i
                    < o.hotlist@.len() {
                    o.hotlist@.remove(i as int)
                } else {
                    o.hotlist@
                }) && hotlist_reopened(n) && r == CommandView::SaveHotlist,
                DialogOutcome::Submitted(HotlistActionText::Navigate(t)) => n.hotlist@ == o.hotlist@ && n.modal is Idle
                    && match vpath_spec(t) {
                    Ok(p) => active_navigated(o.panels, n.panels, p) && r == CommandView::ReloadActive,
                    Err(_) => n.panels == o.panels && r == CommandView::Redraw,
                },
            }
        },
        Modal::Menu(b) => {
            let (s2, i2, out) = menu_step(b.position().0, b.position().1, chord.code);
            match out {
                DialogOutcome::Open => unchanged(o, n) && (n.modal matches Modal::Menu(b2) && b2.wf() && b2.position() == (
                    s2,
                    i2,
                )) && r == CommandView::Redraw,
                DialogOutcome::Cancelled => unchanged(o, n) && n.modal is Idle && r == CommandView::Redraw,
                DialogOutcome::Submitted(c) => n.modal is Idle && choice_step(o.panels, o.hotlist@, c, n.panels, n.hotlist@, r),
            }
        },
        Modal::Help(h) => {
            let (off, out) = help_step(h.text().len(), h.scroll(), chord.code);
            &&& unchanged(o, n)
            &&& match out {
                DialogOutcome::Open => (n.modal matches Modal::Help(h2) && h2.text() == h.text() && h2.scroll() as int == off) && r
                    == CommandView::Redraw,
                _ => n.modal is Idle && r == CommandView::Redraw,
            }
        },
        Modal::LearnKeys(l) => {
            let (sh, out) = learn_step(l.shown(), chord);
            &&& unchanged(o, n)
            &&& match out {
                DialogOutcome::Open => (n.modal matches Modal::LearnKeys(l2) && l2.shown() == sh) && r == CommandView::Redraw,
                _ => n.modal is Idle && r == CommandView::Redraw,
            }
        },
        Modal::JobsView(j) => {
            let (c, out) = jobs_step(j.row_count(), j.cursor(), chord.code);
            &&& unchanged(o, n)
            &&& match out {
                DialogOutcome::Open => (n.modal matches Modal::JobsView(j2) && j2.cursor() == c && j2.row_count() == j.row_count()
                    && j2.scroll() == j.scroll()) && r == CommandView::Redraw,
                _ => n.modal is Idle && r == CommandView::Redraw,
            }
        },
        Modal::Password { dlg, scheme, location } => {
            let (v, out) = password_step(dlg.value(), chord);
            &&& unchanged(o, n)
            &&& match out {
                DialogOutcome::Open => (n.modal matches Modal::Password { dlg: d2, scheme: s2, location: l2 } && d2.value() == v
                    && d2.texts() == dlg.texts() && s2@ == scheme@ && l2@ == location@) && r == CommandView::Redraw,
                DialogOutcome::Cancelled => n.modal is Idle && r == CommandView::Redraw,
                DialogOutcome::Submitted(pw) => n.modal is Idle && r == CommandView::RetryWithPassword(scheme@, location@, pw),
            }
        },
        Modal::QuickSearch(f) => {
            &&& n.hotlist@ == o.hotlist@
            &&& search_step(o.panels, f@, chord, n.panels, search_filter(f@, chord), search_kind(chord))
            &&& match search_kind(chord) {
                SearchStep::Closed => n.modal is Idle && r == CommandView::Redraw,
                SearchStep::Searched => (n.modal matches Modal::QuickSearch(f2) && f2@ == search_filter(f@, chord)) && r
                    == CommandView::Redraw,
                SearchStep::Unchanged => (n.modal matches Modal::QuickSearch(f2) && f2@ == f@) && r == CommandView::Nothing,
            }
        },
    }
}

pub(crate) fn active_cwd(ps: &Panels) -> (r: VPath)
    ensures
        r@ == ps.active_spec().cwd@,
{
    if ps.active_left {
        ps.left.cwd.clone_path()
    } else {
        ps.right.cwd.clone_path()
    }
}

pub(crate) fn active_shell_dir(ps: &Panels) -> (r: String)
    ensures
        r@ == shell_dir(ps.active_spec()),
{
    let a = if ps.active_left { &ps.left } else { &ps.right };
    match a.cwd.last() {
        Some(l) => l.sub.clone(),
        None => String::from_str("."),
    }
}

fn navigate_active(ps: &mut Panels, t: VPath)
    ensures
        active_navigated(*old(ps), *final(ps), t@),
{
    if ps.active_left {
        ps.left.navigate(t);
    } else {
        ps.right.navigate(t);
    }
}

impl Session {
    /// Puts the progress dialog of a job that has just started in front of
    /// the panels.
    pub fn show_progress(&mut self, handle: JobHandle, description: String)
        ensures
            final(self).panels == old(self).panels,
            final(self).hotlist == old(self).hotlist,
            fresh_progress(final(self).modal, handle, description),
    {
        self.modal = Modal::Progress(ProgressDialog::new(handle, description));
    }

    /// Asks for the password of `scheme://location`, unless another dialog
    /// is in front.
    pub fn prompt_password(&mut self, scheme: String, location: String)
        ensures
            final(self).panels == old(self).panels,
            final(self).hotlist == old(self).hotlist,
            old(self).modal is Idle ==> asking_password(final(self).modal, scheme@, location@),
            !(old(self).modal is Idle) ==> final(self).modal == old(self).modal,
    {
        match &self.modal {
            Modal::Idle => {},
            _ => return,
        }
        proof {
            reveal_strlit("password for ");
            reveal_strlit("://");
            reveal_strlit(":");
            reveal_strlit(" Authenticate ");
        }
        let mut prompt = String::from_str("password for ");
        append_str(&mut prompt, scheme.as_str());
        append_str(&mut prompt, "://");
        append_str(&mut prompt, location.as_str());
        append_str(&mut prompt, ":");
        let dlg = PasswordDialog::new(String::from_str(" Authenticate "), prompt);
        self.modal = Modal::Password { dlg, scheme, location };
    }

    /// Whether the dialog in front is the progress of a job that has ended.
    pub fn progress_finished(&self) -> (r: bool)
        ensures
            r == progress_ended(self.modal),
    {
        match &self.modal {
            Modal::Progress(d) => d.is_finished(),
            _ => false,
        }
    }

    /// Takes in a job's report: the log records it as [`logged`] says, and
    /// the progress dialog in front, when it follows that job, takes it in
    /// as [`progress_applied`] says; the panels and bookmarks stay.
    pub fn handle_job_update(&mut self, log: &mut JobLog, update: JobUpdate)
        requires
            old(log).wf(),
        ensures
            final(log).wf(),
            final(log).rows() == logged(old(log).rows(), update.id, update.kind@),
            final(self).panels == old(self).panels,
            final(self).hotlist == old(self).hotlist,
            job_reported(old(self).modal, update, final(self).modal),
    {
        log.record(&update);
        let mut taken = Modal::Idle;
        std::mem::swap(&mut taken, &mut self.modal);
        match taken {
            Modal::Progress(mut d) => {
                d.apply_update(update);
                self.modal = Modal::Progress(d);
            },
            other => {
                self.modal = other;
            },
        }
    }

    /// Handles a key in the dialog in front of the panels, as
    /// [`modal_step`] says; `home` is the value of `HOME`.
    #[verifier::spinoff_prover]
    pub fn handle_modal_key(&mut self, chord: KeyChord, home: Option<String>) -> (r: PanelCommand)
        requires
            modal_wf(old(self).modal),
        ensures
            modal_wf(final(self).modal),
            modal_step(*old(self), chord, opt_text(home), *final(self), r@),
    {
        let mut taken = Modal::Idle;
        std::mem::swap(&mut taken, &mut self.modal);
        match taken {
            Modal::Idle => PanelCommand::Nothing,
            Modal::Mkdir(mut d) => match d.handle_key(chord) {
                DialogOutcome::Open => {
                    self.modal = Modal::Mkdir(d);
                    PanelCommand::Redraw
                },
                DialogOutcome::Cancelled => PanelCommand::Redraw,
                DialogOutcome::Submitted(name) => PanelCommand::MakeDir { in_dir: active_cwd(&self.panels), name },
            },
            Modal::Rename(mut d, src) => match d.handle_key(chord) {
                DialogOutcome::Open => {
                    self.modal = Modal::Rename(d, src);
                    PanelCommand::Redraw
                },
                DialogOutcome::Cancelled => PanelCommand::Redraw,
                DialogOutcome::Submitted(new_name) => PanelCommand::RenameTo { src, new_name },
            },
            Modal::CmdLine(mut d) => match d.handle_key(chord) {
                DialogOutcome::Open => {
                    self.modal = Modal::CmdLine(d);
                    PanelCommand::Redraw
                },
                DialogOutcome::Cancelled => PanelCommand::Redraw,
                DialogOutcome::Submitted(command) => PanelCommand::RunShell { cwd: active_shell_dir(&self.panels), command },
            },
            Modal::DeleteConfirm(mut d, targets) => match d.handle_key(chord) {
                DialogOutcome::Open => {
                    self.modal = Modal::DeleteConfirm(d, targets);
                    PanelCommand::Redraw
                },
                DialogOutcome::Submitted(true) => PanelCommand::SubmitDelete { targets },
                _ => PanelCommand::Redraw,
            },
            Modal::Chmod { mut dlg, targets } => match dlg.handle_key(chord) {
                DialogOutcome::Open => {
                    self.modal = Modal::Chmod { dlg, targets };
                    PanelCommand::Redraw
                },
                DialogOutcome::Cancelled => PanelCommand::Redraw,
                DialogOutcome::Submitted(t) => match parse_octal_mode(t.as_str()) {
                    Some(mode) => PanelCommand::SetMode { targets, mode },
                    None => {
                        let dlg = InputDialog::new(String::from_str(" Chmod "), String::from_str("Octal mode (e.g. 755):"), t);
                        self.modal = Modal::Chmod { dlg, targets };
                        PanelCommand::Redraw
                    },
                },
            },
            Modal::SelectGroup { mut dlg, select } => match dlg.handle_key(chord) {
                DialogOutcome::Open => {
                    self.modal = Modal::SelectGroup { dlg, select };
                    PanelCommand::Redraw
                },
                DialogOutcome::Cancelled => PanelCommand::Redraw,
                DialogOutcome::Submitted(pattern) => {
                    if self.panels.active_left {
                        self.panels.left.select_group(pattern.as_str(), select);
                    } else {
                        self.panels.right.select_group(pattern.as_str(), select);
                    }
                    PanelCommand::Redraw
                },
            },
            Modal::QuickCd(mut d) => match d.handle_key(chord) {
                DialogOutcome::Open => {
                    self.modal = Modal::QuickCd(d);
                    PanelCommand::Redraw
                },
                DialogOutcome::Cancelled => PanelCommand::Redraw,
                DialogOutcome::Submitted(t) => {
                    let cwd = active_cwd(&self.panels);
                    match quick_cd_target(t.as_str(), home, &cwd) {
                        Some(p) => {
                            navigate_active(&mut self.panels, p);
                            PanelCommand::ReloadActive
                        },
                        None => PanelCommand::Redraw,
                    }
                },
            },
            Modal::PrefixCtrlX => self.panels.handle_ctrl_x(chord, &mut self.hotlist),
            Modal::Progress(d) => match progress_key(chord.code, d.is_finished()) {
                ProgressStep::CancelJob => {
                    self.modal = Modal::Progress(d);
                    PanelCommand::CancelJob
                },
                ProgressStep::Close => PanelCommand::Redraw,
                ProgressStep::Ignore => {
                    self.modal = Modal::Progress(d);
                    PanelCommand::Nothing
                },
            },
            Modal::Hotlist(mut d) => match d.handle_key(chord) {
                DialogOutcome::Open => {
                    self.modal = Modal::Hotlist(d);
                    PanelCommand::Redraw
                },
                DialogOutcome::Cancelled => PanelCommand::Redraw,
                DialogOutcome::Submitted(HotlistAction::AddCurrent) => {
                    let p = if self.panels.active_left {
                        self.panels.left.cwd.to_text()
                    } else {
                        self.panels.right.cwd.to_text()
                    };
                    let label = hotlist_label(p.as_str());
                    self.hotlist.add(label, p);
                    self.modal = Modal::Hotlist(HotlistDialog::new(self.hotlist.duplicate()));
                    PanelCommand::SaveHotlist
                },
                DialogOutcome::Submitted(HotlistAction::Remove(i)) => {
                    self.hotlist.remove_at(i);
                    self.modal = Modal::Hotlist(HotlistDialog::new(self.hotlist.duplicate()));
                    PanelCommand::SaveHotlist
                },
                DialogOutcome::Submitted(HotlistAction::Navigate(t)) => match parse_vpath(t.as_str()) {
                    Ok(p) => {
                        navigate_active(&mut self.panels, p);
                        PanelCommand::ReloadActive
                    },
                    Err(_) => PanelCommand::Redraw,
                },
            },
            Modal::Menu(mut b) => match b.handle_key(chord) {
                DialogOutcome::Open => {
                    self.modal = Modal::Menu(b);
                    PanelCommand::Redraw
                },
                DialogOutcome::Cancelled => PanelCommand::Redraw,
                DialogOutcome::Submitted(c) => self.panels.handle_menu_choice(c, &mut self.hotlist),
            },
            Modal::Help(mut h) => match h.handle_key(chord) {
                DialogOutcome::Open => {
                    self.modal = Modal::Help(h);
                    PanelCommand::Redraw
                },
                _ => PanelCommand::Redraw,
            },
            Modal::LearnKeys(mut l) => match l.handle_key(chord) {
                DialogOutcome::Open => {
                    self.modal = Modal::LearnKeys(l);
                    PanelCommand::Redraw
                },
                _ => PanelCommand::Redraw,
            },
            Modal::JobsView(mut j) => match j.handle_key(chord) {
                DialogOutcome::Open => {
                    self.modal = Modal::JobsView(j);
                    PanelCommand::Redraw
                },
                _ => PanelCommand::Redraw,
            },
            Modal::Password { mut dlg, scheme, location } => match dlg.handle_key(chord) {
                DialogOutcome::Open => {
                    self.modal = Modal::Password { dlg, scheme, location };
                    PanelCommand::Redraw
                },
                DialogOutcome::Cancelled => PanelCommand::Redraw,
                DialogOutcome::Submitted(password) => PanelCommand::RetryWithPassword { scheme, location, password },
            },
            Modal::QuickSearch(mut f) => match self.panels.quick_search_key(&mut f, chord) {
                SearchStep::Closed => PanelCommand::Redraw,
                SearchStep::Searched => {
                    self.modal = Modal::QuickSearch(f);
                    PanelCommand::Redraw
                },
                SearchStep::Unchanged => {
                    self.modal = Modal::QuickSearch(f);
                    PanelCommand::Nothing
                },
            },
        }
    }
}

/// The characters a paste types: line breaks become spaces and tabs are
/// dropped.
pub open spec fn paste_chars(t: Seq<char>) -> Seq<char>
    decreases t.len(),
{
    if t.len() == 0 {
        Seq::empty()
    } else {
        let rest = paste_chars(t.drop_last());
        let c = t.last();
        if c == '\t' {
            rest
        } else {
            rest.push(if c == '\n' || c == '\r' { ' ' } else { c })
        }
    }
}

/// The session `n` is `o` after typing `cs` into the dialogs in front, one
/// character at a time as [`modal_step`] says, until no dialog is left.
pub open spec fn typed(o: Session, cs: Seq<char>, home: Option<Seq<char>>, n: Session) -> bool
    decreases cs.len(),
{
    if cs.len() == 0 || o.modal is Idle {
        n == o
    } else {
        exists|m: Session, r: CommandView|
            #[trigger] modal_step(o, KeyChord { code: KeyCode::Char(cs[0]), mods: KeyMods::none() }, home, m, r)
                && modal_wf(m.modal) && typed(m, cs.skip(1), home, n)
    }
}

fn paste_text(t: &str) -> (r: Vec<char>)
    ensures
        r@ == paste_chars(t@),
{
    let v = chars_of(t);
    let mut out: Vec<char> = Vec::new();
    let mut i: usize = 0;
    while i < v.len()
        invariant
            i <= v@.len(),
            v@ == t@,
            out@ == paste_chars(v@.take(i as int)),
        decreases v@.len() - i,
    {
        assert(v@.take(i + 1).drop_last() =~= v@.take(i as int));
        let c = v[i];
        if c != '\t' {
            out.push(if c == '\n' || c == '\r' { ' ' } else { c });
        }
        i = i + 1;
    }
    assert(v@.take(v@.len() as int) =~= v@);
    out
}

impl Session {
    /// Types a pasted text into the dialogs in front, as [`typed`] says of
    /// [`paste_chars`] of it; what the keys hand on is dropped, and with
    /// no dialog in front the paste is dropped too.
    pub fn handle_paste(&mut self, text: &str, home: Option<String>)
        requires
            modal_wf(old(self).modal),
        ensures
            modal_wf(final(self).modal),
            typed(*old(self), paste_chars(text@), opt_text(home), *final(self)),
    {
        let cs = paste_text(text);
        let ghost o = *self;
        let ghost h = opt_text(home);
        let mut i: usize = 0;
        assert(cs@.skip(0) =~= cs@);
        while i < cs.len()
            invariant
                i <= cs@.len(),
                modal_wf(self.modal),
                h == opt_text(home),
                forall|n: Session| #[trigger] typed(*self, cs@.skip(i as int), h, n) ==> typed(o, cs@, h, n),
            ensures
                modal_wf(self.modal),
                forall|n: Session| #[trigger] typed(*self, cs@.skip(i as int), h, n) ==> typed(o, cs@, h, n),
                i >= cs@.len() || self.modal is Idle,
            decreases cs@.len() - i,
        {
            match &self.modal {
                Modal::Idle => break,
                _ => {},
            }
            let ghost before = *self;
            let chord = KeyChord { code: KeyCode::Char(cs[i]), mods: KeyMods::empty() };
            let r = self.handle_modal_key(chord, opt_clone(&home));
            proof {
                let rest = cs@.skip(i as int);
                assert(rest[0] == cs@[i as int]);
                assert(rest.skip(1) =~= cs@.skip(i + 1));
                assert forall|n: Session| #[trigger] typed(*self, cs@.skip(i + 1), h, n) implies typed(o, cs@, h, n) by {
                    assert(modal_step(before, chord, h, *self, r@));
                    assert(typed(before, rest, h, n));
                }
            }
            i = i + 1;
        }
        proof {
            assert(typed(*self, cs@.skip(i as int), h, *self));
        }
    }
}

fn opt_clone(h: &Option<String>) -> (r: Option<String>)
    ensures
        opt_text(r) == opt_text(*h),
{
    match h {
        Some(s) => Some(s.clone()),
        None => None,
    }
}

} // verus!
