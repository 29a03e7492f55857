//! The decisions of the main loop: what each event from the terminal, the
//! directory watcher, a running search or a job does to the session, and
//! what the loop does next. Reading the events, drawing, reloading
//! listings and carrying out commands are left to the caller, which hands
//! each event in and performs the action that comes back.

use vstd::prelude::*;

use crate::commander::{panel_key_of, panel_step, CommandView, PanelCommand};
use crate::config::keymap::Keymap;
use crate::config::paths::opt_text;
use crate::dialog::{MouseEvent, MouseKind};
use crate::jobs::{logged, JobLog, JobUpdate, JobUpdateKind, LogRow};
use crate::key::KeyChord;
use crate::modal::{job_reported, modal_step, modal_wf, paste_chars, typed, Modal, Session};
use crate::mouse::{areas_fit, click_overflows, session_click, ClickMemory, ScreenAreas};

verus! {

/// An event the loop waits for.
pub enum LoopEvent {
    /// A key press, before the user's remap.
    Key(KeyChord),
    /// A mouse event, and whether it repeats the remembered click closely
    /// enough to be a double click.
    Mouse(MouseEvent, bool),
    Paste(String),
    Resize,
    /// Any other terminal event.
    OtherInput,
    /// The terminal's event stream failed.
    InputError,
    /// The terminal's event stream ended.
    InputEnd,
    /// The watched directory changed.
    DirectoryChanged,
    /// A running search scanned a directory or found a match.
    FindProgress,
    /// A running search ended; whether it was to fill the panel, and how
    /// many hits it had.
    FindDone { panelize: bool, hits: usize },
    /// A job's report.
    Job(JobUpdate),
    /// The clock ticked.
    Tick,
}

/// What the loop does after an event.
pub enum LoopAction {
    /// Leave the loop.
    Stop,
    /// Nothing; no redraw.
    Wait,
    /// Redraw the screen.
    Redraw,
    /// Carry out a command (reload, open a dialog, run an operation...) and
    /// update the remembered click, then redraw as the command asks.
    Command(PanelCommand, ClickMemory),
    /// Reload the active panel's listing and redraw.
    ReloadActive,
    /// Reload both listings and redraw.
    ReloadBoth,
    /// Show the search's hits in the active panel and redraw.
    PanelizeHits,
}

/// An action as plain values.
pub enum ActionView {
    Stop,
    Wait,
    Redraw,
    Command(CommandView, ClickMemory),
    ReloadActive,
    ReloadBoth,
    PanelizeHits,
}

impl View for LoopAction {
    type V = ActionView;

    open spec fn view(&self) -> ActionView {
        match self {
            LoopAction::Stop => ActionView::Stop,
            LoopAction::Wait => ActionView::Wait,
            LoopAction::Redraw => ActionView::Redraw,
            LoopAction::Command(c, m) => ActionView::Command(c@, *m),
            LoopAction::ReloadActive => ActionView::ReloadActive,
            LoopAction::ReloadBoth => ActionView::ReloadBoth,
            LoopAction::PanelizeHits => ActionView::PanelizeHits,
        }
    }
}

/// The chord after the user's remap.
pub open spec fn remapped(km: Map<KeyChord, KeyChord>, c: KeyChord) -> KeyChord {
    if km.contains_key(c) {
        km[c]
    } else {
        c
    }
}

/// What the loop does with a command from a key or a click: `Quit` leaves
/// the loop, any other command is carried out.
pub open spec fn command_action(c: CommandView, mem: ClickMemory) -> ActionView {
    if c == CommandView::Quit {
        ActionView::Stop
    } else {
        ActionView::Command(c, mem)
    }
}

/// `r` is what the loop does with the command `c` and the click memory.
pub open spec fn acts_on(r: ActionView, c: CommandView, mem: ClickMemory) -> bool {
    r == command_action(c, mem)
}

/// Whether the loop handles a mouse event of this kind: presses of the
/// left and right buttons, and the wheel.
pub open spec fn handled_kind(k: MouseKind) -> bool {
    k == MouseKind::LeftDown || k == MouseKind::RightDown || k == MouseKind::ScrollUp || k == MouseKind::ScrollDown
}

/// One turn of the loop. A key is remapped and goes to the dialog in front
/// ([`modal_step`]), or to the panels ([`panel_step`]) when there is none; a
/// handled mouse event goes where [`session_click`] says; either gives a
/// command, which is carried out unless it is `Quit`. A paste is typed into
/// the dialogs ([`typed`]); a job's report is logged and shown
/// ([`logged`], [`job_reported`]), and a finished job reloads both panels.
/// A change of the watched directory reloads the active panel; a finished
/// search that was to fill the panel and has hits fills it. The end or
/// failure of the terminal's events leaves the loop. Only keys, clicks,
/// pastes and job reports change the session, and only job reports the log.
pub open spec fn loop_step_spec(
    o: Session,
    log: Seq<LogRow>,
    km: Map<KeyChord, KeyChord>,
    home: Option<Seq<char>>,
    ev: LoopEvent,
    a: ScreenAreas,
    n: Session,
    nlog: Seq<LogRow>,
    r: ActionView,
) -> bool {
    match ev {
        LoopEvent::Key(chord) => {
            let c = remapped(km, chord);
            &&& nlog == log
            &&& exists|cmd: CommandView| #[trigger] acts_on(r, cmd, ClickMemory::Keep) && if o.modal is Idle {
                &&& panel_step(o.panels, panel_key_of(c, false), n.panels, cmd)
                &&& n.modal == o.modal
                &&& n.hotlist == o.hotlist
            } else {
                modal_step(o, c, home, n, cmd)
            }
        },
        LoopEvent::Mouse(m, is_double) => {
            &&& nlog == log
            &&& if handled_kind(m.kind) {
                exists|cmd: CommandView, mem: ClickMemory| #[trigger] acts_on(r, cmd, mem) && session_click(o, m, a, is_double, n, cmd, mem)
            } else {
                n == o && r == ActionView::Wait
            }
        },
        LoopEvent::Paste(t) => nlog == log && typed(o, paste_chars(t@), home, n) && r == ActionView::Redraw,
        LoopEvent::Job(u) => {
            &&& nlog == logged(log, u.id, u.kind@)
            &&& n.panels == o.panels
            &&& n.hotlist == o.hotlist
            &&& job_reported(o.modal, u, n.modal)
            &&& r == if u.kind is Finished { ActionView::ReloadBoth } else { ActionView::Redraw }
        },
        _ => {
            &&& n == o
            &&& nlog == log
            &&& r == match ev {
                LoopEvent::Resize => ActionView::Redraw,
                LoopEvent::InputError => ActionView::Stop,
                LoopEvent::InputEnd => ActionView::Stop,
                LoopEvent::DirectoryChanged => ActionView::ReloadActive,
                LoopEvent::FindProgress => ActionView::Redraw,
                LoopEvent::FindDone { panelize, hits } => if panelize && hits > 0 {
                    ActionView::PanelizeHits
                } else {
                    ActionView::Redraw
                },
                _ => ActionView::Wait,
            }
        },
    }
}

fn command_to_action(c: PanelCommand, mem: ClickMemory) -> (r: LoopAction)
    ensures
        acts_on(r@, c@, mem),
{
    match c {
        PanelCommand::Quit => LoopAction::Stop,
        other => LoopAction::Command(other, mem),
    }
}

/// One turn of the loop, as [`loop_step_spec`] says; `log` is the job log,
/// `keymap` the user's remap, `home` the value of `HOME` and `a` the screen
/// areas of the last drawing.
pub fn loop_step(
    s: &mut Session,
    log: &mut JobLog,
    keymap: &Keymap,
    home: Option<String>,
    ev: LoopEvent,
    a: &ScreenAreas,
) -> (r: LoopAction)
    requires
        modal_wf(old(s).modal),
        old(log).wf(),
        areas_fit(*a),
        ev is Key ==> old(s).panels.active_spec().history_pos <= old(s).panels.active_spec().history@.len(),
        ev matches LoopEvent::Mouse(m, _) ==> (old(s).modal is Idle || old(s).modal is PrefixCtrlX) ==> !click_overflows(
            old(s).panels,
            m,
            *a,
        ),
    ensures
        modal_wf(final(s).modal),
        final(log).wf(),
        loop_step_spec(*old(s), old(log).rows(), keymap@, opt_text(home), ev, *a, *final(s), final(log).rows(), r@),
{
    match ev {
        LoopEvent::Key(chord) => {
            let c = keymap.translate(chord);
            match &s.modal {
                Modal::Idle => {
                    let cmd = s.panels.handle_panel_key(c, false);
                    let r = command_to_action(cmd, ClickMemory::Keep);
                    r
                },
                _ => {
                    let cmd = s.handle_modal_key(c, home);
                    let r = command_to_action(cmd, ClickMemory::Keep);
                    r
                },
            }
        },
        LoopEvent::Mouse(m, is_double) => {
            if m.kind == MouseKind::LeftDown || m.kind == MouseKind::RightDown || m.kind == MouseKind::ScrollUp
                || m.kind == MouseKind::ScrollDown {
                let (cmd, mem) = s.handle_mouse(m, a, is_double);
                command_to_action(cmd, mem)
            } else {
                LoopAction::Wait
            }
        },
        LoopEvent::Paste(t) => {
            s.handle_paste(t.as_str(), home);
            LoopAction::Redraw
        },
        LoopEvent::Job(u) => {
            let finished = match &u.kind {
                JobUpdateKind::Finished(_) => true,
                _ => false,
            };
            s.handle_job_update(log, u);
            if finished {
                LoopAction::ReloadBoth
            } else {
                LoopAction::Redraw
            }
        },
        LoopEvent::Resize => LoopAction::Redraw,
        LoopEvent::OtherInput => LoopAction::Wait,
        LoopEvent::InputError => LoopAction::Stop,
        LoopEvent::InputEnd => LoopAction::Stop,
        LoopEvent::DirectoryChanged => LoopAction::ReloadActive,
        LoopEvent::FindProgress => LoopAction::Redraw,
        LoopEvent::FindDone { panelize, hits } => if panelize && hits > 0 {
            LoopAction::PanelizeHits
        } else {
            LoopAction::Redraw
        },
        LoopEvent::Tick => LoopAction::Wait,
    }
}

} // verus!
