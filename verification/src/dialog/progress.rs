//! The progress dialog of a running file operation: what it shows and how
//! the job's reports change it.

use vstd::prelude::*;

use crate::jobs::{JobHandle, JobOutcome, JobUpdate, JobUpdateKind, OutcomeView, Progress};
use crate::num::{decimal, decimal_chars};
use crate::text::{append_chars, append_str};

verus! {

/// A job's progress as the dialog shows it.
pub struct ProgressDialog {
    pub handle: JobHandle,
    pub description: String,
    pub status: String,
    pub progress: Progress,
    pub finished: Option<JobOutcome>,
}

/// The dialog's title: the description, then `(done)`, `(cancelled)` or
/// `(failed: ` and the message `)` once the job has ended, with a space at
/// each end.
pub open spec fn progress_title(description: Seq<char>, finished: Option<OutcomeView>) -> Seq<char> {
    match finished {
        None => " "@ + description + " "@,
        Some(OutcomeView::Success) => " "@ + description + " (done) "@,
        Some(OutcomeView::Cancelled) => " "@ + description + " (cancelled) "@,
        Some(OutcomeView::Failed(e)) => " "@ + description + " (failed: "@ + e + ") "@,
    }
}

/// The label of the items gauge: `items done/total`.
pub open spec fn items_label_text(p: Progress) -> Seq<char> {
    "items "@ + decimal(p.items_done as nat) + "/"@ + decimal(p.items_total as nat)
}

/// `n` is the dialog `d` after the report `u`: one about another job
/// changes nothing; a start sets the description, a progress report the
/// progress, a status report the status, an end the outcome; log lines
/// change nothing.
pub open spec fn progress_applied(d: ProgressDialog, u: JobUpdate, n: ProgressDialog) -> bool {
    if u.id != d.handle.id {
        n == d
    } else {
        match u.kind {
            JobUpdateKind::Started { description } => n == (ProgressDialog { description, ..d }),
            JobUpdateKind::Progress(p) => n == (ProgressDialog { progress: p, ..d }),
            JobUpdateKind::Status(s) => n == (ProgressDialog { status: s, ..d }),
            JobUpdateKind::Log(_) => n == d,
            JobUpdateKind::Finished(o) => n == (ProgressDialog { finished: Some(o), ..d }),
        }
    }
}

impl ProgressDialog {
    /// A dialog for a job that has just started: no status, no progress.
    pub fn new(handle: JobHandle, description: String) -> (r: Self)
        ensures
            r.handle == handle,
            r.description == description,
            r.status@ == Seq::<char>::empty(),
            r.progress == (Progress { items_done: 0, items_total: 0, bytes_done: 0, bytes_total: 0 }),
            r.finished is None,
    {
        ProgressDialog { handle, description, status: String::new(), progress: Progress::default(), finished: None }
    }

    /// Takes in a report, as [`progress_applied`] says.
    pub fn apply_update(&mut self, update: JobUpdate)
        ensures
            progress_applied(*old(self), update, *final(self)),
    {
        if update.id != self.handle.id {
            return;
        }
        match update.kind {
            JobUpdateKind::Started { description } => self.description = description,
            JobUpdateKind::Progress(p) => self.progress = p,
            JobUpdateKind::Status(s) => self.status = s,
            JobUpdateKind::Log(_) => {},
            JobUpdateKind::Finished(o) => self.finished = Some(o),
        }
    }

    /// Whether the job has ended.
    pub fn is_finished(&self) -> (r: bool)
        ensures
            r == self.finished is Some,
    {
        self.finished.is_some()
    }

    /// The title, as [`progress_title`] says.
    pub fn title(&self) -> (r: String)
        ensures
            r@ == progress_title(
                self.description@,
                match self.finished {
                    Some(o) => Some(o@),
                    None => None,
                },
            ),
    {
        let mut s = String::from_str(" ");
        proof {
            reveal_strlit(" ");
            reveal_strlit(" (done) ");
            reveal_strlit(" (cancelled) ");
            reveal_strlit(" (failed: ");
            reveal_strlit(") ");
        }
        append_str(&mut s, self.description.as_str());
        match &self.finished {
            None => append_str(&mut s, " "),
            Some(JobOutcome::Success) => append_str(&mut s, " (done) "),
            Some(JobOutcome::Cancelled) => append_str(&mut s, " (cancelled) "),
            Some(JobOutcome::Failed(e)) => {
                append_str(&mut s, " (failed: ");
                append_str(&mut s, e.as_str());
                append_str(&mut s, ") ");
            },
        }
        s
    }

    /// The label of the items gauge, as [`items_label_text`] says.
    pub fn items_label(&self) -> (r: String)
        ensures
            r@ == items_label_text(self.progress),
    {
        let mut s = String::from_str("items ");
        proof {
            reveal_strlit("items ");
            reveal_strlit("/");
        }
        let done = decimal_chars(self.progress.items_done);
        append_chars(&mut s, done.as_slice());
        append_str(&mut s, "/");
        let total = decimal_chars(self.progress.items_total);
        append_chars(&mut s, total.as_slice());
        s
    }

    /// The key hint: how to close a finished job's dialog, or how to cancel
    /// a running one.
    pub fn hint(&self) -> (r: &'static str)
        ensures
            r@ == if self.finished is Some { "Enter / Esc: close"@ } else { "Esc: cancel"@ },
    {
        proof {
            reveal_strlit("Enter / Esc: close");
            reveal_strlit("Esc: cancel");
        }
        if self.finished.is_some() {
            "Enter / Esc: close"
        } else {
            "Esc: cancel"
        }
    }
}

} // verus!
