//! Background job bookkeeping: the updates a running job sends, the
//! bounded log of jobs that the jobs list shows, and how an update changes
//! that log.

use vstd::prelude::*;

use crate::dialog::jobs_view::JobRow;
use crate::num::{decimal, decimal_chars};
use crate::text::{append_str, string_of};

verus! {

/// How many jobs the log keeps; the oldest goes first.
pub const JOB_LOG_CAP: usize = 64;

/// A job's number, unique within a session.
#[derive(Debug, Clone, Copy, PartialEq, Eq, Structural)]
pub struct JobId(pub u64);

/// What the application holds of a running job.
#[derive(Debug, Clone, Copy)]
pub struct JobHandle {
    pub id: JobId,
}

/// How a job ended.
#[derive(Debug, Clone)]
pub enum JobOutcome {
    Success,
    Cancelled,
    Failed(String),
}

/// How far a job has come, in items and in bytes.
#[derive(Debug, Clone, Copy, PartialEq, Eq, Structural)]
pub struct Progress {
    pub items_done: u64,
    pub items_total: u64,
    pub bytes_done: u64,
    pub bytes_total: u64,
}

impl Default for Progress {
    fn default() -> (r: Self)
        ensures
            r == (Progress { items_done: 0, items_total: 0, bytes_done: 0, bytes_total: 0 }),
    {
        Progress { items_done: 0, items_total: 0, bytes_done: 0, bytes_total: 0 }
    }
}

/// What a job reports.
#[derive(Debug, Clone)]
pub enum JobUpdateKind {
    Started { description: String },
    Progress(Progress),
    Status(String),
    Log(String),
    Finished(JobOutcome),
}

/// A report of the job `id`.
#[derive(Debug, Clone)]
pub struct JobUpdate {
    pub id: JobId,
    pub kind: JobUpdateKind,
}

/// One row of the job log.
#[derive(Debug, Clone)]
pub struct JobLogEntry {
    pub id: JobId,
    pub description: String,
    pub status: String,
    pub finished: Option<JobOutcome>,
}

/// A job outcome with its message as text.
pub enum OutcomeView {
    Success,
    Cancelled,
    Failed(Seq<char>),
}

impl View for JobOutcome {
    type V = OutcomeView;

    open spec fn view(&self) -> OutcomeView {
        match self {
            JobOutcome::Success => OutcomeView::Success,
            JobOutcome::Cancelled => OutcomeView::Cancelled,
            JobOutcome::Failed(e) => OutcomeView::Failed(e@),
        }
    }
}

/// A job report with its texts as character sequences.
pub enum UpdateView {
    Started(Seq<char>),
    Progress(Progress),
    Status(Seq<char>),
    Log(Seq<char>),
    Finished(OutcomeView),
}

impl View for JobUpdateKind {
    type V = UpdateView;

    open spec fn view(&self) -> UpdateView {
        match self {
            JobUpdateKind::Started { description } => UpdateView::Started(description@),
            JobUpdateKind::Progress(p) => UpdateView::Progress(*p),
            JobUpdateKind::Status(s) => UpdateView::Status(s@),
            JobUpdateKind::Log(s) => UpdateView::Log(s@),
            JobUpdateKind::Finished(o) => UpdateView::Finished(o@),
        }
    }
}

/// A log row with its texts as character sequences.
pub struct LogRow {
    pub id: JobId,
    pub description: Seq<char>,
    pub status: Seq<char>,
    pub finished: Option<OutcomeView>,
}

impl View for JobLogEntry {
    type V = LogRow;

    open spec fn view(&self) -> LogRow {
        LogRow {
            id: self.id,
            description: self.description@,
            status: self.status@,
            finished: match self.finished {
                Some(o) => Some(o@),
                None => None,
            },
        }
    }
}

/// The log rows of `v`.
pub open spec fn rows_view(v: Seq<JobLogEntry>) -> Seq<LogRow> {
    Seq::new(v.len(), |i: int| v[i]@)
}

/// The status text a finished job gets: `done`, `cancelled` or
/// `failed: ` and the message.
pub open spec fn outcome_status(o: OutcomeView) -> Seq<char> {
    match o {
        OutcomeView::Success => "done"@,
        OutcomeView::Cancelled => "cancelled"@,
        OutcomeView::Failed(e) => "failed: "@ + e,
    }
}

/// The index of the first row of job `id`, or -1.
pub open spec fn row_of(log: Seq<LogRow>, id: JobId) -> int
    decreases log.len(),
{
    if log.len() == 0 {
        -1
    } else if log.last().id == id {
        let i = row_of(log.drop_last(), id);
        if i < 0 { log.len() - 1 } else { i }
    } else {
        row_of(log.drop_last(), id)
    }
}

/// The log after a report of job `id`: a job that starts unlisted is
/// appended (dropping the oldest row once the log is full) with status
/// `started`; a listed job takes a new description when it starts again, a
/// new status on a status report, and its outcome with the matching status
/// when it finishes; anything else leaves the log as it was.
pub open spec fn logged(log: Seq<LogRow>, id: JobId, u: UpdateView) -> Seq<LogRow> {
    let i = row_of(log, id);
    match u {
        UpdateView::Started(d) => if i < 0 {
            let base = if log.len() >= JOB_LOG_CAP { log.skip(1) } else { log };
            base.push(LogRow { id, description: d, status: "started"@, finished: None })
        } else {
            log.update(i, LogRow { description: d, ..log[i] })
        },
        UpdateView::Status(s) => if i < 0 {
            log
        } else {
            log.update(i, LogRow { status: s, ..log[i] })
        },
        UpdateView::Finished(o) => if i < 0 {
            log
        } else {
            log.update(i, LogRow { finished: Some(o), status: outcome_status(o), ..log[i] })
        },
        _ => log,
    }
}

/// No two rows are about the same job.
pub open spec fn ids_distinct(log: Seq<LogRow>) -> bool {
    forall|i: int, j: int| 0 <= i < j < log.len() ==> #[trigger] log[i].id != #[trigger] log[j].id
}

/// The row index `row_of` finds is the one row with that id.
proof fn lemma_row_of(log: Seq<LogRow>, id: JobId)
    ensures
        -1 <= row_of(log, id) < log.len(),
        row_of(log, id) >= 0 ==> log[row_of(log, id)].id == id,
        row_of(log, id) < 0 ==> forall|k: int| 0 <= k < log.len() ==> #[trigger] log[k].id != id,
        ids_distinct(log) && row_of(log, id) >= 0 ==> forall|k: int|
            0 <= k < log.len() && #[trigger] log[k].id == id ==> k == row_of(log, id),
    decreases log.len(),
{
    if log.len() > 0 {
        lemma_row_of(log.drop_last(), id);
        let p = log.drop_last();
        assert forall|k: int| 0 <= k < p.len() implies #[trigger] log[k] == p[k] by {}
        if ids_distinct(log) {
            assert(ids_distinct(p)) by {
                assert forall|i: int, j: int| 0 <= i < j < p.len() implies #[trigger] p[i].id != #[trigger] p[j].id by {
                    assert(log[i].id != log[j].id);
                }
            }
        }
    }
}

/// A report keeps the log within its cap and its rows about distinct jobs.
pub proof fn lemma_logged_bounded(log: Seq<LogRow>, id: JobId, u: UpdateView)
    requires
        log.len() <= JOB_LOG_CAP,
        ids_distinct(log),
    ensures
        logged(log, id, u).len() <= JOB_LOG_CAP,
        ids_distinct(logged(log, id, u)),
{
    lemma_row_of(log, id);
    let n = logged(log, id, u);
    let i = row_of(log, id);
    if let UpdateView::Started(d) = u {
        if i < 0 {
            let base = if log.len() >= JOB_LOG_CAP { log.skip(1) } else { log };
            assert forall|a: int, b: int| 0 <= a < b < n.len() implies #[trigger] n[a].id != #[trigger] n[b].id by {
                if b == n.len() - 1 {
                    if log.len() >= JOB_LOG_CAP {
                        assert(n[a] == log[a + 1]);
                    } else {
                        assert(n[a] == log[a]);
                    }
                } else if log.len() >= JOB_LOG_CAP {
                    assert(n[a] == log[a + 1] && n[b] == log[b + 1]);
                } else {
                    assert(n[a] == log[a] && n[b] == log[b]);
                }
            }
        }
    }
}

/// The job log: at most [`JOB_LOG_CAP`] rows, oldest first, one per job.
pub struct JobLog {
    rows: Vec<JobLogEntry>,
}

impl JobLog {
    /// The rows, oldest first.
    pub closed spec fn rows(&self) -> Seq<LogRow> {
        rows_view(self.rows@)
    }

    /// The log holds at most [`JOB_LOG_CAP`] rows, no two about one job.
    pub closed spec fn wf(&self) -> bool {
        self.rows().len() <= JOB_LOG_CAP && ids_distinct(self.rows())
    }

    /// An empty log.
    pub fn new() -> (r: Self)
        ensures
            r.wf(),
            r.rows() == Seq::<LogRow>::empty(),
    {
        let r = JobLog { rows: Vec::new() };
        assert(r.rows() =~= Seq::<LogRow>::empty());
        r
    }

    /// The number of rows.
    pub fn len(&self) -> (n: usize)
        ensures
            n == self.rows().len(),
    {
        self.rows.len()
    }

    /// The row at `i`.
    pub fn row(&self, i: usize) -> (r: &JobLogEntry)
        requires
            i < self.rows().len(),
        ensures
            r@ == self.rows()[i as int],
    {
        &self.rows[i]
    }

    fn find(&self, id: JobId) -> (r: Option<usize>)
        ensures
            match r {
                Some(i) => i as int == row_of(self.rows(), id),
                None => row_of(self.rows(), id) < 0,
            },
    {
        let ghost rs = self.rows();
        let mut i: usize = 0;
        while i < self.rows.len()
            invariant
                i <= self.rows@.len(),
                rs == self.rows(),
                forall|k: int| 0 <= k < i ==> #[trigger] rs[k].id != id,
            decreases self.rows@.len() - i,
        {
            assert(rs[i as int] == self.rows@[i as int]@);
            if self.rows[i].id == id {
                proof {
                    lemma_row_of(rs, id);
                    lemma_first_row(rs, id, i as int);
                }
                return Some(i);
            }
            i = i + 1;
        }
        proof {
            lemma_row_of(rs, id);
        }
        None
    }

    /// Records a report as [`logged`] says.
    pub fn record(&mut self, update: &JobUpdate)
        requires
            old(self).wf(),
        ensures
            final(self).wf(),
            final(self).rows() == logged(old(self).rows(), update.id, update.kind@),
    {
        let ghost old_rows = self.rows();
        proof {
            lemma_logged_bounded(old_rows, update.id, update.kind@);
            lemma_row_of(old_rows, update.id);
        }
        let found = self.find(update.id);
        match &update.kind {
            JobUpdateKind::Started { description } => {
                match found {
                    None => {
                        if self.rows.len() >= JOB_LOG_CAP {
                            self.rows.remove(0);
                        }
                        let status = String::from_str("started");
                        proof {
                            reveal_strlit("started");
                        }
                        self.rows.push(JobLogEntry { id: update.id, description: description.clone(), status, finished: None });
                    },
                    Some(i) => {
                        let mut row = self.rows[i].clone_row();
                        row.description = description.clone();
                        self.rows.set(i, row);
                    },
                }
            },
            JobUpdateKind::Status(s) => {
                if let Some(i) = found {
                    let mut row = self.rows[i].clone_row();
                    row.status = s.clone();
                    self.rows.set(i, row);
                }
            },
            JobUpdateKind::Finished(o) => {
                if let Some(i) = found {
                    let mut row = self.rows[i].clone_row();
                    row.status = status_text(o);
                    row.finished = Some(clone_outcome(o));
                    self.rows.set(i, row);
                }
            },
            _ => {},
        }
        assert(self.rows() =~= logged(old_rows, update.id, update.kind@));
    }

    /// The rows as the jobs list shows them: the id in decimal, the
    /// description, the status and whether the job has finished.
    pub fn job_rows(&self) -> (r: Vec<JobRow>)
        ensures
            r@.len() == self.rows().len(),
            forall|i: int| 0 <= i < r@.len() ==> {
                let row = #[trigger] self.rows()[i];
                &&& r@[i].id_str@ == decimal(row.id.0 as nat)
                &&& r@[i].description@ == row.description
                &&& r@[i].status@ == row.status
                &&& r@[i].finished == row.finished is Some
            },
    {
        let mut out: Vec<JobRow> = Vec::new();
        let mut i: usize = 0;
        while i < self.rows.len()
            invariant
                i <= self.rows@.len(),
                out@.len() == i,
                forall|k: int| 0 <= k < i ==> {
                    let row = #[trigger] self.rows()[k];
                    &&& out@[k].id_str@ == decimal(row.id.0 as nat)
                    &&& out@[k].description@ == row.description
                    &&& out@[k].status@ == row.status
                    &&& out@[k].finished == row.finished is Some
                },
            decreases self.rows@.len() - i,
        {
            let e = &self.rows[i];
            let digits = decimal_chars(e.id.0);
            out.push(JobRow {
                id_str: string_of(digits.as_slice()),
                description: e.description.clone(),
                status: e.status.clone(),
                finished: e.finished.is_some(),
            });
            i = i + 1;
        }
        out
    }
}

/// Row `i` is the first with `id`, so it is the one `row_of` finds.
proof fn lemma_first_row(log: Seq<LogRow>, id: JobId, i: int)
    requires
        0 <= i < log.len(),
        log[i].id == id,
        forall|k: int| 0 <= k < i ==> #[trigger] log[k].id != id,
    ensures
        row_of(log, id) == i,
    decreases log.len(),
{
    if i < log.len() - 1 {
        let p = log.drop_last();
        assert forall|k: int| 0 <= k < i implies #[trigger] p[k].id != id by {
            assert(p[k] == log[k]);
        }
        assert(p[i] == log[i]);
        lemma_first_row(p, id, i);
    } else {
        lemma_row_of(log.drop_last(), id);
        let p = log.drop_last();
        if row_of(p, id) >= 0 {
            assert(p[row_of(p, id)] == log[row_of(p, id)]);
        }
    }
}

/// The status text of an outcome, as [`outcome_status`] says.
pub fn status_text(o: &JobOutcome) -> (r: String)
    ensures
        r@ == outcome_status(o@),
{
    match o {
        JobOutcome::Success => {
            proof {
                reveal_strlit("done");
            }
            String::from_str("done")
        },
        JobOutcome::Cancelled => {
            proof {
                reveal_strlit("cancelled");
            }
            String::from_str("cancelled")
        },
        JobOutcome::Failed(e) => {
            let mut s = String::from_str("failed: ");
            proof {
                reveal_strlit("failed: ");
            }
            append_str(&mut s, e.as_str());
            s
        },
    }
}

/// A copy of an outcome.
pub fn clone_outcome(o: &JobOutcome) -> (r: JobOutcome)
    ensures
        r@ == o@,
{
    match o {
        JobOutcome::Success => JobOutcome::Success,
        JobOutcome::Cancelled => JobOutcome::Cancelled,
        JobOutcome::Failed(e) => JobOutcome::Failed(e.clone()),
    }
}

impl JobLogEntry {
    /// A copy of the row.
    pub fn clone_row(&self) -> (r: Self)
        ensures
            r@ == self@,
    {
        JobLogEntry {
            id: self.id,
            description: self.description.clone(),
            status: self.status.clone(),
            finished: match &self.finished {
                Some(o) => Some(clone_outcome(o)),
                None => None,
            },
        }
    }
}

} // verus!
