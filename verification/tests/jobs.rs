use mc_rs::dialog::progress::ProgressDialog;
use mc_rs::jobs::{status_text, JobHandle, JobId, JobLog, JobOutcome, JobUpdate, JobUpdateKind, Progress, JOB_LOG_CAP};
use mc_rs::key::{KeyChord, KeyCode, KeyMods};
use mc_rs::modal::{Modal, Session};
use mc_rs::commander::{PanelCommand, Panels};
use mc_rs::config::hotlist::Hotlist;
use mc_rs::panel::PanelState;
use mc_rs::path::VPath;

fn started(id: u64, d: &str) -> JobUpdate {
    JobUpdate { id: JobId(id), kind: JobUpdateKind::Started { description: d.into() } }
}

#[test]
fn log_appends_started_jobs_in_order() {
    let mut log = JobLog::new();
    log.record(&started(1, "Copy a"));
    log.record(&started(2, "Move b"));
    assert_eq!(log.len(), 2);
    assert_eq!(log.row(0).id, JobId(1));
    assert_eq!(log.row(0).status, "started");
    assert_eq!(log.row(1).description, "Move b");
}

#[test]
fn log_drops_oldest_when_full() {
    let mut log = JobLog::new();
    for i in 0..(JOB_LOG_CAP as u64 + 3) {
        log.record(&started(i, "job"));
    }
    assert_eq!(log.len(), JOB_LOG_CAP);
    assert_eq!(log.row(0).id, JobId(3));
    assert_eq!(log.row(JOB_LOG_CAP - 1).id, JobId(JOB_LOG_CAP as u64 + 2));
}

#[test]
fn log_restart_renames_without_new_row() {
    let mut log = JobLog::new();
    log.record(&started(7, "first"));
    log.record(&started(7, "second"));
    assert_eq!(log.len(), 1);
    assert_eq!(log.row(0).description, "second");
    assert_eq!(log.row(0).status, "started");
}

#[test]
fn log_status_and_outcomes() {
    let mut log = JobLog::new();
    log.record(&started(1, "a"));
    log.record(&started(2, "b"));
    log.record(&started(3, "c"));
    log.record(&JobUpdate { id: JobId(1), kind: JobUpdateKind::Status("copying x".into()) });
    assert_eq!(log.row(0).status, "copying x");
    log.record(&JobUpdate { id: JobId(1), kind: JobUpdateKind::Finished(JobOutcome::Success) });
    log.record(&JobUpdate { id: JobId(2), kind: JobUpdateKind::Finished(JobOutcome::Cancelled) });
    log.record(&JobUpdate { id: JobId(3), kind: JobUpdateKind::Finished(JobOutcome::Failed("disk full".into())) });
    assert_eq!(log.row(0).status, "done");
    assert_eq!(log.row(1).status, "cancelled");
    assert_eq!(log.row(2).status, "failed: disk full");
    assert!(log.row(2).finished.is_some());
    let rows = log.job_rows();
    assert_eq!(rows.len(), 3);
    assert_eq!(rows[2].id_str, "3");
    assert!(rows[0].finished);
}

#[test]
fn log_ignores_unknown_jobs_and_log_lines() {
    let mut log = JobLog::new();
    log.record(&started(1, "a"));
    log.record(&JobUpdate { id: JobId(9), kind: JobUpdateKind::Status("x".into()) });
    log.record(&JobUpdate { id: JobId(1), kind: JobUpdateKind::Log("line".into()) });
    log.record(&JobUpdate { id: JobId(9), kind: JobUpdateKind::Finished(JobOutcome::Success) });
    assert_eq!(log.len(), 1);
    assert_eq!(log.row(0).status, "started");
    assert!(log.row(0).finished.is_none());
}

#[test]
fn status_texts() {
    assert_eq!(status_text(&JobOutcome::Success), "done");
    assert_eq!(status_text(&JobOutcome::Failed("e".into())), "failed: e");
}

#[test]
fn progress_dialog_follows_its_job() {
    let mut d = ProgressDialog::new(JobHandle { id: JobId(5) }, "Copy 2 files".into());
    assert_eq!(d.title(), " Copy 2 files ");
    assert_eq!(d.hint(), "Esc: cancel");
    d.apply_update(JobUpdate {
        id: JobId(5),
        kind: JobUpdateKind::Progress(Progress { items_done: 1, items_total: 2, bytes_done: 10, bytes_total: 20 }),
    });
    assert_eq!(d.items_label(), "items 1/2");
    d.apply_update(JobUpdate { id: JobId(6), kind: JobUpdateKind::Status("other".into()) });
    assert_eq!(d.status, "");
    d.apply_update(JobUpdate { id: JobId(5), kind: JobUpdateKind::Status("copying".into()) });
    assert_eq!(d.status, "copying");
    d.apply_update(JobUpdate { id: JobId(5), kind: JobUpdateKind::Finished(JobOutcome::Failed("eio".into())) });
    assert_eq!(d.title(), " Copy 2 files (failed: eio) ");
    assert_eq!(d.hint(), "Enter / Esc: close");
}

#[test]
fn session_routes_job_updates() {
    let mut s = Session {
        panels: Panels {
            left: PanelState::new(VPath::local("/a")),
            right: PanelState::new(VPath::local("/b")),
            active_left: true,
        },
        modal: Modal::Idle,
        hotlist: Hotlist::default(),
    };
    let mut log = JobLog::new();
    s.show_progress(JobHandle { id: JobId(1) }, "Delete".into());
    s.handle_job_update(&mut log, started(1, "Delete 3 files"));
    s.handle_job_update(&mut log, JobUpdate { id: JobId(1), kind: JobUpdateKind::Finished(JobOutcome::Success) });
    assert!(s.progress_finished());
    assert!(matches!(&s.modal, Modal::Progress(d) if d.description == "Delete 3 files"));
    assert_eq!(log.row(0).status, "done");
    let enter = KeyChord { code: KeyCode::Enter, mods: KeyMods::empty() };
    assert!(matches!(s.handle_modal_key(enter, None), PanelCommand::Redraw));
    assert!(matches!(s.modal, Modal::Idle));
}
