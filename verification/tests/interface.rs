//! The interface state machines: job polling, log deduplication, progress
//! throttling and the dummy job's updates.

use std::sync::mpsc;
use rtxlauncher_core::jobs::{JobProgress, JobRunner};
use rtxlauncher_core::logging::ProgressThrottle;
use rtxlauncher_core::ui_state::{
    append_line_dedup, InstallState, MountState, RepositoriesState, SettingsState, SetupState, Tab,
};

fn progress(message: &str, percent: u8) -> JobProgress {
    JobProgress { message: message.to_string(), percent }
}

#[test]
fn install_poll_drains_and_finishes() {
    let mut st = InstallState::default();
    let mut log = String::new();
    assert!(!st.poll_job(&mut log));

    let (tx, rx) = mpsc::channel();
    st.current_job = Some(rx);
    st.is_running = true;
    tx.send(progress("step one", 40)).unwrap();
    tx.send(progress("step two", 100)).unwrap();
    let finished = st.poll_job(&mut log);
    assert!(finished);
    assert!(!st.is_running);
    assert!(st.current_job.is_none());
    assert_eq!(log, "step one\nstep two");
    assert_eq!(st.progress, 100);
}

#[test]
fn install_poll_keeps_unfinished_job() {
    let mut st = InstallState::default();
    let mut log = String::new();
    let (tx, rx) = mpsc::channel();
    st.current_job = Some(rx);
    st.is_running = true;
    tx.send(progress("working", 10)).unwrap();
    let finished = st.poll_job(&mut log);
    assert!(!finished);
    assert!(st.current_job.is_some());
    assert!(st.is_running);
}

#[test]
fn mount_poll_appends_and_stops() {
    let mut st = MountState::default();
    assert_eq!(st.mount_game_folder, "hl2rtx");
    assert_eq!(st.mount_remix_mod, "hl2rtx");
    let mut log = String::new();
    let (tx, rx) = mpsc::channel();
    st.current_job = Some(rx);
    st.is_running = true;
    tx.send(progress("Mount complete", 100)).unwrap();
    st.poll_job(&mut log);
    assert!(!st.is_running);
    assert!(st.current_job.is_none());
    assert_eq!(log, "Mount complete");
}

#[test]
fn repositories_poll_deduplicates_log_lines() {
    let mut st = RepositoriesState::default();
    let mut log = String::new();
    let (tx, rx) = mpsc::channel();
    st.current_job = Some(rx);
    st.is_running = true;
    tx.send(progress("Downloading: 1/10 MB", 20)).unwrap();
    tx.send(progress("Downloading: 1/10 MB", 25)).unwrap();
    tx.send(progress("done", 100)).unwrap();
    let finished = st.poll_job(&mut log);
    assert!(finished);
    assert_eq!(log, "Downloading: 1/10 MB\ndone");
}

#[test]
fn setup_poll_marks_setup_completed() {
    let mut st = SetupState::default();
    assert!(!st.setup_completed);
    let mut log = String::new();
    let (tx, rx) = mpsc::channel();
    st.current_job = Some(rx);
    st.is_running = true;
    tx.send(progress("done", 100)).unwrap();
    assert!(st.poll_job(&mut log));
    assert!(st.setup_completed);
}

#[test]
fn append_line_dedup_skips_repeats_only() {
    let mut log = String::new();
    append_line_dedup(&mut log, "a");
    append_line_dedup(&mut log, "a");
    append_line_dedup(&mut log, "b");
    append_line_dedup(&mut log, "a");
    assert_eq!(log, "a\nb\na");
}

#[test]
fn throttle_passes_new_prefixes_and_spaced_updates() {
    let mut t = ProgressThrottle::new(150, 10_000_000);
    // the first message always passes: the throttle starts an hour in the past
    let r1 = t.emit("Downloading:", "Downloading: 1 MB".to_string(), 10, 10_000_000);
    assert_eq!(r1, Some(("Downloading: 1 MB".to_string(), 10)));
    // same prefix, too soon
    let r2 = t.emit("Downloading:", "Downloading: 2 MB".to_string(), 11, 10_000_050);
    assert_eq!(r2, None);
    // same prefix, after the interval
    let r3 = t.emit("Downloading:", "Downloading: 3 MB".to_string(), 12, 10_000_200);
    assert_eq!(r3, Some(("Downloading: 3 MB".to_string(), 12)));
    // a different prefix passes at once
    let r4 = t.emit("Extracting:", "Extracting: a".to_string(), 13, 10_000_201);
    assert_eq!(r4, Some(("Extracting: a".to_string(), 13)));
}

#[test]
fn dummy_job_counts_to_one_hundred() {
    let updates = JobRunner::dummy_job_updates();
    assert_eq!(updates.len(), 101);
    assert_eq!(updates[0].message, "Working... 0%");
    assert_eq!(updates[0].percent, 0);
    assert_eq!(updates[100].message, "Working... 100%");
    assert_eq!(updates[100].percent, 100);
}

#[test]
fn tabs_compare_by_variant() {
    let _settings = SettingsState::default();
    assert_eq!(Tab::Install, Tab::Install);
    assert_ne!(Tab::Install, Tab::Logs);
}
