use clean_dowman::models::{DownloadConfig, DownloadItem, DownloadStatus};
use clean_dowman::smart_manager::{RunAction, RunEvent, RunOutcome, SmartManager, Verbosity};

fn item(id: &str, url: &str, status: DownloadStatus) -> DownloadItem {
    DownloadItem {
        id: id.to_string(),
        name: format!("name {}", id),
        url: url.to_string(),
        destination: format!("downloads/{}", id),
        status_info: status,
    }
}

fn manager_with(items: Vec<DownloadItem>) -> SmartManager {
    let config = DownloadConfig { name: "t".to_string(), downloads: items };
    SmartManager::new("m".to_string(), "t.json".to_string(), false, false, Some(config))
}

fn status(m: &SmartManager, i: usize) -> &DownloadStatus {
    &m.get_status().downloads[i].status_info
}

#[test]
fn empty_list_needs_nothing() {
    let mut m = manager_with(vec![]);
    let a = m.start_downloads();
    assert!(matches!(a, RunAction::Finish { outcome: RunOutcome::AlreadyVerified }));
}

#[test]
fn no_run_is_idle() {
    let mut m = manager_with(vec![item("a", "u", DownloadStatus::NotStarted)]);
    assert!(matches!(m.resume_downloads(RunEvent::Saved), RunAction::Idle));
}

#[test]
fn all_completed_and_verified_exits_early() {
    let mut m = manager_with(vec![item("a", "u", DownloadStatus::Completed), item("b", "u", DownloadStatus::Completed)]);
    match m.start_downloads() {
        RunAction::CheckFile { index: 0, destination } => assert_eq!(destination, "downloads/a"),
        other => panic!("unexpected {:?}", other),
    }
    assert!(matches!(m.resume_downloads(RunEvent::FileChecked { size: Some(3) }), RunAction::CheckFile { index: 1, .. }));
    assert!(matches!(
        m.resume_downloads(RunEvent::FileChecked { size: Some(3) }),
        RunAction::Finish { outcome: RunOutcome::AlreadyVerified }
    ));
    assert!(matches!(status(&m, 0), DownloadStatus::Completed));
}

#[test]
fn failed_verification_reprocesses() {
    let mut m = manager_with(vec![item("a", "u", DownloadStatus::Completed), item("b", "u", DownloadStatus::Completed)]);
    m.start_downloads();
    // the first file is empty: the entries are processed from the start
    let a = m.resume_downloads(RunEvent::FileChecked { size: Some(0) });
    assert!(matches!(a, RunAction::CheckFile { index: 0, .. }));
    // now inspected: still empty, so it is reset and saved
    assert!(matches!(m.resume_downloads(RunEvent::FileChecked { size: Some(0) }), RunAction::Save));
    assert!(matches!(status(&m, 0), DownloadStatus::NotStarted));
    assert!(matches!(m.resume_downloads(RunEvent::Saved), RunAction::Save));
    assert!(matches!(status(&m, 0), DownloadStatus::InProgress));
    match m.resume_downloads(RunEvent::Saved) {
        RunAction::Download { index: 0, name, url, destination, show_progress } => {
            assert_eq!(name, "name a");
            assert_eq!(url, "u");
            assert_eq!(destination, "downloads/a");
            assert!(show_progress);
        }
        other => panic!("unexpected {:?}", other),
    }
    assert!(matches!(
        m.resume_downloads(RunEvent::Downloaded { result: Ok(Some(7)), size: Some(7) }),
        RunAction::Save
    ));
    assert!(matches!(status(&m, 0), DownloadStatus::Completed));
    // the second entry is completed and checks out: left alone
    assert!(matches!(m.resume_downloads(RunEvent::Saved), RunAction::CheckFile { index: 1, .. }));
    assert!(matches!(
        m.resume_downloads(RunEvent::FileChecked { size: Some(2) }),
        RunAction::Finish { outcome: RunOutcome::Processed { all_completed: true } }
    ));
}

#[test]
fn mixed_entries_are_processed_in_order() {
    let mut m = manager_with(vec![
        item("a", "", DownloadStatus::NotStarted),
        item("b", "ub", DownloadStatus::InProgress),
        item("c", "uc", DownloadStatus::Failed { error_message: None }),
        item("d", "ud", DownloadStatus::Partial { bytes_downloaded: 3, total_bytes: 10 }),
        item("e", "ue", DownloadStatus::NotStarted),
    ]);
    // "a" has no URL, "b" is in progress: the failed "c" is reset first
    assert!(matches!(m.start_downloads_with_verbosity(Verbosity::NoConsole), RunAction::Save));
    assert!(matches!(status(&m, 0), DownloadStatus::NotStarted));
    assert!(matches!(status(&m, 1), DownloadStatus::InProgress));
    assert!(matches!(status(&m, 2), DownloadStatus::NotStarted));
    assert!(matches!(m.resume_downloads(RunEvent::Saved), RunAction::Save));
    assert!(matches!(status(&m, 2), DownloadStatus::InProgress));
    assert!(matches!(
        m.resume_downloads(RunEvent::Saved),
        RunAction::Download { index: 2, show_progress: false, .. }
    ));
    // an event the run does not wait for changes nothing
    assert!(matches!(
        m.resume_downloads(RunEvent::Saved),
        RunAction::Download { index: 2, .. }
    ));
    assert!(matches!(
        m.resume_downloads(RunEvent::Downloaded { result: Err("HTTP error: 404".to_string()), size: None }),
        RunAction::Save
    ));
    assert!(matches!(status(&m, 2), DownloadStatus::Failed { error_message: Some(_) }));
    // the partial "d" is checked, then resumed
    assert!(matches!(m.resume_downloads(RunEvent::Saved), RunAction::CheckFile { index: 3, .. }));
    assert!(matches!(m.resume_downloads(RunEvent::FileChecked { size: Some(3) }), RunAction::Save));
    assert!(matches!(m.resume_downloads(RunEvent::Saved), RunAction::Download { index: 3, .. }));
    assert!(matches!(
        m.resume_downloads(RunEvent::Downloaded { result: Ok(Some(10)), size: Some(6) }),
        RunAction::Save
    ));
    assert!(matches!(status(&m, 3), DownloadStatus::Partial { bytes_downloaded: 6, total_bytes: 10 }));
    // "e"
    assert!(matches!(m.resume_downloads(RunEvent::Saved), RunAction::Save));
    assert!(matches!(m.resume_downloads(RunEvent::Saved), RunAction::Download { index: 4, .. }));
    assert!(matches!(
        m.resume_downloads(RunEvent::Downloaded { result: Ok(None), size: Some(1) }),
        RunAction::Save
    ));
    assert!(matches!(
        m.resume_downloads(RunEvent::Saved),
        RunAction::Finish { outcome: RunOutcome::Processed { all_completed: false } }
    ));
    assert!(matches!(status(&m, 4), DownloadStatus::Completed));
    // after the end, further events change nothing
    assert!(matches!(
        m.resume_downloads(RunEvent::Saved),
        RunAction::Finish { outcome: RunOutcome::Processed { all_completed: false } }
    ));
}

#[test]
fn completed_entry_with_good_file_is_skipped() {
    let mut m = manager_with(vec![
        item("a", "ua", DownloadStatus::Completed),
        item("b", "ub", DownloadStatus::NotStarted),
    ]);
    assert!(matches!(m.start_downloads(), RunAction::CheckFile { index: 0, .. }));
    assert!(matches!(m.resume_downloads(RunEvent::FileChecked { size: Some(9) }), RunAction::Save));
    assert!(matches!(status(&m, 0), DownloadStatus::Completed));
    assert!(matches!(status(&m, 1), DownloadStatus::InProgress));
}

#[test]
fn add_download_abandons_run() {
    let mut m = manager_with(vec![item("b", "ub", DownloadStatus::NotStarted)]);
    assert!(matches!(m.start_downloads(), RunAction::Save));
    m.add_download("c".to_string(), "C".to_string(), "uc".to_string(), "dc".to_string());
    assert!(matches!(m.resume_downloads(RunEvent::Saved), RunAction::Idle));
}
