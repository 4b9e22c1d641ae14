use clean_dowman::models::{DownloadConfig, DownloadItem, DownloadStatus};
use clean_dowman::smart_manager::{
    download_outcome_status, registry_key_path, select_tracking_file, SmartManager, Verbosity,
};
use clean_dowman::integrity::verify_file_integrity;
use clean_dowman::download_manager::initialize_tracker;

fn item(id: &str, url: &str, dest: &str, status: DownloadStatus) -> DownloadItem {
    DownloadItem {
        id: id.to_string(),
        name: format!("name {}", id),
        url: url.to_string(),
        destination: dest.to_string(),
        status_info: status,
    }
}

fn manager_with(items: Vec<DownloadItem>) -> SmartManager {
    let config = DownloadConfig { name: "Dowman Download Tracker".to_string(), downloads: items };
    SmartManager::new("m".to_string(), "t.json".to_string(), false, false, Some(config))
}

#[test]
fn new_manager_on_first_run_starts_empty() {
    let loaded = DownloadConfig {
        name: "x".to_string(),
        downloads: vec![item("a", "u", "d", DownloadStatus::Completed)],
    };
    let m = SmartManager::new("Dowman".to_string(), "f.json".to_string(), false, true, Some(loaded));
    assert_eq!(m.get_status().name, "Dowman Download Tracker");
    assert!(m.get_status().downloads.is_empty());
    assert!(m.is_first_run());
    assert!(m.registry_update_due());
    assert!(m.state_save_due());
    assert_eq!(m.tracking_file(), "f.json");
    assert_eq!(m.name(), "Dowman");
}

#[test]
fn new_manager_keeps_loaded_model() {
    let m = manager_with(vec![item("a", "u", "d", DownloadStatus::Completed)]);
    assert_eq!(m.get_status().downloads.len(), 1);
    assert_eq!(m.get_status().downloads[0].id, "a");
    assert!(!m.is_first_run());
    assert!(!m.registry_update_due());
    assert!(!m.state_save_due());
}

#[test]
fn new_manager_with_unreadable_file_is_empty() {
    let m = SmartManager::new("m".to_string(), "t".to_string(), true, false, None);
    assert!(m.get_status().downloads.is_empty());
    assert_eq!(m.get_status().name, "Dowman Download Tracker");
    // the registry key is only used on a first run, but the state is saved
    assert!(!m.registry_update_due());
    assert!(m.state_save_due());
}

#[test]
fn add_download_appends_new_entry() {
    let mut m = manager_with(vec![]);
    m.add_download("f1".to_string(), "One".to_string(), "http://a".to_string(), "d/1".to_string());
    let d = &m.get_status().downloads;
    assert_eq!(d.len(), 1);
    assert_eq!(d[0].id, "f1");
    assert_eq!(d[0].name, "One");
    assert_eq!(d[0].url, "http://a");
    assert_eq!(d[0].destination, "d/1");
    assert!(matches!(d[0].status_info, DownloadStatus::NotStarted));
}

#[test]
fn add_download_twice_is_once() {
    let mut m = manager_with(vec![item("x", "u", "d", DownloadStatus::Completed)]);
    m.add_download("f1".to_string(), "One".to_string(), "http://a".to_string(), "d/1".to_string());
    m.add_download("f1".to_string(), "One".to_string(), "http://a".to_string(), "d/1".to_string());
    let d = &m.get_status().downloads;
    assert_eq!(d.len(), 2);
    assert_eq!(d[1].id, "f1");
    assert!(matches!(d[0].status_info, DownloadStatus::Completed));
}

#[test]
fn add_download_keeps_status_when_unchanged() {
    let mut m = manager_with(vec![item("a", "u", "d", DownloadStatus::Completed)]);
    m.add_download("a".to_string(), "New name".to_string(), "u".to_string(), "d".to_string());
    let d = &m.get_status().downloads;
    assert_eq!(d.len(), 1);
    assert_eq!(d[0].name, "New name");
    assert!(matches!(d[0].status_info, DownloadStatus::Completed));
}

#[test]
fn add_download_resets_on_url_change() {
    let mut m = manager_with(vec![item("a", "u", "d", DownloadStatus::Completed)]);
    m.add_download("a".to_string(), "n".to_string(), "u2".to_string(), "d".to_string());
    assert!(matches!(m.get_status().downloads[0].status_info, DownloadStatus::NotStarted));
}

#[test]
fn add_download_resets_on_destination_change() {
    let mut m = manager_with(vec![item("a", "u", "d", DownloadStatus::Partial { bytes_downloaded: 1, total_bytes: 2 })]);
    m.add_download("a".to_string(), "n".to_string(), "u".to_string(), "d2".to_string());
    assert!(matches!(m.get_status().downloads[0].status_info, DownloadStatus::NotStarted));
}

#[test]
fn add_download_resets_failed_entry() {
    let mut m = manager_with(vec![item("a", "u", "d", DownloadStatus::Failed { error_message: Some("boom".to_string()) })]);
    m.add_download("a".to_string(), "n".to_string(), "u".to_string(), "d".to_string());
    assert!(matches!(m.get_status().downloads[0].status_info, DownloadStatus::NotStarted));
}

#[test]
fn add_download_updates_first_of_duplicates() {
    let mut m = manager_with(vec![
        item("a", "u", "d", DownloadStatus::Completed),
        item("a", "u", "d", DownloadStatus::Completed),
    ]);
    m.add_download("a".to_string(), "first".to_string(), "u".to_string(), "d".to_string());
    let d = &m.get_status().downloads;
    assert_eq!(d.len(), 2);
    assert_eq!(d[0].name, "first");
    assert_eq!(d[1].name, "name a");
}

#[test]
fn integrity_of_completed_file() {
    let it = item("a", "u", "d", DownloadStatus::Completed);
    assert!(verify_file_integrity(&it, Some(10)));
    assert!(!verify_file_integrity(&it, Some(0)));
    assert!(!verify_file_integrity(&it, None));
}

#[test]
fn integrity_of_partial_file() {
    let it = item("a", "u", "d", DownloadStatus::Partial { bytes_downloaded: 5, total_bytes: 9 });
    assert!(verify_file_integrity(&it, Some(5)));
    assert!(!verify_file_integrity(&it, Some(6)));
    assert!(!verify_file_integrity(&it, None));
}

#[test]
fn integrity_of_other_statuses() {
    for st in [DownloadStatus::NotStarted, DownloadStatus::InProgress, DownloadStatus::Failed { error_message: None }] {
        assert!(!verify_file_integrity(&item("a", "u", "d", st), Some(5)));
    }
}

#[test]
fn outcome_status_rules() {
    assert!(matches!(download_outcome_status(Ok(Some(10)), Some(10)), DownloadStatus::Completed));
    assert!(matches!(download_outcome_status(Ok(Some(10)), Some(12)), DownloadStatus::Completed));
    assert!(matches!(
        download_outcome_status(Ok(Some(10)), Some(4)),
        DownloadStatus::Partial { bytes_downloaded: 4, total_bytes: 10 }
    ));
    assert!(matches!(download_outcome_status(Ok(None), Some(4)), DownloadStatus::Completed));
    assert!(matches!(download_outcome_status(Ok(Some(10)), None), DownloadStatus::Completed));
    match download_outcome_status(Err("HTTP 404".to_string()), Some(4)) {
        DownloadStatus::Failed { error_message: Some(m) } => assert_eq!(m, "HTTP 404"),
        other => panic!("unexpected {:?}", other),
    }
}

#[test]
fn tracking_file_choice() {
    assert_eq!(select_tracking_file(Some("/a".to_string()), Some("/r".to_string()), "/f".to_string()), ("/a".to_string(), true));
    assert_eq!(select_tracking_file(None, Some("/r".to_string()), "/f".to_string()), ("/r".to_string(), false));
    assert_eq!(select_tracking_file(None, None, "/f".to_string()), ("/f".to_string(), true));
}

#[test]
fn registry_key_default() {
    assert_eq!(registry_key_path(None), "SOFTWARE\\Dowman");
    assert_eq!(registry_key_path(Some("SOFTWARE\\X".to_string())), "SOFTWARE\\X");
}

#[test]
fn verbosity_levels() {
    assert_eq!(Verbosity::NoConsole.level(), 0);
    assert_eq!(Verbosity::Verbose.level(), 1);
    assert_eq!(Verbosity::Debug.level(), 2);
    assert_eq!(Verbosity::Normal.level(), 3);
    assert!(!Verbosity::NoConsole.shows_progress());
    assert_eq!(Verbosity::Debug, Verbosity::Debug);
    assert_ne!(Verbosity::Debug, Verbosity::Normal);
    assert!(Verbosity::Debug.shows_progress());
}

#[test]
fn initialize_tracker_numbers_entries() {
    let c = initialize_tracker(vec!["alpha".to_string(), "beta".to_string()]);
    assert_eq!(c.name, "Dowman Download Tracker");
    assert_eq!(c.downloads.len(), 2);
    assert_eq!(c.downloads[0].id, "alpha");
    assert_eq!(c.downloads[0].name, "Download 1");
    assert_eq!(c.downloads[0].url, "");
    assert_eq!(c.downloads[0].destination, "downloads/alpha.txt");
    assert_eq!(c.downloads[1].name, "Download 2");
    assert_eq!(c.downloads[1].destination, "downloads/beta.txt");
    assert!(matches!(c.downloads[1].status_info, DownloadStatus::NotStarted));
}

#[test]
fn initialize_tracker_empty() {
    let c = initialize_tracker(vec![]);
    assert!(c.downloads.is_empty());
}

#[test]
fn status_equality() {
    assert_eq!(DownloadStatus::NotStarted, DownloadStatus::NotStarted);
    assert_ne!(DownloadStatus::NotStarted, DownloadStatus::Completed);
    assert_eq!(
        DownloadStatus::Failed { error_message: Some("x".to_string()) },
        DownloadStatus::Failed { error_message: Some("x".to_string()) }
    );
    assert_ne!(
        DownloadStatus::Failed { error_message: Some("x".to_string()) },
        DownloadStatus::Failed { error_message: None }
    );
    assert_eq!(
        DownloadStatus::Partial { bytes_downloaded: 1, total_bytes: 2 },
        DownloadStatus::Partial { bytes_downloaded: 1, total_bytes: 2 }
    );
    assert_ne!(
        DownloadStatus::Partial { bytes_downloaded: 1, total_bytes: 2 },
        DownloadStatus::Partial { bytes_downloaded: 1, total_bytes: 3 }
    );
    assert_eq!(DownloadStatus::default(), DownloadStatus::NotStarted);
}

#[test]
fn registering_keeps_ids_unique() {
    let mut m = manager_with(vec![]);
    for id in ["a", "b", "a", "c", "b", "a"] {
        m.add_download(id.to_string(), "n".to_string(), format!("http://{}", id), "d".to_string());
    }
    let ids: Vec<&str> = m.get_status().downloads.iter().map(|d| d.id.as_str()).collect();
    assert_eq!(ids, vec!["a", "b", "c"]);
}
