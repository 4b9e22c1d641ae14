use vstd::prelude::*;

verus! {

/// Where a tracked download stands.
#[derive(Debug, Clone)]
pub enum DownloadStatus {
    NotStarted,
    InProgress,
    Completed,
    Failed { error_message: Option<String> },
    Partial { bytes_downloaded: u64, total_bytes: u64 },
}

impl Default for DownloadStatus {
    fn default() -> (s: DownloadStatus)
        ensures
            s is NotStarted,
    {
        DownloadStatus::NotStarted
    }
}

/// Two statuses are equal when they are the same variant with equal fields.
pub open spec fn same_status(a: DownloadStatus, b: DownloadStatus) -> bool {
    match (a, b) {
        (DownloadStatus::NotStarted, DownloadStatus::NotStarted) => true,
        (DownloadStatus::InProgress, DownloadStatus::InProgress) => true,
        (DownloadStatus::Completed, DownloadStatus::Completed) => true,
        (DownloadStatus::Failed { error_message: m1 }, DownloadStatus::Failed { error_message: m2 }) => match (m1, m2) {
            (None, None) => true,
            (Some(x), Some(y)) => x@ == y@,
            _ => false,
        },
        (
            DownloadStatus::Partial { bytes_downloaded: b1, total_bytes: t1 },
            DownloadStatus::Partial { bytes_downloaded: b2, total_bytes: t2 },
        ) => b1 == b2 && t1 == t2,
        _ => false,
    }
}

impl PartialEq for DownloadStatus {
    fn eq(&self, other: &DownloadStatus) -> (r: bool) {
        match self {
            DownloadStatus::NotStarted => match other {
                DownloadStatus::NotStarted => true,
                _ => false,
            },
            DownloadStatus::InProgress => match other {
                DownloadStatus::InProgress => true,
                _ => false,
            },
            DownloadStatus::Completed => match other {
                DownloadStatus::Completed => true,
                _ => false,
            },
            DownloadStatus::Failed { error_message: m1 } => match other {
                DownloadStatus::Failed { error_message: m2 } => match m1 {
                    None => match m2 {
                        None => true,
                        Some(_) => false,
                    },
                    Some(x) => match m2 {
                        Some(y) => x.eq(y),
                        None => false,
                    },
                },
                _ => false,
            },
            DownloadStatus::Partial { bytes_downloaded: b1, total_bytes: t1 } => match other {
                DownloadStatus::Partial { bytes_downloaded: b2, total_bytes: t2 } => *b1 == *b2 && *t1 == *t2,
                _ => false,
            },
        }
    }
}

impl vstd::std_specs::cmp::PartialEqSpecImpl for DownloadStatus {
    open spec fn obeys_eq_spec() -> bool {
        true
    }

    open spec fn eq_spec(&self, other: &DownloadStatus) -> bool {
        same_status(*self, *other)
    }
}

/// One tracked download.
#[derive(Debug, Clone)]
pub struct DownloadItem {
    pub id: String,
    pub name: String,
    pub url: String,
    pub destination: String,
    pub status_info: DownloadStatus,
}

/// The tracking model: a named list of downloads.
#[derive(Debug, Clone)]
pub struct DownloadConfig {
    pub name: String,
    pub downloads: Vec<DownloadItem>,
}

/// The name every tracking model is created with.
pub open spec fn tracker_name() -> Seq<char> {
    "Dowman Download Tracker"@
}

/// An empty tracking model named `tracker_name()`.
pub fn default_config() -> (c: DownloadConfig)
    ensures
        c.name@ == tracker_name(),
        c.downloads@.len() == 0,
{
    DownloadConfig { name: String::from_str("Dowman Download Tracker"), downloads: Vec::new() }
}

} // verus!
