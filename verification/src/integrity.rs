use vstd::prelude::*;
use crate::models::{DownloadItem, DownloadStatus};

verus! {

/// Whether a file of `file_size` bytes (`None`: the file is missing or its
/// metadata cannot be read) agrees with what the tracking model says of it:
/// a completed download must be non-empty, a partial one must hold exactly
/// the bytes recorded; any other status does not vouch for a file.
pub open spec fn integrity_holds(status: DownloadStatus, file_size: Option<u64>) -> bool {
    match file_size {
        None => false,
        Some(size) => match status {
            DownloadStatus::Completed => size > 0,
            DownloadStatus::Partial { bytes_downloaded, .. } => size == bytes_downloaded,
            _ => false,
        },
    }
}

/// Checks the file found at `download.destination` against the tracking
/// information; `file_size` is what the file system reported for it.
pub fn verify_file_integrity(download: &DownloadItem, file_size: Option<u64>) -> (ok: bool)
    ensures
        ok == integrity_holds(download.status_info, file_size),
{
    match file_size {
        None => false,
        Some(size) => match &download.status_info {
            DownloadStatus::Completed => size > 0,
            DownloadStatus::Partial { bytes_downloaded, .. } => size == *bytes_downloaded,
            _ => false,
        },
    }
}

/// A file vouches for a partial download exactly when it exists and holds
/// exactly the recorded bytes; for a completed download exactly when it
/// exists and is non-empty; for any other status never.
pub proof fn law_integrity(bytes_downloaded: u64, total_bytes: u64, file_size: Option<u64>, message: Option<String>)
    ensures
        integrity_holds(DownloadStatus::Partial { bytes_downloaded, total_bytes }, file_size)
            <==> file_size == Some(bytes_downloaded),
        integrity_holds(DownloadStatus::Completed, file_size) <==> (file_size matches Some(n) && n > 0),
        !integrity_holds(DownloadStatus::NotStarted, file_size),
        !integrity_holds(DownloadStatus::InProgress, file_size),
        !integrity_holds(DownloadStatus::Failed { error_message: message }, file_size),
{
}

} // verus!
