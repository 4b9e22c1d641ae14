use clean_dowman::download_manager::{ChunkAction, DownloadSession, ResponseAction};
use clean_dowman::numbers::decimal_string;

#[test]
fn decimal_notation() {
    assert_eq!(decimal_string(0), "0");
    assert_eq!(decimal_string(7), "7");
    assert_eq!(decimal_string(10), "10");
    assert_eq!(decimal_string(1234567890), "1234567890");
    assert_eq!(decimal_string(u64::MAX), "18446744073709551615");
}

#[test]
fn fresh_download_has_no_range() {
    let mut s = DownloadSession::new(0);
    assert_eq!(s.range_header(), None);
    assert!(matches!(s.on_response(200, Some(100)), ResponseAction::Write { append: false, start_byte: 0 }));
    assert!(matches!(s.on_chunk(60), ChunkAction::Continue));
    assert!(matches!(s.on_chunk(40), ChunkAction::Continue));
    assert!(matches!(s.on_chunk(0), ChunkAction::Finished { downloaded: 100, expected: Some(100) }));
    assert_eq!(s.result(), (100, Some(100)));
}

#[test]
fn resumed_download_asks_for_range() {
    let mut s = DownloadSession::new(1000);
    assert_eq!(s.range_header(), Some("bytes=1000-".to_string()));
    assert!(matches!(s.on_response(206, Some(24)), ResponseAction::Write { append: true, start_byte: 1000 }));
    assert!(matches!(s.on_chunk(24), ChunkAction::Continue));
    assert!(matches!(s.on_chunk(0), ChunkAction::Finished { downloaded: 1024, expected: Some(1024) }));
}

#[test]
fn ignored_range_restarts() {
    let mut s = DownloadSession::new(50);
    assert!(matches!(s.on_response(200, Some(80)), ResponseAction::Write { append: false, start_byte: 0 }));
    assert!(matches!(s.on_chunk(80), ChunkAction::Continue));
    assert!(matches!(s.on_chunk(0), ChunkAction::Finished { downloaded: 80, expected: Some(80) }));
}

#[test]
fn range_not_satisfiable_means_complete() {
    let mut s = DownloadSession::new(500);
    assert!(matches!(
        s.on_response(416, None),
        ResponseAction::AlreadyComplete { downloaded: 500, total: Some(500) }
    ));
}

#[test]
fn error_status_fails() {
    let mut s = DownloadSession::new(0);
    assert!(matches!(s.on_response(404, Some(3)), ResponseAction::HttpError));
    assert!(matches!(s.on_response(301, None), ResponseAction::HttpError));
    assert!(matches!(s.on_response(500, None), ResponseAction::HttpError));
}

#[test]
fn unknown_length_has_no_total() {
    let mut s = DownloadSession::new(0);
    assert!(matches!(s.on_response(200, None), ResponseAction::Write { .. }));
    assert!(matches!(s.on_chunk(5), ChunkAction::Continue));
    assert!(matches!(s.on_chunk(0), ChunkAction::Finished { downloaded: 5, expected: None }));
}
