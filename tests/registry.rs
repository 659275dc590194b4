use armgddn_downloader::classify::DownloadError;
use armgddn_downloader::manager::{DownloadManager, StartOutcome, StopAction};
use armgddn_downloader::status::{DownloadRequest, DownloadState};
use armgddn_downloader::transfer::TransferOutcome;

const GIB: u64 = 1024 * 1024 * 1024;

fn manager() -> DownloadManager {
    DownloadManager::new("/data/downloads".to_string(), 3, "https://example.org".to_string(), None)
}

fn request(name: &str, size: u64) -> DownloadRequest {
    DownloadRequest { url: format!("https://example.org/{}", name), filename: name.to_string(), size }
}

#[test]
fn add_then_list_shows_one_queued_record() {
    let mut m = manager();
    let id = m.add_download(request("a.bin", 5000)).unwrap();
    assert_eq!(id.len(), 36);
    let all = m.get_all_downloads();
    assert_eq!(all.len(), 1);
    let s = &all[0];
    assert_eq!(s.id, id);
    assert_eq!(s.state, DownloadState::Queued);
    assert_eq!(s.downloaded_bytes, 0);
    assert_eq!(s.total_bytes, 5000);
    assert_eq!(s.filename, "a.bin");
    assert_eq!(s.url, "https://example.org/a.bin");
    assert!(s.error.is_none());
}

#[test]
fn generated_identifiers_differ() {
    let mut m = manager();
    let a = m.add_download(request("a.bin", 1)).unwrap();
    let b = m.add_download(request("b.bin", 1)).unwrap();
    assert_ne!(a, b);
    assert_eq!(m.get_all_downloads().len(), 2);
}

#[test]
fn insert_with_same_identifier_replaces() {
    let mut m = manager();
    m.insert_download("x".to_string(), request("a.bin", 10));
    m.insert_download("x".to_string(), request("b.bin", 20));
    let all = m.get_all_downloads();
    assert_eq!(all.len(), 1);
    assert_eq!(all[0].filename, "b.bin");
    assert_eq!(all[0].total_bytes, 20);
}

#[test]
fn start_spawns_a_transfer_with_its_plan() {
    let mut m = manager();
    m.insert_download("x".to_string(), request("a.bin", 10));
    match m.start_download("x", Some(10 * 1024 * 1024)).unwrap() {
        StartOutcome::Spawn(plan) => {
            assert_eq!(plan.url, "https://example.org/a.bin");
            assert_eq!(plan.filename, "a.bin");
            assert_eq!(plan.directory, "/data/downloads");
        }
        StartOutcome::AlreadyActive => panic!("expected a transfer"),
    }
    assert_eq!(m.get_all_downloads()[0].state, DownloadState::Downloading);
    assert_eq!(m.active_count(), 1);
}

#[test]
fn start_when_downloading_is_a_noop() {
    let mut m = manager();
    m.insert_download("x".to_string(), request("a.bin", 10));
    m.start_download("x", None).unwrap();
    m.record_progress("x", 7, 70).unwrap();
    let r = m.start_download("x", None).unwrap();
    assert!(matches!(r, StartOutcome::AlreadyActive));
    let s = &m.get_all_downloads()[0];
    assert_eq!(s.state, DownloadState::Downloading);
    assert_eq!(s.downloaded_bytes, 7);
    assert_eq!(s.speed_bps, 70);
    assert_eq!(m.active_count(), 1);
}

#[test]
fn unknown_identifier_is_not_found() {
    let mut m = manager();
    assert!(matches!(m.start_download("nope", None), Err(DownloadError::NotFound)));
    assert!(matches!(m.pause_download("nope"), Err(DownloadError::NotFound)));
    assert!(matches!(m.cancel_download("nope"), Err(DownloadError::NotFound)));
    assert!(matches!(m.retry_download("nope", None), Err(DownloadError::NotFound)));
    assert!(matches!(m.resume_download("nope", None), Err(DownloadError::NotFound)));
    assert_eq!(DownloadError::NotFound.message(), "Download not found");
}

#[test]
fn pause_without_transfer_changes_nothing() {
    let mut m = manager();
    m.insert_download("x".to_string(), request("a.bin", 10));
    assert_eq!(m.pause_download("x").unwrap(), StopAction::Nothing);
    assert_eq!(m.get_all_downloads()[0].state, DownloadState::Queued);
    assert_eq!(m.pause_download("x").unwrap(), StopAction::Nothing);
    assert_eq!(m.get_all_downloads()[0].state, DownloadState::Queued);
}

#[test]
fn pause_in_flight_signals_once_and_pauses() {
    let mut m = manager();
    m.insert_download("x".to_string(), request("a.bin", 10));
    m.start_download("x", None).unwrap();
    assert_eq!(m.pause_download("x").unwrap(), StopAction::SignalTask);
    assert_eq!(m.get_all_downloads()[0].state, DownloadState::Paused);
    m.finish_transfer("x", TransferOutcome::Stopped).unwrap();
    assert_eq!(m.get_all_downloads()[0].state, DownloadState::Paused);
    assert_eq!(m.pause_download("x").unwrap(), StopAction::Nothing);
    assert_eq!(m.active_count(), 0);
}

#[test]
fn finished_before_pause_stays_completed() {
    let mut m = manager();
    m.insert_download("x".to_string(), request("a.bin", 10));
    m.start_download("x", None).unwrap();
    m.pause_download("x").unwrap();
    m.finish_transfer("x", TransferOutcome::Finished).unwrap();
    assert_eq!(m.get_all_downloads()[0].state, DownloadState::Completed);
}

#[test]
fn cancel_mid_stream_stays_cancelled() {
    let mut m = manager();
    m.insert_download("x".to_string(), request("a.bin", 10));
    m.start_download("x", None).unwrap();
    assert_eq!(m.cancel_download("x").unwrap(), StopAction::SignalTask);
    m.finish_transfer("x", TransferOutcome::Failed(DownloadError::Stream("connection reset".to_string())))
        .unwrap();
    let s = &m.get_all_downloads()[0];
    assert_eq!(s.state, DownloadState::Cancelled);
    assert!(s.error.is_none());

    m.insert_download("y".to_string(), request("b.bin", 10));
    m.start_download("y", None).unwrap();
    m.cancel_download("y").unwrap();
    m.finish_transfer("y", TransferOutcome::Stopped).unwrap();
    assert_eq!(m.get_all_downloads()[1].state, DownloadState::Cancelled);
    assert_eq!(m.active_count(), 0);
}

#[test]
fn cancel_of_queued_download_needs_no_signal() {
    let mut m = manager();
    m.insert_download("x".to_string(), request("a.bin", 10));
    assert_eq!(m.cancel_download("x").unwrap(), StopAction::Nothing);
    assert_eq!(m.get_all_downloads()[0].state, DownloadState::Cancelled);
}

#[test]
fn failure_is_recorded_with_its_message() {
    let mut m = manager();
    m.insert_download("x".to_string(), request("a.bin", 10));
    m.start_download("x", None).unwrap();
    m.finish_transfer("x", TransferOutcome::Failed(DownloadError::Http(404))).unwrap();
    let s = &m.get_all_downloads()[0];
    assert_eq!(s.state, DownloadState::Failed);
    assert_eq!(s.error.as_deref(), Some("File not found on server. The download link may have expired."));
}

#[test]
fn retry_on_non_failed_is_invalid_state() {
    let mut m = manager();
    m.insert_download("x".to_string(), request("a.bin", 10));
    assert!(matches!(m.retry_download("x", None), Err(DownloadError::InvalidState)));
    assert_eq!(m.get_all_downloads()[0].state, DownloadState::Queued);
    assert_eq!(DownloadError::InvalidState.message(), "Download is not in a failed state");
}

#[test]
fn retry_of_failed_download_restarts_it() {
    let mut m = manager();
    m.insert_download("x".to_string(), request("a.bin", 10));
    m.start_download("x", None).unwrap();
    m.record_progress("x", 5, 1).unwrap();
    m.finish_transfer("x", TransferOutcome::Failed(DownloadError::Http(503))).unwrap();
    let r = m.retry_download("x", None).unwrap();
    assert!(matches!(r, StartOutcome::Spawn(_)));
    let s = &m.get_all_downloads()[0];
    assert_eq!(s.state, DownloadState::Downloading);
    assert_eq!(s.downloaded_bytes, 0);
    assert!(s.error.is_none());
}

#[test]
fn insufficient_space_fails_without_transfer() {
    let mut m = manager();
    m.insert_download("x".to_string(), request("big.iso", 10 * GIB));
    let r = m.start_download("x", Some(GIB / 1024));
    match r {
        Err(DownloadError::InsufficientSpace { required_mb, available_mb }) => {
            assert_eq!(required_mb, 10 * 1024 + 100);
            assert_eq!(available_mb, 1024);
        }
        _ => panic!("expected insufficient space"),
    }
    let s = &m.get_all_downloads()[0];
    assert_eq!(s.state, DownloadState::Failed);
    assert_eq!(
        s.error.as_deref(),
        Some("Insufficient disk space: Need 10340 MB but only 1024 MB available. Please free up space and try again.")
    );
    assert_eq!(m.active_count(), 0);
}

#[test]
fn unknown_free_space_lets_the_transfer_proceed() {
    let mut m = manager();
    m.insert_download("x".to_string(), request("big.iso", 10 * GIB));
    assert!(matches!(m.start_download("x", None), Ok(StartOutcome::Spawn(_))));
}

#[test]
fn resume_offset_is_published() {
    let mut m = manager();
    m.insert_download("x".to_string(), request("a.bin", 100));
    m.start_download("x", None).unwrap();
    m.record_resume_offset("x", 40).unwrap();
    assert_eq!(m.get_all_downloads()[0].downloaded_bytes, 40);
}

#[test]
fn settings_are_kept() {
    let mut m = manager();
    m.set_max_concurrent(5);
    assert_eq!(m.max_concurrent(), 5);
    m.set_server_config("https://other.example".to_string(), Some("t".to_string()));
    assert_eq!(m.server_url(), "https://other.example");
    assert_eq!(m.auth_token(), Some("t".to_string()));
    assert_eq!(m.download_path(), "/data/downloads");
}

#[test]
fn transfer_reports_for_unknown_downloads_are_refused() {
    let mut m = manager();
    assert!(matches!(m.finish_transfer("nope", TransferOutcome::Finished), Err(DownloadError::NotFound)));
    assert!(matches!(m.record_progress("nope", 1, 1), Err(DownloadError::NotFound)));
    assert!(matches!(m.record_resume_offset("nope", 1), Err(DownloadError::NotFound)));
    assert_eq!(DownloadError::Stream("disk full".to_string()).message(), "disk full");
    assert_eq!(DownloadError::Network("offline".to_string()).message(), "offline");
}

#[test]
fn list_keeps_the_order_of_addition() {
    let mut m = manager();
    m.insert_download("b".to_string(), request("b.bin", 2));
    m.insert_download("a".to_string(), request("a.bin", 1));
    m.insert_download("c".to_string(), request("c.bin", 3));
    let ids: Vec<String> = m.get_all_downloads().into_iter().map(|s| s.id).collect();
    assert_eq!(ids, vec!["b".to_string(), "a".to_string(), "c".to_string()]);
}

#[test]
fn cancel_is_not_overwritten_by_a_finished_transfer() {
    let mut m = manager();
    m.insert_download("x".to_string(), request("a.bin", 10));
    m.start_download("x", None).unwrap();
    m.cancel_download("x").unwrap();
    m.finish_transfer("x", TransferOutcome::Finished).unwrap();
    let s = &m.get_all_downloads()[0];
    assert_eq!(s.state, DownloadState::Cancelled);
    assert!(s.error.is_none());
}

#[test]
fn cancel_of_failed_download_clears_its_error() {
    let mut m = manager();
    m.insert_download("x".to_string(), request("a.bin", 10));
    m.start_download("x", None).unwrap();
    m.finish_transfer("x", TransferOutcome::Failed(DownloadError::Http(500))).unwrap();
    m.cancel_download("x").unwrap();
    let s = &m.get_all_downloads()[0];
    assert_eq!(s.state, DownloadState::Cancelled);
    assert!(s.error.is_none());
}

#[test]
fn restarting_a_failed_download_clears_its_error() {
    let mut m = manager();
    m.insert_download("x".to_string(), request("a.bin", 10));
    m.start_download("x", None).unwrap();
    m.finish_transfer("x", TransferOutcome::Failed(DownloadError::Http(500))).unwrap();
    assert!(matches!(m.resume_download("x", None), Ok(StartOutcome::Spawn(_))));
    let s = &m.get_all_downloads()[0];
    assert_eq!(s.state, DownloadState::Downloading);
    assert!(s.error.is_none());
}

#[test]
fn resume_offset_of_zero_resets_progress() {
    let mut m = manager();
    m.insert_download("x".to_string(), request("a.bin", 1000));
    m.start_download("x", None).unwrap();
    m.record_progress("x", 500, 10).unwrap();
    m.pause_download("x").unwrap();
    m.finish_transfer("x", TransferOutcome::Stopped).unwrap();
    m.start_download("x", None).unwrap();
    m.record_resume_offset("x", 0).unwrap();
    assert_eq!(m.get_all_downloads()[0].downloaded_bytes, 0);
}

#[test]
fn added_downloads_never_replace_each_other() {
    let mut m = manager();
    for i in 0..50 {
        m.add_download(request(&format!("f{}.bin", i), i)).unwrap();
    }
    let all = m.get_all_downloads();
    assert_eq!(all.len(), 50);
    for (i, s) in all.iter().enumerate() {
        assert_eq!(s.total_bytes, i as u64);
    }
}
