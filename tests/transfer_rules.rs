use armgddn_downloader::classify::{format_http_error, http_error_message, format_network_error, DownloadError, TransportFailure};
use armgddn_downloader::config::{AppConfig, AppState};
use armgddn_downloader::decimal::decimal_string;
use armgddn_downloader::rclone::RcloneManager;
use armgddn_downloader::transfer::{
    check_disk_space, decide_attempt, range_header, AttemptDecision, AttemptOutcome, ProgressMeter, MAX_ATTEMPTS,
    RETRY_DELAY_MS,
};

fn failure(is_timeout: bool, is_connect: bool, is_request: bool) -> TransportFailure {
    TransportFailure { is_timeout, is_connect, is_request, detail: "dns error".to_string() }
}

#[test]
fn decimal_text() {
    assert_eq!(decimal_string(0), "0");
    assert_eq!(decimal_string(7), "7");
    assert_eq!(decimal_string(1024), "1024");
    assert_eq!(decimal_string(u64::MAX), "18446744073709551615");
}

#[test]
fn http_errors_are_classified() {
    assert_eq!(format_http_error(401), "Authentication failed. Check your auth token in settings.");
    assert_eq!(format_http_error(403), "Authentication failed. Check your auth token in settings.");
    assert_eq!(format_http_error(404), "File not found on server. The download link may have expired.");
    assert_eq!(format_http_error(429), "Too many requests. Please wait a moment and try again.");
    assert_eq!(format_http_error(500), "Server error. Please try again later.");
    assert_eq!(format_http_error(599), "Server error. Please try again later.");
    assert_eq!(format_http_error(418), "Server returned error 418 I'm a teapot. Please try again.");
    assert_eq!(format_http_error(302), "Server returned error 302 Found. Please try again.");
    assert_eq!(format_http_error(600), "Server returned error 600 <unknown status code>. Please try again.");
    assert_eq!(format_http_error(42), "Server returned error 42 <unknown status code>. Please try again.");
    assert_eq!(DownloadError::Http(503).message(), "Server error. Please try again later.");
}

#[test]
fn network_errors_are_classified() {
    assert_eq!(
        format_network_error(&failure(true, true, true)),
        "Connection timed out. Check your internet connection and try again."
    );
    assert_eq!(
        format_network_error(&failure(false, true, true)),
        "Could not connect to server. Check your internet connection and try again."
    );
    assert_eq!(
        format_network_error(&failure(false, false, true)),
        "Network request failed. Check your internet connection and try again."
    );
    assert_eq!(
        format_network_error(&failure(false, false, false)),
        "Network error: dns error. Check your connection and try again."
    );
}

#[test]
fn disk_check_keeps_a_margin() {
    let need = 10u64 * 1024 * 1024;
    // exactly the declared size plus the margin, in kibibytes
    assert!(check_disk_space(need, Some((need + 100 * 1024 * 1024) / 1024)).is_ok());
    match check_disk_space(need, Some((need + 100 * 1024 * 1024) / 1024 - 1)) {
        Err(DownloadError::InsufficientSpace { required_mb, available_mb }) => {
            assert_eq!(required_mb, 110);
            assert_eq!(available_mb, 109);
        }
        _ => panic!("expected insufficient space"),
    }
    assert!(check_disk_space(u64::MAX, None).is_ok());
    assert!(check_disk_space(u64::MAX, Some(u64::MAX)).is_ok());
    assert!(matches!(check_disk_space(0, Some(0)), Err(DownloadError::InsufficientSpace { .. })));
}

#[test]
fn resume_requests_the_rest_of_the_file() {
    assert_eq!(range_header(0), None);
    assert_eq!(range_header(4096), Some("bytes=4096-".to_string()));
    // a partial file of 4096 bytes out of 10000, then the remaining bytes in chunks
    let mut meter = ProgressMeter::new(4096, 0);
    let mut last = 4096;
    for (i, len) in [1000u64, 2000, 2904].iter().enumerate() {
        if let Some(rep) = meter.on_chunk(*len, 200 * (i as u64 + 1)) {
            assert!(rep.downloaded >= last);
            last = rep.downloaded;
        }
    }
    assert_eq!(meter.downloaded, 10000);
    assert_eq!(last, 10000);
}

#[test]
fn progress_reports_wait_for_the_interval() {
    let mut meter = ProgressMeter::new(0, 1000);
    assert!(meter.on_chunk(500, 1050).is_none());
    let rep = meter.on_chunk(500, 1100).unwrap();
    assert_eq!(rep.downloaded, 1000);
    assert_eq!(rep.speed_bps, 10000);
    assert!(meter.on_chunk(10, 1150).is_none());
    let rep = meter.on_chunk(990, 1200).unwrap();
    assert_eq!(rep.downloaded, 2000);
    assert_eq!(rep.speed_bps, 10000);
    assert_eq!(meter.downloaded, 2000);
}

#[test]
fn speed_counts_only_new_bytes() {
    let mut meter = ProgressMeter::new(1_000_000, 0);
    let rep = meter.on_chunk(2000, 2000).unwrap();
    assert_eq!(rep.downloaded, 1_002_000);
    assert_eq!(rep.speed_bps, 1000);
}

#[test]
fn server_error_exhausts_three_attempts() {
    let mut attempts = 0u32;
    let mut waited = 0u64;
    let error = loop {
        attempts += 1;
        match decide_attempt(attempts, &AttemptOutcome::Response(503)) {
            AttemptDecision::Stream => panic!("503 must not be accepted"),
            AttemptDecision::RetryAfter(ms) => waited += ms,
            AttemptDecision::Fail(e) => break e,
        }
    };
    assert_eq!(attempts, 3);
    assert_eq!(attempts, MAX_ATTEMPTS);
    assert_eq!(waited, 2 * RETRY_DELAY_MS);
    assert!(matches!(error, DownloadError::Http(503)));
    assert!(error.message().contains("Server error"));
}

#[test]
fn accepted_answers_are_streamed() {
    assert!(matches!(decide_attempt(1, &AttemptOutcome::Response(200)), AttemptDecision::Stream));
    assert!(matches!(decide_attempt(3, &AttemptOutcome::Response(206)), AttemptDecision::Stream));
    assert!(matches!(decide_attempt(2, &AttemptOutcome::Response(404)), AttemptDecision::RetryAfter(2000)));
}

#[test]
fn transport_failure_after_last_attempt_is_classified() {
    assert!(matches!(
        decide_attempt(1, &AttemptOutcome::Transport(failure(true, false, false))),
        AttemptDecision::RetryAfter(2000)
    ));
    match decide_attempt(3, &AttemptOutcome::Transport(failure(true, false, false))) {
        AttemptDecision::Fail(DownloadError::Network(m)) => {
            assert_eq!(m, "Connection timed out. Check your internet connection and try again.")
        }
        _ => panic!("expected a network failure"),
    }
}

#[test]
fn first_run_preferences() {
    let c = AppConfig::defaults_for("/home/u/ArmgddnDownloads".to_string());
    assert_eq!(c.max_concurrent_downloads, 3);
    assert_eq!(c.server_url, "https://www.armgddnbrowser.com");
    assert!(c.auth_token.is_none());
    assert!(c.download_history.is_empty());
    let state = AppState::from_config(c);
    assert_eq!(state.download_manager.download_path(), "/home/u/ArmgddnDownloads");
    assert_eq!(state.download_manager.max_concurrent(), 3);
    assert_eq!(AppState::get_encryption_key(), "armgddn-secure-key-2025");
}

#[test]
fn missing_config_file_is_reported() {
    let r = RcloneManager::new(
        std::path::PathBuf::from("/nonexistent/armgddn/rclone.conf"),
        std::path::PathBuf::from("rclone"),
    );
    assert!(!r.config_exists());
    assert_eq!(r.binary(), &std::path::PathBuf::from("rclone"));
}

#[test]
fn http_message_takes_the_given_reason() {
    assert_eq!(http_error_message(499, Some("Client Closed")), "Server returned error 499 Client Closed. Please try again.");
    assert_eq!(http_error_message(499, None), "Server returned error 499 <unknown status code>. Please try again.");
    assert_eq!(http_error_message(404, Some("Not Found")), "File not found on server. The download link may have expired.");
}

#[test]
fn final_report_publishes_every_byte() {
    let mut meter = ProgressMeter::new(100, 0);
    assert!(meter.on_chunk(400, 150).is_some());
    assert!(meter.on_chunk(500, 180).is_none());
    let rep = meter.final_report(1000);
    assert_eq!(rep.downloaded, 1000);
    assert_eq!(rep.speed_bps, 900);
}
