use reina_manager::download::backoff::{backoff, BASE_BACKOFF, MAX_BACKOFF};
use reina_manager::download::commit::{CommitAction, CommitStage, PeriodicCommit};
use reina_manager::download::control::{
    artifact_paths, control_path, piece_count, piece_len, ControlFile, ControlRead,
};
use reina_manager::download::error::{
    cancelled_error, join_error, map_transport, DownloadError, TransportFailure,
};
use reina_manager::download::fsx::{remove_if_exists, temp_path, PositionedWrite, WriteOutcome};
use reina_manager::download::http::{
    content_length, content_range, delay_for, ensure_identity, header_string, is_retryable_status,
    parse_content_range, parse_unsatisfied_total, retry_after, status_error, ContentRange,
    MAX_RETRY_AFTER,
};
use reina_manager::download::limiter::{Adaptive, Gate};
use reina_manager::download::piece::PieceFetch;
use reina_manager::download::probe::{
    confirmed_probe, interpret_probe, probe_again, reconcile, ProbeResult,
};
use reina_manager::download::progress::{Phase, Progress, Shared};
use reina_manager::download::session::commit_record;
use reina_manager::download::segmented::{
    worker_delay, Scheduler, SegmentStep, WorkerFail, WorkerReport,
};
use reina_manager::download::stream::{
    AfterPass, BeforePass, SingleStream, StreamEnd, StreamOnce, StreamPass, UpgradeProber,
};
use reina_manager::download::types::{
    DownloadOptions, DownloadRequest, Outcome, SharedBudget, MILLISECOND, SECOND,
};
use reina_manager::host::{IoFailure, IoKind};
use reqwest::header::{
    HeaderMap, CONTENT_ENCODING, CONTENT_LENGTH, CONTENT_RANGE, ETAG, LAST_MODIFIED, RETRY_AFTER,
};
use reqwest::StatusCode;
use std::time::{Duration, SystemTime, UNIX_EPOCH};

fn request(size: u64, identity: Option<&str>) -> DownloadRequest {
    DownloadRequest {
        url: "https://example.com/game.7z".to_string(),
        target: "/tmp/game.7z".to_string(),
        expected_size: size,
        identity: identity.map(str::to_string),
    }
}

fn probe(range_supported: bool, total: Option<u64>) -> ProbeResult {
    ProbeResult {
        total,
        range_supported,
        etag: None,
        last_modified: None,
    }
}

fn protocol_text<T>(result: Result<T, DownloadError>) -> String {
    match result {
        Err(DownloadError::Protocol(text)) => text,
        _ => panic!("not a protocol violation"),
    }
}

fn nanos(time: SystemTime) -> u128 {
    time.duration_since(UNIX_EPOCH).unwrap().as_nanos()
}

#[test]
fn piece_geometry() {
    assert_eq!(piece_count(0, 4), 0);
    assert_eq!(piece_count(10, 4), 3);
    assert_eq!(piece_len(10, 4, 0), 4);
    assert_eq!(piece_len(10, 4, 2), 2);
    assert_eq!(piece_count(8, 4), 2);
    assert_eq!(piece_len(8, 4, 1), 4);
}

#[test]
fn pieces_add_up_to_the_target() {
    for (size, piece_size) in [(0u64, 4u64), (1, 4), (4, 4), (10, 4), (u64::MAX, u64::MAX / 3)] {
        let count = piece_count(size, piece_size);
        let sum: u64 = (0..count).map(|index| piece_len(size, piece_size, index)).sum();
        assert_eq!(sum, size);
    }
}

#[test]
fn artifact_paths_cover_control_and_temp() {
    let paths = artifact_paths("/tmp/game.7z");
    assert_eq!(paths[0], "/tmp/game.7z");
    assert_eq!(paths[1], "/tmp/game.7z.reina-dl");
    assert_eq!(paths[2], "/tmp/game.7z.reina-dl.tmp");
    assert_eq!(control_path("/tmp/game.7z"), paths[1]);
    assert_eq!(temp_path("/tmp/game.7z.reina-dl"), paths[2]);
}

#[test]
fn control_files_are_validated_on_load() {
    let mut control = ControlFile::new(10, 4, Some("sha256:ab".to_string()), None, None);
    control.pieces[0] = 4;
    control.pieces[2] = 1;
    assert_eq!(control.written_total(), 5);
    assert!(!control.is_complete());
    let loaded = ControlFile::load(ControlRead::Decoded(control.clone())).unwrap().unwrap();
    assert_eq!(loaded.pieces, vec![4, 0, 1]);
    assert_eq!(loaded.identity.as_deref(), Some("sha256:ab"));

    let mut excessive = control.clone();
    excessive.pieces = vec![9, 0, 0];
    let failure = ControlFile::load(ControlRead::Decoded(excessive)).unwrap_err();
    assert_eq!(failure.kind, IoKind::InvalidData);
    assert_eq!(failure.text, "piece 0 claims 9 bytes of 4");

    let mut short = control.clone();
    short.pieces = vec![4];
    assert_eq!(short.validate().unwrap_err(), "piece count mismatch: expected 3, found 1");
    let mut old = control.clone();
    old.version = 7;
    assert_eq!(old.validate().unwrap_err(), "unsupported control file version 7");
    let mut flat = control.clone();
    flat.piece_size = 0;
    assert_eq!(flat.validate().unwrap_err(), "piece size must be positive");

    let failure = ControlFile::load(ControlRead::Malformed("not json".to_string())).unwrap_err();
    assert_eq!(failure.kind, IoKind::InvalidData);
    assert!(ControlFile::load(ControlRead::Missing).unwrap().is_none());
    let denied = IoFailure::new(IoKind::PermissionDenied, "denied".to_string());
    let failure = ControlFile::load(ControlRead::Unreadable(denied)).unwrap_err();
    assert_eq!(failure.kind, IoKind::PermissionDenied);

    control.pieces = vec![4, 4, 2];
    assert!(control.is_complete());
    assert_eq!(control.written_total(), 10);
    assert_eq!(control.with_pieces(vec![1, 2, 0]).pieces, vec![1, 2, 0]);
}

#[test]
fn parses_content_range_variants() {
    assert_eq!(
        parse_content_range("bytes 0-9/100").unwrap(),
        ContentRange {
            start: 0,
            end: 9,
            total: Some(100)
        }
    );
    assert_eq!(
        parse_content_range("bytes 5-5/*").unwrap(),
        ContentRange {
            start: 5,
            end: 5,
            total: None
        }
    );
    assert!(parse_content_range("bytes 10-9/100").is_err());
    assert!(parse_content_range("bytes 0-100/100").is_err());
    assert!(parse_content_range("bytes */100").is_err());
    assert!(parse_content_range("items 0-1/2").is_err());
    assert_eq!(parse_unsatisfied_total("bytes */42").unwrap(), 42);
    assert!(parse_unsatisfied_total("bytes 0-1/42").is_err());
}

#[test]
fn content_range_violations_are_worded() {
    assert_eq!(
        protocol_text(parse_content_range(" items 0-1/2 ")),
        "Content-Range is not in bytes: items 0-1/2"
    );
    assert_eq!(
        protocol_text(parse_content_range("bytes 0-1")),
        "malformed Content-Range: bytes 0-1"
    );
    assert_eq!(
        protocol_text(parse_content_range("bytes 5/9")),
        "malformed Content-Range: bytes 5/9"
    );
    assert_eq!(
        protocol_text(parse_content_range("bytes */9")),
        "unsatisfied Content-Range where a byte range was expected: bytes */9"
    );
    assert_eq!(
        protocol_text(parse_content_range("bytes 0-1/x")),
        "invalid Content-Range total: invalid digit found in string"
    );
    assert_eq!(
        protocol_text(parse_content_range("bytes x-1/2")),
        "invalid Content-Range start: invalid digit found in string"
    );
    assert_eq!(
        protocol_text(parse_content_range("bytes 0-/2")),
        "invalid Content-Range end: cannot parse integer from empty string"
    );
    assert_eq!(
        protocol_text(parse_content_range("bytes=3-2/9")),
        "invalid Content-Range bounds: bytes=3-2/9"
    );
    assert_eq!(
        protocol_text(parse_unsatisfied_total("bytes 0-1/42")),
        "expected unsatisfied Content-Range, got: bytes 0-1/42"
    );
    assert_eq!(
        protocol_text(parse_unsatisfied_total("items */42")),
        "Content-Range is not in bytes: items */42"
    );
}

#[test]
fn classifies_statuses() {
    assert!(is_retryable_status(StatusCode::TOO_MANY_REQUESTS.as_u16()));
    assert!(is_retryable_status(StatusCode::BAD_GATEWAY.as_u16()));
    assert!(is_retryable_status(StatusCode::REQUEST_TIMEOUT.as_u16()));
    assert!(!is_retryable_status(StatusCode::FORBIDDEN.as_u16()));
    assert!(!is_retryable_status(StatusCode::NOT_FOUND.as_u16()));
    assert!(!is_retryable_status(StatusCode::RANGE_NOT_SATISFIABLE.as_u16()));
    for code in 100..1000u16 {
        let status = StatusCode::from_u16(code).unwrap();
        let expected = status == StatusCode::REQUEST_TIMEOUT
            || status == StatusCode::TOO_EARLY
            || status == StatusCode::TOO_MANY_REQUESTS
            || status.is_server_error();
        assert_eq!(is_retryable_status(code), expected);
    }
    assert_eq!(status_error(404).message(), "HTTP status 404");
    assert_eq!(status_error(503).message(), "retryable HTTP status 503");
}

#[test]
fn parses_retry_after() {
    let mut headers = HeaderMap::new();
    headers.insert(RETRY_AFTER, "7".parse().unwrap());
    assert_eq!(retry_after(&headers, nanos(SystemTime::now())), Some(7 * SECOND));
    headers.insert(RETRY_AFTER, "100000".parse().unwrap());
    assert_eq!(
        retry_after(&headers, nanos(SystemTime::now())),
        Some(MAX_RETRY_AFTER)
    );
    let now = SystemTime::UNIX_EPOCH + Duration::from_secs(1_000_000_000);
    let later = httpdate::fmt_http_date(now + Duration::from_secs(30));
    headers.insert(RETRY_AFTER, later.parse().unwrap());
    assert_eq!(retry_after(&headers, nanos(now)), Some(30 * SECOND));
    headers.insert(RETRY_AFTER, "garbage".parse().unwrap());
    assert_eq!(retry_after(&headers, nanos(now)), None);
}

#[test]
fn retry_after_dates_are_capped_and_never_negative() {
    let mut headers = HeaderMap::new();
    assert_eq!(retry_after(&headers, 0), None);
    headers.insert(RETRY_AFTER, "Sun, 06 Nov 1994 08:49:37 GMT".parse().unwrap());
    let date = 784_111_777u128 * 1_000_000_000;
    assert_eq!(retry_after(&headers, date + 1), Some(0));
    assert_eq!(retry_after(&headers, date - 1), Some(1));
    assert_eq!(retry_after(&headers, 0), Some(MAX_RETRY_AFTER));
    headers.insert(RETRY_AFTER, reqwest::header::HeaderValue::from_bytes(&[0xff]).unwrap());
    assert_eq!(retry_after(&headers, 0), None);
    assert_eq!(delay_for("3", None, 0), Some(3 * SECOND));
    assert_eq!(delay_for("x", Some(10), 4_500_000_000), Some(5_500_000_000));
    assert_eq!(delay_for("x", None, 0), None);
}

#[test]
fn headers_are_read_as_text() {
    let mut headers = HeaderMap::new();
    assert!(content_range(&headers).unwrap().is_none());
    assert!(content_length(&headers).unwrap().is_none());
    assert!(ensure_identity(&headers).is_ok());
    headers.insert(CONTENT_RANGE, "bytes 0-0/7".parse().unwrap());
    assert_eq!(content_range(&headers).unwrap().unwrap().total, Some(7));
    headers.insert(CONTENT_LENGTH, " 12 ".parse().unwrap());
    assert_eq!(content_length(&headers).unwrap(), Some(12));
    headers.insert(CONTENT_LENGTH, "many".parse().unwrap());
    assert_eq!(
        protocol_text(content_length(&headers)),
        "invalid Content-Length: invalid digit found in string"
    );
    let unreadable = reqwest::header::HeaderValue::from_bytes(&[0xe9]).unwrap();
    headers.insert(CONTENT_RANGE, unreadable.clone());
    headers.insert(CONTENT_LENGTH, unreadable.clone());
    headers.insert(CONTENT_ENCODING, unreadable.clone());
    assert_eq!(
        protocol_text(content_range(&headers)),
        "invalid Content-Range header: failed to convert header to a str"
    );
    assert_eq!(
        protocol_text(content_length(&headers)),
        "invalid Content-Length header: failed to convert header to a str"
    );
    assert_eq!(
        protocol_text(ensure_identity(&headers)),
        "invalid Content-Encoding: failed to convert header to a str"
    );
    headers.insert(CONTENT_ENCODING, "Identity".parse().unwrap());
    assert!(ensure_identity(&headers).is_ok());
    headers.insert(CONTENT_ENCODING, "gzip".parse().unwrap());
    assert_eq!(
        protocol_text(ensure_identity(&headers)),
        "unexpected Content-Encoding gzip; byte ranges require identity"
    );
    headers.insert(ETAG, "  \"abc\" ".parse().unwrap());
    assert_eq!(header_string(&headers, "etag").as_deref(), Some("\"abc\""));
    headers.insert(ETAG, "  ".parse().unwrap());
    assert!(header_string(&headers, "etag").is_none());
    headers.append(LAST_MODIFIED, "first".parse().unwrap());
    headers.append(LAST_MODIFIED, "second".parse().unwrap());
    assert_eq!(header_string(&headers, "last-modified").as_deref(), Some("first"));
}

#[test]
fn adaptive_halves_then_grows() {
    let mut adaptive = Adaptive::new(1, 8, 8, 2, 100);
    let start = 100;
    adaptive.on_rate_limited(start, 101, 0);
    assert_eq!(adaptive.current(), 4);
    adaptive.on_rate_limited(start, 102, 0);
    assert_eq!(adaptive.current(), 4);
    adaptive.on_success();
    adaptive.on_success();
    assert_eq!(adaptive.current(), 5);
}

#[test]
fn adaptive_respects_floor() {
    let mut adaptive = Adaptive::new(2, 2, 8, 4, 0);
    adaptive.on_rate_limited(1, 1, 0);
    assert_eq!(adaptive.current(), 2);
}

#[test]
fn adaptive_pauses_everyone() {
    let mut adaptive = Adaptive::new(0, 100, 8, 0, 10);
    assert_eq!((adaptive.min, adaptive.max, adaptive.current()), (1, 8, 8));
    assert_eq!(adaptive.remaining_pause(10), 0);
    adaptive.on_rate_limited(11, 20, 30);
    assert_eq!(adaptive.remaining_pause(20), 30);
    adaptive.on_rate_limited(12, 25, 5);
    assert_eq!(adaptive.remaining_pause(25), 25);
    assert_eq!(worker_delay(&adaptive, 0, 7, 25), 25);
    assert_eq!(worker_delay(&adaptive, 1, 7, 25), BASE_BACKOFF + 7 * MILLISECOND);
    adaptive.on_success();
    assert_eq!(adaptive.current(), 5);
}

#[test]
fn gate_counts_slots() {
    let mut gate = Gate::new(2);
    assert!(gate.acquire());
    assert!(gate.acquire());
    assert!(!gate.acquire());
    gate.release();
    assert!(gate.acquire());
    assert_eq!(SharedBudget::new(0).gate.max, 1);
    assert_eq!(SharedBudget::new(24).gate.max, 24);
}

#[test]
fn waits_double_up_to_half_a_minute() {
    assert_eq!(backoff(0, 999), 0);
    assert_eq!(backoff(1, 0), BASE_BACKOFF);
    assert_eq!(backoff(2, 251), 2 * BASE_BACKOFF + MILLISECOND);
    assert_eq!(backoff(6, 0), 16 * SECOND);
    assert_eq!(backoff(7, 0), MAX_BACKOFF);
    assert_eq!(backoff(u32::MAX, 249), MAX_BACKOFF + 249 * MILLISECOND);
}

#[test]
fn errors_have_classes_and_texts() {
    let inner = DownloadError::Http {
        status: 429,
        retryable: true,
    };
    assert!(inner.is_retryable());
    let exhausted = DownloadError::RetriesExhausted {
        attempts: 3,
        last: Box::new(inner),
    };
    assert!(!exhausted.is_retryable());
    assert_eq!(exhausted.http_status(), Some(429));
    assert_eq!(
        exhausted.message(),
        "gave up after 3 consecutive failures; last error: retryable HTTP status 429"
    );
    let disk = DownloadError::Disk(IoFailure::new(IoKind::Other, "boom".to_string()));
    let all = [
        (status_error(404), "http", "HTTP status 404"),
        (
            DownloadError::SizeMismatch {
                expected: 1,
                actual: 2,
            },
            "size_mismatch",
            "size mismatch: expected 1 bytes, server reports 2",
        ),
        (
            DownloadError::RemoteChanged("x".to_string()),
            "remote_changed",
            "remote resource changed: x",
        ),
        (
            DownloadError::Protocol("x".to_string()),
            "protocol",
            "HTTP protocol violation: x",
        ),
        (
            DownloadError::Network("x".to_string()),
            "network",
            "network error: x",
        ),
        (disk, "disk", "disk error: boom"),
        (
            DownloadError::TargetConflict("/x".to_string()),
            "target_conflict",
            "target already exists without a control file: /x",
        ),
        (
            DownloadError::InvalidConfig("x".to_string()),
            "invalid_config",
            "invalid configuration: x",
        ),
    ];
    for (error, kind, text) in all {
        assert_eq!(error.kind(), kind);
        assert_eq!(error.message(), text);
        assert_eq!(error.is_retryable(), kind == "protocol" || kind == "network");
    }
    assert_eq!(exhausted.kind(), "retries_exhausted");
    assert_eq!(cancelled_error().message(), "network error: cancelled");
    assert_eq!(join_error("x").message(), "disk error: worker task failed: x");
}

#[test]
fn transport_failures_are_classified_in_order() {
    let plain = TransportFailure {
        timeout: false,
        connect: false,
        redirect: false,
        body: false,
        decode: false,
        builder: false,
        request: false,
        text: "t".to_string(),
    };
    let message = |change: fn(&mut TransportFailure)| {
        let mut failure = plain.clone();
        change(&mut failure);
        map_transport(&failure).message()
    };
    assert_eq!(message(|_| {}), "network error: t");
    assert_eq!(
        message(|failure| {
            failure.timeout = true;
            failure.connect = true;
        }),
        "network error: request timed out: t"
    );
    assert_eq!(message(|failure| failure.connect = true), "network error: connection failed: t");
    assert_eq!(
        message(|failure| failure.redirect = true),
        "HTTP protocol violation: redirect policy violated: t"
    );
    assert_eq!(message(|failure| failure.decode = true), "network error: body transfer failed: t");
    assert_eq!(message(|failure| failure.builder = true), "invalid configuration: t");
}

#[test]
fn phases_and_snapshots() {
    for phase in [
        Phase::Probing,
        Phase::Downloading,
        Phase::SingleStream,
        Phase::Finalizing,
        Phase::Done,
        Phase::Cancelled,
    ] {
        assert_eq!(Phase::from_u8(phase.as_u8()), phase);
    }
    assert_eq!(Phase::from_u8(9), Phase::Done);
    let mut shared = Shared::new();
    assert_eq!(shared.snapshot(), Progress::initial());
    shared.set_total(9);
    shared.set_phase(Phase::Downloading);
    shared.start_from(4);
    shared.mark_initialized();
    shared.count_retry();
    let progress = shared.snapshot();
    assert_eq!(
        (progress.phase, progress.total, progress.written, progress.committed, progress.retries),
        (Phase::Downloading, 9, 4, 4, 1)
    );
    assert!(progress.initialized);
    shared.retries = u32::MAX;
    shared.count_retry();
    assert_eq!(shared.retries, 0);
}

#[test]
fn options_have_defaults_and_limits() {
    let options = DownloadOptions::default();
    assert_eq!(options.piece_size, 4 * 1024 * 1024);
    assert_eq!(options.connections(), 1..=8);
    assert_eq!(options.clamped_initial(), 4);
    assert_eq!(options.stall_timeout, 20 * SECOND);
    assert_eq!(options.commit_pause(), 2 * SECOND);
    assert_eq!(options.progress_pause(), 250 * MILLISECOND);
    assert!(options.validate().is_ok());
    let message = |change: fn(&mut DownloadOptions)| {
        let mut options = DownloadOptions::default();
        change(&mut options);
        options.validate().unwrap_err().message()
    };
    assert_eq!(
        message(|options| options.piece_size = 0),
        "invalid configuration: piece_size must be positive"
    );
    assert_eq!(
        message(|options| options.min_connections = 0),
        "invalid configuration: min_connections must be >= 1"
    );
    assert_eq!(
        message(|options| options.max_connections = 0),
        "invalid configuration: max_connections must be >= min_connections"
    );
    let mut narrow = options;
    narrow.initial_connections = 99;
    narrow.commit_interval = 1;
    narrow.progress_interval = 1;
    assert_eq!(narrow.clamped_initial(), 8);
    assert_eq!(narrow.commit_pause(), 100 * MILLISECOND);
    assert_eq!(narrow.progress_pause(), 50 * MILLISECOND);
}

#[test]
fn probe_answers_are_interpreted() {
    let mut headers = HeaderMap::new();
    headers.insert(CONTENT_RANGE, "bytes 0-0/42".parse().unwrap());
    headers.insert(ETAG, "\"v1\"".parse().unwrap());
    let found = interpret_probe(206, &headers).unwrap();
    assert_eq!((found.total, found.range_supported), (Some(42), true));
    assert_eq!(found.etag.as_deref(), Some("\"v1\""));
    assert!(found.last_modified.is_none());

    let mut plain = HeaderMap::new();
    plain.insert(CONTENT_LENGTH, "42".parse().unwrap());
    let found = interpret_probe(200, &plain).unwrap();
    assert_eq!((found.total, found.range_supported), (Some(42), false));
    assert_eq!(protocol_text(interpret_probe(206, &plain)), "206 without Content-Range");

    let mut unsatisfied = HeaderMap::new();
    assert_eq!(protocol_text(interpret_probe(416, &unsatisfied)), "416 without Content-Range");
    unsatisfied.insert(CONTENT_RANGE, "bytes */0".parse().unwrap());
    let found = interpret_probe(416, &unsatisfied).unwrap();
    assert_eq!((found.total, found.range_supported), (Some(0), true));

    assert_eq!(interpret_probe(503, &plain).unwrap_err().http_status(), Some(503));
    plain.insert(CONTENT_ENCODING, "br".parse().unwrap());
    assert!(interpret_probe(200, &plain).unwrap_err().is_retryable());

    assert!(probe_again(&cancelled_error(), 3));
    assert!(!probe_again(&cancelled_error(), 4));
    assert!(!probe_again(&status_error(404), 0));
}

#[test]
fn a_second_probe_may_win() {
    assert!(confirmed_probe(probe(false, Some(5)), Some(probe(true, Some(5)))).range_supported);
    assert!(confirmed_probe(probe(false, None), Some(probe(true, Some(5)))).range_supported);
    assert!(!confirmed_probe(probe(false, Some(5)), Some(probe(true, Some(6)))).range_supported);
    assert!(!confirmed_probe(probe(false, Some(5)), Some(probe(true, None))).range_supported);
    assert!(!confirmed_probe(probe(false, Some(5)), None).range_supported);
}

#[test]
fn resuming_depends_on_identity_and_validators() {
    let existing = |identity: Option<&str>, etag: Option<&str>| {
        let mut control = ControlFile::new(
            10,
            4,
            identity.map(str::to_string),
            etag.map(str::to_string),
            None,
        );
        control.pieces = vec![4, 1, 0];
        Some(control)
    };
    let mut seen = probe(true, Some(10));
    seen.etag = Some("b".to_string());

    let kept = reconcile(existing(Some("id"), Some("a")), &request(10, Some("id")), &seen, 4, 10);
    assert_eq!(kept.pieces, vec![4, 1, 0]);
    let fresh = reconcile(existing(Some("x"), Some("b")), &request(10, Some("id")), &seen, 4, 10);
    assert_eq!(fresh.pieces, vec![0, 0, 0]);
    assert_eq!(fresh.identity.as_deref(), Some("id"));
    assert_eq!(fresh.etag.as_deref(), Some("b"));
    let fresh = reconcile(existing(None, Some("a")), &request(10, Some("id")), &seen, 4, 10);
    assert_eq!(fresh.pieces, vec![0, 0, 0]);
    let kept = reconcile(existing(None, Some("b")), &request(10, None), &seen, 4, 10);
    assert_eq!(kept.pieces, vec![4, 1, 0]);
    let kept = reconcile(existing(None, None), &request(10, None), &seen, 4, 10);
    assert_eq!(kept.pieces, vec![4, 1, 0]);
    let fresh = reconcile(existing(Some("id"), None), &request(10, Some("id")), &seen, 5, 10);
    assert_eq!(fresh.pieces, vec![0, 0]);
    let fresh = reconcile(None, &request(10, None), &seen, 4, 10);
    assert_eq!(fresh.pieces, vec![0, 0, 0]);
}

fn options(connections: usize, failures: u32) -> DownloadOptions {
    DownloadOptions {
        piece_size: 4,
        min_connections: 1,
        initial_connections: connections,
        max_connections: connections,
        max_consecutive_failures: failures,
        ..DownloadOptions::default()
    }
}

fn failed(index: u64, attempt: u32, error: DownloadError, rate_limited: bool) -> WorkerReport {
    WorkerReport {
        index,
        attempt,
        result: Err(WorkerFail {
            error,
            rate_limited,
            retry_after: None,
            attempt_started: 50,
        }),
    }
}

fn finished(index: u64, attempt: u32) -> WorkerReport {
    WorkerReport {
        index,
        attempt,
        result: Ok(piece_len(10, 4, index)),
    }
}

#[test]
fn scheduler_runs_every_unfinished_piece_once() {
    let mut shared = Shared::new();
    let mut scheduler = Scheduler::new(&vec![4, 1, 0], 10, &options(2, 20), 0);
    assert_eq!(
        scheduler.next_step(false, &mut shared),
        SegmentStep::Spawn {
            index: 1,
            attempt: 0
        }
    );
    assert_eq!(shared.connections, 2);
    assert_eq!(
        scheduler.next_step(false, &mut shared),
        SegmentStep::Spawn {
            index: 2,
            attempt: 0
        }
    );
    assert_eq!(scheduler.next_step(false, &mut shared), SegmentStep::Wait);
    assert_eq!(shared.connections, 2);
    scheduler
        .on_report(failed(1, 0, cancelled_error(), false), 100, &mut shared)
        .unwrap();
    assert_eq!(shared.retries, 1);
    scheduler.on_report(finished(2, 0), 100, &mut shared).unwrap();
    assert_eq!(
        scheduler.next_step(false, &mut shared),
        SegmentStep::Spawn {
            index: 1,
            attempt: 1
        }
    );
    scheduler.on_report(finished(1, 1), 100, &mut shared).unwrap();
    assert_eq!(
        scheduler.next_step(false, &mut shared),
        SegmentStep::Finish(Outcome::Completed)
    );
}

#[test]
fn scheduler_gives_up_and_throttles() {
    let mut shared = Shared::new();
    let mut scheduler = Scheduler::new(&vec![0, 0, 0], 10, &options(4, 1), 0);
    for _ in 0..3 {
        scheduler.next_step(false, &mut shared);
    }
    scheduler
        .on_report(failed(0, 0, status_error(429), true), 100, &mut shared)
        .unwrap();
    assert_eq!(scheduler.adaptive.current(), 2);
    assert_eq!(shared.connections, 2);
    assert_eq!(scheduler.adaptive.remaining_pause(100), BASE_BACKOFF);
    assert_eq!(
        scheduler.next_step(true, &mut shared),
        SegmentStep::Finish(Outcome::Cancelled)
    );
    let error = scheduler
        .on_report(failed(1, 0, cancelled_error(), false), 100, &mut shared)
        .unwrap_err();
    assert_eq!(
        error.message(),
        "gave up after 2 consecutive failures; last error: network error: cancelled"
    );
    let mut scheduler = Scheduler::new(&vec![0, 0, 0], 10, &options(1, 1), 0);
    scheduler.next_step(false, &mut shared);
    let error = scheduler
        .on_report(failed(0, 0, status_error(404), false), 100, &mut shared)
        .unwrap_err();
    assert_eq!(error.http_status(), Some(404));
}

#[test]
fn piece_fetch_asks_for_what_is_missing() {
    assert!(PieceFetch::begin(10, 4, 2, 2, 0).is_none());
    let mut fetch = PieceFetch::begin(10, 4, 1, 1, 9).unwrap();
    assert_eq!(fetch.range_header(), "bytes=5-7");
    let mut headers = HeaderMap::new();
    headers.insert(CONTENT_RANGE, "bytes 5-7/10".parse().unwrap());
    headers.insert(CONTENT_LENGTH, "3".parse().unwrap());
    assert!(fetch.on_response(206, &headers, 0).is_ok());
    assert_eq!(fetch.on_chunk(0).unwrap(), None);
    assert_eq!(fetch.on_chunk(2).unwrap(), Some(5));
    let mut shared = Shared::new();
    let mut pieces = vec![4, 1, 0];
    fetch.on_written(2, &mut pieces, &mut shared);
    assert_eq!((fetch.written, shared.written, shared.position), (3, 2, 2));
    assert_eq!(pieces, vec![4, 3, 0]);
    let fail = fetch.finish().unwrap_err();
    assert_eq!(fail.error.message(), "network error: piece 1 ended early: 3 of 4 bytes");
    assert_eq!(fail.attempt_started, 9);
    let fail = fetch.on_chunk(2).unwrap_err();
    assert_eq!(
        fail.error.message(),
        "HTTP protocol violation: piece 1 body exceeded 4 bytes"
    );
    assert_eq!(fetch.on_chunk(1).unwrap(), Some(7));
    fetch.on_written(1, &mut pieces, &mut shared);
    assert_eq!((fetch.written, shared.written), (4, 3));
    assert_eq!(pieces, vec![4, 4, 0]);
    assert!(matches!(fetch.finish(), Ok(slot) if slot == fetch.len));
    assert_eq!(
        fetch.on_stall(20 * SECOND).error.message(),
        "network error: no data for 20 s on piece 1"
    );
}

#[test]
fn piece_responses_have_to_match_the_request() {
    let fetch = PieceFetch::begin(10, 4, 1, 0, 0).unwrap();
    let mut headers = HeaderMap::new();
    headers.insert(RETRY_AFTER, "2".parse().unwrap());
    let fail = fetch.on_response(429, &headers, 0).unwrap_err();
    assert!(fail.rate_limited);
    assert_eq!(fail.retry_after, Some(2 * SECOND));
    let fail = fetch.on_response(200, &headers, 0).unwrap_err();
    assert!(!fail.rate_limited);
    assert_eq!(
        fail.error.message(),
        "HTTP protocol violation: server stopped honoring range requests"
    );
    let fail = fetch.on_response(206, &headers, 0).unwrap_err();
    assert_eq!(fail.error.message(), "HTTP protocol violation: 206 without Content-Range");
    assert!(fail.retry_after.is_none());
    headers.insert(CONTENT_RANGE, "bytes 4-6/10".parse().unwrap());
    let fail = fetch.on_response(206, &headers, 0).unwrap_err();
    assert_eq!(
        fail.error.message(),
        "HTTP protocol violation: Content-Range mismatch: asked 4-7, got 4-6"
    );
    headers.insert(CONTENT_RANGE, "bytes 4-7/10".parse().unwrap());
    headers.insert(CONTENT_LENGTH, "9".parse().unwrap());
    let fail = fetch.on_response(206, &headers, 0).unwrap_err();
    assert_eq!(
        fail.error.message(),
        "HTTP protocol violation: Content-Length mismatch for piece 1: expected 4, got 9"
    );
}

#[test]
fn single_stream_fills_pieces_in_order() {
    let mut shared = Shared::new();
    let mut pieces = vec![0, 0, 0];
    let mut pass = StreamOnce::new(10, 4);
    let mut headers = HeaderMap::new();
    headers.insert(CONTENT_LENGTH, "10".parse().unwrap());
    assert!(pass.on_response(200, &headers).is_ok());
    assert_eq!(pass.on_response(500, &headers).unwrap_err().http_status(), Some(500));
    assert_eq!(pass.on_chunk(0).unwrap(), None);
    assert_eq!(pass.on_chunk(5).unwrap(), Some(0));
    assert_eq!(pass.on_written(5, &mut pieces, &mut shared, false), None);
    assert_eq!(pieces, vec![4, 1, 0]);
    assert_eq!(shared.written, 5);
    assert_eq!(
        pass.on_chunk(6).unwrap_err().message(),
        "HTTP protocol violation: body exceeded expected size"
    );
    assert_eq!(
        pass.finish().unwrap_err().message(),
        "network error: single stream ended early: 5 of 10 bytes"
    );
    assert_eq!(
        pass.on_written(5, &mut pieces, &mut shared, true),
        Some(StreamPass::Upgrade)
    );
    assert_eq!(pieces, vec![4, 4, 2]);
    assert_eq!(pass.finish().unwrap(), StreamPass::Complete);
    assert_eq!(pass.on_stall().message(), "network error: single stream stalled");
    headers.insert(CONTENT_LENGTH, "11".parse().unwrap());
    assert_eq!(
        pass.on_response(200, &headers).unwrap_err().message(),
        "size mismatch: expected 10 bytes, server reports 11"
    );
}

#[test]
fn single_stream_restarts_from_zero() {
    let mut shared = Shared::new();
    let mut mode = SingleStream::new(1, &mut shared);
    assert_eq!(shared.connections, 1);
    let mut pieces = vec![4, 2, 0];
    assert_eq!(mode.before_pass(true, true), BeforePass::End(StreamEnd::Cancelled));
    assert_eq!(mode.before_pass(false, true), BeforePass::End(StreamEnd::Upgraded));
    assert_eq!(mode.before_pass(false, false), BeforePass::Run);
    shared.set_position(6);
    let next = mode.after_pass(Err(cancelled_error()), false, &mut pieces, &mut shared);
    assert!(matches!(next, AfterPass::Again));
    assert_eq!(pieces, vec![0, 0, 0]);
    assert_eq!((shared.written, shared.position, shared.retries), (6, 0, 1));
    let mut pass = StreamOnce::new(10, 4);
    pass.on_written(5, &mut vec![0, 0, 0], &mut shared, false);
    assert_eq!((shared.written, shared.position), (6, 5));
    pass.on_written(4, &mut vec![0, 0, 0], &mut shared, false);
    assert_eq!((shared.written, shared.position), (9, 9));
    assert_eq!(mode.before_pass(false, false), BeforePass::Wait(1));
    let next = mode.after_pass(Err(cancelled_error()), true, &mut pieces, &mut shared);
    match next {
        AfterPass::End(Err(error)) => assert_eq!(error.kind(), "retries_exhausted"),
        _ => panic!("the budget is spent"),
    }
    let mut mode = SingleStream::new(5, &mut shared);
    let next = mode.after_pass(Err(cancelled_error()), true, &mut pieces, &mut shared);
    assert!(matches!(next, AfterPass::End(Ok(StreamEnd::Upgraded))));
    let next = mode.after_pass(Err(status_error(404)), true, &mut pieces, &mut shared);
    assert!(matches!(next, AfterPass::End(Err(DownloadError::Http { .. }))));
    let next = mode.after_pass(Ok(StreamPass::Complete), false, &mut pieces, &mut shared);
    assert!(matches!(next, AfterPass::End(Ok(StreamEnd::Completed))));
}

#[test]
fn upgrade_probes_start_early() {
    let mut prober = UpgradeProber::new(10 * SECOND);
    assert_eq!(prober.next_delay(), 2 * SECOND);
    assert_eq!(prober.next_delay(), 10 * SECOND);
    assert_eq!(UpgradeProber::new(0).next_delay(), 100 * MILLISECOND);
    assert!(prober.upgrades(&Ok(probe(true, None))));
    assert!(!prober.upgrades(&Ok(probe(false, None))));
    assert!(!prober.upgrades(&Err(cancelled_error())));
}

#[test]
fn positioned_writes_go_on_after_short_ones() {
    let mut write = PositionedWrite::new(100, 5);
    assert_eq!(write.next_position(), Some(100));
    write.on_write(WriteOutcome::Wrote(2)).unwrap();
    assert_eq!(write.next_position(), Some(102));
    write.on_write(WriteOutcome::Interrupted).unwrap();
    assert_eq!(write.next_position(), Some(102));
    assert_eq!(
        write.on_write(WriteOutcome::Wrote(0)).unwrap_err().text,
        "positioned write returned zero bytes"
    );
    let full = IoFailure::new(IoKind::Other, "disk full".to_string());
    assert_eq!(write.on_write(WriteOutcome::Failed(full)).unwrap_err().text, "disk full");
    write.on_write(WriteOutcome::Wrote(3)).unwrap();
    assert_eq!(write.next_position(), None);
    let missing = IoFailure::new(IoKind::NotFound, "gone".to_string());
    assert!(remove_if_exists(Err(missing)).is_ok());
    assert!(remove_if_exists(Ok(())).is_ok());
    let denied = IoFailure::new(IoKind::PermissionDenied, "no".to_string());
    assert_eq!(remove_if_exists(Err(denied)).unwrap_err().text, "no");
}

#[test]
fn recorded_progress_survives_a_new_address() {
    let template = ControlFile::new(10, 4, None, Some("b".to_string()), None);
    let (record, sum) = commit_record(&template, vec![4, 1, 0]);
    assert_eq!(sum, 5);
    let loaded = ControlFile::load(ControlRead::Decoded(record)).unwrap();
    let mut seen = probe(true, Some(10));
    seen.etag = Some("b".to_string());
    let mut wanted = request(10, None);
    wanted.url = "https://mirror.example.com/signed".to_string();
    let kept = reconcile(loaded, &wanted, &seen, 4, 10);
    assert_eq!(kept.pieces, vec![4, 1, 0]);
    assert_eq!(kept.written_total(), 5);
}

#[test]
fn byte_counters_move_apart() {
    let mut shared = Shared::new();
    shared.start_from(5);
    shared.count_written(3);
    assert_eq!((shared.written, shared.committed), (8, 5));
    shared.start_from(2);
    assert_eq!((shared.written, shared.position, shared.committed), (8, 2, 2));
    shared.count_written(1);
    assert_eq!((shared.written, shared.position), (8, 3));
    shared.set_committed(8);
    assert_eq!(shared.snapshot().committed, 8);
}

#[test]
fn a_shorter_delay_does_not_shorten_the_pause() {
    let mut adaptive = Adaptive::new(1, 4, 8, 8, 0);
    adaptive.on_rate_limited(5, 10, 100);
    adaptive.on_rate_limited(5, 20, 30);
    assert_eq!(adaptive.remaining_pause(30), 80);
    assert_eq!(adaptive.remaining_pause(200), 0);
    adaptive.on_rate_limited(5, 40, 100);
    assert_eq!(adaptive.remaining_pause(40), 100);
}

#[test]
fn periodic_commits_flush_before_they_record() {
    let template = ControlFile::new(10, 4, None, None, None);
    let mut shared = Shared::new();
    let (mut commit, action) = PeriodicCommit::begin(&template, vec![4, 1, 0]);
    assert!(matches!(action, CommitAction::SyncData));
    assert!(matches!(commit.on_synced(Ok(())), CommitAction::SaveControl));
    assert_eq!(commit.record.pieces, vec![4, 1, 0]);
    assert_eq!(shared.committed, 0);
    let action = commit.on_saved(Ok(()), &mut shared);
    assert!(matches!(action, CommitAction::Finish(Ok(()))));
    assert_eq!(shared.committed, 5);
    assert_eq!(commit.stage, CommitStage::Shown);

    let (mut commit, _) = PeriodicCommit::begin(&template, vec![4, 4, 2]);
    let action = commit.on_synced(Err(cancelled_error()));
    assert!(matches!(action, CommitAction::Finish(Err(_))));
    let (mut commit, _) = PeriodicCommit::begin(&template, vec![4, 4, 2]);
    commit.on_synced(Ok(()));
    let action = commit.on_saved(Err(cancelled_error()), &mut shared);
    assert!(matches!(action, CommitAction::Finish(Err(_))));
    assert_eq!(shared.committed, 5);
}
