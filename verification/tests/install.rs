use reina_manager::download::error::DownloadError;
use reina_manager::download::progress::{Phase, Progress};
use reina_manager::download::types::Outcome;
use reina_manager::host::{IoFailure, IoKind};
use reina_manager::install::hash::{to_hex, Algorithm, FileHasher};
use reina_manager::install::task::{
    cancelled_progress_watermark, check_task_control, engine_request, judge_url, legacy_artifacts,
    map_download_error, validate_request, DownloadTask, Report, TaskEnd, GLOBAL_CONNECTION_BUDGET,
};
use reina_manager::install::types::{InstallRequest, TaskControl, TaskFailure};
use reina_manager::install::verify::{
    compare_checksum, finish_hash, plan_verify, read_failed, start_hash, VerifyPlan,
};

fn request_for_size(size: u64) -> InstallRequest {
    InstallRequest {
        provider: "self-hosted".to_string(),
        url: "https://example.com/game.zip".to_string(),
        size,
        checksum_algo: None,
        checksum: None,
        expires_at: None,
    }
}

fn io(text: &str) -> IoFailure {
    IoFailure::new(IoKind::Other, text.to_string())
}

fn verify(request: &InstallRequest, contents: &[u8]) -> Result<(), TaskFailure> {
    match plan_verify(request, Ok(contents.len() as u64)) {
        VerifyPlan::Passed => Ok(()),
        VerifyPlan::Failed(failure) => Err(failure),
        VerifyPlan::Hash {
            algorithm,
            expected,
        } => {
            let mut hasher = start_hash(&algorithm, Ok(()))?;
            for chunk in contents.chunks(3) {
                assert!(hasher.update(chunk));
            }
            finish_hash(hasher, &expected)
        }
    }
}

#[test]
fn classifies_terminal_download_http_statuses() {
    let http = |status: u16, retryable: bool| DownloadError::Http { status, retryable };
    assert_eq!(
        map_download_error(&http(401, false), "sena-repo").code,
        "download_authorization_failed"
    );
    assert_eq!(
        map_download_error(&http(403, false), "sena-repo").code,
        "download_request_forbidden"
    );
    assert_eq!(
        map_download_error(&http(429, true), "sena-repo").code,
        "download_rate_limited"
    );
    for status in [502, 503, 504] {
        assert_eq!(
            map_download_error(&http(status, true), "sena-repo").code,
            "download_server_unavailable"
        );
    }
    let exhausted = DownloadError::RetriesExhausted {
        attempts: 21,
        last: Box::new(http(429, true)),
    };
    assert_eq!(
        map_download_error(&exhausted, "sena-repo").code,
        "download_rate_limited"
    );
    assert_eq!(
        map_download_error(&http(500, true), "sena-repo").code,
        "download_failed"
    );
}

#[test]
fn maps_non_http_errors() {
    assert_eq!(
        map_download_error(
            &DownloadError::SizeMismatch {
                expected: 10,
                actual: 9
            },
            "p"
        )
        .code,
        "size_mismatch"
    );
    assert_eq!(
        map_download_error(&DownloadError::TargetConflict("/tmp/x".to_string()), "p").code,
        "download_target_conflict"
    );
    assert_eq!(
        map_download_error(&DownloadError::Disk(io("boom")), "p").code,
        "task_file_failed"
    );
}

#[test]
fn failed_downloads_are_worded() {
    let message = |error: DownloadError| map_download_error(&error, "站点").message;
    assert_eq!(
        message(DownloadError::Http {
            status: 401,
            retryable: false
        }),
        "下载授权已失效，请重新从资源提供方（站点）推送任务"
    );
    assert_eq!(
        message(DownloadError::SizeMismatch {
            expected: 10,
            actual: 9
        }),
        "服务器文件大小与请求不一致：期望 10，实际 9"
    );
    assert_eq!(
        message(DownloadError::TargetConflict("/tmp/x".to_string())),
        "下载目标位置已有无法识别的文件，请清理后重试: /tmp/x"
    );
    assert_eq!(message(DownloadError::Disk(io("boom"))), "boom");
    let invalid = DownloadError::InvalidConfig("bad".to_string());
    assert_eq!(map_download_error(&invalid, "p").code, "invalid_payload");
    assert_eq!(
        message(DownloadError::Network("down".to_string())),
        "network error: down"
    );
}

#[test]
fn probing_cancel_keeps_database_watermark() {
    let progress = Progress {
        phase: Phase::Cancelled,
        initialized: false,
        committed: 0,
        ..Progress::initial()
    };

    assert_eq!(cancelled_progress_watermark(progress, 128, 512), 128);
}

#[test]
fn initialized_cancel_persists_a_real_zero_reset() {
    let progress = Progress {
        phase: Phase::Cancelled,
        initialized: true,
        committed: 0,
        ..Progress::initial()
    };

    assert_eq!(cancelled_progress_watermark(progress, 128, 512), 0);
}

#[test]
fn verifies_size_when_checksum_is_absent() {
    assert!(verify(&request_for_size(3), b"abc").is_ok());
}

#[test]
fn rejects_size_mismatch_when_checksum_is_absent() {
    let failure = verify(&request_for_size(4), b"abc").unwrap_err();
    assert_eq!(failure.code, "size_mismatch");
    assert_eq!(failure.message, "文件大小校验失败：期望 4，实际 3");
}

#[test]
fn verifies_sha256_when_checksum_is_present() {
    let mut request = request_for_size(3);
    request.checksum_algo = Some("sha256".to_string());
    request.checksum =
        Some("ba7816bf8f01cfea414140de5dae2223b00361a396177a9cb410ff61f20015ad".to_string());
    assert!(verify(&request, b"abc").is_ok());
}

#[test]
fn each_algorithm_has_its_own_checksum() {
    let mut request = request_for_size(3);
    request.checksum_algo = Some("sha256".to_string());
    request.checksum =
        Some("ba7816bf8f01cfea414140de5dae2223b00361a396177a9cb410ff61f20015ad".to_string());
    assert_eq!(verify(&request, b"abd").unwrap_err().code, "checksum_mismatch");
    request.checksum_algo = Some("blake3".to_string());
    assert_eq!(verify(&request, b"abc").unwrap_err().code, "checksum_mismatch");
    request.checksum =
        Some("6437b3ac38465133ffb63b75273a8db548c558465d79db03fd359c6cd5bd9d85".to_string());
    assert!(verify(&request, b"abc").is_ok());
    request.checksum_algo = Some("md5".to_string());
    assert_eq!(verify(&request, b"abc").unwrap_err().code, "unsupported_checksum");
    request.checksum_algo = None;
    assert_eq!(verify(&request, b"abc").unwrap_err().code, "invalid_checksum");
}

#[test]
fn rejects_checksum_mismatch() {
    let mut request = request_for_size(3);
    request.checksum_algo = Some("sha256".to_string());
    request.checksum = Some("0".repeat(64));
    let failure = verify(&request, b"abc").unwrap_err();
    assert_eq!(failure.code, "checksum_mismatch");
    assert!(compare_checksum("ab", "ab").is_ok());
    assert_eq!(compare_checksum("ab", "AB").unwrap_err().message, "下载文件哈希校验失败");
}

#[test]
fn unreadable_files_fail_the_check() {
    let request = request_for_size(3);
    match plan_verify(&request, Err(io("gone"))) {
        VerifyPlan::Failed(failure) => {
            assert_eq!((failure.code.as_str(), failure.message.as_str()), ("verify_failed", "gone"))
        }
        _ => panic!("an unreadable file cannot pass"),
    }
    let failure = start_hash("sha256", Err(io("locked"))).err().unwrap();
    assert_eq!(failure.message, "locked");
    assert_eq!(read_failed(&io("torn")).code, "verify_failed");
}

#[test]
fn digests_are_hexadecimal() {
    assert_eq!(to_hex(&vec![0, 0x0f, 0xa0, 0xff]), "000fa0ff");
    let digest = |algorithm, bytes: &[u8]| {
        let mut hasher = FileHasher::new(algorithm);
        assert!(hasher.update(bytes));
        hasher.finish()
    };
    assert_eq!(
        digest(Algorithm::Sha256, b""),
        "e3b0c44298fc1c149afbf4c8996fb92427ae41e4649b934ca495991b7852b855"
    );
    assert_eq!(
        digest(Algorithm::Blake3, b""),
        "af1349b9f5f9a1a6a0404dea36dcc9499bcb25c9adc112b7cc9a93cae41f3262"
    );
}

#[test]
fn requests_are_validated() {
    let mut request = request_for_size(3);
    assert!(validate_request(&request, 0).is_ok());
    request.expires_at = Some(100);
    assert!(validate_request(&request, 99).is_ok());
    let failure = validate_request(&request, 100).unwrap_err();
    assert_eq!(failure.code, "url_expired");
    assert_eq!(failure.message, "下载直链已过期，请重新从资源提供方（self-hosted）推送任务");
    for (url, message) in [
        ("not a url", "下载 URL 无效"),
        ("ftp://example.com/x", "下载地址仅支持具有主机名的 HTTP/HTTPS URL"),
        ("data:text/plain,x", "下载地址仅支持具有主机名的 HTTP/HTTPS URL"),
    ] {
        let mut request = request_for_size(3);
        request.url = url.to_string();
        let failure = validate_request(&request, 0).unwrap_err();
        assert_eq!((failure.code.as_str(), failure.message.as_str()), ("invalid_url", message));
    }
    let mut request = request_for_size(3);
    request.url = "HTTP://EXAMPLE.com".to_string();
    assert!(validate_request(&request, 0).is_ok());
    assert!(judge_url(&Some(("https".to_string(), Some("h".to_string())))).is_ok());
    assert!(judge_url(&Some(("https".to_string(), None))).is_err());
    assert!(judge_url(&None).is_err());
}

#[test]
fn the_engine_gets_an_identity() {
    let mut request = request_for_size(3);
    assert!(engine_request(&request, "/p").identity.is_none());
    request.checksum_algo = Some("sha256".to_string());
    request.checksum = Some("ab".to_string());
    let wanted = engine_request(&request, "/p");
    assert_eq!(wanted.identity.as_deref(), Some("sha256:ab"));
    assert_eq!((wanted.target.as_str(), wanted.expected_size), ("/p", 3));
    assert_eq!(legacy_artifacts("/p"), vec!["/p.part", "/p.part.lock"]);
    assert_eq!(GLOBAL_CONNECTION_BUDGET, 24);
}

#[test]
fn progress_is_stored_where_it_changed() {
    let task = DownloadTask::new(&request_for_size(512), 128);
    let mut progress = Progress::initial();
    assert_eq!(task.on_tick(progress), None);
    progress.initialized = true;
    progress.committed = 128;
    progress.written = 999;
    assert_eq!(
        task.on_tick(progress),
        Some(Report {
            store: None,
            committed: 128,
            total: 512,
            received: 512
        })
    );
    progress.committed = 600;
    assert_eq!(task.on_tick(progress).unwrap().store, Some(512));
    let mut task = task;
    assert!(!task.on_persisted(progress, Ok(())));
    assert_eq!(task.last_persisted, 512);
    assert_eq!(DownloadTask::new(&request_for_size(1), -5).last_persisted, 0);
}

#[test]
fn a_task_ends_as_it_was_asked_to() {
    let progress = Progress {
        initialized: true,
        committed: 7,
        written: 9,
        ..Progress::initial()
    };
    let mut task = DownloadTask::new(&request_for_size(10), 3);
    assert!(!task.on_control(Some(TaskControl::Running)));
    assert!(task.on_control(Some(TaskControl::Pause)));
    match task.on_engine(Ok(Outcome::Cancelled), progress) {
        TaskEnd::Stopped { report, failure } => {
            assert_eq!(failure.code, "paused");
            assert_eq!(
                report,
                Report {
                    store: Some(7),
                    committed: 7,
                    total: 10,
                    received: 9
                }
            );
        }
        _ => panic!("a paused task stops"),
    }
    let mut task = DownloadTask::new(&request_for_size(10), 3);
    assert!(task.on_control(None));
    match task.on_engine(Ok(Outcome::Cancelled), Progress::initial()) {
        TaskEnd::Stopped { report, failure } => {
            assert_eq!(failure.code, "cancelled");
            assert_eq!((report.store, report.committed, report.received), (None, 3, 3));
        }
        _ => panic!("a cancelled task stops"),
    }
    let task = DownloadTask::new(&request_for_size(10), 3);
    assert!(matches!(
        task.on_engine(Ok(Outcome::Completed), progress),
        TaskEnd::Done { total: 10 }
    ));
    let mut task = DownloadTask::new(&request_for_size(10), 3);
    assert!(task.on_persisted(progress, Err(TaskFailure::new("db", "broken"))));
    match task.on_engine(Ok(Outcome::Cancelled), progress) {
        TaskEnd::Failed(failure) => assert_eq!(failure.code, "db"),
        _ => panic!("the storage failure is given"),
    }
}

#[test]
fn stopped_tasks_do_not_start() {
    assert!(check_task_control(TaskControl::Running).is_ok());
    assert_eq!(check_task_control(TaskControl::Pause).unwrap_err().code, "paused");
    assert_eq!(check_task_control(TaskControl::Cancel).unwrap_err().code, "cancelled");
}
