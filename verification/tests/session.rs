use reina_manager::download::control::ControlFile;
use reina_manager::download::error::{cancelled_error, DownloadError};
use reina_manager::download::http::status_error;
use reina_manager::download::probe::ProbeResult;
use reina_manager::download::progress::Phase;
use reina_manager::download::session::{
    commit_record, plan_download, Session, SessionAction, Stage, StartPlan,
};
use reina_manager::download::stream::StreamEnd;
use reina_manager::download::types::{
    DownloadOptions, DownloadRequest, Outcome, MILLISECOND, SECOND,
};
use reina_manager::host::{IoFailure, IoKind};

fn request() -> DownloadRequest {
    DownloadRequest {
        url: "https://example.com/game.7z".to_string(),
        target: "/tmp/game.7z".to_string(),
        expected_size: 10,
        identity: Some("sha256:ab".to_string()),
    }
}

fn options() -> DownloadOptions {
    DownloadOptions {
        piece_size: 4,
        ..DownloadOptions::default()
    }
}

fn existing() -> ControlFile {
    let mut control = ControlFile::new(10, 4, Some("sha256:ab".to_string()), None, None);
    control.pieces = vec![4, 1, 0];
    control
}

fn probe(range_supported: bool, total: Option<u64>) -> ProbeResult {
    ProbeResult {
        total,
        range_supported,
        etag: None,
        last_modified: None,
    }
}

fn failure(text: &str) -> IoFailure {
    IoFailure::new(IoKind::Other, text.to_string())
}

fn finish(action: SessionAction) -> Result<Outcome, DownloadError> {
    match action {
        SessionAction::Finish(result) => result,
        other => panic!("not finished: {other:?}"),
    }
}

#[test]
fn targets_without_control_file_are_complete_or_foreign() {
    let plan = plan_download(&request(), &options(), false, Ok(None), Some(10));
    assert!(matches!(plan, StartPlan::AlreadyComplete));
    let plan = plan_download(&request(), &options(), false, Ok(None), Some(9));
    match plan {
        StartPlan::Refuse(error) => assert_eq!(error.kind(), "target_conflict"),
        _ => panic!("a foreign file is not touched"),
    }
    let plan = plan_download(&request(), &options(), false, Ok(None), None);
    assert!(matches!(plan, StartPlan::Run(None)));
    let plan = plan_download(&request(), &options(), true, Ok(Some(existing())), Some(10));
    assert!(matches!(plan, StartPlan::Run(Some(_))));
    let plan = plan_download(&request(), &options(), true, Err(failure("bad")), Some(10));
    assert!(matches!(plan, StartPlan::Run(None)));
    let mut wrong = options();
    wrong.piece_size = 0;
    let plan = plan_download(&request(), &wrong, true, Ok(None), None);
    match plan {
        StartPlan::Refuse(error) => assert_eq!(error.kind(), "invalid_config"),
        _ => panic!("the options are unusable"),
    }
}

#[test]
fn a_download_resumes_and_completes() {
    let mut session = Session::new(request(), options(), Some(existing()));
    assert_eq!((session.shared.written, session.shared.committed), (5, 5));
    assert_eq!(session.shared.total, 0);
    let action = session.on_probed(Ok(probe(true, Some(10))), 0);
    assert_eq!(session.shared.total, 10);
    assert!(matches!(action, SessionAction::InspectTarget));
    let action = session.on_target(Some(10));
    assert!(matches!(action, SessionAction::SaveControl));
    assert_eq!(session.control.as_ref().unwrap().pieces, vec![4, 1, 0]);
    assert!(!session.shared.initialized);
    assert!(matches!(session.on_saved(Ok(())), SessionAction::OpenTarget));
    assert!(matches!(session.on_opened(Ok(())), SessionAction::StartSegmented));
    assert!(session.shared.initialized);
    assert_eq!(session.shared.phase, Phase::Downloading.as_u8());
    let action = session.on_segmented(Ok(Outcome::Completed));
    assert!(matches!(action, SessionAction::StopCommitter));
    assert!(matches!(session.on_stopped(vec![4, 4, 2]), SessionAction::SyncData));
    assert!(matches!(session.on_synced(Ok(())), SessionAction::SaveControl));
    assert!(matches!(session.on_recorded(Ok(())), SessionAction::SyncAll));
    assert_eq!(session.shared.committed, 10);
    assert_eq!(session.shared.phase, Phase::Finalizing.as_u8());
    assert!(matches!(session.on_flushed(Ok(())), SessionAction::RemoveControl));
    assert_eq!(finish(session.on_removed(Ok(()))).unwrap(), Outcome::Completed);
    assert_eq!(session.stage, Stage::Completed);
    assert_eq!(session.shared.phase, Phase::Done.as_u8());
}

#[test]
fn progress_counts_only_for_a_target_of_the_right_length() {
    for seen in [None, Some(9)] {
        let mut session = Session::new(request(), options(), Some(existing()));
        session.on_probed(Ok(probe(true, Some(10))), 0);
        session.on_target(seen);
        assert_eq!(session.control.as_ref().unwrap().pieces, vec![0, 0, 0]);
    }
}

#[test]
fn a_server_without_ranges_is_asked_twice() {
    let mut session = Session::new(request(), options(), Some(existing()));
    let action = session.on_probed(Ok(probe(false, Some(10))), 0);
    assert!(matches!(action, SessionAction::Sleep(wait) if wait == 1500 * MILLISECOND));
    assert!(matches!(session.on_slept(), SessionAction::Probe));
    assert!(matches!(session.on_confirmed(Err(cancelled_error())), SessionAction::InspectTarget));
    assert_eq!(session.control.as_ref().unwrap().pieces, vec![0, 0, 0]);
    session.on_target(Some(10));
    session.on_saved(Ok(()));
    assert!(matches!(session.on_opened(Ok(())), SessionAction::StartSingleStream));
    assert_eq!(session.shared.phase, Phase::SingleStream.as_u8());
    let shared = session.shared;
    assert_eq!((shared.written, shared.position, shared.committed), (5, 0, 0));
    let action = session.on_stream(Ok(StreamEnd::Upgraded));
    assert!(matches!(action, SessionAction::SwitchToSegmented));
    assert_eq!(session.shared.phase, Phase::Downloading.as_u8());
    session.on_segmented(Ok(Outcome::Cancelled));
    session.on_stopped(vec![4, 0, 0]);
    session.on_synced(Ok(()));
    assert_eq!(finish(session.on_recorded(Ok(()))).unwrap(), Outcome::Cancelled);
    assert_eq!(session.shared.committed, 4);

    let mut session = Session::new(request(), options(), Some(existing()));
    session.on_probed(Ok(probe(false, Some(10))), 0);
    session.on_slept();
    session.on_confirmed(Ok(probe(true, Some(10))));
    assert!(session.ranged);
    assert_eq!(session.control.as_ref().unwrap().pieces, vec![4, 1, 0]);
}

#[test]
fn probes_are_repeated_a_few_times() {
    let mut session = Session::new(request(), options(), None);
    for attempt in 1..5u64 {
        let action = session.on_probed(Err(cancelled_error()), 3);
        let expected = (500 << (attempt - 1)) * MILLISECOND + 3 * MILLISECOND;
        assert!(matches!(action, SessionAction::Sleep(wait) if wait == expected));
        assert!(matches!(session.on_slept(), SessionAction::Probe));
    }
    assert_eq!(session.shared.retries, 4);
    let error = finish(session.on_probed(Err(cancelled_error()), 3)).unwrap_err();
    assert_eq!(error.message(), "network error: cancelled");

    let mut session = Session::new(request(), options(), None);
    assert_eq!(
        finish(session.on_probed(Err(status_error(404)), 0)).unwrap_err().http_status(),
        Some(404)
    );
    let mut impatient = options();
    impatient.stall_timeout = 100 * MILLISECOND;
    let mut session = Session::new(request(), impatient, None);
    let action = session.on_probed(Err(cancelled_error()), 0);
    assert!(matches!(action, SessionAction::Sleep(wait) if wait == SECOND / 10));
}

#[test]
fn a_wrong_size_ends_the_session_before_the_disk_is_touched() {
    let mut session = Session::new(request(), options(), None);
    let error = finish(session.on_probed(Ok(probe(true, Some(11))), 0)).unwrap_err();
    assert_eq!(error.message(), "size mismatch: expected 10 bytes, server reports 11");
    assert!(session.control.is_none());
    assert_eq!(session.shared.total, 0);
}

#[test]
fn a_complete_target_is_finalized_at_once() {
    let mut done = existing();
    done.pieces = vec![4, 4, 2];
    let mut session = Session::new(request(), options(), Some(done));
    session.on_probed(Ok(probe(true, None)), 0);
    session.on_target(Some(10));
    session.on_saved(Ok(()));
    assert!(matches!(session.on_opened(Ok(())), SessionAction::SyncAll));
    let mut empty = request();
    empty.expected_size = 0;
    let mut session = Session::new(empty, options(), None);
    session.on_probed(Ok(probe(true, Some(0))), 0);
    session.on_target(None);
    session.on_saved(Ok(()));
    assert!(matches!(session.on_opened(Ok(())), SessionAction::SyncAll));
}

#[test]
fn cancelling_while_probing_touches_nothing() {
    let mut session = Session::new(request(), options(), Some(existing()));
    assert_eq!(finish(session.on_cancel()).unwrap(), Outcome::Cancelled);
    assert!(!session.shared.initialized);
    assert_eq!(session.shared.total, 0);
    assert_eq!(session.shared.phase, Phase::Cancelled.as_u8());
    assert_eq!(session.shared.committed, 5);
}

#[test]
fn the_transfer_error_outweighs_the_commit_error() {
    let start = |outcome: Result<Outcome, DownloadError>| {
        let mut session = Session::new(request(), options(), None);
        session.on_probed(Ok(probe(true, Some(10))), 0);
        session.on_target(None);
        session.on_saved(Ok(()));
        session.on_opened(Ok(()));
        let full = matches!(outcome, Ok(Outcome::Completed));
        session.on_segmented(outcome);
        session.on_stopped(if full { vec![4, 4, 2] } else { vec![0, 0, 1] });
        session
    };
    let mut session = start(Err(status_error(404)));
    let error = finish(session.on_synced(Err(DownloadError::Disk(failure("sync"))))).unwrap_err();
    assert_eq!(error.http_status(), Some(404));
    let mut session = start(Ok(Outcome::Completed));
    let error = finish(session.on_synced(Err(DownloadError::Disk(failure("sync"))))).unwrap_err();
    assert_eq!(error.message(), "disk error: sync");
    let mut session = start(Err(status_error(404)));
    session.on_synced(Ok(()));
    let error = finish(session.on_recorded(Ok(()))).unwrap_err();
    assert_eq!(error.http_status(), Some(404));
    assert_eq!(session.shared.committed, 1);
    let mut session = start(Ok(Outcome::Cancelled));
    session.on_synced(Ok(()));
    let error = finish(session.on_recorded(Err(DownloadError::Disk(failure("save"))))).unwrap_err();
    assert_eq!(error.message(), "disk error: save");
}

#[test]
fn disk_failures_end_the_session() {
    let mut session = Session::new(request(), options(), None);
    session.on_probed(Ok(probe(true, Some(10))), 0);
    session.on_target(None);
    let error = finish(session.on_saved(Err(failure("full")))).unwrap_err();
    assert_eq!(error.message(), "disk error: full");
    let mut session = Session::new(request(), options(), None);
    session.on_probed(Ok(probe(true, Some(10))), 0);
    session.on_target(None);
    session.on_saved(Ok(()));
    let error = finish(session.on_opened(Err(DownloadError::Disk(failure("open"))))).unwrap_err();
    assert_eq!(error.message(), "disk error: open");
    assert!(!session.shared.initialized);
}

#[test]
fn records_carry_the_snapshot() {
    let (record, sum) = commit_record(&existing(), vec![1, 2, 2]);
    assert_eq!((record.pieces, sum), (vec![1, 2, 2], 5));
    assert_eq!(record.identity.as_deref(), Some("sha256:ab"));
}
