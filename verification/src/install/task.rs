//! One download task: what is asked of the engine, what is stored and shown
//! while it runs, and what its end means for the task.

use vstd::prelude::*;

use super::types::{InstallRequest, TaskControl, TaskFailure};
use crate::download::error::DownloadError;
use crate::download::progress::Progress;
use crate::download::types::{DownloadRequest, Outcome};
use crate::text::chars::same;
use crate::text::concat::{cat2, cat3, cat4};
use crate::text::number::{decimal, decimal_text};

verus! {

/// Connections of all downloads together: three tasks with eight each.
pub const GLOBAL_CONNECTION_BUDGET: usize = 24;

/// Time between two progress reports, in nanoseconds.
pub const PROGRESS_REPORT_INTERVAL: u64 = 500_000_000;

/// Scheme and host of a URL, if the text is one.
pub uninterp spec fn url_parts(text: Seq<char>) -> Option<(Seq<char>, Option<Seq<char>>)>;

/// The characters of scheme and host.
pub open spec fn parts_view(parts: Option<(String, Option<String>)>) -> Option<
    (Seq<char>, Option<Seq<char>>),
> {
    match parts {
        Some((scheme, host)) => Some((scheme@, crate::text::concat::option_view(host))),
        None => None,
    }
}

/// Calls `url::Url::parse` and copies the scheme and the host out of the
/// result. Both depend on the text alone.
#[verifier::external_body]
fn parse_url(text: &str) -> (parts: Option<(String, Option<String>)>)
    ensures
        parts_view(parts) == url_parts(text@),
{
    let url = url::Url::parse(text).ok()?;
    Some((url.scheme().to_owned(), url.host_str().map(|host| host.to_owned())))
}

/// Verdict on the parts of a URL: only HTTP and HTTPS with a host will do.
pub open spec fn url_verdict(parts: Option<(Seq<char>, Option<Seq<char>>)>) -> Result<
    (),
    Seq<char>,
> {
    match parts {
        None => Err("下载 URL 无效"@),
        Some((scheme, host)) => if (scheme == "http"@ || scheme == "https"@) && host is Some {
            Ok(())
        } else {
            Err("下载地址仅支持具有主机名的 HTTP/HTTPS URL"@)
        },
    }
}

/// Judges the parts of a URL.
pub fn judge_url(parts: &Option<(String, Option<String>)>) -> (result: Result<(), TaskFailure>)
    ensures
        match url_verdict(parts_view(*parts)) {
            Ok(_) => result is Ok,
            Err(message) => result matches Err(found) && found.says("invalid_url"@, message),
        },
{
    match parts {
        None => Err(TaskFailure::new("invalid_url", "下载 URL 无效")),
        Some((scheme, host)) => {
            let known: bool = same(scheme.as_str(), "http") || same(scheme.as_str(), "https");
            if !known || host.is_none() {
                return Err(
                    TaskFailure::new("invalid_url", "下载地址仅支持具有主机名的 HTTP/HTTPS URL"),
                );
            }
            Ok(())
        },
    }
}

/// The URL has expired at the Unix time `now`.
pub open spec fn expired(request: InstallRequest, now: i64) -> bool {
    request.expires_at matches Some(expires_at) && now >= expires_at
}

/// Rejects a request that cannot be downloaded: an expired URL first, then an
/// unusable one.
pub fn validate_request(request: &InstallRequest, now: i64) -> (result: Result<(), TaskFailure>)
    ensures
        if expired(*request, now) {
            result matches Err(found) && found.says(
                "url_expired"@,
                "下载直链已过期，请重新从资源提供方（"@ + request.provider@ + "）推送任务"@,
            )
        } else {
            match url_verdict(url_parts(request.url@)) {
                Ok(_) => result is Ok,
                Err(message) => result matches Err(found) && found.says("invalid_url"@, message),
            }
        },
{
    if let Some(expires_at) = request.expires_at {
        if now >= expires_at {
            let message: String = cat3(
                "下载直链已过期，请重新从资源提供方（",
                request.provider.as_str(),
                "）推送任务",
            );
            return Err(TaskFailure::new("url_expired", message.as_str()));
        }
    }
    let parts: Option<(String, Option<String>)> = parse_url(request.url.as_str());
    judge_url(&parts)
}

/// The content identity of a request: algorithm and checksum, if both are
/// given.
pub open spec fn identity_text(request: InstallRequest) -> Option<Seq<char>> {
    match (request.checksum_algo, request.checksum) {
        (Some(algorithm), Some(checksum)) => Some(algorithm@ + ":"@ + checksum@),
        _ => None,
    }
}

/// What the engine is asked for.
pub fn engine_request(request: &InstallRequest, partial_path: &str) -> (wanted: DownloadRequest)
    ensures
        wanted.url@ == request.url@,
        wanted.target@ == partial_path@,
        wanted.expected_size == request.size,
        crate::text::concat::option_view(wanted.identity) == identity_text(*request),
{
    let identity: Option<String> = match (&request.checksum_algo, &request.checksum) {
        (Some(algorithm), Some(checksum)) => Some(
            cat3(algorithm.as_str(), ":", checksum.as_str()),
        ),
        _ => None,
    };
    DownloadRequest {
        url: request.url.clone(),
        target: partial_path.to_owned(),
        expected_size: request.size,
        identity,
    }
}

/// Files that an older downloader may have left beside the target.
pub fn legacy_artifacts(partial_path: &str) -> (paths: Vec<String>)
    ensures
        paths@.len() == 2,
        paths@[0]@ == partial_path@ + ".part"@,
        paths@[1]@ == partial_path@ + ".part.lock"@,
{
    vec![cat2(partial_path, ".part"), cat2(partial_path, ".part.lock")]
}

/// An unsigned number read as a signed one of the same width.
pub open spec fn as_signed(value: u64) -> int {
    if value <= i64::MAX {
        value as int
    } else {
        value - 0x1_0000_0000_0000_0000
    }
}

fn to_signed(value: u64) -> (signed: i64)
    ensures
        signed == as_signed(value),
{
    if value <= 0x7fff_ffff_ffff_ffff {
        value as i64
    } else {
        let below: u64 = u64::MAX - value;
        -(below as i64) - 1
    }
}

pub open spec fn at_most(value: u64, high: u64) -> u64 {
    if value > high {
        high
    } else {
        value
    }
}

fn lesser(value: u64, high: u64) -> (low: u64)
    ensures
        low == at_most(value, high),
{
    if value > high {
        high
    } else {
        value
    }
}

/// An unsigned number, capped at the largest signed one.
pub open spec fn capped_signed(value: u64) -> int {
    if value <= i64::MAX {
        value as int
    } else {
        i64::MAX as int
    }
}

fn cap_signed(value: u64) -> (signed: i64)
    ensures
        signed == capped_signed(value),
{
    if value <= 0x7fff_ffff_ffff_ffff {
        value as i64
    } else {
        i64::MAX
    }
}

/// Bytes to store for a cancelled task. Before the engine is set up its
/// counters do not describe this download, so the stored value stays.
pub fn cancelled_progress_watermark(progress: Progress, previous_committed: u64, size: u64) -> (
bytes: u64)
    ensures
        bytes == at_most(
            if progress.initialized {
                progress.committed
            } else {
                previous_committed
            },
            size,
        ),
{
    if progress.initialized {
        lesser(progress.committed, size)
    } else {
        lesser(previous_committed, size)
    }
}

/// A progress report: what to store, if anything, and what to show.
#[derive(Clone, Copy, Debug, PartialEq, Eq, Structural)]
pub struct Report {
    /// Store these bytes as progress before showing the report.
    pub store: Option<i64>,
    pub committed: i64,
    pub total: i64,
    pub received: i64,
}

/// What the host does when the engine has ended.
#[derive(Debug)]
pub enum TaskEnd {
    /// Store and show the full size; then the task is done.
    Done { total: i64 },
    /// Store the report's bytes if it says so, show it, then fail.
    Stopped { report: Report, failure: TaskFailure },
    /// Fail.
    Failed(TaskFailure),
}

/// A task whose engine runs.
pub struct DownloadTask {
    pub size: u64,
    pub provider: String,
    /// The progress last stored.
    pub last_persisted: u64,
    /// The last request other than to go on.
    pub requested: TaskControl,
    /// A report could not be stored; the engine is being stopped.
    pub persist_failure: Option<TaskFailure>,
}

/// `result` tells whether a task may start.
pub open spec fn startable(requested: TaskControl, result: Result<(), TaskFailure>) -> bool {
    match requested {
        TaskControl::Running => result is Ok,
        TaskControl::Pause => result matches Err(failure) && failure.says(
            "paused"@,
            "任务已暂停"@,
        ),
        TaskControl::Cancel => result matches Err(failure) && failure.says(
            "cancelled"@,
            "任务已取消"@,
        ),
    }
}

/// Refuses to start a task that was stopped before.
pub fn check_task_control(requested: TaskControl) -> (result: Result<(), TaskFailure>)
    ensures
        startable(requested, result),
{
    match requested {
        TaskControl::Running => Ok(()),
        TaskControl::Pause => Err(TaskFailure::new("paused", "任务已暂停")),
        TaskControl::Cancel => Err(TaskFailure::new("cancelled", "任务已取消")),
    }
}

impl DownloadTask {
    /// A task that resumes from the stored progress; a negative one counts as
    /// none.
    pub fn new(request: &InstallRequest, progress_current: i64) -> (task: DownloadTask)
        ensures
            task.size == request.size,
            task.provider@ == request.provider@,
            task.last_persisted == if progress_current < 0 {
                0
            } else {
                progress_current as int
            },
            task.requested == TaskControl::Running,
            task.persist_failure is None,
    {
        DownloadTask {
            size: request.size,
            provider: request.provider.clone(),
            last_persisted: if progress_current < 0 {
                0
            } else {
                progress_current as u64
            },
            requested: TaskControl::Running,
            persist_failure: None,
        }
    }

    /// A request came in, or the source of requests is gone, which cancels.
    pub open spec fn controlled(
        self,
        after: DownloadTask,
        change: Option<TaskControl>,
        cancel: bool,
    ) -> bool {
        let wanted = match change {
            Some(wanted) => wanted,
            None => TaskControl::Cancel,
        };
        &&& cancel == (wanted != TaskControl::Running)
        &&& after == if cancel {
            (DownloadTask { requested: wanted, ..self })
        } else {
            self
        }
    }

    /// The control channel changed; a closed one means cancel. The result
    /// tells whether to cancel the engine.
    pub fn on_control(&mut self, change: Option<TaskControl>) -> (cancel: bool)
        ensures
            old(self).controlled(*final(self), change, cancel),
    {
        let wanted: TaskControl = match change {
            Some(wanted) => wanted,
            None => TaskControl::Cancel,
        };
        match wanted {
            TaskControl::Running => false,
            _ => {
                self.requested = wanted;
                true
            },
        }
    }

    /// The report that a snapshot calls for: none before the engine is set
    /// up; progress is stored only where it changed.
    pub open spec fn report_of(self, progress: Progress) -> Option<Report> {
        if !progress.initialized {
            None
        } else {
            let committed = at_most(progress.committed, self.size);
            Some(
                Report {
                    store: if committed != self.last_persisted {
                        Some(as_signed(committed) as i64)
                    } else {
                        None
                    },
                    committed: as_signed(committed) as i64,
                    total: as_signed(self.size) as i64,
                    received: capped_signed(at_most(progress.written, self.size)) as i64,
                },
            )
        }
    }

    /// A reporting interval has passed.
    pub fn on_tick(&self, progress: Progress) -> (report: Option<Report>)
        ensures
            report == self.report_of(progress),
    {
        if !progress.initialized {
            return None;
        }
        let committed: u64 = lesser(progress.committed, self.size);
        Some(
            Report {
                store: if committed != self.last_persisted {
                    Some(to_signed(committed))
                } else {
                    None
                },
                committed: to_signed(committed),
                total: to_signed(self.size),
                received: cap_signed(lesser(progress.written, self.size)),
            },
        )
    }

    /// A report was stored, or not. The result tells whether to cancel the
    /// engine: it is stopped in an orderly way before the failure is given.
    pub fn on_persisted(&mut self, progress: Progress, result: Result<(), TaskFailure>) -> (cancel:
        bool)
        ensures
            match result {
                Ok(_) => {
                    &&& !cancel
                    &&& *final(self) == (DownloadTask {
                        last_persisted: at_most(progress.committed, old(self).size),
                        ..*old(self)
                    })
                },
                Err(failure) => {
                    &&& cancel
                    &&& *final(self) == (DownloadTask {
                        persist_failure: Some(failure),
                        ..*old(self)
                    })
                },
            },
    {
        match result {
            Ok(_) => {
                self.last_persisted = lesser(progress.committed, self.size);
                false
            },
            Err(failure) => {
                self.persist_failure = Some(failure);
                true
            },
        }
    }

    /// The report of a task that was stopped.
    pub open spec fn stop_report(self, progress: Progress) -> Report {
        let committed = at_most(
            if progress.initialized {
                progress.committed
            } else {
                self.last_persisted
            },
            self.size,
        );
        Report {
            store: if progress.initialized {
                Some(as_signed(committed) as i64)
            } else {
                None
            },
            committed: as_signed(committed) as i64,
            total: as_signed(self.size) as i64,
            received: capped_signed(
                if progress.initialized {
                    at_most(progress.written, self.size)
                } else {
                    committed
                },
            ) as i64,
        }
    }

    /// The engine has ended with its last snapshot.
    pub fn on_engine(self, outcome: Result<Outcome, DownloadError>, progress: Progress) -> (end:
        TaskEnd)
        ensures
            match self.persist_failure {
                Some(failure) => end == TaskEnd::Failed(failure),
                None => match outcome {
                    Ok(Outcome::Completed) => end matches TaskEnd::Done { total } && total
                        == as_signed(self.size),
                    Ok(Outcome::Cancelled) => {
                        &&& end matches TaskEnd::Stopped { report, failure } && report
                            == self.stop_report(progress) && if self.requested
                            == TaskControl::Pause {
                            failure.says("paused"@, "任务已暂停"@)
                        } else {
                            failure.says("cancelled"@, "任务已取消"@)
                        }
                    },
                    Err(error) => {
                        &&& end matches TaskEnd::Failed(failure) && failure.says(
                            failure_code(error),
                            failure_message(error, self.provider@),
                        )
                    },
                },
            },
    {
        if let Some(failure) = self.persist_failure {
            return TaskEnd::Failed(failure);
        }
        match outcome {
            Ok(Outcome::Completed) => TaskEnd::Done { total: to_signed(self.size) },
            Ok(Outcome::Cancelled) => {
                let committed: u64 = cancelled_progress_watermark(
                    progress,
                    self.last_persisted,
                    self.size,
                );
                let received: u64 = if progress.initialized {
                    lesser(progress.written, self.size)
                } else {
                    committed
                };
                let report: Report = Report {
                    store: if progress.initialized {
                        Some(to_signed(committed))
                    } else {
                        None
                    },
                    committed: to_signed(committed),
                    total: to_signed(self.size),
                    received: cap_signed(received),
                };
                let failure: TaskFailure = match self.requested {
                    TaskControl::Pause => TaskFailure::new("paused", "任务已暂停"),
                    _ => TaskFailure::new("cancelled", "任务已取消"),
                };
                TaskEnd::Stopped { report, failure }
            },
            Err(error) => TaskEnd::Failed(map_download_error(&error, self.provider.as_str())),
        }
    }
}

/// A task stopped before the engine was set up keeps its stored progress.
pub proof fn early_stop_keeps_stored_progress(task: DownloadTask, progress: Progress)
    requires
        !progress.initialized,
    ensures
        task.stop_report(progress).store is None,
        task.report_of(progress) is None,
        task.last_persisted <= task.size ==> task.stop_report(progress).committed == as_signed(
            task.last_persisted,
        ) as i64,
{
}

/// Stable code of a failed download.
pub open spec fn failure_code(error: DownloadError) -> Seq<char> {
    match error.status() {
        Some(status) if status == 401 => "download_authorization_failed"@,
        Some(status) if status == 403 => "download_request_forbidden"@,
        Some(status) if status == 429 => "download_rate_limited"@,
        Some(status) if 502 <= status <= 504 => "download_server_unavailable"@,
        _ => match error {
            DownloadError::SizeMismatch { .. } => "size_mismatch"@,
            DownloadError::TargetConflict(_) => "download_target_conflict"@,
            DownloadError::Disk(_) => "task_file_failed"@,
            DownloadError::InvalidConfig(_) => "invalid_payload"@,
            _ => "download_failed"@,
        },
    }
}

/// Message of a failed download.
pub open spec fn failure_message(error: DownloadError, provider: Seq<char>) -> Seq<char> {
    match error.status() {
        Some(status) if status == 401 => "下载授权已失效，请重新从资源提供方（"@ + provider
            + "）推送任务"@,
        Some(status) if status == 403 => "下载请求被服务器拒绝"@,
        Some(status) if status == 429 => "下载请求受到服务器限流，请稍后重试"@,
        Some(status) if 502 <= status <= 504 => "下载服务器暂时不可用，请稍后重试"@,
        _ => match error {
            DownloadError::SizeMismatch { expected, actual } =>
                "服务器文件大小与请求不一致：期望 "@ + decimal(expected as nat) + "，实际 "@ + decimal(
                actual as nat,
            ),
            DownloadError::TargetConflict(path) =>
                "下载目标位置已有无法识别的文件，请清理后重试: "@ + path@,
            DownloadError::Disk(failure) => failure.text@,
            DownloadError::InvalidConfig(detail) => detail@,
            other => other.text(),
        },
    }
}

/// What a failed download means for the task. Statuses that users can act on
/// are named, also behind exhausted retries.
pub fn map_download_error(error: &DownloadError, provider: &str) -> (failure: TaskFailure)
    ensures
        failure.says(failure_code(*error), failure_message(*error, provider@)),
{
    if let Some(status) = error.http_status() {
        if status == 401 {
            let message: String = cat3("下载授权已失效，请重新从资源提供方（", provider, "）推送任务");
            return TaskFailure::new("download_authorization_failed", message.as_str());
        }
        if status == 403 {
            return TaskFailure::new("download_request_forbidden", "下载请求被服务器拒绝");
        }
        if status == 429 {
            return TaskFailure::new(
                "download_rate_limited",
                "下载请求受到服务器限流，请稍后重试",
            );
        }
        if 502 <= status && status <= 504 {
            return TaskFailure::new(
                "download_server_unavailable",
                "下载服务器暂时不可用，请稍后重试",
            );
        }
    }
    match error {
        DownloadError::SizeMismatch { expected, actual } => {
            let message: String = cat4(
                "服务器文件大小与请求不一致：期望 ",
                decimal_text(*expected).as_str(),
                "，实际 ",
                decimal_text(*actual).as_str(),
            );
            TaskFailure::new("size_mismatch", message.as_str())
        },
        DownloadError::TargetConflict(path) => {
            let message: String = cat2(
                "下载目标位置已有无法识别的文件，请清理后重试: ",
                path.as_str(),
            );
            TaskFailure::new("download_target_conflict", message.as_str())
        },
        DownloadError::Disk(failure) => TaskFailure::new(
            "task_file_failed",
            failure.text.as_str(),
        ),
        DownloadError::InvalidConfig(detail) => TaskFailure::new(
            "invalid_payload",
            detail.as_str(),
        ),
        other => {
            let message: String = other.message();
            TaskFailure::new("download_failed", message.as_str())
        },
    }
}

/// An address will do exactly if it is a URL with a host, under HTTP or HTTPS.
pub proof fn addresses_are_http_with_a_host(parts: Option<(Seq<char>, Option<Seq<char>>)>)
    ensures
        url_verdict(parts) is Ok <==> (parts matches Some((scheme, host)) && (scheme == "http"@
            || scheme == "https"@) && host is Some),
{
}

/// An address is valid until the instant at which it expires, and for ever if
/// it names none.
pub proof fn addresses_expire_on_time(request: InstallRequest, now: i64)
    ensures
        request.expires_at is None ==> !expired(request, now),
        request.expires_at matches Some(end) ==> (expired(request, now) <==> end <= now),
{
}

/// A download is known by algorithm and checksum if both are given, and only
/// then.
pub proof fn identities_are_checksums(request: InstallRequest)
    ensures
        identity_text(request) is Some <==> request.checksum_algo is Some && request.checksum
            is Some,
        request.checksum_algo is Some && request.checksum is Some ==> identity_text(request)
            == Some(request.checksum_algo->Some_0@ + ":"@ + request.checksum->Some_0@),
{
}

/// Numbers that fit are stored and shown as they are; greater ones wrap in
/// storage and stop at the top on display. Nothing exceeds the size.
pub proof fn counts_are_kept(value: u64, high: u64)
    ensures
        value <= 0x7fff_ffff_ffff_ffff ==> as_signed(value) == value && capped_signed(value) == value,
        value > 0x7fff_ffff_ffff_ffff ==> as_signed(value) == value - 0x1_0000_0000_0000_0000
            && capped_signed(value) == 0x7fff_ffff_ffff_ffff,
        at_most(value, high) <= high,
        at_most(value, high) <= value,
        at_most(value, high) == value || at_most(value, high) == high,
{
}

/// A running task reports once the engine is set up: the bytes that survive a
/// crash, never more than the size, stored where they changed; and the bytes
/// received so far.
pub proof fn reports_show_committed_bytes(task: DownloadTask, progress: Progress)
    requires
        task.size <= 0x7fff_ffff_ffff_ffff,
    ensures
        task.report_of(progress) is Some <==> progress.initialized,
        task.report_of(progress) matches Some(report) ==> {
            let committed = if progress.committed < task.size {
                progress.committed
            } else {
                task.size
            };
            &&& report.committed == committed
            &&& report.total == task.size
            &&& report.received == if progress.written < task.size {
                progress.written
            } else {
                task.size
            }
            &&& committed == task.last_persisted ==> report.store is None
            &&& committed != task.last_persisted ==> report.store == Some(committed as i64)
        },
{
}

/// A stopped task stores what the engine has committed if it was set up; if it
/// was not, the stored progress stays and is shown.
pub proof fn stopped_tasks_keep_committed_bytes(task: DownloadTask, progress: Progress)
    requires
        task.size <= 0x7fff_ffff_ffff_ffff,
    ensures
        ({
            let report = task.stop_report(progress);
            &&& report.total == task.size
            &&& report.committed <= task.size
            &&& progress.initialized ==> report.store == Some(report.committed)
            &&& progress.initialized && progress.committed <= task.size ==> report.committed
                == progress.committed
            &&& progress.initialized && progress.written <= task.size ==> report.received
                == progress.written
            &&& !progress.initialized ==> report.store is None && report.received
                == report.committed
            &&& !progress.initialized && task.last_persisted <= task.size ==> report.committed
                == task.last_persisted
        }),
{
}

/// Statuses that users can act on have codes of their own, also behind
/// exhausted retries; other failures go by their kind.
pub proof fn failures_have_stable_codes(error: DownloadError)
    ensures
        error.status() == Some(401u16) ==> failure_code(error) == "download_authorization_failed"@,
        error.status() == Some(403u16) ==> failure_code(error) == "download_request_forbidden"@,
        error.status() == Some(429u16) ==> failure_code(error) == "download_rate_limited"@,
        error.status() == Some(502u16) || error.status() == Some(503u16) || error.status() == Some(
            504u16,
        ) ==> failure_code(error) == "download_server_unavailable"@,
        error is SizeMismatch ==> failure_code(error) == "size_mismatch"@,
        error is TargetConflict ==> failure_code(error) == "download_target_conflict"@,
        error is Disk ==> failure_code(error) == "task_file_failed"@,
        error is InvalidConfig ==> failure_code(error) == "invalid_payload"@,
        error is Network || error is Protocol || error is RemoteChanged ==> failure_code(error)
            == "download_failed"@,
        error matches DownloadError::Http { status, retryable } && status != 401 && status != 403
            && status != 429 && !(502 <= status <= 504) ==> failure_code(error)
            == "download_failed"@,
{
}

/// All tasks together use at most 24 connections, and report twice a second.
pub proof fn tasks_share_connections()
    ensures
        GLOBAL_CONNECTION_BUDGET == 3 * 8,
        2 * PROGRESS_REPORT_INTERVAL == 1_000_000_000,
{
}

/// Any request but to go on stops the engine and is remembered; so does the
/// loss of the channel, as a cancellation.
pub proof fn requests_stop_the_engine(
    task: DownloadTask,
    after: DownloadTask,
    change: Option<TaskControl>,
    cancel: bool,
)
    requires
        task.controlled(after, change, cancel),
    ensures
        cancel <==> change is None || change == Some(TaskControl::Pause) || change == Some(
            TaskControl::Cancel,
        ),
        change is None || change == Some(TaskControl::Cancel) ==> after.requested
            == TaskControl::Cancel,
        change == Some(TaskControl::Pause) ==> after.requested == TaskControl::Pause,
        change == Some(TaskControl::Running) ==> after == task,
        after.last_persisted == task.last_persisted,
{
}

/// Only a task that was neither paused nor cancelled may start; the other two
/// are told apart.
pub proof fn stopped_tasks_do_not_start(requested: TaskControl, result: Result<(), TaskFailure>)
    requires
        startable(requested, result),
    ensures
        result is Ok <==> requested == TaskControl::Running,
        requested == TaskControl::Pause ==> result->Err_0.code@ == "paused"@,
        requested == TaskControl::Cancel ==> result->Err_0.code@ == "cancelled"@,
{
}

/// Failures are worded by status where users can act on it, with the provider
/// to go back to; others by what went wrong.
pub proof fn failures_tell_users_what_to_do(error: DownloadError, provider: Seq<char>)
    ensures
        error.status() == Some(401u16) ==> failure_message(error, provider)
            == "下载授权已失效，请重新从资源提供方（"@ + provider + "）推送任务"@,
        error.status() == Some(403u16) ==> failure_message(error, provider)
            == "下载请求被服务器拒绝"@,
        error.status() == Some(429u16) ==> failure_message(error, provider)
            == "下载请求受到服务器限流，请稍后重试"@,
        error.status() == Some(502u16) || error.status() == Some(503u16) || error.status() == Some(
            504u16,
        ) ==> failure_message(error, provider) == "下载服务器暂时不可用，请稍后重试"@,
        error matches DownloadError::TargetConflict(path) ==> path@.is_suffix_of(
            failure_message(error, provider),
        ),
        error matches DownloadError::Disk(failure) ==> failure_message(error, provider)
            == failure.text@,
        error matches DownloadError::InvalidConfig(detail) ==> failure_message(error, provider)
            == detail@,
        error is Network || error is Protocol || error is RemoteChanged ==> failure_message(
            error,
            provider,
        ) == error.text(),
{
    if let DownloadError::TargetConflict(path) = error {
        let text = failure_message(error, provider);
        assert(path@ =~= text.subrange(text.len() - path@.len(), text.len() as int));
    }
}

} // verus!
