//! One download from the first probe to the removal of the control file.
//!
//! [`Session`] decides; the host performs each [`SessionAction`] and reports
//! back through the matching method.

use vstd::prelude::*;

use super::backoff::{backoff, base_wait};
use super::control::{all_full, count_of, sum_pieces, total, ControlFile};
use super::error::DownloadError;
use super::probe::{
    confirmed_probe, is_fresh, probe_again, reconcile, resumable, second_wins, ProbeResult,
    PROBE_ATTEMPTS,
};
use super::progress::{Phase, Shared};
use super::stream::{clear_pieces, contiguous, restart_is_contiguous, StreamEnd};
use super::types::{DownloadOptions, DownloadRequest, Outcome, MILLISECOND};
use crate::host::IoFailure;
use crate::text::concat::option_view;

verus! {

/// Whether a download has to run at all.
#[derive(Debug)]
pub enum StartPlan {
    /// The options or the target rule the download out.
    Refuse(DownloadError),
    /// The target is already complete.
    AlreadyComplete,
    /// Run, continuing from the control file if there is one.
    Run(Option<ControlFile>),
}

/// What the options and the look at the disk say about a start.
pub enum StartVerdict {
    Invalid(Seq<char>),
    AlreadyComplete,
    Conflict,
    Run,
}

/// How a download starts: bad options rule it out, and so does a target that
/// has the wrong length and no control file.
pub open spec fn start_verdict(
    request: DownloadRequest,
    options: DownloadOptions,
    control_exists: bool,
    target_len: Option<u64>,
) -> StartVerdict {
    match options.validation() {
        Err(text) => StartVerdict::Invalid(text),
        Ok(_) => if !control_exists && target_len is Some {
            if target_len == Some(request.expected_size) {
                StartVerdict::AlreadyComplete
            } else {
                StartVerdict::Conflict
            }
        } else {
            StartVerdict::Run
        },
    }
}

/// A target without a control file is taken as it is: with the wanted length
/// it is complete, and with any other it is left alone.
pub proof fn target_without_record_is_final(
    request: DownloadRequest,
    options: DownloadOptions,
    len: u64,
)
    requires
        options.usable(),
    ensures
        start_verdict(request, options, false, Some(len)) == if len == request.expected_size {
            StartVerdict::AlreadyComplete
        } else {
            StartVerdict::Conflict
        },
{
}

/// Decides how a download starts.
///
/// A target without a control file is either finished or not ours to touch. A
/// damaged control file still means that a download was under way: it starts
/// over. `target_len` is the length of the target, if it can be seen.
pub fn plan_download(
    request: &DownloadRequest,
    options: &DownloadOptions,
    control_exists: bool,
    loaded: Result<Option<ControlFile>, IoFailure>,
    target_len: Option<u64>,
) -> (plan: StartPlan)
    ensures
        match start_verdict(*request, *options, control_exists, target_len) {
            StartVerdict::Invalid(text) => plan matches StartPlan::Refuse(
                DownloadError::InvalidConfig(found),
            ) && found@ == text,
            StartVerdict::AlreadyComplete => plan == StartPlan::AlreadyComplete,
            StartVerdict::Conflict => plan matches StartPlan::Refuse(
                DownloadError::TargetConflict(path),
            ) && path@ == request.target@,
            StartVerdict::Run => plan == StartPlan::Run(
                match loaded {
                    Ok(existing) => existing,
                    Err(_) => None,
                },
            ),
        },
{
    if let Err(error) = options.validate() {
        return StartPlan::Refuse(error);
    }
    if !control_exists {
        if let Some(len) = target_len {
            if len == request.expected_size {
                return StartPlan::AlreadyComplete;
            }
            return StartPlan::Refuse(DownloadError::TargetConflict(request.target.clone()));
        }
    }
    match loaded {
        Ok(existing) => StartPlan::Run(existing),
        Err(_) => StartPlan::Run(None),
    }
}

/// Where a session stands: what it waits for, or how it ended.
#[derive(Clone, Copy, Debug, PartialEq, Eq, Structural)]
pub enum Stage {
    Probing,
    ProbeWait,
    ConfirmWait,
    Confirming,
    Inspecting,
    Saving,
    Opening,
    Segmented,
    SingleStream,
    Stopping,
    Syncing,
    Recording,
    Flushing,
    Removing,
    Completed,
    Cancelled,
    Failed,
}

/// The changes of stage that a session makes.
pub open spec fn edge(from: Stage, to: Stage) -> bool {
    match from {
        Stage::Probing => to == Stage::ProbeWait || to == Stage::ConfirmWait || to
            == Stage::Inspecting || to == Stage::Cancelled || to == Stage::Failed,
        Stage::ProbeWait => to == Stage::Probing || to == Stage::Cancelled,
        Stage::ConfirmWait => to == Stage::Confirming || to == Stage::Cancelled,
        Stage::Confirming => to == Stage::Inspecting || to == Stage::Cancelled || to
            == Stage::Failed,
        Stage::Inspecting => to == Stage::Saving,
        Stage::Saving => to == Stage::Opening || to == Stage::Failed,
        Stage::Opening => to == Stage::Flushing || to == Stage::Segmented || to
            == Stage::SingleStream || to == Stage::Failed,
        Stage::Segmented => to == Stage::Stopping,
        Stage::SingleStream => to == Stage::Segmented || to == Stage::Stopping,
        Stage::Stopping => to == Stage::Syncing,
        Stage::Syncing => to == Stage::Recording || to == Stage::Failed,
        Stage::Recording => to == Stage::Flushing || to == Stage::Cancelled || to
            == Stage::Failed,
        Stage::Flushing => to == Stage::Removing || to == Stage::Failed,
        Stage::Removing => to == Stage::Completed || to == Stage::Failed,
        Stage::Completed => false,
        Stage::Cancelled => false,
        Stage::Failed => false,
    }
}

/// A history of stages from the first probe on.
pub open spec fn history(stages: Seq<Stage>) -> bool {
    &&& stages.len() > 0
    &&& stages[0] == Stage::Probing
    &&& forall|i: int|
        0 < i < stages.len() ==> edge(#[trigger] stages[i - 1], stages[i])
}

/// A session completes only by removing the control file, and removes it only
/// after the target was flushed.
pub proof fn completed_means_flushed_and_removed(stages: Seq<Stage>)
    requires
        history(stages),
        stages.last() == Stage::Completed,
    ensures
        stages.len() >= 3,
        stages[stages.len() - 2] == Stage::Removing,
        stages[stages.len() - 3] == Stage::Flushing,
{
    let n = stages.len() as int;
    assert(n >= 2);
    assert(edge(stages[(n - 1) - 1], stages[n - 1]));
    assert(n >= 3);
    assert(edge(stages[(n - 2) - 1], stages[n - 2]));
}

/// The target is opened, and so created or resized, only after the control
/// file was saved.
pub proof fn control_file_precedes_target(stages: Seq<Stage>, at: int)
    requires
        history(stages),
        0 <= at < stages.len(),
        stages[at] == Stage::Opening,
    ensures
        at >= 1,
        stages[at - 1] == Stage::Saving,
{
    assert(at >= 1);
    assert(edge(stages[at - 1], stages[at]));
}

/// A session that was cancelled either never touched the disk or recorded its
/// progress as the last thing it did.
pub proof fn cancelled_means_untouched_or_recorded(stages: Seq<Stage>)
    requires
        history(stages),
        stages.last() == Stage::Cancelled,
    ensures
        stages.len() >= 2,
        stages[stages.len() - 2] == Stage::Recording || forall|i: int|
            0 <= i < stages.len() - 1 ==> {
                ||| (#[trigger] stages[i]) == Stage::Probing
                ||| stages[i] == Stage::ProbeWait
                ||| stages[i] == Stage::ConfirmWait
                ||| stages[i] == Stage::Confirming
            },
{
    let n = stages.len() as int;
    assert(n >= 2);
    assert(edge(stages[(n - 1) - 1], stages[n - 1]));
    if stages[n - 2] != Stage::Recording {
        only_probing_before(stages, n - 2);
    }
}

proof fn only_probing_before(stages: Seq<Stage>, at: int)
    requires
        history(stages),
        0 <= at < stages.len(),
        stages[at] == Stage::Probing || stages[at] == Stage::ProbeWait || stages[at]
            == Stage::ConfirmWait || stages[at] == Stage::Confirming,
    ensures
        forall|i: int|
            0 <= i <= at ==> {
                ||| (#[trigger] stages[i]) == Stage::Probing
                ||| stages[i] == Stage::ProbeWait
                ||| stages[i] == Stage::ConfirmWait
                ||| stages[i] == Stage::Confirming
            },
    decreases at,
{
    if at > 0 {
        assert(edge(stages[at - 1], stages[at]));
        only_probing_before(stages, at - 1);
    }
}

/// What the host does next.
#[derive(Debug)]
pub enum SessionAction {
    /// Send a probe; cancellation may interrupt it.
    Probe,
    /// Sleep for so many nanoseconds; cancellation may interrupt it.
    Sleep(u64),
    /// Look at the length of the target.
    InspectTarget,
    /// Replace the control file by [`Session::control`].
    SaveControl,
    /// Open the target, creating or resizing it.
    OpenTarget,
    /// Start the periodic commits, and fetch pieces.
    StartSegmented,
    /// Start the periodic commits, and stream.
    StartSingleStream,
    /// Go on with segments.
    SwitchToSegmented,
    /// Let the periodic commits end and take a snapshot of the slots.
    StopCommitter,
    /// Flush the data of the target.
    SyncData,
    /// Flush the target with its metadata.
    SyncAll,
    /// Remove the control file if it exists.
    RemoveControl,
    /// The session is over.
    Finish(Result<Outcome, DownloadError>),
}

/// A control file record with the given slots, and their sum.
pub fn commit_record(template: &ControlFile, snapshot: Vec<u64>) -> (record: (ControlFile, u64))
    requires
        total(snapshot@) <= u64::MAX,
    ensures
        record.0 == (ControlFile { pieces: snapshot, ..*template }),
        record.1 == total(snapshot@),
{
    let sum: u64 = sum_pieces(&snapshot);
    (template.with_pieces(snapshot), sum)
}

/// A record made from slots that only grew since then claims no byte that the
/// slots do not.
pub proof fn record_never_overestimates(
    template: ControlFile,
    snapshot: Vec<u64>,
    later: Seq<u64>,
)
    requires
        template.shaped(),
        snapshot@.len() == template.pieces@.len(),
        later.len() == snapshot@.len(),
        forall|i: int| 0 <= i < later.len() ==> #[trigger] snapshot@[i] <= later[i],
        super::control::within_pieces(template.size as int, template.piece_size as int, later),
    ensures
        super::control::within_pieces(
            template.size as int,
            template.piece_size as int,
            (ControlFile { pieces: snapshot, ..template }).pieces@,
        ),
        total((ControlFile { pieces: snapshot, ..template }).pieces@) <= total(later),
{
    assert forall|i: int| 0 <= i < snapshot@.len() implies #[trigger] snapshot@[i]
        <= super::control::len_of(template.size as int, template.piece_size as int, i) by {
        assert(snapshot@[i] <= later[i]);
        assert(later[i] <= super::control::len_of(
            template.size as int,
            template.piece_size as int,
            i,
        ));
    }
    smaller_sum(snapshot@, later);
}

/// A record of sound progress is accepted when it is read again, and resumed
/// from while the server still shows the same validators.
pub proof fn recorded_progress_is_resumed(template: ControlFile, snapshot: Vec<u64>)
    requires
        template.valid(),
        snapshot@.len() == template.pieces@.len(),
        super::control::within_pieces(
            template.size as int,
            template.piece_size as int,
            snapshot@,
        ),
    ensures
        ({
            let record = ControlFile { pieces: snapshot, ..template };
            &&& record.validation() is Ok
            &&& record.valid()
            &&& resumable(
                record,
                option_view(template.identity),
                option_view(template.etag),
                option_view(template.last_modified),
                template.piece_size,
                template.size,
            )
        }),
{
    let record = ControlFile { pieces: snapshot, ..template };
    super::control::validation_is_validity(record);
}

proof fn smaller_sum(low: Seq<u64>, high: Seq<u64>)
    requires
        low.len() == high.len(),
        forall|i: int| 0 <= i < low.len() ==> #[trigger] low[i] <= high[i],
    ensures
        total(low) <= total(high),
    decreases low.len(),
{
    if low.len() > 0 {
        assert(low[low.len() - 1] <= high[low.len() - 1]);
        assert forall|i: int| 0 <= i < low.drop_last().len() implies #[trigger] low.drop_last()[i]
            <= high.drop_last()[i] by {
            assert(low[i] <= high[i]);
        }
        smaller_sum(low.drop_last(), high.drop_last());
    }
}

/// A download under way.
pub struct Session {
    pub request: DownloadRequest,
    pub options: DownloadOptions,
    pub shared: Shared,
    pub stage: Stage,
    /// Failed probes so far.
    pub attempt: u32,
    /// The control file found at the start.
    pub existing: Option<ControlFile>,
    /// A probe that waits for confirmation.
    pub first: Option<ProbeResult>,
    /// Whether segments can be used.
    pub ranged: bool,
    /// The record to write, or the template of later ones.
    pub control: Option<ControlFile>,
    /// What the final record adds up to.
    pub recorded: u64,
    /// How the transfer ended.
    pub transfer: Option<Result<Outcome, DownloadError>>,
}

/// Wait before a repeated probe.
pub open spec fn probe_wait(attempt: u32, clock_nanos: u32, stall_timeout: u64) -> int {
    let wait = base_wait(attempt) + (clock_nanos % 250) * MILLISECOND;
    if wait > stall_timeout {
        stall_timeout as int
    } else {
        wait
    }
}

/// What counts of recorded progress, given the length of the target: all of
/// it for a target of the right length, else nothing.
pub open spec fn counted_pieces(
    pieces: Seq<u64>,
    target_len: Option<u64>,
    expected_size: u64,
) -> Seq<u64> {
    if target_len == Some(expected_size) {
        pieces
    } else {
        Seq::new(pieces.len(), |i: int| 0u64)
    }
}

/// The slots are those of a target of this size, and all are full.
pub open spec fn every_piece_full(size: u64, piece_size: u64, pieces: Seq<u64>) -> bool {
    &&& pieces.len() == count_of(size as nat, piece_size as nat)
    &&& all_full(size as int, piece_size as int, pieces)
}

/// A session that completed has every piece of the target full: its slots add
/// up to the size that was asked for.
pub proof fn completed_target_is_full(session: Session)
    requires
        session.wf(),
        session.stage == Stage::Completed,
    ensures
        session.full(),
        total(session.control->Some_0.pieces@) == session.request.expected_size,
{
    super::control::progress_never_exceeds_target(
        session.request.expected_size as nat,
        session.options.piece_size as nat,
        session.control->Some_0.pieces@,
    );
}

impl Session {
    pub open spec fn fits(self) -> bool {
        &&& self.options.usable()
        &&& count_of(self.request.expected_size as nat, self.options.piece_size as nat) * 8
            <= isize::MAX
    }

    /// What every stage can rely on.
    pub open spec fn wf(self) -> bool {
        &&& self.fits()
        &&& self.attempt < PROBE_ATTEMPTS
        &&& self.existing matches Some(found) ==> found.valid()
        &&& (self.stage == Stage::ConfirmWait || self.stage == Stage::Confirming) ==> self.first
            is Some
        &&& self.control matches Some(control) ==> control.size == self.request.expected_size
            && control.piece_size == self.options.piece_size && control.version
            == super::control::CONTROL_VERSION
        &&& match self.stage {
            Stage::Inspecting | Stage::Saving | Stage::Opening | Stage::SingleStream =>
                self.control is Some && self.control->Some_0.valid() && (!self.ranged ==> contiguous(
                self.control->Some_0.pieces@,
                0,
                self.request.expected_size as int,
                self.options.piece_size as int,
            )),
            Stage::Segmented => self.control is Some && self.control->Some_0.valid(),
            Stage::Stopping => self.control is Some && self.control->Some_0.shaped()
                && self.transfer is Some,
            Stage::Syncing | Stage::Recording => self.control is Some && self.transfer is Some && (
            self.completes() ==> self.full()),
            Stage::Flushing | Stage::Removing | Stage::Completed => self.full(),
            _ => true,
        }
    }

    /// The transfer ended with everything fetched.
    pub open spec fn completes(self) -> bool {
        self.transfer matches Some(Ok(Outcome::Completed))
    }

    /// The record shows every piece full.
    pub open spec fn full(self) -> bool {
        self.control matches Some(control) && every_piece_full(
            self.request.expected_size,
            self.options.piece_size,
            control.pieces@,
        )
    }

    /// A session about to send its first probe.
    pub fn new(
        request: DownloadRequest,
        options: DownloadOptions,
        existing: Option<ControlFile>,
    ) -> (session: Session)
        requires
            options.usable(),
            count_of(request.expected_size as nat, options.piece_size as nat) * 8 <= isize::MAX,
            existing matches Some(found) ==> found.valid(),
        ensures
            session.wf(),
            session.stage == Stage::Probing,
            session.request == request,
            session.options == options,
            session.existing == existing,
            session.attempt == 0,
            session.shared == ({
                let start = match existing {
                    Some(found) => total(found.pieces@) as u64,
                    None => 0,
                };
                Shared {
                    phase: 0,
                    initialized: false,
                    total: 0,
                    written: start,
                    position: start,
                    committed: start,
                    connections: 0,
                    retries: 0,
                }
            }),
    {
        let mut shared: Shared = Shared::new();
        if let Some(found) = &existing {
            proof {
                super::control::progress_never_exceeds_target(
                    found.size as nat,
                    found.piece_size as nat,
                    found.pieces@,
                );
            }
            let written: u64 = found.written_total();
            shared.start_from(written);
        }
        shared.set_phase(Phase::Probing);
        Session {
            request,
            options,
            shared,
            stage: Stage::Probing,
            attempt: 0,
            existing,
            first: None,
            ranged: false,
            control: None,
            recorded: 0,
            transfer: None,
        }
    }

    /// Cancellation before the transfer: nothing was touched.
    pub fn on_cancel(&mut self) -> (action: SessionAction)
        requires
            old(self).wf(),
            old(self).stage == Stage::Probing || old(self).stage == Stage::ProbeWait || old(
                self,
            ).stage == Stage::ConfirmWait || old(self).stage == Stage::Confirming,
        ensures
            final(self).wf(),
            edge(old(self).stage, final(self).stage),
            *final(self) == (Session {
                stage: Stage::Cancelled,
                shared: (Shared { phase: Phase::Cancelled.number(), ..old(self).shared }),
                ..*old(self)
            }),
            action == SessionAction::Finish(Ok(Outcome::Cancelled)),
    {
        self.stage = Stage::Cancelled;
        self.shared.set_phase(Phase::Cancelled);
        SessionAction::Finish(Ok(Outcome::Cancelled))
    }

    /// Takes a probe's result. A retryable failure is repeated a few times; a
    /// probe that saw no range support is repeated once to make sure.
    pub fn on_probed(&mut self, result: Result<ProbeResult, DownloadError>, clock_nanos: u32) -> (
    action: SessionAction)
        requires
            old(self).wf(),
            old(self).stage == Stage::Probing,
        ensures
            final(self).wf(),
            edge(old(self).stage, final(self).stage),
            match result {
                Err(error) => if error.retryable() && old(self).attempt + 1 < PROBE_ATTEMPTS {
                    &&& *final(self) == (Session {
                        stage: Stage::ProbeWait,
                        attempt: (old(self).attempt + 1) as u32,
                        shared: (Shared {
                            retries: ((old(self).shared.retries + 1) % 0x1_0000_0000) as u32,
                            ..old(self).shared
                        }),
                        ..*old(self)
                    })
                    &&& action matches SessionAction::Sleep(wait) && wait == probe_wait(
                        final(self).attempt,
                        clock_nanos,
                        old(self).options.stall_timeout,
                    )
                } else {
                    &&& *final(self) == (Session { stage: Stage::Failed, ..*old(self) })
                    &&& action == SessionAction::Finish(Err(error))
                },
                Ok(probe) => if probe.range_supported {
                    old(self).settles(probe, *final(self), action)
                } else {
                    &&& *final(self) == (Session {
                        stage: Stage::ConfirmWait,
                        first: Some(probe),
                        ..*old(self)
                    })
                    &&& action == SessionAction::Sleep(old(self).options.range_confirm_delay)
                },
            },
    {
        match result {
            Err(error) => {
                if probe_again(&error, self.attempt) {
                    self.attempt = self.attempt + 1;
                    self.shared.count_retry();
                    self.stage = Stage::ProbeWait;
                    let wait: u64 = backoff(self.attempt, clock_nanos);
                    if wait > self.options.stall_timeout {
                        SessionAction::Sleep(self.options.stall_timeout)
                    } else {
                        SessionAction::Sleep(wait)
                    }
                } else {
                    self.stage = Stage::Failed;
                    SessionAction::Finish(Err(error))
                }
            },
            Ok(probe) => {
                if probe.range_supported {
                    self.settle_probe(probe)
                } else {
                    self.first = Some(probe);
                    self.stage = Stage::ConfirmWait;
                    SessionAction::Sleep(self.options.range_confirm_delay)
                }
            },
        }
    }

    /// A wait is over: probe again.
    pub fn on_slept(&mut self) -> (action: SessionAction)
        requires
            old(self).wf(),
            old(self).stage == Stage::ProbeWait || old(self).stage == Stage::ConfirmWait,
        ensures
            final(self).wf(),
            edge(old(self).stage, final(self).stage),
            *final(self) == (Session {
                stage: if old(self).stage == Stage::ProbeWait {
                    Stage::Probing
                } else {
                    Stage::Confirming
                },
                ..*old(self)
            }),
            action == SessionAction::Probe,
    {
        self.stage = match self.stage {
            Stage::ProbeWait => Stage::Probing,
            _ => Stage::Confirming,
        };
        SessionAction::Probe
    }

    /// Takes the confirming probe; its failure is ignored.
    pub fn on_confirmed(&mut self, result: Result<ProbeResult, DownloadError>) -> (action:
        SessionAction)
        requires
            old(self).wf(),
            old(self).stage == Stage::Confirming,
        ensures
            final(self).wf(),
            edge(old(self).stage, final(self).stage),
            ({
                let second = match result {
                    Ok(second) => Some(second),
                    Err(_) => None,
                };
                let first = old(self).first->Some_0;
                old(self).settles(
                    if second_wins(first, second) {
                        second->Some_0
                    } else {
                        first
                    },
                    *final(self),
                    action,
                )
            }),
    {
        let second: Option<ProbeResult> = match result {
            Ok(second) => Some(second),
            Err(_) => None,
        };
        match self.first.take() {
            Some(first) => {
                let probe: ProbeResult = confirmed_probe(first, second);
                self.settle_probe(probe)
            },
            None => self.settle_probe(
                ProbeResult {
                    total: None,
                    range_supported: false,
                    etag: None,
                    last_modified: None,
                },
            ),
        }
    }

    /// What follows from the probe that counts: a wrong size ends the
    /// session; otherwise the size is shown from now on, the control file is
    /// reconciled with the probe, and a server without ranges means starting
    /// from zero.
    pub open spec fn settles(self, probe: ProbeResult, after: Session, action: SessionAction) -> bool {
        let size = self.request.expected_size;
        if probe.total matches Some(actual) && actual != size {
            &&& after == (Session { stage: Stage::Failed, first: after.first, ..self })
            &&& action == SessionAction::Finish(
                Err(DownloadError::SizeMismatch { expected: size, actual: probe.total->Some_0 }),
            )
        } else {
            &&& after == (Session {
                stage: Stage::Inspecting,
                ranged: probe.range_supported,
                control: after.control,
                existing: None,
                first: after.first,
                shared: (Shared { total: size, ..self.shared }),
                ..self
            })
            &&& after.control is Some
            &&& action == SessionAction::InspectTarget
            &&& ({
                let control = after.control->Some_0;
                let keeps = self.existing matches Some(found) && resumable(
                    found,
                    option_view(self.request.identity),
                    option_view(probe.etag),
                    option_view(probe.last_modified),
                    self.options.piece_size,
                    size,
                );
                if keeps {
                    let found = self.existing->Some_0;
                    &&& control.identity == found.identity
                    &&& control.etag == found.etag
                    &&& control.last_modified == found.last_modified
                    &&& if probe.range_supported {
                        control.pieces@ == found.pieces@
                    } else {
                        control.pieces@ == Seq::new(found.pieces@.len(), |i: int| 0u64)
                    }
                } else {
                    is_fresh(control, self.request, probe, self.options.piece_size, size)
                }
            })
        }
    }

    fn settle_probe(&mut self, probe: ProbeResult) -> (action: SessionAction)
        requires
            old(self).fits(),
            old(self).attempt < PROBE_ATTEMPTS,
            old(self).existing matches Some(found) ==> found.valid(),
            old(self).control matches Some(control) ==> control.size == old(
                self,
            ).request.expected_size && control.piece_size == old(self).options.piece_size
                && control.version == super::control::CONTROL_VERSION,
        ensures
            final(self).wf(),
            final(self).stage == Stage::Failed || final(self).stage == Stage::Inspecting,
            old(self).settles(probe, *final(self), action),
    {
        let size: u64 = self.request.expected_size;
        if let Some(actual) = probe.total {
            if actual != size {
                self.stage = Stage::Failed;
                return SessionAction::Finish(
                    Err(DownloadError::SizeMismatch { expected: size, actual }),
                );
            }
        }
        let existing: Option<ControlFile> = self.existing.take();
        let mut control: ControlFile = reconcile(
            existing,
            &self.request,
            &probe,
            self.options.piece_size,
            size,
        );
        if !probe.range_supported {
            let ghost before = control;
            clear_pieces(&mut control.pieces);
            proof {
                cleared_is_valid(before, control);
                assert(Seq::new(before.pieces@.len(), |i: int| 0u64) =~= control.pieces@);
                restart_is_contiguous(before.pieces@.len(), size, self.options.piece_size);
            }
        }
        self.shared.set_total(size);
        self.ranged = probe.range_supported;
        self.control = Some(control);
        self.stage = Stage::Inspecting;
        SessionAction::InspectTarget
    }

    /// Takes the length of the target, if it can be seen. Progress counts
    /// only for a target of the right length.
    pub fn on_target(&mut self, target_len: Option<u64>) -> (action: SessionAction)
        requires
            old(self).wf(),
            old(self).stage == Stage::Inspecting,
        ensures
            final(self).wf(),
            edge(old(self).stage, final(self).stage),
            *final(self) == (Session {
                stage: Stage::Saving,
                control: final(self).control,
                ..*old(self)
            }),
            action == SessionAction::SaveControl,
            ({
                let before = old(self).control->Some_0;
                let after = final(self).control->Some_0;
                &&& after.identity == before.identity
                &&& after.etag == before.etag
                &&& after.last_modified == before.last_modified
                &&& after.pieces@ == counted_pieces(
                    before.pieces@,
                    target_len,
                    old(self).request.expected_size,
                )
            }),
    {
        let usable: bool = match target_len {
            Some(len) => len == self.request.expected_size,
            None => false,
        };
        if !usable {
            if let Some(mut control) = self.control.take() {
                let ghost before = control;
                clear_pieces(&mut control.pieces);
                proof {
                    cleared_is_valid(before, control);
                    restart_is_contiguous(
                        before.pieces@.len(),
                        self.request.expected_size,
                        self.options.piece_size,
                    );
                }
                self.control = Some(control);
            }
        }
        self.stage = Stage::Saving;
        SessionAction::SaveControl
    }

    /// The control file was written, or not.
    pub fn on_saved(&mut self, result: Result<(), IoFailure>) -> (action: SessionAction)
        requires
            old(self).wf(),
            old(self).stage == Stage::Saving,
        ensures
            final(self).wf(),
            edge(old(self).stage, final(self).stage),
            match result {
                Ok(_) => *final(self) == (Session { stage: Stage::Opening, ..*old(self) })
                    && action == SessionAction::OpenTarget,
                Err(failure) => *final(self) == (Session { stage: Stage::Failed, ..*old(self) })
                    && action == SessionAction::Finish(Err(DownloadError::Disk(failure))),
            },
    {
        match result {
            Ok(_) => {
                self.stage = Stage::Opening;
                SessionAction::OpenTarget
            },
            Err(failure) => {
                self.stage = Stage::Failed;
                SessionAction::Finish(Err(DownloadError::Disk(failure)))
            },
        }
    }

    /// The target was opened, or not. From here on progress can be shown and
    /// stored; a target with nothing missing is finalized at once.
    pub fn on_opened(&mut self, result: Result<(), DownloadError>) -> (action: SessionAction)
        requires
            old(self).wf(),
            old(self).stage == Stage::Opening,
        ensures
            final(self).wf(),
            edge(old(self).stage, final(self).stage),
            *final(self) == (Session {
                stage: final(self).stage,
                shared: final(self).shared,
                ..*old(self)
            }),
            final(self).shared.written >= old(self).shared.written,
            match result {
                Err(error) => {
                    &&& final(self).stage == Stage::Failed
                    &&& final(self).shared == old(self).shared
                    &&& action == SessionAction::Finish(Err(error))
                },
                Ok(_) => {
                    let control = old(self).control->Some_0;
                    let already = total(control.pieces@) as u64;
                    let complete = all_full(
                        control.size as int,
                        control.piece_size as int,
                        control.pieces@,
                    );
                    let phase = if complete {
                        Phase::Finalizing
                    } else if old(self).ranged {
                        Phase::Downloading
                    } else {
                        Phase::SingleStream
                    };
                    &&& final(self).shared == (Shared {
                        committed: already,
                        initialized: true,
                        phase: phase.number(),
                        ..old(self).shared.at(already)
                    })
                    &&& if complete {
                        final(self).stage == Stage::Flushing && action == SessionAction::SyncAll
                    } else if old(self).ranged {
                        final(self).stage == Stage::Segmented && action
                            == SessionAction::StartSegmented
                    } else {
                        final(self).stage == Stage::SingleStream && action
                            == SessionAction::StartSingleStream
                    }
                },
            },
    {
        if let Err(error) = result {
            self.stage = Stage::Failed;
            return SessionAction::Finish(Err(error));
        }
        let mut complete: bool = self.request.expected_size == 0;
        if let Some(control) = &self.control {
            proof {
                super::control::progress_never_exceeds_target(
                    control.size as nat,
                    control.piece_size as nat,
                    control.pieces@,
                );
            }
            let already: u64 = control.written_total();
            self.shared.start_from(already);
            complete = complete || control.is_complete();
        }
        self.shared.mark_initialized();
        if complete {
            self.shared.set_phase(Phase::Finalizing);
            self.stage = Stage::Flushing;
            SessionAction::SyncAll
        } else if self.ranged {
            self.shared.set_phase(Phase::Downloading);
            self.stage = Stage::Segmented;
            SessionAction::StartSegmented
        } else {
            self.shared.set_phase(Phase::SingleStream);
            self.stage = Stage::SingleStream;
            SessionAction::StartSingleStream
        }
    }

    /// The segmented transfer ended.
    pub fn on_segmented(&mut self, outcome: Result<Outcome, DownloadError>) -> (action:
        SessionAction)
        requires
            old(self).wf(),
            old(self).stage == Stage::Segmented,
        ensures
            final(self).wf(),
            edge(old(self).stage, final(self).stage),
            *final(self) == (Session {
                stage: Stage::Stopping,
                transfer: Some(outcome),
                ..*old(self)
            }),
            action == SessionAction::StopCommitter,
    {
        self.transfer = Some(outcome);
        self.stage = Stage::Stopping;
        SessionAction::StopCommitter
    }

    /// The single stream ended, or gives way to segments.
    pub fn on_stream(&mut self, end: Result<StreamEnd, DownloadError>) -> (action: SessionAction)
        requires
            old(self).wf(),
            old(self).stage == Stage::SingleStream,
        ensures
            final(self).wf(),
            edge(old(self).stage, final(self).stage),
            if end == Ok::<StreamEnd, DownloadError>(StreamEnd::Upgraded) {
                &&& *final(self) == (Session {
                    stage: Stage::Segmented,
                    shared: (Shared { phase: Phase::Downloading.number(), ..old(self).shared }),
                    ..*old(self)
                })
                &&& action == SessionAction::SwitchToSegmented
            } else {
                &&& *final(self) == (Session {
                    stage: Stage::Stopping,
                    transfer: Some(
                        match end {
                            Ok(StreamEnd::Completed) => Ok(Outcome::Completed),
                            Ok(_) => Ok(Outcome::Cancelled),
                            Err(error) => Err(error),
                        },
                    ),
                    ..*old(self)
                })
                &&& action == SessionAction::StopCommitter
            },
    {
        match end {
            Ok(StreamEnd::Upgraded) => {
                self.shared.set_phase(Phase::Downloading);
                self.stage = Stage::Segmented;
                return SessionAction::SwitchToSegmented;
            },
            Ok(StreamEnd::Completed) => {
                self.transfer = Some(Ok(Outcome::Completed));
            },
            Ok(StreamEnd::Cancelled) => {
                self.transfer = Some(Ok(Outcome::Cancelled));
            },
            Err(error) => {
                self.transfer = Some(Err(error));
            },
        }
        self.stage = Stage::Stopping;
        SessionAction::StopCommitter
    }

    /// The periodic commits have ended; `snapshot` holds the slots. The final
    /// commit flushes the data before it writes the record. A transfer that
    /// completed has left every slot full.
    pub fn on_stopped(&mut self, snapshot: Vec<u64>) -> (action: SessionAction)
        requires
            old(self).wf(),
            old(self).stage == Stage::Stopping,
            total(snapshot@) <= u64::MAX,
            old(self).completes() ==> every_piece_full(
                old(self).request.expected_size,
                old(self).options.piece_size,
                snapshot@,
            ),
        ensures
            final(self).wf(),
            edge(old(self).stage, final(self).stage),
            *final(self) == (Session {
                stage: Stage::Syncing,
                control: Some((ControlFile { pieces: snapshot, ..old(self).control->Some_0 })),
                recorded: total(snapshot@) as u64,
                ..*old(self)
            }),
            action == SessionAction::SyncData,
    {
        if let Some(template) = &self.control {
            let (record, sum) = commit_record(template, snapshot);
            self.control = Some(record);
            self.recorded = sum;
        }
        self.stage = Stage::Syncing;
        SessionAction::SyncData
    }

    /// How the session ends if the final commit did not work: the error of
    /// the transfer wins over the one of the commit.
    pub open spec fn fails_with(self, commit: DownloadError) -> DownloadError {
        match self.transfer {
            Some(Err(error)) => error,
            _ => commit,
        }
    }

    fn commit_failed(&mut self, commit: DownloadError) -> (action: SessionAction)
        requires
            old(self).wf(),
        ensures
            final(self).wf(),
            *final(self) == (Session { stage: Stage::Failed, transfer: None, ..*old(self) }),
            action == SessionAction::Finish(Err(old(self).fails_with(commit))),
    {
        self.stage = Stage::Failed;
        match self.transfer.take() {
            Some(Err(error)) => SessionAction::Finish(Err(error)),
            _ => SessionAction::Finish(Err(commit)),
        }
    }

    /// The data was flushed, or not.
    pub fn on_synced(&mut self, result: Result<(), DownloadError>) -> (action: SessionAction)
        requires
            old(self).wf(),
            old(self).stage == Stage::Syncing,
        ensures
            final(self).wf(),
            edge(old(self).stage, final(self).stage),
            match result {
                Ok(_) => *final(self) == (Session { stage: Stage::Recording, ..*old(self) })
                    && action == SessionAction::SaveControl,
                Err(error) => *final(self) == (Session {
                    stage: Stage::Failed,
                    transfer: None,
                    ..*old(self)
                }) && action == SessionAction::Finish(Err(old(self).fails_with(error))),
            },
    {
        match result {
            Ok(_) => {
                self.stage = Stage::Recording;
                SessionAction::SaveControl
            },
            Err(error) => self.commit_failed(error),
        }
    }

    /// The final record was written, or not.
    pub fn on_recorded(&mut self, result: Result<(), DownloadError>) -> (action: SessionAction)
        requires
            old(self).wf(),
            old(self).stage == Stage::Recording,
        ensures
            final(self).wf(),
            edge(old(self).stage, final(self).stage),
            *final(self) == (Session {
                stage: final(self).stage,
                shared: final(self).shared,
                transfer: None,
                ..*old(self)
            }),
            match result {
                Err(error) => {
                    &&& final(self).stage == Stage::Failed
                    &&& final(self).shared == old(self).shared
                    &&& action == SessionAction::Finish(Err(old(self).fails_with(error)))
                },
                Ok(_) => match old(self).transfer->Some_0 {
                    Ok(Outcome::Completed) => {
                        &&& final(self).stage == Stage::Flushing
                        &&& action == SessionAction::SyncAll
                        &&& final(self).shared == (Shared {
                            committed: old(self).recorded,
                            phase: Phase::Finalizing.number(),
                            ..old(self).shared
                        })
                    },
                    Ok(Outcome::Cancelled) => {
                        &&& final(self).stage == Stage::Cancelled
                        &&& action == SessionAction::Finish(Ok(Outcome::Cancelled))
                        &&& final(self).shared == (Shared {
                            committed: old(self).recorded,
                            phase: Phase::Cancelled.number(),
                            ..old(self).shared
                        })
                    },
                    Err(error) => {
                        &&& final(self).stage == Stage::Failed
                        &&& action == SessionAction::Finish(Err(error))
                        &&& final(self).shared == (Shared {
                            committed: old(self).recorded,
                            ..old(self).shared
                        })
                    },
                },
            },
    {
        if let Err(error) = result {
            return self.commit_failed(error);
        }
        self.shared.set_committed(self.recorded);
        match self.transfer.take() {
            Some(Ok(Outcome::Completed)) => {
                self.shared.set_phase(Phase::Finalizing);
                self.stage = Stage::Flushing;
                SessionAction::SyncAll
            },
            Some(Err(error)) => {
                self.stage = Stage::Failed;
                SessionAction::Finish(Err(error))
            },
            _ => {
                self.shared.set_phase(Phase::Cancelled);
                self.stage = Stage::Cancelled;
                SessionAction::Finish(Ok(Outcome::Cancelled))
            },
        }
    }

    /// The finished target was flushed, or not.
    pub fn on_flushed(&mut self, result: Result<(), DownloadError>) -> (action: SessionAction)
        requires
            old(self).wf(),
            old(self).stage == Stage::Flushing,
        ensures
            final(self).wf(),
            edge(old(self).stage, final(self).stage),
            match result {
                Ok(_) => *final(self) == (Session { stage: Stage::Removing, ..*old(self) })
                    && action == SessionAction::RemoveControl,
                Err(error) => *final(self) == (Session { stage: Stage::Failed, ..*old(self) })
                    && action == SessionAction::Finish(Err(error)),
            },
    {
        match result {
            Ok(_) => {
                self.stage = Stage::Removing;
                SessionAction::RemoveControl
            },
            Err(error) => {
                self.stage = Stage::Failed;
                SessionAction::Finish(Err(error))
            },
        }
    }

    /// The control file was removed, or not.
    pub fn on_removed(&mut self, result: Result<(), IoFailure>) -> (action: SessionAction)
        requires
            old(self).wf(),
            old(self).stage == Stage::Removing,
        ensures
            final(self).wf(),
            edge(old(self).stage, final(self).stage),
            match result {
                Ok(_) => {
                    &&& *final(self) == (Session {
                        stage: Stage::Completed,
                        shared: (Shared { phase: Phase::Done.number(), ..old(self).shared }),
                        ..*old(self)
                    })
                    &&& every_piece_full(
                        old(self).request.expected_size,
                        old(self).options.piece_size,
                        old(self).control->Some_0.pieces@,
                    )
                    &&& action == SessionAction::Finish(Ok(Outcome::Completed))
                },
                Err(failure) => {
                    &&& *final(self) == (Session { stage: Stage::Failed, ..*old(self) })
                    &&& action == SessionAction::Finish(Err(DownloadError::Disk(failure)))
                },
            },
    {
        match result {
            Ok(_) => {
                self.stage = Stage::Completed;
                self.shared.set_phase(Phase::Done);
                SessionAction::Finish(Ok(Outcome::Completed))
            },
            Err(failure) => {
                self.stage = Stage::Failed;
                SessionAction::Finish(Err(DownloadError::Disk(failure)))
            },
        }
    }
}

proof fn cleared_is_valid(before: ControlFile, after: ControlFile)
    requires
        before.valid(),
        after.version == before.version,
        after.size == before.size,
        after.piece_size == before.piece_size,
        after.pieces@ == Seq::new(before.pieces@.len(), |i: int| 0u64),
    ensures
        after.valid(),
{
    assert forall|i: int| 0 <= i < after.pieces@.len() implies #[trigger] after.pieces@[i]
        <= super::control::len_of(after.size as int, after.piece_size as int, i) by {
        super::control::piece_len_bounds(after.size as nat, after.piece_size as nat, i as nat);
    }
}

/// A start is refused for bad options, and for a target of another length
/// that no control file explains. A target of the wanted length without a
/// control file is complete; in every other case the download runs.
pub proof fn starts_depend_on_record_and_length(
    request: DownloadRequest,
    options: DownloadOptions,
    control_exists: bool,
    target_len: Option<u64>,
)
    ensures
        ({
            let verdict = start_verdict(request, options, control_exists, target_len);
            &&& verdict is Invalid <==> options.piece_size == 0 || options.min_connections == 0
                || options.max_connections < options.min_connections
            &&& verdict is AlreadyComplete ==> !control_exists && target_len == Some(
                request.expected_size,
            )
            &&& verdict is Conflict ==> !control_exists && target_len is Some && target_len
                != Some(request.expected_size)
            &&& verdict is Run ==> control_exists || target_len is None
        }),
{
}

/// Recorded progress counts for a target of exactly the wanted length, and is
/// worth nothing for a missing one or one of another length.
pub proof fn progress_needs_its_target(pieces: Seq<u64>, target_len: Option<u64>, expected_size: u64)
    ensures
        counted_pieces(pieces, target_len, expected_size).len() == pieces.len(),
        target_len matches Some(len) && len == expected_size ==> counted_pieces(
            pieces,
            target_len,
            expected_size,
        ) == pieces,
        target_len is None || target_len->Some_0 != expected_size ==> forall|i: int|
            0 <= i < pieces.len() ==> #[trigger] counted_pieces(
                pieces,
                target_len,
                expected_size,
            )[i] == 0,
{
}

/// A size that the server names and that is not the wanted one ends the
/// session, and no other probe does.
pub proof fn wrong_sizes_end_the_session(
    session: Session,
    probe: ProbeResult,
    after: Session,
    action: SessionAction,
)
    requires
        session.settles(probe, after, action),
    ensures
        probe.total is Some && probe.total->Some_0 != session.request.expected_size
            ==> after.stage == Stage::Failed && (action matches SessionAction::Finish(
            Err(DownloadError::SizeMismatch { expected, actual }),
        ) && expected == session.request.expected_size && actual == probe.total->Some_0),
        probe.total is None || probe.total->Some_0 == session.request.expected_size ==> after.stage
            == Stage::Inspecting && after.ranged == probe.range_supported && action
            == SessionAction::InspectTarget,
{
}

/// A session goes on from recorded progress only if ranges work, size and
/// pieces are the same, and neither the content identity nor, without one on
/// both sides, an ETag or a date has changed. Then it keeps all of it;
/// otherwise every piece starts at zero.
pub proof fn sessions_resume_only_the_same_file(
    session: Session,
    probe: ProbeResult,
    after: Session,
    action: SessionAction,
    found: ControlFile,
)
    requires
        session.wf(),
        session.existing == Some(found),
        session.settles(probe, after, action),
        probe.total is None || probe.total->Some_0 == session.request.expected_size,
    ensures
        ({
            let identity = session.request.identity;
            let same = {
                &&& found.size == session.request.expected_size
                &&& found.piece_size == session.options.piece_size
                &&& if identity is Some && found.identity is Some {
                    identity->Some_0@ == found.identity->Some_0@
                } else {
                    &&& found.etag is Some && probe.etag is Some ==> found.etag->Some_0@
                        == probe.etag->Some_0@
                    &&& found.last_modified is Some && probe.last_modified is Some
                        ==> found.last_modified->Some_0@ == probe.last_modified->Some_0@
                }
            };
            let pieces = after.control->Some_0.pieces@;
            &&& same && probe.range_supported ==> pieces == found.pieces@
            &&& !same || !probe.range_supported ==> forall|i: int|
                0 <= i < pieces.len() ==> #[trigger] pieces[i] == 0
        }),
{
}

/// A repeated probe waits as long as its backoff, but never longer than a
/// connection may stall.
pub proof fn probes_wait_no_longer_than_a_stall(attempt: u32, clock_nanos: u32, stall_timeout: u64)
    ensures
        probe_wait(attempt, clock_nanos, stall_timeout) <= stall_timeout,
        base_wait(attempt) + (clock_nanos % 250) * 1_000_000 <= stall_timeout ==> probe_wait(
            attempt,
            clock_nanos,
            stall_timeout,
        ) == base_wait(attempt) + (clock_nanos % 250) * 1_000_000,
        base_wait(attempt) + (clock_nanos % 250) * 1_000_000 > stall_timeout ==> probe_wait(
            attempt,
            clock_nanos,
            stall_timeout,
        ) == stall_timeout,
{
}

/// A failed transfer is reported as such, also if the last record could not be
/// written; otherwise the failure of the record is.
pub proof fn transfer_failures_come_first(session: Session, commit: DownloadError)
    ensures
        session.transfer matches Some(Err(error)) ==> session.fails_with(commit) == error,
        !(session.transfer matches Some(Err(_))) ==> session.fails_with(commit) == commit,
{
}

} // verus!
